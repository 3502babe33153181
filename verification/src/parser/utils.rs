//! What the parsers share: looking at the next tokens, taking a token, and
//! the checks on what was parsed.
use vstd::prelude::*;
use vstd::slice::slice_subrange;
use vstd::string::StringExecFns;
use crate::error::ParseError;
use crate::error::ParseErrorView;
use crate::parser::expressions::parse_logical_and_expr;
use crate::parser::expressions::parse_equality_expr;
use crate::parser::expressions::parse_relational_expr;
use crate::parser::expressions::parse_additive_expr;
use crate::parser::expressions::parse_multiplicative_expr;
use crate::parser::expressions::parse_unary_expr;
use crate::parser::grammar::binary;
use crate::parser::grammar::binary_rest;
use crate::parser::grammar::block_of;
use crate::parser::grammar::builtin_of;
use crate::parser::grammar::consume;
use crate::parser::grammar::consume_semicolon;
use crate::parser::grammar::identifier_of;
use crate::parser::grammar::is_kind;
use crate::parser::grammar::keyword_of;
use crate::parser::grammar::level_operators;
use crate::parser::grammar::operand;
use crate::parser::grammar::operator_at;
use crate::parser::grammar::unexpected;
use crate::parser::grammar::Parsed;
use crate::parser::Builtin;
use crate::parser::SugaredExpr;
use crate::parser::SugaredExprView;
use crate::parser::SugaredStatement;
use crate::parser::SugaredStatementView;
use crate::tokenizer::tokens_view;
use crate::tokenizer::Keyword;
use crate::tokenizer::Operator;
use crate::tokenizer::Token;
use crate::tokenizer::TokenValue;
use crate::tokenizer::TokenView;

verus! {

/// What the result of a parser of expressions holds.
pub open spec fn expr_parsed(r: Result<(SugaredExpr, &[Token]), ParseError>) -> Parsed<
    SugaredExprView,
> {
    match r {
        Ok((e, rest)) => Ok((e@, tokens_view(rest@))),
        Err(e) => Err(e@),
    }
}

/// What the result of taking a token holds.
pub open spec fn rest_parsed(r: Result<&[Token], ParseError>) -> Result<
    Seq<TokenView>,
    ParseErrorView,
> {
    match r {
        Ok(rest) => Ok(tokens_view(rest@)),
        Err(e) => Err(e@),
    }
}

/// The tokens from an index on.
pub(crate) fn skip(tokens: &[Token], count: usize) -> (r: &[Token])
    requires
        count <= tokens@.len(),
    ensures
        tokens_view(r@) == tokens_view(tokens@).skip(count as int),
        r@.len() == tokens@.len() - count,
{
    let r = slice_subrange(tokens, count, tokens.len());
    proof {
        assert(tokens_view(r@) =~= tokens_view(tokens@).skip(count as int));
    }
    r
}

/// The reserved word at an index, where there is one.
pub fn keyword_at(tokens: &[Token], i: usize) -> (r: Option<Keyword>)
    ensures
        r == keyword_of(tokens_view(tokens@), i as int),
{
    if i < tokens.len() {
        match &tokens[i].0 {
            TokenValue::KW(kw) => Some(*kw),
            _ => None,
        }
    } else {
        None
    }
}

/// The identifier at an index, where there is one.
pub fn identifier_at(tokens: &[Token], i: usize) -> (r: Option<String>)
    ensures
        match r {
            Some(name) => identifier_of(tokens_view(tokens@), i as int) == Some(name@),
            None => identifier_of(tokens_view(tokens@), i as int) is None,
        },
{
    if i < tokens.len() {
        match &tokens[i].0 {
            TokenValue::ID(name) => Some(name.clone()),
            _ => None,
        }
    } else {
        None
    }
}

/// Whether the token at an index is of the given kind.
pub fn kind_at(tokens: &[Token], i: usize, kind: &TokenValue) -> (r: bool)
    ensures
        r == is_kind(tokens_view(tokens@), i as int, kind@),
{
    i < tokens.len() && tokens[i].0.same(kind)
}

/// The failure for tokens that cannot go on: it names the first of them,
/// or says that there is none.
pub fn unexpected_token(tokens: &[Token]) -> (r: ParseError)
    ensures
        r@ == unexpected(tokens_view(tokens@)),
{
    if tokens.len() > 0 {
        ParseError::UnexpectedToken(tokens[0].duplicate())
    } else {
        ParseError::UnexpectedEOF
    }
}

fn is_text(name: &String, text: &str) -> (r: bool)
    ensures
        r == (name@ == text@),
{
    *name == String::from_str(text)
}

/// The builtin that a callee names: only a variable names one.
pub fn check_builtin(expr: &SugaredExpr) -> (r: Option<Builtin>)
    ensures
        r == builtin_of(expr@),
{
    match expr {
        SugaredExpr::Var(name) => {
            if is_text(name, "print") {
                Some(Builtin::Print)
            } else if is_text(name, "list") {
                Some(Builtin::List)
            } else if is_text(name, "is_empty") {
                Some(Builtin::IsEmpty)
            } else if is_text(name, "is_nil") {
                Some(Builtin::IsNil)
            } else if is_text(name, "head") {
                Some(Builtin::Head)
            } else if is_text(name, "rest") {
                Some(Builtin::Rest)
            } else {
                None
            }
        },
        _ => None,
    }
}

/// The tokens after a first token of the given kind.
pub fn consume_token(target: TokenValue, tokens: &[Token]) -> (r: Result<&[Token], ParseError>)
    ensures
        rest_parsed(r) == consume(target@, tokens_view(tokens@)),
        r matches Ok(rest) ==> rest@.len() + 1 == tokens@.len(),
{
    if tokens.len() == 0 {
        Err(ParseError::UnexpectedEOF)
    } else if tokens[0].0.same(&target) {
        Ok(skip(tokens, 1))
    } else {
        Err(ParseError::Expected(target, tokens[0].duplicate()))
    }
}

/// The tokens after a semicolon where one is asked for, else the tokens
/// themselves.
pub fn conditionally_consume_semicolon(tokens: &[Token], should_consume: bool) -> (r: Result<
    &[Token],
    ParseError,
>)
    ensures
        rest_parsed(r) == consume_semicolon(tokens_view(tokens@), should_consume),
        r matches Ok(rest) ==> rest@.len() <= tokens@.len(),
{
    if should_consume {
        consume_token(TokenValue::SEMICOLON, tokens)
    } else {
        Ok(tokens)
    }
}

/// The operator at the head of the tokens where it is one of the given
/// operators, with the tokens after it.
#[verifier::loop_isolation(false)]
pub fn match_operator<'a>(operators: &[Operator], tokens: &'a [Token]) -> (r: Option<
    (Operator, &'a [Token]),
>)
    ensures
        match r {
            Some((op, rest)) => operator_at(operators@, tokens_view(tokens@)) == Some(
                (op, tokens_view(rest@)),
            ) && rest@.len() + 1 == tokens@.len() && tokens_view(rest@) == tokens_view(
                tokens@,
            ).skip(1),
            None => operator_at(operators@, tokens_view(tokens@)) is None,
        },
{
    if tokens.len() == 0 {
        return None;
    }
    match &tokens[0].0 {
        TokenValue::OP(b) => {
            let mut i: usize = 0;
            while i < operators.len()
                invariant
                    i <= operators@.len(),
                    forall|j: int| 0 <= j < i ==> operators@[j] != *b,
                decreases operators@.len() - i,
            {
                if operators[i] == *b {
                    proof {
                        assert(operators@[i as int] == *b);
                        assert(operators@.contains(*b));
                    }
                    return Some((*b, skip(tokens, 1)));
                }
                i += 1;
            }
            None
        },
        _ => None,
    }
}

fn operators_of(level: u8) -> (r: Vec<Operator>)
    ensures
        r@ == level_operators(level as nat),
{
    let mut operators: Vec<Operator> = Vec::new();
    if level == 0 {
        operators.push(Operator::LogicOr);
    } else if level == 1 {
        operators.push(Operator::LogicAnd);
    } else if level == 2 {
        operators.push(Operator::Eq);
        operators.push(Operator::Ne);
    } else if level == 3 {
        operators.push(Operator::LT);
        operators.push(Operator::GT);
        operators.push(Operator::LTE);
        operators.push(Operator::GTE);
    } else if level == 4 {
        operators.push(Operator::Plus);
        operators.push(Operator::Minus);
    } else {
        operators.push(Operator::Times);
        operators.push(Operator::Mod);
        operators.push(Operator::Div);
    }
    proof {
        assert(operators@ =~= level_operators(level as nat));
    }
    operators
}

/// How many levels of binary expressions bind tighter than a level.
pub open spec fn tighter_levels(level: u8) -> nat {
    if level < 5 {
        (5 - level) as nat
    } else {
        0
    }
}

fn parse_operand(level: u8, tokens: &[Token]) -> (r: Result<(SugaredExpr, &[Token]), ParseError>)
    ensures
        expr_parsed(r) == operand(level as nat, tokens_view(tokens@)),
        r matches Ok((_, rest)) ==> rest@.len() < tokens@.len(),
    decreases tokens@.len(), 3 * tighter_levels(level) + 3,
{
    if level == 0 {
        parse_logical_and_expr(tokens)
    } else if level == 1 {
        parse_equality_expr(tokens)
    } else if level == 2 {
        parse_relational_expr(tokens)
    } else if level == 3 {
        parse_additive_expr(tokens)
    } else if level == 4 {
        parse_multiplicative_expr(tokens)
    } else {
        parse_unary_expr(tokens)
    }
}

/// A binary expression of a level, from 0 for `||` to 5 for
/// multiplication: operands of the level with its operators between them,
/// grouped from the left. A level above 5 counts as 5.
pub fn parse_binary_expr(level: u8, tokens: &[Token]) -> (r: Result<
    (SugaredExpr, &[Token]),
    ParseError,
>)
    ensures
        expr_parsed(r) == binary(level as nat, tokens_view(tokens@)),
        r matches Ok((_, rest)) ==> rest@.len() < tokens@.len(),
    decreases tokens@.len(), 3 * tighter_levels(level) + 4,
{
    let operators = operators_of(level);
    let (first, after) = parse_operand(level, tokens)?;
    let mut expr = first;
    let mut rest = after;
    loop
        invariant
            operators@ == level_operators(level as nat),
            rest@.len() < tokens@.len(),
            binary(level as nat, tokens_view(tokens@)) == binary_rest(
                level as nat,
                expr@,
                tokens_view(rest@),
            ),
        decreases rest@.len(),
    {
        match match_operator(operators.as_slice(), rest) {
            Some((op, after)) => {
                let (right, last) = parse_operand(level, after)?;
                expr = binary_expression(op, expr, right);
                rest = last;
            },
            None => {
                return Ok((expr, rest));
            },
        }
    }
}

/// The binary expression of an operator and its two operands.
pub fn binary_expression(op: Operator, first_arg: SugaredExpr, second_arg: SugaredExpr) -> (r:
    SugaredExpr)
    ensures
        r@ == SugaredExprView::Binary(op, Box::new(first_arg@), Box::new(second_arg@)),
{
    SugaredExpr::Binary(op, Box::new(first_arg), Box::new(second_arg))
}

/// The statement where it is a block.
pub fn ensure_block(statement_option: Option<SugaredStatement>) -> (r: Result<
    SugaredStatement,
    ParseError,
>)
    ensures
        match r {
            Ok(block) => block_of(statement_view(statement_option)) == Ok::<_, ParseErrorView>(
                block@,
            ) && block is Block,
            Err(e) => block_of(statement_view(statement_option)) == Err::<
                SugaredStatementView,
                _,
            >(e@),
        },
{
    match statement_option {
        Some(statement) => match statement {
            SugaredStatement::Block(statements) => Ok(SugaredStatement::Block(statements)),
            _ => Err(ParseError::ExpectedBlock),
        },
        None => Err(ParseError::ExpectedBlock),
    }
}

/// What an optional parsed statement holds.
pub open spec fn statement_view(s: Option<SugaredStatement>) -> Option<SugaredStatementView> {
    match s {
        Some(s) => Some(s@),
        None => None,
    }
}

/// Whether a statement assigns: an assignment, a compound assignment, or an
/// increment or decrement.
pub fn is_assignment(statement: &SugaredStatement) -> (r: bool)
    ensures
        r == crate::parser::grammar::is_assignment(statement@),
{
    match statement {
        SugaredStatement::Assign(_, _) => true,
        SugaredStatement::OperatorAssignment(_, _, _) => true,
        SugaredStatement::Expr(expr) => is_step(expr),
        _ => false,
    }
}

fn is_step(expr: &SugaredExpr) -> (r: bool)
    ensures
        r == (expr@ matches SugaredExprView::Unary(op, _) && (op == Operator::PreIncrement || op
            == Operator::PostIncrement || op == Operator::PreDecrement || op
            == Operator::PostDecrement)),
{
    match expr {
        SugaredExpr::Unary(op, _) => match op {
            Operator::PreIncrement
            | Operator::PostIncrement
            | Operator::PreDecrement
            | Operator::PostDecrement => true,
            _ => false,
        },
        _ => false,
    }
}

/// Whether a statement assigns or binds a new name.
pub fn is_assignment_or_initialization(statement: &SugaredStatement) -> (r: bool)
    ensures
        r == crate::parser::grammar::is_assignment_or_initialization(statement@),
{
    match statement {
        SugaredStatement::Let(_, _) => true,
        SugaredStatement::Const(_, _) => true,
        statement => is_assignment(statement),
    }
}

} // verus!
