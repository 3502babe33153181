//! The grammar: what each parser makes of a sequence of tokens.
//!
//! Every function here takes the tokens that are left and gives what it
//! parsed at their head together with the tokens after it, or a failure.
//! Statements are told apart by their first tokens. Binary expressions are
//! parsed level by level, each level taking operands of the next tighter
//! level from left to right; from loosest to tightest the levels are `||`,
//! `&&`, equality, comparison, addition and multiplication, then the unary
//! operators, then calls and indexing, then the primaries.
use vstd::prelude::*;
use crate::desugar::desugared_statement;
use crate::desugar::ProcedureView;
use crate::error::ParseErrorView;
use crate::parser::Builtin;
use crate::parser::ProgramView;
use crate::parser::SugaredExprView;
use crate::parser::SugaredProcedureView;
use crate::parser::SugaredStatementView;
use crate::tokenizer::keyword_text;
use crate::tokenizer::Keyword;
use crate::tokenizer::Operator;
use crate::tokenizer::TokenValueView;
use crate::tokenizer::TokenView;

verus! {

/// What a parser gives: what it parsed, with the tokens that are left.
pub type Parsed<T> = Result<(T, Seq<TokenView>), ParseErrorView>;

/// The kind of the token at an index, where there is one.
pub open spec fn token_kind(ts: Seq<TokenView>, i: int) -> Option<TokenValueView> {
    if 0 <= i < ts.len() {
        Some(ts[i].value)
    } else {
        None
    }
}

/// Whether the token at an index is of the given kind.
pub open spec fn is_kind(ts: Seq<TokenView>, i: int, kind: TokenValueView) -> bool {
    token_kind(ts, i) == Some(kind)
}

/// The reserved word at an index, where there is one.
pub open spec fn keyword_of(ts: Seq<TokenView>, i: int) -> Option<Keyword> {
    match token_kind(ts, i) {
        Some(TokenValueView::KW(kw)) => Some(kw),
        _ => None,
    }
}

/// The identifier at an index, where there is one.
pub open spec fn identifier_of(ts: Seq<TokenView>, i: int) -> Option<Seq<char>> {
    match token_kind(ts, i) {
        Some(TokenValueView::ID(name)) => Some(name),
        _ => None,
    }
}

/// The failure for tokens that cannot go on: it names the first of them,
/// or says that there is none.
pub open spec fn unexpected(ts: Seq<TokenView>) -> ParseErrorView {
    if ts.len() > 0 {
        ParseErrorView::UnexpectedToken(ts[0])
    } else {
        ParseErrorView::UnexpectedEOF
    }
}

/// The tokens after a first token of the given kind.
pub open spec fn consume(target: TokenValueView, ts: Seq<TokenView>) -> Result<
    Seq<TokenView>,
    ParseErrorView,
> {
    if ts.len() == 0 {
        Err(ParseErrorView::UnexpectedEOF)
    } else if ts[0].value == target {
        Ok(ts.skip(1))
    } else {
        Err(ParseErrorView::Expected(target, ts[0]))
    }
}

/// The tokens after a semicolon where one is asked for, else the tokens
/// themselves.
pub open spec fn consume_semicolon(ts: Seq<TokenView>, should_consume: bool) -> Result<
    Seq<TokenView>,
    ParseErrorView,
> {
    if should_consume {
        consume(TokenValueView::SEMICOLON, ts)
    } else {
        Ok(ts)
    }
}

/// The operator at the head of the tokens where it is one of the given
/// operators, with the tokens after it.
pub open spec fn operator_at(operators: Seq<Operator>, ts: Seq<TokenView>) -> Option<
    (Operator, Seq<TokenView>),
> {
    match token_kind(ts, 0) {
        Some(TokenValueView::OP(op)) => if operators.contains(op) {
            Some((op, ts.skip(1)))
        } else {
            None
        },
        _ => None,
    }
}

/// The builtin that a name names.
pub open spec fn builtin_named(name: Seq<char>) -> Option<Builtin> {
    if name == "print"@ {
        Some(Builtin::Print)
    } else if name == "list"@ {
        Some(Builtin::List)
    } else if name == "is_empty"@ {
        Some(Builtin::IsEmpty)
    } else if name == "is_nil"@ {
        Some(Builtin::IsNil)
    } else if name == "head"@ {
        Some(Builtin::Head)
    } else if name == "rest"@ {
        Some(Builtin::Rest)
    } else {
        None
    }
}

/// The builtin that a callee names: only a variable names one.
pub open spec fn builtin_of(callee: SugaredExprView) -> Option<Builtin> {
    match callee {
        SugaredExprView::Var(name) => builtin_named(name),
        _ => None,
    }
}

/// The statement where it is a block.
pub open spec fn block_of(s: Option<SugaredStatementView>) -> Result<
    SugaredStatementView,
    ParseErrorView,
> {
    match s {
        Some(SugaredStatementView::Block(statements)) => Ok(
            SugaredStatementView::Block(statements),
        ),
        _ => Err(ParseErrorView::ExpectedBlock),
    }
}

/// Whether a statement assigns: an assignment, a compound assignment, or an
/// increment or decrement.
pub open spec fn is_assignment(s: SugaredStatementView) -> bool {
    match s {
        SugaredStatementView::Assign(_, _) => true,
        SugaredStatementView::OperatorAssignment(_, _, _) => true,
        SugaredStatementView::Expr(SugaredExprView::Unary(op, _)) => op == Operator::PreIncrement
            || op == Operator::PostIncrement || op == Operator::PreDecrement || op
            == Operator::PostDecrement,
        _ => false,
    }
}

/// Whether a statement assigns or binds a new name.
pub open spec fn is_assignment_or_initialization(s: SugaredStatementView) -> bool {
    match s {
        SugaredStatementView::Let(_, _) => true,
        SugaredStatementView::Const(_, _) => true,
        _ => is_assignment(s),
    }
}

/// A result that left fewer tokens than there were; a parser that took no
/// token has failed. No parser of this grammar ever takes none (see
/// [`progress`](crate::parser::progress)), so this changes no result; it is
/// what shows that parsing ends.
pub open spec fn advancing<T>(r: Parsed<T>, ts: Seq<TokenView>) -> Parsed<T> {
    match r {
        Ok((value, rest)) => if rest.len() < ts.len() {
            r
        } else {
            Err(ParseErrorView::UnexpectedEOF)
        },
        Err(e) => r,
    }
}

/// The names of a parameter list, read from after its opening bracket up to
/// its closing bracket.
pub open spec fn params(ts: Seq<TokenView>) -> Parsed<Seq<Seq<char>>>
    decreases ts.len(),
{
    if is_kind(ts, 0, TokenValueView::RPAREN) {
        Ok((Seq::empty(), ts.skip(1)))
    } else if keyword_of(ts, 0) is Some {
        Err(ParseErrorView::KeywordAsParam(keyword_text(keyword_of(ts, 0)->0)))
    } else if identifier_of(ts, 0) is Some {
        match rest_params(ts.skip(1)) {
            Ok((names, rest)) => Ok((seq![identifier_of(ts, 0)->0] + names, rest)),
            Err(e) => Err(e),
        }
    } else {
        Err(unexpected(ts))
    }
}

/// The names of a parameter list after its first name.
pub open spec fn rest_params(ts: Seq<TokenView>) -> Parsed<Seq<Seq<char>>>
    decreases ts.len(),
{
    if is_kind(ts, 0, TokenValueView::RPAREN) {
        Ok((Seq::empty(), ts.skip(1)))
    } else if is_kind(ts, 0, TokenValueView::COMMA) {
        if is_kind(ts, 1, TokenValueView::RPAREN) {
            Err(unexpected(ts))
        } else {
            params(ts.skip(1))
        }
    } else {
        Err(unexpected(ts))
    }
}

/// The operators of a level of binary expressions, from 0 for `||` to 5 for
/// multiplication.
pub open spec fn level_operators(level: nat) -> Seq<Operator> {
    if level == 0 {
        seq![Operator::LogicOr]
    } else if level == 1 {
        seq![Operator::LogicAnd]
    } else if level == 2 {
        seq![Operator::Eq, Operator::Ne]
    } else if level == 3 {
        seq![Operator::LT, Operator::GT, Operator::LTE, Operator::GTE]
    } else if level == 4 {
        seq![Operator::Plus, Operator::Minus]
    } else {
        seq![Operator::Times, Operator::Mod, Operator::Div]
    }
}

/// The place of a level in the order in which the parsers call each other
/// on the same tokens.
pub open spec fn level_rank(level: nat) -> nat {
    if level < 5 {
        (2 * (5 - level)) as nat
    } else {
        0
    }
}

/// A primary expression: a literal, a variable, a lambda, or an expression
/// in round brackets. An opening bracket starts a lambda where a parameter
/// list and an arrow follow it, else an expression in brackets.
pub open spec fn terminal(ts: Seq<TokenView>) -> Parsed<SugaredExprView>
    decreases ts.len(), 0nat,
{
    match token_kind(ts, 0) {
        Some(TokenValueView::STR(s)) => Ok((SugaredExprView::Str(s), ts.skip(1))),
        Some(TokenValueView::KW(kw)) => if kw == Keyword::True {
            Ok((SugaredExprView::Bool(true), ts.skip(1)))
        } else if kw == Keyword::False {
            Ok((SugaredExprView::Bool(false), ts.skip(1)))
        } else {
            Err(ParseErrorView::KeywordAsVar(keyword_text(kw)))
        },
        Some(TokenValueView::ID(name)) => Ok((SugaredExprView::Var(name), ts.skip(1))),
        Some(TokenValueView::NUM(n)) => Ok((SugaredExprView::Num(n), ts.skip(1))),
        Some(TokenValueView::LPAREN) => {
            if lambda_head(ts.skip(1)) is Some {
                let head = lambda_head(ts.skip(1))->0;
                match statement(head.1, false) {
                    Err(e) => Err(e),
                    Ok((body, rest)) => match block_of(body) {
                        Err(e) => Err(e),
                        Ok(block) => Ok((SugaredExprView::Lambda(head.0, Box::new(block)), rest)),
                    },
                }
            } else {
                match expr(ts.skip(1)) {
                    Err(e) => Err(e),
                    Ok((inner, rest)) => match consume(TokenValueView::RPAREN, rest) {
                        Err(e) => Err(e),
                        Ok(after) => Ok((inner, after)),
                    },
                }
            }
        },
        _ => Err(unexpected(ts)),
    }
}

/// The parameters of a lambda and the tokens after its arrow, where the
/// tokens after an opening bracket are a parameter list and an arrow.
pub open spec fn lambda_head(ts: Seq<TokenView>) -> Option<(Seq<Seq<char>>, Seq<TokenView>)> {
    match advancing(params(ts), ts) {
        Ok((names, rest)) => if is_kind(rest, 0, TokenValueView::THIN_ARROW) {
            Some((names, rest.skip(1)))
        } else {
            None
        },
        Err(_) => None,
    }
}

/// A primary expression followed by any number of argument lists and
/// indexes.
pub open spec fn call(ts: Seq<TokenView>) -> Parsed<SugaredExprView>
    decreases ts.len(), 1nat,
{
    match advancing(terminal(ts), ts) {
        Err(e) => Err(e),
        Ok((callee, rest)) => call_rest(callee, rest),
    }
}

/// The argument lists and indexes that follow an expression. A call of a
/// variable that names a builtin is a call of that builtin.
pub open spec fn call_rest(callee: SugaredExprView, ts: Seq<TokenView>) -> Parsed<SugaredExprView>
    decreases ts.len(), 0nat,
{
    if is_kind(ts, 0, TokenValueView::LPAREN) {
        match advancing(args(ts.skip(1)), ts.skip(1)) {
            Err(e) => Err(e),
            Ok((arguments, rest)) => call_rest(
                match builtin_of(callee) {
                    Some(builtin) => SugaredExprView::PrimitiveCall(builtin, arguments),
                    None => SugaredExprView::Call(Box::new(callee), arguments),
                },
                rest,
            ),
        }
    } else if is_kind(ts, 0, TokenValueView::L_SQUARE_BRACKET) {
        match advancing(expr(ts.skip(1)), ts.skip(1)) {
            Err(e) => Err(e),
            Ok((index, rest)) => match consume(TokenValueView::R_SQUARE_BRACKET, rest) {
                Err(e) => Err(e),
                Ok(after) => call_rest(
                    SugaredExprView::Index(Box::new(callee), Box::new(index)),
                    after,
                ),
            },
        }
    } else {
        Ok((callee, ts))
    }
}

/// The increment or decrement that a token writes before its operand.
pub open spec fn prefix_step(ts: Seq<TokenView>) -> Option<Operator> {
    match token_kind(ts, 0) {
        Some(TokenValueView::DOUBLE_PLUS) => Some(Operator::PreIncrement),
        Some(TokenValueView::DOUBLE_MINUS) => Some(Operator::PreDecrement),
        _ => None,
    }
}

/// The increment or decrement that a token writes after its operand.
pub open spec fn postfix_step(ts: Seq<TokenView>) -> Option<Operator> {
    match token_kind(ts, 0) {
        Some(TokenValueView::DOUBLE_PLUS) => Some(Operator::PostIncrement),
        Some(TokenValueView::DOUBLE_MINUS) => Some(Operator::PostDecrement),
        _ => None,
    }
}

/// A unary expression: `-` or `!` before a unary expression; an increment
/// or decrement before a call expression; or a call expression, after
/// which an increment or decrement belongs to it where it is a variable.
pub open spec fn unary(ts: Seq<TokenView>) -> Parsed<SugaredExprView>
    decreases ts.len(), 2nat,
{
    match operator_at(seq![Operator::Minus, Operator::LogicNot], ts) {
        Some((op, rest)) => match unary(ts.skip(1)) {
            Err(e) => Err(e),
            Ok((operand, after)) => Ok((SugaredExprView::Unary(op, Box::new(operand)), after)),
        },
        None => match prefix_step(ts) {
            Some(op) => match call(ts.skip(1)) {
                Err(e) => Err(e),
                Ok((operand, after)) => Ok(
                    (SugaredExprView::Unary(op, Box::new(operand)), after),
                ),
            },
            None => match call(ts) {
                Err(e) => Err(e),
                Ok((operand, after)) => match postfix_step(after) {
                    Some(op) => if operand is Var {
                        Ok((SugaredExprView::Unary(op, Box::new(operand)), after.skip(1)))
                    } else {
                        Ok((operand, after))
                    },
                    None => Ok((operand, after)),
                },
            },
        },
    }
}

/// An operand of a level: a binary expression of the next tighter level,
/// or a unary expression for the tightest.
pub open spec fn operand(level: nat, ts: Seq<TokenView>) -> Parsed<SugaredExprView>
    decreases ts.len(), 3 + level_rank(level),
{
    if level < 5 {
        binary((level + 1) as nat, ts)
    } else {
        unary(ts)
    }
}

/// A binary expression of a level: operands of the level with its
/// operators between them, grouped from the left.
pub open spec fn binary(level: nat, ts: Seq<TokenView>) -> Parsed<SugaredExprView>
    decreases ts.len(), 4 + level_rank(level),
{
    match advancing(operand(level, ts), ts) {
        Err(e) => Err(e),
        Ok((first, rest)) => binary_rest(level, first, rest),
    }
}

/// What follows the first operands of a binary expression of a level, which
/// make up `left`.
pub open spec fn binary_rest(level: nat, left: SugaredExprView, ts: Seq<TokenView>) -> Parsed<
    SugaredExprView,
>
    decreases ts.len(), 0nat,
{
    match operator_at(level_operators(level), ts) {
        Some((op, _)) => match advancing(operand(level, ts.skip(1)), ts.skip(1)) {
            Err(e) => Err(e),
            Ok((right, rest)) => binary_rest(
                level,
                SugaredExprView::Binary(op, Box::new(left), Box::new(right)),
                rest,
            ),
        },
        None => Ok((left, ts)),
    }
}

/// An expression.
pub open spec fn expr(ts: Seq<TokenView>) -> Parsed<SugaredExprView>
    decreases ts.len(), 15nat,
{
    binary(0, ts)
}

/// The arguments of a call, read from after its opening bracket up to its
/// closing bracket.
pub open spec fn args(ts: Seq<TokenView>) -> Parsed<Seq<SugaredExprView>>
    decreases ts.len(), 16nat,
{
    if is_kind(ts, 0, TokenValueView::RPAREN) {
        Ok((Seq::empty(), ts.skip(1)))
    } else {
        match advancing(expr(ts), ts) {
            Err(e) => Err(e),
            Ok((first, rest)) => match rest_args(rest) {
                Err(e) => Err(e),
                Ok((others, after)) => Ok((seq![first] + others, after)),
            },
        }
    }
}

/// The arguments of a call after its first argument.
pub open spec fn rest_args(ts: Seq<TokenView>) -> Parsed<Seq<SugaredExprView>>
    decreases ts.len(), 0nat,
{
    if is_kind(ts, 0, TokenValueView::RPAREN) {
        Ok((Seq::empty(), ts.skip(1)))
    } else if is_kind(ts, 0, TokenValueView::COMMA) {
        if is_kind(ts, 1, TokenValueView::RPAREN) {
            Err(unexpected(ts))
        } else {
            args(ts.skip(1))
        }
    } else {
        Err(unexpected(ts))
    }
}

/// An expression, and after it a semicolon where one is asked for.
pub open spec fn expr_then_semicolon(ts: Seq<TokenView>, semicolon: bool) -> Parsed<
    SugaredExprView,
>
    decreases ts.len(), 16nat,
{
    match expr(ts) {
        Err(e) => Err(e),
        Ok((e, rest)) => match consume_semicolon(rest, semicolon) {
            Err(e) => Err(e),
            Ok(after) => Ok((e, after)),
        },
    }
}

/// A block after a head that ends with a closing round bracket: the
/// bracket and then a statement that must be a block.
pub open spec fn bracket_then_block(ts: Seq<TokenView>) -> Parsed<SugaredStatementView>
    decreases ts.len(), 18nat,
{
    match consume(TokenValueView::RPAREN, ts) {
        Err(e) => Err(e),
        Ok(after) => match statement(after, true) {
            Err(e) => Err(e),
            Ok((body, rest)) => match block_of(body) {
                Err(e) => Err(e),
                Ok(block) => Ok((block, rest)),
            },
        },
    }
}

/// What follows the first block of an `if`: each `else if` with its
/// condition and its block, and the block of the `else` where there is
/// one.
pub open spec fn else_part(ts: Seq<TokenView>) -> Parsed<
    (Seq<(SugaredExprView, SugaredStatementView)>, Option<SugaredStatementView>),
>
    decreases ts.len(), 0nat,
{
    if keyword_of(ts, 0) == Some(Keyword::Else) {
        if keyword_of(ts, 1) == Some(Keyword::If) && is_kind(ts, 2, TokenValueView::LPAREN) {
            match advancing(expr(ts.skip(3)), ts.skip(3)) {
                Err(e) => Err(e),
                Ok((cond, rest)) => match advancing(bracket_then_block(rest), rest) {
                    Err(e) => Err(e),
                    Ok((block, after)) => match else_part(after) {
                        Err(e) => Err(e),
                        Ok((others, last)) => Ok(
                            ((seq![(cond, block)] + others.0, others.1), last),
                        ),
                    },
                },
            }
        } else {
            match statement(ts.skip(1), true) {
                Err(e) => Err(e),
                Ok((body, rest)) => match block_of(body) {
                    Err(e) => Err(e),
                    Ok(block) => Ok(((Seq::empty(), Some(block)), rest)),
                },
            }
        }
    } else {
        Ok(((Seq::empty(), None), ts))
    }
}

/// The rest of a `for` after its opening bracket: the initialisation with
/// its semicolon, the condition and a semicolon, the step, the closing
/// bracket, and the block.
pub open spec fn for_rest(ts: Seq<TokenView>) -> Parsed<SugaredStatementView>
    decreases ts.len(), 18nat,
{
    match advancing(statement(ts, true), ts) {
        Err(e) => Err(e),
        Ok((None, _)) => Err(ParseErrorView::ExpectedStatement),
        Ok((Some(init), rest)) => if !is_assignment_or_initialization(init) {
            Err(ParseErrorView::ExpectedAssignmentOrInitialization)
        } else {
            match advancing(expr_then_semicolon(rest, true), rest) {
                Err(e) => Err(e),
                Ok((stop, after)) => match advancing(statement(after, false), after) {
                    Err(e) => Err(e),
                    Ok((None, _)) => Err(ParseErrorView::ExpectedStatement),
                    Ok((Some(step), last)) => if !is_assignment(step) {
                        Err(ParseErrorView::ExpectedAssignment)
                    } else {
                        match bracket_then_block(last) {
                            Err(e) => Err(e),
                            Ok((SugaredStatementView::Block(body), end)) => Ok(
                                (
                                    SugaredStatementView::For(
                                        Box::new(init),
                                        stop,
                                        Box::new(step),
                                        body,
                                    ),
                                    end,
                                ),
                            ),
                            Ok(_) => Err(ParseErrorView::ExpectedBlock),
                        }
                    },
                },
            }
        },
    }
}

/// A statement, or nothing where the tokens start with a closing curly
/// bracket, which is taken. `semicolon` says whether a statement that ends
/// with an expression takes a semicolon after it.
pub open spec fn statement(ts: Seq<TokenView>, semicolon: bool) -> Parsed<
    Option<SugaredStatementView>,
>
    decreases ts.len(), 17nat,
{
    let first = keyword_of(ts, 0);
    if is_kind(ts, 0, TokenValueView::RBRACKET) {
        Ok((None, ts.skip(1)))
    } else if (first == Some(Keyword::Let) || first == Some(Keyword::Const)) && keyword_of(ts, 1)
        is Some {
        Err(ParseErrorView::KeywordAsVar(keyword_text(keyword_of(ts, 1)->0)))
    } else if (first == Some(Keyword::Let) || first == Some(Keyword::Const)) && identifier_of(
        ts,
        1,
    ) is Some && is_kind(ts, 2, TokenValueView::ASSIGN) {
        match expr_then_semicolon(ts.skip(3), semicolon) {
            Err(e) => Err(e),
            Ok((e, rest)) => Ok(
                (
                    Some(
                        if first == Some(Keyword::Let) {
                            SugaredStatementView::Let(identifier_of(ts, 1)->0, e)
                        } else {
                            SugaredStatementView::Const(identifier_of(ts, 1)->0, e)
                        },
                    ),
                    rest,
                ),
            ),
        }
    } else if first is Some && is_kind(ts, 1, TokenValueView::ASSIGN) {
        Err(ParseErrorView::KeywordAsVar(keyword_text(first->0)))
    } else if identifier_of(ts, 0) is Some && is_kind(ts, 1, TokenValueView::ASSIGN) {
        match expr_then_semicolon(ts.skip(2), semicolon) {
            Err(e) => Err(e),
            Ok((e, rest)) => Ok(
                (Some(SugaredStatementView::Assign(identifier_of(ts, 0)->0, e)), rest),
            ),
        }
    } else if identifier_of(ts, 0) is Some && token_kind(ts, 1) matches Some(
        TokenValueView::ASSIGN_OP(op),
    ) {
        match expr_then_semicolon(ts.skip(2), semicolon) {
            Err(e) => Err(e),
            Ok((e, rest)) => Ok(
                (
                    Some(
                        SugaredStatementView::OperatorAssignment(
                            token_kind(ts, 1)->0->ASSIGN_OP_0,
                            identifier_of(ts, 0)->0,
                            e,
                        ),
                    ),
                    rest,
                ),
            ),
        }
    } else if first == Some(Keyword::If) && is_kind(ts, 1, TokenValueView::LPAREN) {
        match advancing(expr(ts.skip(2)), ts.skip(2)) {
            Err(e) => Err(e),
            Ok((cond, rest)) => match advancing(bracket_then_block(rest), rest) {
                Err(e) => Err(e),
                Ok((block, after)) => match else_part(after) {
                    Err(e) => Err(e),
                    Ok((others, last)) => Ok(
                        (
                            Some(
                                SugaredStatementView::If(
                                    cond,
                                    Box::new(block),
                                    others.0,
                                    match others.1 {
                                        Some(s) => Some(Box::new(s)),
                                        None => None,
                                    },
                                ),
                            ),
                            last,
                        ),
                    ),
                },
            },
        }
    } else if first == Some(Keyword::While) && is_kind(ts, 1, TokenValueView::LPAREN) {
        match advancing(expr(ts.skip(2)), ts.skip(2)) {
            Err(e) => Err(e),
            Ok((cond, rest)) => match bracket_then_block(rest) {
                Err(e) => Err(e),
                Ok((block, after)) => Ok(
                    (Some(SugaredStatementView::While(cond, Box::new(block))), after),
                ),
            },
        }
    } else if first == Some(Keyword::For) && is_kind(ts, 1, TokenValueView::LPAREN) {
        match for_rest(ts.skip(2)) {
            Err(e) => Err(e),
            Ok((s, rest)) => Ok((Some(s), rest)),
        }
    } else if first == Some(Keyword::Return) {
        if is_kind(ts, 1, TokenValueView::SEMICOLON) {
            Ok((Some(SugaredStatementView::Return(None)), ts.skip(2)))
        } else {
            match expr_then_semicolon(ts.skip(1), true) {
                Err(e) => Err(e),
                Ok((e, rest)) => Ok((Some(SugaredStatementView::Return(Some(e))), rest)),
            }
        }
    } else if first == Some(Keyword::Break) {
        match consume(TokenValueView::SEMICOLON, ts.skip(1)) {
            Err(e) => Err(e),
            Ok(rest) => Ok((Some(SugaredStatementView::Break), rest)),
        }
    } else if first == Some(Keyword::Continue) {
        match consume(TokenValueView::SEMICOLON, ts.skip(1)) {
            Err(e) => Err(e),
            Ok(rest) => Ok((Some(SugaredStatementView::Continue), rest)),
        }
    } else if is_kind(ts, 0, TokenValueView::LBRACKET) {
        match statements(ts.skip(1)) {
            Err(e) => Err(e),
            Ok((inner, rest)) => Ok((Some(SugaredStatementView::Block(inner)), rest)),
        }
    } else {
        match expr_then_semicolon(ts, semicolon) {
            Err(e) => Err(e),
            Ok((e, rest)) => Ok((Some(SugaredStatementView::Expr(e)), rest)),
        }
    }
}

/// The statements of a block, read from after its opening bracket up to its
/// closing bracket.
pub open spec fn statements(ts: Seq<TokenView>) -> Parsed<Seq<SugaredStatementView>>
    decreases ts.len(), 18nat,
{
    match advancing(statement(ts, true), ts) {
        Err(e) => Err(e),
        Ok((None, rest)) => Ok((Seq::empty(), rest)),
        Ok((Some(first), rest)) => match statements(rest) {
            Err(e) => Err(e),
            Ok((others, after)) => Ok((seq![first] + others, after)),
        },
    }
}

/// A top-level procedure, or nothing where the tokens do not start one.
pub open spec fn procedure(ts: Seq<TokenView>) -> Parsed<Option<SugaredProcedureView>> {
    if keyword_of(ts, 0) == Some(Keyword::Proc) && keyword_of(ts, 1) is Some && is_kind(
        ts,
        2,
        TokenValueView::LPAREN,
    ) {
        Err(ParseErrorView::KeywordAsProc(keyword_text(keyword_of(ts, 1)->0)))
    } else if keyword_of(ts, 0) == Some(Keyword::Proc) && identifier_of(ts, 1) is Some && is_kind(
        ts,
        2,
        TokenValueView::LPAREN,
    ) {
        match params(ts.skip(3)) {
            Err(e) => Err(e),
            Ok((names, rest)) => match statement(rest, true) {
                Err(e) => Err(e),
                Ok((body, after)) => match block_of(body) {
                    Err(e) => Err(e),
                    Ok(block) => Ok(
                        (
                            Some(
                                SugaredProcedureView {
                                    name: identifier_of(ts, 1)->0,
                                    params: names,
                                    body: block,
                                },
                            ),
                            after,
                        ),
                    ),
                },
            },
        }
    } else {
        Ok((None, ts))
    }
}

/// Whether one of the procedures has the name.
pub open spec fn has_name(procedures: Seq<SugaredProcedureView>, name: Seq<char>) -> bool {
    exists|i: int| 0 <= i < procedures.len() && #[trigger] procedures[i].name == name
}

/// The top-level procedures at the head of the tokens. No two may have the
/// same name; of several such pairs the one that starts last is reported.
pub open spec fn procedures(ts: Seq<TokenView>) -> Parsed<Seq<SugaredProcedureView>>
    decreases ts.len(),
{
    match procedure(ts) {
        Err(e) => Err(e),
        Ok((None, rest)) => Ok((Seq::empty(), rest)),
        Ok((Some(first), rest)) => if rest.len() < ts.len() {
            match procedures(rest) {
                Err(e) => Err(e),
                Ok((others, after)) => if has_name(others, first.name) {
                    Err(ParseErrorView::MultipleSameNamedProcs(first.name))
                } else {
                    Ok((seq![first] + others, after))
                },
            }
        } else {
            Err(ParseErrorView::UnexpectedEOF)
        },
    }
}

/// The core procedure of a parsed procedure.
pub open spec fn desugared_procedure(p: SugaredProcedureView) -> ProcedureView {
    ProcedureView { name: p.name, params: p.params, body: desugared_statement(p.body) }
}

/// The core procedures of those parsed procedures that are not named
/// `main`, in their order.
pub open spec fn others_than_main(procedures: Seq<SugaredProcedureView>) -> Seq<ProcedureView>
    decreases procedures.len(),
{
    if procedures.len() == 0 {
        Seq::empty()
    } else if procedures.last().name == "main"@ {
        others_than_main(procedures.drop_last())
    } else {
        others_than_main(procedures.drop_last()).push(desugared_procedure(procedures.last()))
    }
}

/// The index of the first procedure named `main`, or the number of
/// procedures if there is none.
pub open spec fn main_index(procedures: Seq<SugaredProcedureView>) -> int
    decreases procedures.len(),
{
    if procedures.len() == 0 {
        0
    } else if procedures[0].name == "main"@ {
        0
    } else {
        1 + main_index(procedures.drop_first())
    }
}

/// The program that a sequence of tokens writes: its top-level procedures
/// and nothing after them, one of them named `main`.
pub open spec fn program(ts: Seq<TokenView>) -> Result<ProgramView, ParseErrorView> {
    match procedures(ts) {
        Err(e) => Err(e),
        Ok((parsed, rest)) => if rest.len() > 0 {
            Err(unexpected(rest))
        } else if main_index(parsed) >= parsed.len() {
            Err(ParseErrorView::NoMain)
        } else {
            Ok(
                ProgramView {
                    procedures: others_than_main(parsed),
                    main: desugared_statement(parsed[main_index(parsed)].body),
                },
            )
        },
    }
}

} // verus!
