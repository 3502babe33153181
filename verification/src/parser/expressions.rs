//! The parsers of expressions.
use vstd::prelude::*;
use crate::error::ParseError;
use crate::parser::grammar::args;
use crate::parser::grammar::binary;
use crate::parser::grammar::call;
use crate::parser::grammar::call_rest;
use crate::parser::grammar::expr;
use crate::parser::grammar::rest_args;
use crate::parser::grammar::terminal;
use crate::parser::grammar::unary;
use crate::parser::grammar::Parsed;
use crate::parser::procedures::parse_params;
use crate::parser::statements::parse_statement;
use crate::parser::sugared_exprs_view;
use crate::parser::utils::check_builtin;
use crate::parser::utils::consume_token;
use crate::parser::utils::ensure_block;
use crate::parser::utils::expr_parsed;
use crate::parser::utils::kind_at;
use crate::parser::utils::match_operator;
use crate::parser::utils::parse_binary_expr;
use crate::parser::utils::skip;
use crate::parser::utils::unexpected_token;
use crate::parser::SugaredExpr;
use crate::parser::SugaredExprView;
use crate::tokenizer::tokens_view;
use crate::tokenizer::Keyword;
use crate::tokenizer::Operator;
use crate::tokenizer::Token;
use crate::tokenizer::TokenValue;

verus! {

/// What the result of a parser of argument lists holds.
pub open spec fn exprs_parsed(r: Result<(Vec<SugaredExpr>, &[Token]), ParseError>) -> Parsed<
    Seq<SugaredExprView>,
> {
    match r {
        Ok((es, rest)) => Ok((sugared_exprs_view(es@), tokens_view(rest@))),
        Err(e) => Err(e@),
    }
}

/// An expression.
pub fn parse_expr(tokens: &[Token]) -> (r: Result<(SugaredExpr, &[Token]), ParseError>)
    ensures
        expr_parsed(r) == expr(tokens_view(tokens@)),
        r matches Ok((_, rest)) ==> rest@.len() < tokens@.len(),
    decreases tokens@.len(), 21nat,
{
    parse_logical_or_expr(tokens)
}

/// An expression of `||`.
pub fn parse_logical_or_expr(tokens: &[Token]) -> (r: Result<(SugaredExpr, &[Token]), ParseError>)
    ensures
        expr_parsed(r) == binary(0, tokens_view(tokens@)),
        r matches Ok((_, rest)) ==> rest@.len() < tokens@.len(),
    decreases tokens@.len(), 20nat,
{
    parse_binary_expr(0, tokens)
}

/// An expression of `&&`.
pub fn parse_logical_and_expr(tokens: &[Token]) -> (r: Result<(SugaredExpr, &[Token]), ParseError>)
    ensures
        expr_parsed(r) == binary(1, tokens_view(tokens@)),
        r matches Ok((_, rest)) ==> rest@.len() < tokens@.len(),
    decreases tokens@.len(), 17nat,
{
    parse_binary_expr(1, tokens)
}

/// An expression of `==` and `!=`.
pub fn parse_equality_expr(tokens: &[Token]) -> (r: Result<(SugaredExpr, &[Token]), ParseError>)
    ensures
        expr_parsed(r) == binary(2, tokens_view(tokens@)),
        r matches Ok((_, rest)) ==> rest@.len() < tokens@.len(),
    decreases tokens@.len(), 14nat,
{
    parse_binary_expr(2, tokens)
}

/// An expression of `<`, `>`, `<=` and `>=`.
pub fn parse_relational_expr(tokens: &[Token]) -> (r: Result<(SugaredExpr, &[Token]), ParseError>)
    ensures
        expr_parsed(r) == binary(3, tokens_view(tokens@)),
        r matches Ok((_, rest)) ==> rest@.len() < tokens@.len(),
    decreases tokens@.len(), 11nat,
{
    parse_binary_expr(3, tokens)
}

/// An expression of `+` and `-`.
pub fn parse_additive_expr(tokens: &[Token]) -> (r: Result<(SugaredExpr, &[Token]), ParseError>)
    ensures
        expr_parsed(r) == binary(4, tokens_view(tokens@)),
        r matches Ok((_, rest)) ==> rest@.len() < tokens@.len(),
    decreases tokens@.len(), 8nat,
{
    parse_binary_expr(4, tokens)
}

/// An expression of `*`, `%` and `/`.
pub fn parse_multiplicative_expr(tokens: &[Token]) -> (r: Result<
    (SugaredExpr, &[Token]),
    ParseError,
>)
    ensures
        expr_parsed(r) == binary(5, tokens_view(tokens@)),
        r matches Ok((_, rest)) ==> rest@.len() < tokens@.len(),
    decreases tokens@.len(), 5nat,
{
    parse_binary_expr(5, tokens)
}

fn minus_and_not() -> (r: Vec<Operator>)
    ensures
        r@ == seq![Operator::Minus, Operator::LogicNot],
{
    let mut operators: Vec<Operator> = Vec::new();
    operators.push(Operator::Minus);
    operators.push(Operator::LogicNot);
    proof {
        assert(operators@ =~= seq![Operator::Minus, Operator::LogicNot]);
    }
    operators
}

/// A unary expression.
pub fn parse_unary_expr(tokens: &[Token]) -> (r: Result<(SugaredExpr, &[Token]), ParseError>)
    ensures
        expr_parsed(r) == unary(tokens_view(tokens@)),
        r matches Ok((_, rest)) ==> rest@.len() < tokens@.len(),
    decreases tokens@.len(), 2nat,
{
    let operators = minus_and_not();
    match match_operator(operators.as_slice(), tokens) {
        Some((operator, rest)) => {
            let (right, after) = parse_unary_expr(rest)?;
            Ok((SugaredExpr::Unary(operator, Box::new(right)), after))
        },
        None => {
            if kind_at(tokens, 0, &TokenValue::DOUBLE_PLUS) {
                let (operand, after) = parse_call_expr(skip(tokens, 1))?;
                Ok((SugaredExpr::Unary(Operator::PreIncrement, Box::new(operand)), after))
            } else if kind_at(tokens, 0, &TokenValue::DOUBLE_MINUS) {
                let (operand, after) = parse_call_expr(skip(tokens, 1))?;
                Ok((SugaredExpr::Unary(Operator::PreDecrement, Box::new(operand)), after))
            } else {
                let (operand, after) = parse_call_expr(tokens)?;
                let variable = match &operand {
                    SugaredExpr::Var(_) => true,
                    _ => false,
                };
                if variable && kind_at(after, 0, &TokenValue::DOUBLE_PLUS) {
                    Ok(
                        (
                            SugaredExpr::Unary(Operator::PostIncrement, Box::new(operand)),
                            skip(after, 1),
                        ),
                    )
                } else if variable && kind_at(after, 0, &TokenValue::DOUBLE_MINUS) {
                    Ok(
                        (
                            SugaredExpr::Unary(Operator::PostDecrement, Box::new(operand)),
                            skip(after, 1),
                        ),
                    )
                } else {
                    Ok((operand, after))
                }
            }
        },
    }
}

/// A primary expression followed by any number of argument lists and
/// indexes.
pub fn parse_call_expr(tokens: &[Token]) -> (r: Result<(SugaredExpr, &[Token]), ParseError>)
    ensures
        expr_parsed(r) == call(tokens_view(tokens@)),
        r matches Ok((_, rest)) ==> rest@.len() < tokens@.len(),
    decreases tokens@.len(), 1nat,
{
    let (first, after) = parse_terminal_expr(tokens)?;
    let mut expr = first;
    let mut rest = after;
    loop
        invariant
            rest@.len() < tokens@.len(),
            call(tokens_view(tokens@)) == call_rest(expr@, tokens_view(rest@)),
        decreases rest@.len(),
    {
        if kind_at(rest, 0, &TokenValue::LPAREN) {
            let (arguments, after) = parse_args(skip(rest, 1))?;
            expr =
            match check_builtin(&expr) {
                Some(builtin) => SugaredExpr::PrimitiveCall(builtin, arguments),
                None => SugaredExpr::Call(Box::new(expr), arguments),
            };
            rest = after;
        } else if kind_at(rest, 0, &TokenValue::L_SQUARE_BRACKET) {
            let (index, after) = parse_expr(skip(rest, 1))?;
            let last = consume_token(TokenValue::R_SQUARE_BRACKET, after)?;
            expr = SugaredExpr::Index(Box::new(expr), Box::new(index));
            rest = last;
        } else {
            return Ok((expr, rest));
        }
    }
}

/// A primary expression: a literal, a variable, a lambda, or an expression
/// in round brackets.
pub fn parse_terminal_expr(tokens: &[Token]) -> (r: Result<(SugaredExpr, &[Token]), ParseError>)
    ensures
        expr_parsed(r) == terminal(tokens_view(tokens@)),
        r matches Ok((_, rest)) ==> rest@.len() < tokens@.len(),
    decreases tokens@.len(), 0nat,
{
    if tokens.len() == 0 {
        return Err(unexpected_token(tokens));
    }
    match &tokens[0].0 {
        TokenValue::STR(s) => Ok((SugaredExpr::Str(s.clone()), skip(tokens, 1))),
        TokenValue::KW(kw) => match kw {
            Keyword::True => Ok((SugaredExpr::Bool(true), skip(tokens, 1))),
            Keyword::False => Ok((SugaredExpr::Bool(false), skip(tokens, 1))),
            _ => Err(ParseError::KeywordAsVar(kw.to_string())),
        },
        TokenValue::ID(id) => Ok((SugaredExpr::Var(id.clone()), skip(tokens, 1))),
        TokenValue::NUM(n) => Ok((SugaredExpr::Num(*n), skip(tokens, 1))),
        TokenValue::LPAREN => {
            let inside = skip(tokens, 1);
            match parse_params(inside) {
                Ok((names, after)) => {
                    if kind_at(after, 0, &TokenValue::THIN_ARROW) {
                        let (body, last) = parse_statement(skip(after, 1), false)?;
                        let block = ensure_block(body)?;
                        return Ok((SugaredExpr::Lambda(names, Box::new(block)), last));
                    }
                },
                Err(_) => {},
            }
            let (inner, after) = parse_expr(inside)?;
            let last = consume_token(TokenValue::RPAREN, after)?;
            Ok((inner, last))
        },
        _ => Err(unexpected_token(tokens)),
    }
}

/// The arguments of a call, read from after its opening bracket up to its
/// closing bracket.
pub fn parse_args(tokens: &[Token]) -> (r: Result<(Vec<SugaredExpr>, &[Token]), ParseError>)
    ensures
        exprs_parsed(r) == args(tokens_view(tokens@)),
        r matches Ok((_, rest)) ==> rest@.len() < tokens@.len(),
    decreases tokens@.len(), 22nat,
{
    if kind_at(tokens, 0, &TokenValue::RPAREN) {
        let none: Vec<SugaredExpr> = Vec::new();
        proof {
            assert(sugared_exprs_view(none@) =~= Seq::empty());
        }
        Ok((none, skip(tokens, 1)))
    } else {
        let (first, rest) = parse_expr(tokens)?;
        let (others, after) = parse_rest_args(rest)?;
        let mut all = others;
        let ghost before = sugared_exprs_view(all@);
        all.insert(0, first);
        proof {
            assert(sugared_exprs_view(all@) =~= seq![first@] + before);
        }
        Ok((all, after))
    }
}

/// The arguments of a call after its first argument.
pub fn parse_rest_args(tokens: &[Token]) -> (r: Result<(Vec<SugaredExpr>, &[Token]), ParseError>)
    ensures
        exprs_parsed(r) == rest_args(tokens_view(tokens@)),
        r matches Ok((_, rest)) ==> rest@.len() < tokens@.len(),
    decreases tokens@.len(), 0nat,
{
    if kind_at(tokens, 0, &TokenValue::RPAREN) {
        let none: Vec<SugaredExpr> = Vec::new();
        proof {
            assert(sugared_exprs_view(none@) =~= Seq::empty());
        }
        Ok((none, skip(tokens, 1)))
    } else if kind_at(tokens, 0, &TokenValue::COMMA) {
        if kind_at(tokens, 1, &TokenValue::RPAREN) {
            Err(unexpected_token(tokens))
        } else {
            parse_args(skip(tokens, 1))
        }
    } else {
        Err(unexpected_token(tokens))
    }
}

} // verus!
