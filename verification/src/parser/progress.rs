//! Every parser takes at least one token when it succeeds, so a sequence of
//! tokens is parsed in as many steps as it has tokens at most, and
//! [`advancing`](crate::parser::grammar::advancing) never turns a success
//! into a failure.
use vstd::prelude::*;
use crate::parser::grammar::advancing;
use crate::parser::grammar::args;
use crate::parser::grammar::binary;
use crate::parser::grammar::binary_rest;
use crate::parser::grammar::bracket_then_block;
use crate::parser::grammar::builtin_of;
use crate::parser::grammar::call;
use crate::parser::grammar::call_rest;
use crate::parser::grammar::consume;
use crate::parser::grammar::else_part;
use crate::parser::grammar::expr;
use crate::parser::grammar::expr_then_semicolon;
use crate::parser::grammar::for_rest;
use crate::parser::grammar::is_kind;
use crate::parser::grammar::keyword_of;
use crate::parser::grammar::lambda_head;
use crate::parser::grammar::level_operators;
use crate::parser::grammar::level_rank;
use crate::parser::grammar::operand;
use crate::parser::grammar::operator_at;
use crate::parser::grammar::params;
use crate::parser::grammar::procedure;
use crate::parser::grammar::rest_args;
use crate::parser::grammar::rest_params;
use crate::parser::grammar::statement;
use crate::parser::grammar::statements;
use crate::parser::grammar::terminal;
use crate::parser::grammar::unary;
use crate::parser::grammar::Parsed;
use crate::parser::SugaredExprView;
use crate::tokenizer::Keyword;
use crate::tokenizer::Operator;
use crate::tokenizer::TokenValueView;
use crate::tokenizer::TokenView;

verus! {

/// Whether a result, where it is a success, leaves fewer tokens than there
/// were.
pub open spec fn advances<T>(r: Parsed<T>, ts: Seq<TokenView>) -> bool {
    r matches Ok((_, rest)) ==> rest.len() < ts.len()
}

/// Whether a result, where it is a success, leaves no more tokens than
/// there were.
pub open spec fn keeps<T>(r: Parsed<T>, ts: Seq<TokenView>) -> bool {
    r matches Ok((_, rest)) ==> rest.len() <= ts.len()
}

/// A result that advances is what `advancing` makes of it.
pub proof fn advancing_changes_nothing<T>(r: Parsed<T>, ts: Seq<TokenView>)
    requires
        advances(r, ts),
    ensures
        advancing(r, ts) == r,
{
}

/// A parameter list takes at least its closing bracket.
pub proof fn params_advance(ts: Seq<TokenView>)
    ensures
        advances(params(ts), ts),
        advances(rest_params(ts), ts),
    decreases ts.len(),
{
    if ts.len() > 0 {
        params_advance(ts.skip(1));
    }
}

/// A primary expression takes at least one token.
pub proof fn terminal_advances(ts: Seq<TokenView>)
    ensures
        advances(terminal(ts), ts),
    decreases ts.len(), 0nat,
{
    if ts.len() > 0 {
        let inner = ts.skip(1);
        if lambda_head(inner) is Some {
            let head = lambda_head(inner)->0;
            statement_advances(head.1, false);
        }
        expr_advances(inner);
    }
}

/// Argument lists and indexes after an expression take tokens only.
pub proof fn call_rest_keeps(callee: SugaredExprView, ts: Seq<TokenView>)
    ensures
        keeps(call_rest(callee, ts), ts),
    decreases ts.len(), 0nat,
{
    if is_kind(ts, 0, TokenValueView::LPAREN) {
        args_advance(ts.skip(1));
        match advancing(args(ts.skip(1)), ts.skip(1)) {
            Ok((arguments, rest)) => {
                call_rest_keeps(
                    match builtin_of(callee) {
                        Some(builtin) => SugaredExprView::PrimitiveCall(builtin, arguments),
                        None => SugaredExprView::Call(Box::new(callee), arguments),
                    },
                    rest,
                );
            },
            Err(_) => {},
        }
    } else if is_kind(ts, 0, TokenValueView::L_SQUARE_BRACKET) {
        expr_advances(ts.skip(1));
        match advancing(expr(ts.skip(1)), ts.skip(1)) {
            Ok((index, rest)) => {
                match consume(TokenValueView::R_SQUARE_BRACKET, rest) {
                    Ok(after) => {
                        call_rest_keeps(
                            SugaredExprView::Index(Box::new(callee), Box::new(index)),
                            after,
                        );
                    },
                    Err(_) => {},
                }
            },
            Err(_) => {},
        }
    }
}

/// A call expression takes at least one token.
pub proof fn call_advances(ts: Seq<TokenView>)
    ensures
        advances(call(ts), ts),
    decreases ts.len(), 1nat,
{
    terminal_advances(ts);
    match advancing(terminal(ts), ts) {
        Ok((callee, rest)) => {
            call_rest_keeps(callee, rest);
        },
        Err(_) => {},
    }
}

/// A unary expression takes at least one token.
pub proof fn unary_advances(ts: Seq<TokenView>)
    ensures
        advances(unary(ts), ts),
    decreases ts.len(), 2nat,
{
    if ts.len() > 0 {
        unary_advances(ts.skip(1));
        call_advances(ts.skip(1));
    }
    call_advances(ts);
}

/// An operand of a level takes at least one token.
pub proof fn operand_advances(level: nat, ts: Seq<TokenView>)
    ensures
        advances(operand(level, ts), ts),
    decreases ts.len(), 3 + level_rank(level),
{
    if level < 5 {
        binary_advances((level + 1) as nat, ts);
    } else {
        unary_advances(ts);
    }
}

/// A binary expression of a level takes at least one token.
pub proof fn binary_advances(level: nat, ts: Seq<TokenView>)
    ensures
        advances(binary(level, ts), ts),
    decreases ts.len(), 4 + level_rank(level),
{
    operand_advances(level, ts);
    match advancing(operand(level, ts), ts) {
        Ok((first, rest)) => {
            binary_rest_keeps(level, first, rest);
        },
        Err(_) => {},
    }
}

/// Operators and operands after the first operands take tokens only.
pub proof fn binary_rest_keeps(level: nat, left: SugaredExprView, ts: Seq<TokenView>)
    ensures
        keeps(binary_rest(level, left, ts), ts),
    decreases ts.len(), 0nat,
{
    match operator_at(level_operators(level), ts) {
        Some((op, _)) => {
            operand_advances(level, ts.skip(1));
            match advancing(operand(level, ts.skip(1)), ts.skip(1)) {
                Ok((right, rest)) => {
                    binary_rest_keeps(
                        level,
                        SugaredExprView::Binary(op, Box::new(left), Box::new(right)),
                        rest,
                    );
                },
                Err(_) => {},
            }
        },
        None => {},
    }
}

/// An expression takes at least one token.
pub proof fn expr_advances(ts: Seq<TokenView>)
    ensures
        advances(expr(ts), ts),
    decreases ts.len(), 15nat,
{
    binary_advances(0, ts);
}

/// An argument list takes at least its closing bracket.
pub proof fn args_advance(ts: Seq<TokenView>)
    ensures
        advances(args(ts), ts),
    decreases ts.len(), 16nat,
{
    if !is_kind(ts, 0, TokenValueView::RPAREN) {
        expr_advances(ts);
        match advancing(expr(ts), ts) {
            Ok((first, rest)) => {
                rest_args_advance(rest);
            },
            Err(_) => {},
        }
    }
}

/// What follows the first argument takes at least the closing bracket.
pub proof fn rest_args_advance(ts: Seq<TokenView>)
    ensures
        advances(rest_args(ts), ts),
    decreases ts.len(), 0nat,
{
    if is_kind(ts, 0, TokenValueView::COMMA) && !is_kind(ts, 1, TokenValueView::RPAREN) {
        args_advance(ts.skip(1));
    }
}

/// An expression with or without its semicolon takes at least one token.
pub proof fn expr_then_semicolon_advances(ts: Seq<TokenView>, semicolon: bool)
    ensures
        advances(expr_then_semicolon(ts, semicolon), ts),
    decreases ts.len(), 16nat,
{
    expr_advances(ts);
}

/// A closing bracket and a block take at least two tokens.
pub proof fn bracket_then_block_advances(ts: Seq<TokenView>)
    ensures
        advances(bracket_then_block(ts), ts),
    decreases ts.len(), 18nat,
{
    match consume(TokenValueView::RPAREN, ts) {
        Ok(after) => {
            statement_advances(after, true);
        },
        Err(_) => {},
    }
}

/// What follows the first block of an `if` takes tokens only.
pub proof fn else_part_keeps(ts: Seq<TokenView>)
    ensures
        keeps(else_part(ts), ts),
    decreases ts.len(), 0nat,
{
    if keyword_of(ts, 0) == Some(Keyword::Else) {
        if keyword_of(ts, 1) == Some(Keyword::If) && is_kind(ts, 2, TokenValueView::LPAREN) {
            expr_advances(ts.skip(3));
            match advancing(expr(ts.skip(3)), ts.skip(3)) {
                Ok((cond, rest)) => {
                    bracket_then_block_advances(rest);
                    match advancing(bracket_then_block(rest), rest) {
                        Ok((block, after)) => {
                            else_part_keeps(after);
                        },
                        Err(_) => {},
                    }
                },
                Err(_) => {},
            }
        } else {
            statement_advances(ts.skip(1), true);
        }
    }
}

/// The rest of a `for` takes at least one token.
pub proof fn for_rest_advances(ts: Seq<TokenView>)
    ensures
        advances(for_rest(ts), ts),
    decreases ts.len(), 18nat,
{
    statement_advances(ts, true);
    match advancing(statement(ts, true), ts) {
        Ok((Some(init), rest)) => {
            expr_then_semicolon_advances(rest, true);
            match advancing(expr_then_semicolon(rest, true), rest) {
                Ok((stop, after)) => {
                    statement_advances(after, false);
                    match advancing(statement(after, false), after) {
                        Ok((Some(step), last)) => {
                            bracket_then_block_advances(last);
                        },
                        _ => {},
                    }
                },
                Err(_) => {},
            }
        },
        _ => {},
    }
}

/// A statement takes at least one token, and so does the closing bracket
/// in its place.
pub proof fn statement_advances(ts: Seq<TokenView>, semicolon: bool)
    ensures
        advances(statement(ts, semicolon), ts),
    decreases ts.len(), 17nat,
{
    expr_then_semicolon_advances(ts, semicolon);
    if ts.len() >= 1 {
        expr_then_semicolon_advances(ts.skip(1), true);
        statements_advance(ts.skip(1));
    }
    if ts.len() >= 2 {
        expr_then_semicolon_advances(ts.skip(2), semicolon);
        for_rest_advances(ts.skip(2));
        expr_advances(ts.skip(2));
        match advancing(expr(ts.skip(2)), ts.skip(2)) {
            Ok((cond, rest)) => {
                bracket_then_block_advances(rest);
                match advancing(bracket_then_block(rest), rest) {
                    Ok((block, after)) => {
                        else_part_keeps(after);
                    },
                    Err(_) => {},
                }
            },
            Err(_) => {},
        }
    }
    if ts.len() >= 3 {
        expr_then_semicolon_advances(ts.skip(3), semicolon);
    }
}

/// The statements of a block take at least its closing bracket.
pub proof fn statements_advance(ts: Seq<TokenView>)
    ensures
        advances(statements(ts), ts),
    decreases ts.len(), 18nat,
{
    statement_advances(ts, true);
    match advancing(statement(ts, true), ts) {
        Ok((Some(first), rest)) => {
            statements_advance(rest);
        },
        _ => {},
    }
}

/// A top-level procedure, where there is one, takes at least one token.
pub proof fn procedure_advances(ts: Seq<TokenView>)
    ensures
        procedure(ts) matches Ok((Some(_), rest)) ==> rest.len() < ts.len(),
{
    if ts.len() >= 3 {
        params_advance(ts.skip(3));
        match params(ts.skip(3)) {
            Ok((names, rest)) => {
                statement_advances(rest, true);
            },
            Err(_) => {},
        }
    }
}

/// Precedence and grouping: an operator of a level stands between whole
/// operands of the level, which are expressions of the next tighter level.
/// So in `2 + 3 * 4` the right operand of `+` is all of `3 * 4`. After a
/// first operator and its right operand, what was parsed so far is the left
/// operand of what follows.
pub proof fn binary_takes_whole_operands(level: nat, ts: Seq<TokenView>)
    requires
        operand(level, ts) matches Ok((_, rest)) && operator_at(level_operators(level), rest)
            is Some && operand(level, rest.skip(1)) is Ok,
    ensures
        ({
            let first = operand(level, ts)->Ok_0;
            let found = operator_at(level_operators(level), first.1)->0;
            let second = operand(level, first.1.skip(1))->Ok_0;
            binary(level, ts) == binary_rest(
                level,
                SugaredExprView::Binary(found.0, Box::new(first.0), Box::new(second.0)),
                second.1,
            )
        }),
{
    let first = operand(level, ts)->Ok_0;
    operand_advances(level, ts);
    operand_advances(level, first.1.skip(1));
    assert(binary(level, ts) == binary_rest(level, first.0, first.1));
}

} // verus!
