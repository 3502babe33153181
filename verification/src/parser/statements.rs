//! The parsers of statements.
use vstd::prelude::*;
use crate::error::ParseError;
use crate::parser::else_ifs_view;
use crate::parser::expressions::parse_expr;
use crate::parser::grammar::bracket_then_block;
use crate::parser::grammar::else_part;
use crate::parser::grammar::expr_then_semicolon;
use crate::parser::grammar::for_rest;
use crate::parser::grammar::statement;
use crate::parser::grammar::statements;
use crate::parser::grammar::Parsed;
use crate::parser::sugared_statements_view;
use crate::parser::utils::conditionally_consume_semicolon;
use crate::parser::utils::consume_token;
use crate::parser::utils::ensure_block;
use crate::parser::utils::expr_parsed;
use crate::parser::utils::identifier_at;
use crate::parser::utils::is_assignment;
use crate::parser::utils::is_assignment_or_initialization;
use crate::parser::utils::keyword_at;
use crate::parser::utils::kind_at;
use crate::parser::utils::skip;
use crate::parser::utils::statement_view;
use crate::parser::SugaredExpr;
use crate::parser::SugaredExprView;
use crate::parser::SugaredStatement;
use crate::parser::SugaredStatementView;
use crate::tokenizer::tokens_view;
use crate::tokenizer::AssignOp;
use crate::tokenizer::Keyword;
use crate::tokenizer::Token;
use crate::tokenizer::TokenValue;

verus! {

/// What the result of the parser of one statement holds.
pub open spec fn statement_parsed(
    r: Result<(Option<SugaredStatement>, &[Token]), ParseError>,
) -> Parsed<Option<SugaredStatementView>> {
    match r {
        Ok((s, rest)) => Ok((statement_view(s), tokens_view(rest@))),
        Err(e) => Err(e@),
    }
}

/// What the result of a parser that gives a statement holds.
pub open spec fn block_parsed(r: Result<(SugaredStatement, &[Token]), ParseError>) -> Parsed<
    SugaredStatementView,
> {
    match r {
        Ok((s, rest)) => Ok((s@, tokens_view(rest@))),
        Err(e) => Err(e@),
    }
}

/// What the result of the parser of the statements of a block holds.
pub open spec fn statements_parsed(
    r: Result<(Vec<SugaredStatement>, &[Token]), ParseError>,
) -> Parsed<Seq<SugaredStatementView>> {
    match r {
        Ok((ss, rest)) => Ok((sugared_statements_view(ss@), tokens_view(rest@))),
        Err(e) => Err(e@),
    }
}

/// What the result of the parser of what follows the first block of an `if`
/// holds.
pub open spec fn else_parsed(
    r: Result<
        ((Vec<(SugaredExpr, SugaredStatement)>, Option<SugaredStatement>), &[Token]),
        ParseError,
    >,
) -> Parsed<(Seq<(SugaredExprView, SugaredStatementView)>, Option<SugaredStatementView>)> {
    match r {
        Ok((part, rest)) => Ok(((else_ifs_view(part.0@), statement_view(part.1)), tokens_view(rest@))),
        Err(e) => Err(e@),
    }
}

/// The statements of a block, read from after its opening bracket up to its
/// closing bracket.
pub fn parse_statements(tokens: &[Token]) -> (r: Result<
    (Vec<SugaredStatement>, &[Token]),
    ParseError,
>)
    ensures
        statements_parsed(r) == statements(tokens_view(tokens@)),
        r matches Ok((_, rest)) ==> rest@.len() < tokens@.len(),
    decreases tokens@.len(), 24nat,
{
    let (statement_option, rest) = parse_statement(tokens, true)?;
    let first = match statement_option {
        Some(first) => first,
        None => {
            let none: Vec<SugaredStatement> = Vec::new();
            proof {
                assert(sugared_statements_view(none@) =~= Seq::empty());
            }
            return Ok((none, rest));
        },
    };
    let (others, after) = parse_statements(rest)?;
    let mut all = others;
    let ghost before = sugared_statements_view(all@);
    all.insert(0, first);
    proof {
        assert(sugared_statements_view(all@) =~= seq![first@] + before);
    }
    Ok((all, after))
}

fn parse_expr_then_semicolon(tokens: &[Token], semicolon: bool) -> (r: Result<
    (SugaredExpr, &[Token]),
    ParseError,
>)
    ensures
        expr_parsed(r) == expr_then_semicolon(tokens_view(tokens@), semicolon),
        r matches Ok((_, rest)) ==> rest@.len() < tokens@.len(),
    decreases tokens@.len(), 22nat,
{
    let (e, rest) = parse_expr(tokens)?;
    let after = conditionally_consume_semicolon(rest, semicolon)?;
    Ok((e, after))
}

fn parse_bracket_then_block(tokens: &[Token]) -> (r: Result<(SugaredStatement, &[Token]), ParseError>)
    ensures
        block_parsed(r) == bracket_then_block(tokens_view(tokens@)),
        r matches Ok((block, rest)) ==> rest@.len() < tokens@.len() && block is Block,
    decreases tokens@.len(), 24nat,
{
    let after = consume_token(TokenValue::RPAREN, tokens)?;
    let (body, rest) = parse_statement(after, true)?;
    let block = ensure_block(body)?;
    Ok((block, rest))
}

fn parse_else_part(tokens: &[Token]) -> (r: Result<
    ((Vec<(SugaredExpr, SugaredStatement)>, Option<SugaredStatement>), &[Token]),
    ParseError,
>)
    ensures
        else_parsed(r) == else_part(tokens_view(tokens@)),
        r matches Ok((_, rest)) ==> rest@.len() <= tokens@.len(),
    decreases tokens@.len(), 0nat,
{
    if keyword_at(tokens, 0) == Some(Keyword::Else) {
        if keyword_at(tokens, 1) == Some(Keyword::If) && kind_at(tokens, 2, &TokenValue::LPAREN) {
            let (cond, rest) = parse_expr(skip(tokens, 3))?;
            let (block, after) = parse_bracket_then_block(rest)?;
            let (others, last) = parse_else_part(after)?;
            let mut chain = others.0;
            let ghost before = else_ifs_view(chain@);
            chain.insert(0, (cond, block));
            proof {
                assert(else_ifs_view(chain@) =~= seq![(cond@, block@)] + before);
            }
            Ok(((chain, others.1), last))
        } else {
            let (body, rest) = parse_statement(skip(tokens, 1), true)?;
            let block = ensure_block(body)?;
            let none: Vec<(SugaredExpr, SugaredStatement)> = Vec::new();
            proof {
                assert(else_ifs_view(none@) =~= Seq::empty());
            }
            Ok(((none, Some(block)), rest))
        }
    } else {
        let none: Vec<(SugaredExpr, SugaredStatement)> = Vec::new();
        proof {
            assert(else_ifs_view(none@) =~= Seq::empty());
        }
        Ok(((none, None), tokens))
    }
}

fn parse_for_rest(tokens: &[Token]) -> (r: Result<(SugaredStatement, &[Token]), ParseError>)
    ensures
        block_parsed(r) == for_rest(tokens_view(tokens@)),
        r matches Ok((_, rest)) ==> rest@.len() < tokens@.len(),
    decreases tokens@.len(), 24nat,
{
    let (var_statement_option, rest) = parse_statement(tokens, true)?;
    let var_statement = match var_statement_option {
        Some(statement) => {
            if is_assignment_or_initialization(&statement) {
                statement
            } else {
                return Err(ParseError::ExpectedAssignmentOrInitialization);
            }
        },
        None => {
            return Err(ParseError::ExpectedStatement);
        },
    };
    let (stop_cond_expr, after) = parse_expr_then_semicolon(rest, true)?;
    let (reassign_statement_option, last) = parse_statement(after, false)?;
    let reassign_statement = match reassign_statement_option {
        Some(statement) => {
            if is_assignment(&statement) {
                statement
            } else {
                return Err(ParseError::ExpectedAssignment);
            }
        },
        None => {
            return Err(ParseError::ExpectedStatement);
        },
    };
    let (for_block, end) = parse_bracket_then_block(last)?;
    match for_block {
        SugaredStatement::Block(statements) => Ok(
            (
                SugaredStatement::For(
                    Box::new(var_statement),
                    stop_cond_expr,
                    Box::new(reassign_statement),
                    statements,
                ),
                end,
            ),
        ),
        _ => Err(ParseError::ExpectedBlock),
    }
}

/// A statement, or nothing where the tokens start with a closing curly
/// bracket, which is taken. `parse_semicolon` says whether a statement that
/// ends with an expression takes a semicolon after it.
pub fn parse_statement(tokens: &[Token], parse_semicolon: bool) -> (r: Result<
    (Option<SugaredStatement>, &[Token]),
    ParseError,
>)
    ensures
        statement_parsed(r) == statement(tokens_view(tokens@), parse_semicolon),
        r matches Ok((_, rest)) ==> rest@.len() < tokens@.len(),
    decreases tokens@.len(), 23nat,
{
    let first = keyword_at(tokens, 0);
    if kind_at(tokens, 0, &TokenValue::RBRACKET) {
        return Ok((None, skip(tokens, 1)));
    }
    if first == Some(Keyword::Let) || first == Some(Keyword::Const) {
        if let Some(kw) = keyword_at(tokens, 1) {
            return Err(ParseError::KeywordAsVar(kw.to_string()));
        }
        if kind_at(tokens, 2, &TokenValue::ASSIGN) {
            if let Some(var_name) = identifier_at(tokens, 1) {
                let (var_expr, rest) = parse_expr_then_semicolon(skip(tokens, 3), parse_semicolon)?;
                let bound = if first == Some(Keyword::Let) {
                    SugaredStatement::Let(var_name, var_expr)
                } else {
                    SugaredStatement::Const(var_name, var_expr)
                };
                return Ok((Some(bound), rest));
            }
        }
    }
    if let Some(kw) = first {
        if kind_at(tokens, 1, &TokenValue::ASSIGN) {
            return Err(ParseError::KeywordAsVar(kw.to_string()));
        }
    }
    if let Some(var_name) = identifier_at(tokens, 0) {
        if kind_at(tokens, 1, &TokenValue::ASSIGN) {
            let (var_expr, rest) = parse_expr_then_semicolon(skip(tokens, 2), parse_semicolon)?;
            return Ok((Some(SugaredStatement::Assign(var_name, var_expr)), rest));
        }
        if let Some(assign_op) = assign_op_at(tokens, 1) {
            let (var_expr, rest) = parse_expr_then_semicolon(skip(tokens, 2), parse_semicolon)?;
            return Ok(
                (Some(SugaredStatement::OperatorAssignment(assign_op, var_name, var_expr)), rest),
            );
        }
    }
    if first == Some(Keyword::If) && kind_at(tokens, 1, &TokenValue::LPAREN) {
        let (cond_expr, rest) = parse_expr(skip(tokens, 2))?;
        let (then_block, after) = parse_bracket_then_block(rest)?;
        let (others, last) = parse_else_part(after)?;
        let else_block_option = match others.1 {
            Some(block) => Some(Box::new(block)),
            None => None,
        };
        return Ok(
            (
                Some(SugaredStatement::If(cond_expr, Box::new(then_block), others.0, else_block_option)),
                last,
            ),
        );
    }
    if first == Some(Keyword::While) && kind_at(tokens, 1, &TokenValue::LPAREN) {
        let (while_cond_expr, rest) = parse_expr(skip(tokens, 2))?;
        let (while_block, after) = parse_bracket_then_block(rest)?;
        return Ok((Some(SugaredStatement::While(while_cond_expr, Box::new(while_block))), after));
    }
    if first == Some(Keyword::For) && kind_at(tokens, 1, &TokenValue::LPAREN) {
        let (for_statement, rest) = parse_for_rest(skip(tokens, 2))?;
        return Ok((Some(for_statement), rest));
    }
    if first == Some(Keyword::Return) {
        if kind_at(tokens, 1, &TokenValue::SEMICOLON) {
            return Ok((Some(SugaredStatement::Return(None)), skip(tokens, 2)));
        }
        let (return_expr, rest) = parse_expr_then_semicolon(skip(tokens, 1), true)?;
        return Ok((Some(SugaredStatement::Return(Some(return_expr))), rest));
    }
    if first == Some(Keyword::Break) {
        let rest = consume_token(TokenValue::SEMICOLON, skip(tokens, 1))?;
        return Ok((Some(SugaredStatement::Break), rest));
    }
    if first == Some(Keyword::Continue) {
        let rest = consume_token(TokenValue::SEMICOLON, skip(tokens, 1))?;
        return Ok((Some(SugaredStatement::Continue), rest));
    }
    if kind_at(tokens, 0, &TokenValue::LBRACKET) {
        let (statements, rest) = parse_statements(skip(tokens, 1))?;
        return Ok((Some(SugaredStatement::Block(statements)), rest));
    }
    let (expr, rest) = parse_expr_then_semicolon(tokens, parse_semicolon)?;
    Ok((Some(SugaredStatement::Expr(expr)), rest))
}

fn assign_op_at(tokens: &[Token], i: usize) -> (r: Option<AssignOp>)
    ensures
        match r {
            Some(op) => crate::parser::grammar::token_kind(tokens_view(tokens@), i as int) == Some(
                crate::tokenizer::TokenValueView::ASSIGN_OP(op),
            ),
            None => !(crate::parser::grammar::token_kind(tokens_view(tokens@), i as int) matches Some(
                crate::tokenizer::TokenValueView::ASSIGN_OP(_),
            )),
        },
{
    if i < tokens.len() {
        match &tokens[i].0 {
            TokenValue::ASSIGN_OP(op) => Some(*op),
            _ => None,
        }
    } else {
        None
    }
}

} // verus!
