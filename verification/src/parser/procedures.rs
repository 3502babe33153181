//! The parsers of top-level procedures and of parameter lists.
use vstd::prelude::*;
use crate::desugar::names_view;
use crate::error::ParseError;
use crate::parser::grammar::has_name;
use crate::parser::grammar::params;
use crate::parser::grammar::procedure;
use crate::parser::grammar::procedures;
use crate::parser::grammar::rest_params;
use crate::parser::grammar::Parsed;
use crate::parser::statements::parse_statement;
use crate::parser::sugared_procedures_view;
use crate::parser::utils::ensure_block;
use crate::parser::utils::identifier_at;
use crate::parser::utils::keyword_at;
use crate::parser::utils::kind_at;
use crate::parser::utils::skip;
use crate::parser::utils::unexpected_token;
use crate::parser::SugaredProcedure;
use crate::parser::SugaredProcedureView;
use crate::tokenizer::tokens_view;
use crate::tokenizer::Keyword;
use crate::tokenizer::Token;
use crate::tokenizer::TokenValue;

verus! {

/// What the result of a parser of parameter lists holds.
pub open spec fn names_parsed(r: Result<(Vec<String>, &[Token]), ParseError>) -> Parsed<
    Seq<Seq<char>>,
> {
    match r {
        Ok((names, rest)) => Ok((names_view(names@), tokens_view(rest@))),
        Err(e) => Err(e@),
    }
}

/// What the result of the parser of procedures holds.
pub open spec fn procedures_parsed(
    r: Result<(Vec<SugaredProcedure>, &[Token]), ParseError>,
) -> Parsed<Seq<SugaredProcedureView>> {
    match r {
        Ok((procs, rest)) => Ok((sugared_procedures_view(procs@), tokens_view(rest@))),
        Err(e) => Err(e@),
    }
}

/// What the result of the parser of one procedure holds.
pub open spec fn procedure_parsed(
    r: Result<(Option<SugaredProcedure>, &[Token]), ParseError>,
) -> Parsed<Option<SugaredProcedureView>> {
    match r {
        Ok((Some(p), rest)) => Ok((Some(p@), tokens_view(rest@))),
        Ok((None, rest)) => Ok((None, tokens_view(rest@))),
        Err(e) => Err(e@),
    }
}

/// The top-level procedures at the head of the tokens.
#[verifier::loop_isolation(false)]
pub fn parse_procs(tokens: &[Token]) -> (r: Result<(Vec<SugaredProcedure>, &[Token]), ParseError>)
    ensures
        procedures_parsed(r) == procedures(tokens_view(tokens@)),
    decreases tokens@.len(),
{
    let (proc_option, rest) = parse_proc(tokens)?;
    match proc_option {
        Some(first) => {
            let (others, after) = parse_procs(rest)?;
            let mut i: usize = 0;
            while i < others.len()
                invariant
                    i <= others@.len(),
                    forall|j: int| 0 <= j < i ==> others@[j].name@ != first.name@,
                decreases others@.len() - i,
            {
                if others[i].name == first.name {
                    proof {
                        assert(sugared_procedures_view(others@)[i as int].name == first.name@);
                        assert(has_name(sugared_procedures_view(others@), first.name@));
                    }
                    return Err(ParseError::MultipleSameNamedProcs(first.name.clone()));
                }
                i += 1;
            }
            proof {
                assert(!has_name(sugared_procedures_view(others@), first.name@));
            }
            let mut all = others;
            let ghost before = sugared_procedures_view(all@);
            all.insert(0, first);
            proof {
                assert(sugared_procedures_view(all@) =~= seq![first@] + before);
            }
            Ok((all, after))
        },
        None => {
            let none: Vec<SugaredProcedure> = Vec::new();
            proof {
                assert(sugared_procedures_view(none@) =~= Seq::empty());
            }
            Ok((none, rest))
        },
    }
}

/// A top-level procedure, or nothing where the tokens do not start one.
pub fn parse_proc(tokens: &[Token]) -> (r: Result<(Option<SugaredProcedure>, &[Token]), ParseError>)
    ensures
        procedure_parsed(r) == procedure(tokens_view(tokens@)),
        r matches Ok((Some(_), rest)) ==> rest@.len() < tokens@.len(),
{
    if keyword_at(tokens, 0) == Some(Keyword::Proc) && kind_at(tokens, 2, &TokenValue::LPAREN) {
        if let Some(kw) = keyword_at(tokens, 1) {
            return Err(ParseError::KeywordAsProc(kw.to_string()));
        }
        if let Some(name) = identifier_at(tokens, 1) {
            let (params, rest) = parse_params(skip(tokens, 3))?;
            let (body_block_option, after) = parse_statement(rest, true)?;
            let body_block = ensure_block(body_block_option)?;
            return Ok((Some(SugaredProcedure { name, params, body: body_block }), after));
        }
    }
    Ok((None, tokens))
}

/// The names of a parameter list, read from after its opening bracket up to
/// its closing bracket.
pub fn parse_params(tokens: &[Token]) -> (r: Result<(Vec<String>, &[Token]), ParseError>)
    ensures
        names_parsed(r) == params(tokens_view(tokens@)),
        r matches Ok((_, rest)) ==> rest@.len() < tokens@.len(),
    decreases tokens@.len(),
{
    if kind_at(tokens, 0, &TokenValue::RPAREN) {
        let none: Vec<String> = Vec::new();
        proof {
            assert(names_view(none@) =~= Seq::empty());
        }
        return Ok((none, skip(tokens, 1)));
    }
    if let Some(kw) = keyword_at(tokens, 0) {
        return Err(ParseError::KeywordAsParam(kw.to_string()));
    }
    if let Some(param_name) = identifier_at(tokens, 0) {
        let (rest_params, rest_toks) = parse_rest_params(skip(tokens, 1))?;
        let mut params = rest_params;
        let ghost before = names_view(params@);
        params.insert(0, param_name);
        proof {
            assert(names_view(params@) =~= seq![param_name@] + before);
        }
        return Ok((params, rest_toks));
    }
    Err(unexpected_token(tokens))
}

/// The names of a parameter list after its first name.
pub fn parse_rest_params(tokens: &[Token]) -> (r: Result<(Vec<String>, &[Token]), ParseError>)
    ensures
        names_parsed(r) == rest_params(tokens_view(tokens@)),
        r matches Ok((_, rest)) ==> rest@.len() < tokens@.len(),
    decreases tokens@.len(),
{
    if kind_at(tokens, 0, &TokenValue::RPAREN) {
        let none: Vec<String> = Vec::new();
        proof {
            assert(names_view(none@) =~= Seq::empty());
        }
        Ok((none, skip(tokens, 1)))
    } else if kind_at(tokens, 0, &TokenValue::COMMA) {
        if kind_at(tokens, 1, &TokenValue::RPAREN) {
            Err(unexpected_token(tokens))
        } else {
            parse_params(skip(tokens, 1))
        }
    } else {
        Err(unexpected_token(tokens))
    }
}

} // verus!
