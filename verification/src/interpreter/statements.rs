//! The evaluation of statements.
use vstd::prelude::*;
use crate::desugar::statements_view;
use crate::desugar::Statement;
use crate::desugar::StatementView;
use crate::environment::Environment;
use crate::environment::EnvironmentView;
use crate::error::RuntimeError;
use crate::error::RuntimeErrorView;
use crate::interpreter::expressions::interp_expression;
use crate::interpreter::semantics::done;
use crate::interpreter::semantics::eval_block;
use crate::interpreter::semantics::eval_statements;
use crate::interpreter::semantics::eval_stmt;
use crate::interpreter::semantics::eval_while;
use crate::interpreter::semantics::Outcome;
use crate::interpreter::Value;
use crate::interpreter::ValueView;
use crate::Writer;

verus! {

/// How a statement ended.
#[derive(Clone, Copy, PartialEq, Eq, PartialOrd, Ord, Hash, Debug, Structural)]
pub enum ControlFlow {
    Return,
    Normal,
    Break,
    Continue,
}

/// Whether what the evaluation of a statement returned, and the environment
/// and the output it left, are those of an outcome, after a failure as
/// after a success.
pub open spec fn flow_agrees(
    r: Result<(Value, ControlFlow), RuntimeError>,
    env: EnvironmentView,
    output: Seq<char>,
    o: Outcome<(ValueView, ControlFlow)>,
) -> bool {
    &&& output == o.output
    &&& env == o.env
    &&& match r {
        Ok((v, flow)) => o.result == Ok::<(ValueView, ControlFlow), RuntimeErrorView>((v@, flow)),
        Err(e) => o.result == Err::<(ValueView, ControlFlow), RuntimeErrorView>(e@),
    }
}

/// Where the first statements of a block fail or end with a signal, the
/// whole block ends there.
pub(crate) proof fn lemma_statements_end(
    scope: EnvironmentView,
    statements: Seq<StatementView>,
    k: int,
    in_loop: bool,
    output: Seq<char>,
    limit: nat,
)
    requires
        0 <= k <= statements.len(),
        !(eval_statements(scope, statements.subrange(0, k), in_loop, output, limit).result
            matches Ok((_, ControlFlow::Normal))),
    ensures
        eval_statements(scope, statements, in_loop, output, limit) == eval_statements(
            scope,
            statements.subrange(0, k),
            in_loop,
            output,
            limit,
        ),
    decreases statements.len() - k,
{
    if k == statements.len() {
        assert(statements.subrange(0, k) =~= statements);
    } else {
        assert(statements.drop_last().subrange(0, k) =~= statements.subrange(0, k));
        lemma_statements_end(scope, statements.drop_last(), k, in_loop, output, limit);
    }
}

/// The value and the signal with which a statement ends. `in_loop` says
/// whether the statement stands in the body of a loop of the same
/// procedure. The evaluation may bind and assign in the environment and
/// write to the writer; `limit` bounds how deep it may go by calls and by
/// turns of loops.
pub fn interp_statement(
    env: &mut Environment,
    statement: &Statement,
    in_loop: bool,
    writer: &mut Writer,
    limit: u64,
) -> (r: Result<(Value, ControlFlow), RuntimeError>)
    ensures
        flow_agrees(
            r,
            final(env)@,
            final(writer)@,
            eval_stmt(old(env)@, statement@, in_loop, old(writer)@, limit as nat),
        ),
    decreases limit, statement, 1nat,
{
    match statement {
        Statement::Expr(expr) => {
            let value = interp_expression(env, expr, writer, limit)?;
            Ok((value, ControlFlow::Normal))
        },
        Statement::Let(id, expr) => {
            let value = interp_expression(env, expr, writer, limit)?;
            env.insert_new_mutable_value(id.clone(), value);
            Ok((Value::Nil, ControlFlow::Normal))
        },
        Statement::Const(id, expr) => {
            let value = interp_expression(env, expr, writer, limit)?;
            env.insert_new_constant_value(id.clone(), value);
            Ok((Value::Nil, ControlFlow::Normal))
        },
        Statement::Assign(id, expr) => {
            let value = interp_expression(env, expr, writer, limit)?;
            env.reassign(id.clone(), value)?;
            Ok((Value::Nil, ControlFlow::Normal))
        },
        Statement::If(cond, then_branch, else_branch) => {
            match interp_expression(env, cond, writer, limit)? {
                Value::Bool(b) => {
                    if b {
                        interp_statement(env, then_branch, in_loop, writer, limit)
                    } else {
                        match else_branch {
                            Some(branch) => interp_statement(env, branch, in_loop, writer, limit),
                            None => Ok((Value::Nil, ControlFlow::Normal)),
                        }
                    }
                },
                other => Err(RuntimeError::BadArg(other)),
            }
        },
        Statement::While(_, _) => interp_while(env, statement, in_loop, writer, limit),
        Statement::Block(_) => interp_block(env, statement, in_loop, writer, limit),
        Statement::Return(value) => match value {
            Some(expr) => {
                let value = interp_expression(env, expr, writer, limit)?;
                Ok((value, ControlFlow::Return))
            },
            None => Ok((Value::Nil, ControlFlow::Return)),
        },
        Statement::Break => Ok((Value::Nil, ControlFlow::Break)),
        Statement::Continue => Ok((Value::Nil, ControlFlow::Continue)),
    }
}

/// The value and the signal with which a `while` ends.
fn interp_while(
    env: &mut Environment,
    statement: &Statement,
    in_loop: bool,
    writer: &mut Writer,
    limit: u64,
) -> (r: Result<(Value, ControlFlow), RuntimeError>)
    requires
        statement is While,
    ensures
        flow_agrees(
            r,
            final(env)@,
            final(writer)@,
            eval_while(old(env)@, statement@, in_loop, old(writer)@, limit as nat),
        ),
    decreases limit, statement, 0nat,
{
    match statement {
        Statement::While(cond, body) => {
            let mut left: u64 = limit;
            loop
                invariant
                    left <= limit,
                    statement is While,
                    statement->While_0 == *cond,
                    statement->While_1 == *body,
                    eval_while(old(env)@, statement@, in_loop, old(writer)@, limit as nat)
                        == eval_while(env@, statement@, in_loop, writer@, left as nat),
                decreases left,
            {
                match interp_expression(env, cond, writer, left) {
                    Err(e) => {
                        return Err(e);
                    },
                    Ok(Value::Bool(b)) => {
                        if !b {
                            return Ok((Value::Nil, ControlFlow::Normal));
                        }
                    },
                    Ok(other) => {
                        return Err(RuntimeError::BadArg(other));
                    },
                }
                match interp_statement(env, body, true, writer, left) {
                    Err(e) => {
                        return Err(e);
                    },
                    Ok((value, ControlFlow::Return)) => {
                        return Ok((value, ControlFlow::Return));
                    },
                    Ok((_, ControlFlow::Break)) => {
                        return Ok((Value::Nil, ControlFlow::Normal));
                    },
                    Ok(_) => {},
                }
                if left == 0 {
                    return Err(RuntimeError::LimitExceeded);
                }
                left = left - 1;
            }
        },
        _ => Err(RuntimeError::InvalidAssignmentTarget),
    }
}

/// The value and the signal with which a block ends.
fn interp_block(
    env: &mut Environment,
    statement: &Statement,
    in_loop: bool,
    writer: &mut Writer,
    limit: u64,
) -> (r: Result<(Value, ControlFlow), RuntimeError>)
    requires
        statement is Block,
    ensures
        flow_agrees(
            r,
            final(env)@,
            final(writer)@,
            eval_block(old(env)@, statement@, in_loop, old(writer)@, limit as nat),
        ),
    decreases limit, statement, 0nat,
{
    match statement {
        Statement::Block(statements) => {
            let mut scope = env.duplicate();
            let mut block_value = Value::Nil;
            let mut i: usize = 0;
            let ghost all = statements_view(statements@);
            proof {
                assert(all.subrange(0, 0) =~= Seq::empty());
            }
            while i < statements.len()
                invariant
                    i <= statements@.len(),
                    statement is Block,
                    statement->Block_0 == *statements,
                    all == statements_view(statements@),
                    env@ == old(env)@,
                    eval_statements(
                        old(env)@,
                        all.subrange(0, i as int),
                        in_loop,
                        old(writer)@,
                        limit as nat,
                    ) == done((block_value@, ControlFlow::Normal), scope@, writer@),
                decreases statements@.len() - i,
            {
                proof {
                    assert(all.subrange(0, i + 1).drop_last() =~= all.subrange(0, i as int));
                    assert(all.subrange(0, i + 1).last() == statements@[i as int]@);
                }
                match interp_statement(&mut scope, &statements[i], in_loop, writer, limit) {
                    Err(e) => {
                        proof {
                            lemma_statements_end(
                                old(env)@,
                                all,
                                i + 1,
                                in_loop,
                                old(writer)@,
                                limit as nat,
                            );
                        }
                        return Err(e);
                    },
                    Ok((value, ControlFlow::Normal)) => {
                        block_value = value;
                    },
                    Ok((value, flow)) => {
                        proof {
                            lemma_statements_end(
                                old(env)@,
                                all,
                                i + 1,
                                in_loop,
                                old(writer)@,
                                limit as nat,
                            );
                        }
                        if flow == ControlFlow::Break && !in_loop {
                            return Err(RuntimeError::BreakNotInLoop);
                        }
                        if flow == ControlFlow::Continue && !in_loop {
                            return Err(RuntimeError::ContinueNotInLoop);
                        }
                        env.update_reassigned_entries(&scope)?;
                        return Ok((value, flow));
                    },
                }
                i += 1;
            }
            proof {
                assert(all.subrange(0, i as int) =~= all);
            }
            env.update_reassigned_entries(&scope)?;
            Ok((block_value, ControlFlow::Normal))
        },
        _ => Err(RuntimeError::InvalidAssignmentTarget),
    }
}

} // verus!
