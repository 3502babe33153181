//! The evaluation of expressions.
use vstd::prelude::*;
use vstd::string::StringExecFns;
use vstd::string::StrSliceExecFns;
use crate::desugar::duplicate_names;
use crate::desugar::exprs_view;
use crate::desugar::names_view;
use crate::desugar::Expr;
use crate::desugar::ExprView;
use crate::environment::bindings_view;
use crate::environment::value_result_view;
use crate::environment::AssignmentType;
use crate::environment::Binding;
use crate::environment::Environment;
use crate::environment::EnvironmentView;
use crate::environment::Mutability;
use crate::error::RuntimeError;
use crate::error::RuntimeErrorView;
use crate::interpreter::join_values;
use crate::interpreter::semantics::binary_result;
use crate::interpreter::semantics::builtin_result;
use crate::interpreter::semantics::done;
use crate::interpreter::semantics::eval_binary;
use crate::interpreter::semantics::eval_builtin;
use crate::interpreter::semantics::eval_call;
use crate::interpreter::semantics::eval_expr;
use crate::interpreter::semantics::eval_exprs;
use crate::interpreter::semantics::eval_index;
use crate::interpreter::semantics::eval_unary;
use crate::interpreter::semantics::index_position;
use crate::interpreter::semantics::index_result;
use crate::interpreter::semantics::is_binary;
use crate::interpreter::semantics::is_unary;
use crate::interpreter::semantics::parameter_bindings;
use crate::interpreter::semantics::Outcome;
use crate::interpreter::statements::interp_statement;
use crate::interpreter::statements::ControlFlow;
use crate::interpreter::utils::ensure_list;
use crate::interpreter::utils::ensure_single_arg;
use crate::interpreter::values_view;
use crate::interpreter::Value;
use crate::interpreter::ValueView;
use crate::number::push_char;
use crate::number::Number;
use crate::parser::Builtin;
use crate::tokenizer::Operator;
use crate::Writer;

verus! {

/// Whether what an evaluation returned, and the environment and the output
/// it left, are those of an outcome, after a failure as after a success.
pub open spec fn value_agrees(
    r: Result<Value, RuntimeError>,
    env: EnvironmentView,
    output: Seq<char>,
    o: Outcome<ValueView>,
) -> bool {
    &&& output == o.output
    &&& env == o.env
    &&& match r {
        Ok(v) => o.result == Ok::<ValueView, RuntimeErrorView>(v@),
        Err(e) => o.result == Err::<ValueView, RuntimeErrorView>(e@),
    }
}

/// The same for the values of a list of expressions.
pub open spec fn values_agree(
    r: Result<Vec<Value>, RuntimeError>,
    env: EnvironmentView,
    output: Seq<char>,
    o: Outcome<Seq<ValueView>>,
) -> bool {
    &&& output == o.output
    &&& env == o.env
    &&& match r {
        Ok(v) => o.result == Ok::<Seq<ValueView>, RuntimeErrorView>(values_view(v@)),
        Err(e) => o.result == Err::<Seq<ValueView>, RuntimeErrorView>(e@),
    }
}

fn binary_operator(op: Operator) -> (r: bool)
    ensures
        r == is_binary(op),
{
    match op {
        Operator::Plus
        | Operator::Minus
        | Operator::Times
        | Operator::Eq
        | Operator::Ne
        | Operator::LT
        | Operator::GT
        | Operator::LTE
        | Operator::GTE
        | Operator::Mod
        | Operator::Div
        | Operator::LogicOr
        | Operator::LogicAnd => true,
        _ => false,
    }
}

fn unary_operator(op: Operator) -> (r: bool)
    ensures
        r == is_unary(op),
{
    match op {
        Operator::Minus
        | Operator::LogicNot
        | Operator::PreIncrement
        | Operator::PostIncrement
        | Operator::PreDecrement
        | Operator::PostDecrement => true,
        _ => false,
    }
}

fn both(left: Value, right: Value) -> (r: RuntimeError)
    ensures
        r@ == RuntimeErrorView::BadArgs(seq![left@, right@]),
{
    let mut operands: Vec<Value> = Vec::new();
    operands.push(left);
    operands.push(right);
    proof {
        assert(values_view(operands@) =~= seq![left@, right@]);
    }
    RuntimeError::BadArgs(operands)
}

fn number_result(n: Option<Number>, left: Number, right: Number) -> (r: Result<
    Value,
    RuntimeError,
>)
    ensures
        value_result_view(r) == crate::interpreter::semantics::number_or(
            n,
            RuntimeErrorView::BadArgs(seq![ValueView::Num(left), ValueView::Num(right)]),
        ),
{
    match n {
        Some(n) => Ok(Value::Num(n)),
        None => Err(both(Value::Num(left), Value::Num(right))),
    }
}

/// The result of a binary operator other than the logical ones on two
/// values.
pub fn apply_binary(op: Operator, left: Value, right: Value) -> (r: Result<Value, RuntimeError>)
    ensures
        value_result_view(r) == binary_result(op, left@, right@),
{
    match op {
        Operator::Plus => match left {
            Value::Num(a) => match right {
                Value::Num(b) => number_result(a.add(b), a, b),
                other => Err(RuntimeError::BadArg(other)),
            },
            Value::Str(a) => match right {
                Value::Str(b) => Ok(Value::Str(a.concat(b.as_str()))),
                other => Err(RuntimeError::BadArg(Value::Str(a))),
            },
            Value::List(a) => match right {
                Value::List(b) => {
                    let mut joined = a;
                    let mut second = b;
                    let ghost first_view = values_view(joined@);
                    let ghost second_view = values_view(second@);
                    joined.append(&mut second);
                    proof {
                        assert(values_view(joined@) =~= first_view + second_view);
                    }
                    Ok(Value::List(joined))
                },
                other => Err(RuntimeError::BadArg(Value::List(a))),
            },
            other => Err(RuntimeError::BadArg(other)),
        },
        Operator::Minus => match left {
            Value::Num(a) => match right {
                Value::Num(b) => number_result(a.sub(b), a, b),
                other => Err(RuntimeError::BadArg(other)),
            },
            other => Err(RuntimeError::BadArg(other)),
        },
        Operator::Times => match left {
            Value::Num(a) => match right {
                Value::Num(b) => number_result(a.mul(b), a, b),
                other => Err(both(Value::Num(a), other)),
            },
            other => Err(both(other, right)),
        },
        Operator::Div => match left {
            Value::Num(a) => match right {
                Value::Num(b) => number_result(a.div(b), a, b),
                other => Err(both(Value::Num(a), other)),
            },
            other => Err(both(other, right)),
        },
        Operator::Mod => match left {
            Value::Num(a) => match right {
                Value::Num(b) => number_result(a.rem(b), a, b),
                other => Err(both(Value::Num(a), other)),
            },
            other => Err(both(other, right)),
        },
        Operator::Eq => match left {
            Value::Num(a) => match right {
                Value::Num(b) => Ok(Value::Bool(a.units == b.units)),
                other => Err(both(Value::Num(a), other)),
            },
            Value::Bool(a) => match right {
                Value::Bool(b) => Ok(Value::Bool(a == b)),
                other => Err(both(Value::Bool(a), other)),
            },
            other => Err(both(other, right)),
        },
        Operator::Ne => match left {
            Value::Num(a) => match right {
                Value::Num(b) => Ok(Value::Bool(a.units != b.units)),
                other => Err(both(Value::Num(a), other)),
            },
            Value::Bool(a) => match right {
                Value::Bool(b) => Ok(Value::Bool(a != b)),
                other => Err(both(Value::Bool(a), other)),
            },
            other => Err(both(other, right)),
        },
        Operator::LT => match left {
            Value::Num(a) => match right {
                Value::Num(b) => Ok(Value::Bool(a.units < b.units)),
                other => Err(both(Value::Num(a), other)),
            },
            other => Err(both(other, right)),
        },
        Operator::GT => match left {
            Value::Num(a) => match right {
                Value::Num(b) => Ok(Value::Bool(a.units > b.units)),
                other => Err(both(Value::Num(a), other)),
            },
            other => Err(both(other, right)),
        },
        Operator::LTE => match left {
            Value::Num(a) => match right {
                Value::Num(b) => Ok(Value::Bool(a.units <= b.units)),
                other => Err(both(Value::Num(a), other)),
            },
            other => Err(both(other, right)),
        },
        Operator::GTE => match left {
            Value::Num(a) => match right {
                Value::Num(b) => Ok(Value::Bool(a.units >= b.units)),
                other => Err(both(Value::Num(a), other)),
            },
            other => Err(both(other, right)),
        },
        _ => Err(RuntimeError::UnaryAsBinary(op)),
    }
}

/// The place in a list or a string of the given length that an index value
/// names.
pub fn index_of(length: usize, index: Value) -> (r: Result<usize, RuntimeError>)
    ensures
        match r {
            Ok(i) => index_position(length as nat, index@) == Ok::<int, RuntimeErrorView>(i as int)
                && i < length,
            Err(e) => index_position(length as nat, index@) == Err::<int, _>(e@),
        },
{
    match index {
        Value::Num(n) => {
            if !n.is_integer() {
                return Err(RuntimeError::ExpectedInteger(Value::Num(n)));
            }
            let i = n.integer_part();
            if i < 0 || (i as u64) >= (length as u64) {
                return Err(RuntimeError::IndexOutOfBounds(i));
            }
            Ok(i as usize)
        },
        other => Err(RuntimeError::ExpectedInteger(other)),
    }
}

/// The element of a list or the character of a string at an index.
pub fn apply_index(base: Value, index: Value) -> (r: Result<Value, RuntimeError>)
    ensures
        value_result_view(r) == index_result(base@, index@),
{
    match base {
        Value::List(items) => {
            let i = index_of(items.len(), index)?;
            Ok(items[i].duplicate())
        },
        Value::Str(s) => {
            let i = index_of(s.as_str().unicode_len(), index)?;
            let mut text = String::new();
            push_char(&mut text, s.as_str().get_char(i));
            proof {
                assert(text@ =~= seq![s@[i as int]]);
            }
            Ok(Value::Str(text))
        },
        other => Err(RuntimeError::NotIndexable(other)),
    }
}

/// The result of a builtin of one argument on the value of that argument.
fn apply_builtin(builtin: Builtin, value: Value) -> (r: Result<Value, RuntimeError>)
    requires
        builtin != Builtin::Print,
        builtin != Builtin::List,
    ensures
        value_result_view(r) == builtin_result(builtin, value@),
{
    match builtin {
        Builtin::IsNil => match value {
            Value::Nil => Ok(Value::Bool(true)),
            _ => Ok(Value::Bool(false)),
        },
        Builtin::IsEmpty => {
            let items = ensure_list(value)?;
            Ok(Value::Bool(items.len() == 0))
        },
        Builtin::Head => {
            let items = ensure_list(value)?;
            if items.len() == 0 {
                Ok(Value::Nil)
            } else {
                Ok(items[0].duplicate())
            }
        },
        _ => {
            let mut items = ensure_list(value)?;
            if items.len() == 0 {
                Ok(Value::Nil)
            } else {
                let ghost before = values_view(items@);
                items.remove(0);
                proof {
                    assert(values_view(items@) =~= before.drop_first());
                }
                Ok(Value::List(items))
            }
        },
    }
}

fn bind_parameters(params: &Vec<String>, values: Vec<Value>) -> (r: Vec<Binding>)
    requires
        params@.len() == values@.len(),
    ensures
        bindings_view(r@) == parameter_bindings(names_view(params@), values_view(values@)),
{
    let mut values = values;
    let ghost all = values_view(values@);
    let mut bindings: Vec<Binding> = Vec::new();
    let mut i: usize = 0;
    while i < params.len()
        invariant
            i <= params@.len(),
            params@.len() == all.len(),
            values@.len() == params@.len() - i,
            bindings@.len() == i,
            forall|j: int| 0 <= j < values@.len() ==> (#[trigger] values@[j])@ == all[i + j],
            forall|j: int|
                0 <= j < i ==> (#[trigger] bindings@[j]).0@ == params@[j]@ && bindings@[j].1.0@
                    == all[j] && bindings@[j].1.1 == AssignmentType::Initialized
                    && bindings@[j].1.2 == Mutability::Constant,
        decreases params@.len() - i,
    {
        let ghost before = values@;
        let value = values.remove(0);
        proof {
            assert forall|j: int| 0 <= j < values@.len() implies (#[trigger] values@[j])@ == all[i
                + 1 + j] by {
                assert(values@[j] == before[j + 1]);
            }
            assert(value@ == all[i as int]);
        }
        bindings.push(
            (params[i].clone(), (value, AssignmentType::Initialized, Mutability::Constant)),
        );
        i += 1;
    }
    proof {
        assert(bindings_view(bindings@) =~= parameter_bindings(names_view(params@), all));
    }
    bindings
}

/// A failure among the first expressions of a list is the failure of the
/// whole list.
proof fn lemma_exprs_failure(
    env: EnvironmentView,
    es: Seq<ExprView>,
    k: int,
    output: Seq<char>,
    limit: nat,
)
    requires
        0 <= k <= es.len(),
        eval_exprs(env, es.subrange(0, k), output, limit).result is Err,
    ensures
        eval_exprs(env, es, output, limit) == eval_exprs(env, es.subrange(0, k), output, limit),
    decreases es.len() - k,
{
    if k == es.len() {
        assert(es.subrange(0, k) =~= es);
    } else {
        assert(es.drop_last().subrange(0, k) =~= es.subrange(0, k));
        lemma_exprs_failure(env, es.drop_last(), k, output, limit);
    }
}

/// The values of the expressions of a list, evaluated one after the other.
pub fn interp_exprs(
    env: &mut Environment,
    exprs: &Vec<Expr>,
    writer: &mut Writer,
    limit: u64,
) -> (r: Result<Vec<Value>, RuntimeError>)
    ensures
        values_agree(
            r,
            final(env)@,
            final(writer)@,
            eval_exprs(old(env)@, exprs_view(exprs@), old(writer)@, limit as nat),
        ),
        r matches Ok(values) ==> values@.len() == exprs@.len(),
    decreases limit, exprs, 0nat,
{
    let mut values: Vec<Value> = Vec::new();
    let mut i: usize = 0;
    let ghost all = exprs_view(exprs@);
    proof {
        assert(values_view(values@) =~= Seq::empty());
        assert(all.subrange(0, 0) =~= Seq::empty());
    }
    while i < exprs.len()
        invariant
            i <= exprs@.len(),
            values@.len() == i,
            all == exprs_view(exprs@),
            eval_exprs(old(env)@, all.subrange(0, i as int), old(writer)@, limit as nat) == done(
                values_view(values@),
                env@,
                writer@,
            ),
        decreases exprs@.len() - i,
    {
        let ghost before = values_view(values@);
        proof {
            assert(all.subrange(0, i + 1).drop_last() =~= all.subrange(0, i as int));
            assert(all.subrange(0, i + 1).last() == exprs@[i as int]@);
        }
        match interp_expression(env, &exprs[i], writer, limit) {
            Err(e) => {
                proof {
                    lemma_exprs_failure(old(env)@, all, i + 1, old(writer)@, limit as nat);
                }
                return Err(e);
            },
            Ok(value) => {
                values.push(value);
                proof {
                    assert(values_view(values@) =~= before.push(value@));
                }
            },
        }
        i += 1;
    }
    proof {
        assert(all.subrange(0, i as int) =~= all);
    }
    Ok(values)
}

/// The value of an expression. The evaluation may bind and assign in the
/// environment and write to the writer; `limit` bounds how deep it may go
/// by calls and by turns of loops.
pub fn interp_expression(
    env: &mut Environment,
    expr: &Expr,
    writer: &mut Writer,
    limit: u64,
) -> (r: Result<Value, RuntimeError>)
    ensures
        value_agrees(
            r,
            final(env)@,
            final(writer)@,
            eval_expr(old(env)@, expr@, old(writer)@, limit as nat),
        ),
    decreases limit, expr, 1nat,
{
    match expr {
        Expr::Num(n) => Ok(Value::Num(*n)),
        Expr::Bool(b) => Ok(Value::Bool(*b)),
        Expr::Str(s) => Ok(Value::Str(s.clone())),
        Expr::Var(name) => env.get(name.clone()),
        Expr::Lambda(params, body) => Ok(
            Value::Proc(duplicate_names(params), body.duplicate(), env.duplicate()),
        ),
        Expr::Binary(_, _, _) => interp_binary(env, expr, writer, limit),
        Expr::Unary(_, _) => interp_unary(env, expr, writer, limit),
        Expr::PrimitiveCall(_, _) => interp_builtin(env, expr, writer, limit),
        Expr::Call(_, _) => interp_call(env, expr, writer, limit),
        Expr::Index(_, _) => interp_index(env, expr, writer, limit),
    }
}

/// The value of a binary operation.
fn interp_binary(env: &mut Environment, expr: &Expr, writer: &mut Writer, limit: u64) -> (r:
    Result<Value, RuntimeError>)
    requires
        expr is Binary,
    ensures
        value_agrees(
            r,
            final(env)@,
            final(writer)@,
            eval_binary(old(env)@, expr@, old(writer)@, limit as nat),
        ),
    decreases limit, expr, 0nat,
{
    match expr {
        Expr::Binary(op, left, right) => {
            if !binary_operator(*op) {
                return Err(RuntimeError::UnaryAsBinary(*op));
            }
            let l = interp_expression(env, left, writer, limit)?;
            if *op == Operator::LogicOr || *op == Operator::LogicAnd {
                match l {
                    Value::Bool(b) => {
                        if b == (*op == Operator::LogicOr) {
                            Ok(Value::Bool(b))
                        } else {
                            match interp_expression(env, right, writer, limit)? {
                                Value::Bool(c) => Ok(Value::Bool(c)),
                                other => Err(RuntimeError::BadArg(other)),
                            }
                        }
                    },
                    other => Err(RuntimeError::BadArg(other)),
                }
            } else {
                let r = interp_expression(env, right, writer, limit)?;
                apply_binary(*op, l, r)
            }
        },
        _ => Err(RuntimeError::InvalidAssignmentTarget),
    }
}

/// The value of a unary operation.
fn interp_unary(env: &mut Environment, expr: &Expr, writer: &mut Writer, limit: u64) -> (r:
    Result<Value, RuntimeError>)
    requires
        expr is Unary,
    ensures
        value_agrees(
            r,
            final(env)@,
            final(writer)@,
            eval_unary(old(env)@, expr@, old(writer)@, limit as nat),
        ),
    decreases limit, expr, 0nat,
{
    match expr {
        Expr::Unary(op, operand) => {
            if !unary_operator(*op) {
                return Err(RuntimeError::BinaryAsUnary(*op));
            }
            if *op == Operator::Minus || *op == Operator::LogicNot {
                match interp_expression(env, operand, writer, limit)? {
                    Value::Num(n) => {
                        if *op == Operator::Minus {
                            match n.neg() {
                                Some(m) => Ok(Value::Num(m)),
                                None => Err(RuntimeError::BadArg(Value::Num(n))),
                            }
                        } else {
                            Err(RuntimeError::BadArg(Value::Num(n)))
                        }
                    },
                    Value::Bool(b) => {
                        if *op == Operator::LogicNot {
                            Ok(Value::Bool(!b))
                        } else {
                            Err(RuntimeError::BadArg(Value::Bool(b)))
                        }
                    },
                    other => Err(RuntimeError::BadArg(other)),
                }
            } else {
                let name = match &**operand {
                    Expr::Var(name) => name.clone(),
                    _ => {
                        return Err(RuntimeError::InvalidAssignmentTarget);
                    },
                };
                let n = match interp_expression(env, operand, writer, limit)? {
                    Value::Num(n) => n,
                    other => {
                        return Err(RuntimeError::BadArg(other));
                    },
                };
                let up = *op == Operator::PreIncrement || *op == Operator::PostIncrement;
                let pre = *op == Operator::PreIncrement || *op == Operator::PreDecrement;
                let changed = if up {
                    n.add(Number::one())
                } else {
                    n.sub(Number::one())
                };
                match changed {
                    None => Err(RuntimeError::BadArg(Value::Num(n))),
                    Some(m) => {
                        env.reassign(name, Value::Num(m))?;
                        Ok(
                            Value::Num(
                                if pre {
                                    m
                                } else {
                                    n
                                },
                            ),
                        )
                    },
                }
            }
        },
        _ => Err(RuntimeError::InvalidAssignmentTarget),
    }
}

/// The value of a call of a builtin.
fn interp_builtin(env: &mut Environment, expr: &Expr, writer: &mut Writer, limit: u64) -> (r:
    Result<Value, RuntimeError>)
    requires
        expr is PrimitiveCall,
    ensures
        value_agrees(
            r,
            final(env)@,
            final(writer)@,
            eval_builtin(old(env)@, expr@, old(writer)@, limit as nat),
        ),
    decreases limit, expr, 0nat,
{
    match expr {
        Expr::PrimitiveCall(builtin, args) => {
            match builtin {
                Builtin::Print => {
                    let values = interp_exprs(env, args, writer, limit)?;
                    let text = join_values(&values, " ");
                    writer.write(text.as_str());
                    Ok(Value::Nil)
                },
                Builtin::List => {
                    let values = interp_exprs(env, args, writer, limit)?;
                    Ok(Value::List(values))
                },
                _ => {
                    let arg = ensure_single_arg(*builtin, args)?;
                    let value = interp_expression(env, arg, writer, limit)?;
                    apply_builtin(*builtin, value)
                },
            }
        },
        _ => Err(RuntimeError::InvalidAssignmentTarget),
    }
}

/// The value of a call.
fn interp_call(env: &mut Environment, expr: &Expr, writer: &mut Writer, limit: u64) -> (r:
    Result<Value, RuntimeError>)
    requires
        expr is Call,
    ensures
        value_agrees(
            r,
            final(env)@,
            final(writer)@,
            eval_call(old(env)@, expr@, old(writer)@, limit as nat),
        ),
    decreases limit, expr, 0nat,
{
    match expr {
        Expr::Call(callee, args) => {
            let name = match &**callee {
                Expr::Var(name) => name.clone(),
                _ => String::from_str("<lambda>"),
            };
            match interp_expression(env, callee, writer, limit)? {
                Value::Proc(params, body, captured) => {
                    proof {
                        assert(exprs_view(args@).len() == args@.len());
                        assert(names_view(params@).len() == params@.len());
                    }
                    if args.len() != params.len() {
                        return Err(RuntimeError::ArgMismatch(name, params.len(), args.len()));
                    }
                    let values = interp_exprs(env, args, writer, limit)?;
                    if limit == 0 {
                        return Err(RuntimeError::LimitExceeded);
                    }
                    let bindings = bind_parameters(&params, values);
                    let mut scope = captured.extend(bindings);
                    let (value, flow) = interp_statement(
                        &mut scope,
                        &body,
                        false,
                        writer,
                        limit - 1,
                    )?;
                    if flow == ControlFlow::Return {
                        Ok(value)
                    } else {
                        Ok(Value::Nil)
                    }
                },
                other => Err(RuntimeError::BadArg(other)),
            }
        },
        _ => Err(RuntimeError::InvalidAssignmentTarget),
    }
}

/// The value of an indexing.
fn interp_index(env: &mut Environment, expr: &Expr, writer: &mut Writer, limit: u64) -> (r:
    Result<Value, RuntimeError>)
    requires
        expr is Index,
    ensures
        value_agrees(
            r,
            final(env)@,
            final(writer)@,
            eval_index(old(env)@, expr@, old(writer)@, limit as nat),
        ),
    decreases limit, expr, 0nat,
{
    match expr {
        Expr::Index(base, index) => {
            let b = interp_expression(env, base, writer, limit)?;
            let indexable = match &b {
                Value::List(_) => true,
                Value::Str(_) => true,
                _ => false,
            };
            if indexable {
                let i = interp_expression(env, index, writer, limit)?;
                apply_index(b, i)
            } else {
                Err(RuntimeError::NotIndexable(b))
            }
        },
        _ => Err(RuntimeError::InvalidAssignmentTarget),
    }
}

} // verus!
