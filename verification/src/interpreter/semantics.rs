//! What evaluation means: the outcome of every expression and statement of
//! the core language, as a function of the environment, of what was written
//! so far, and of a limit.
//!
//! The limit bounds how deep an evaluation may go by calls and by turns of
//! loops: each call evaluates its body under a limit that is one less, and
//! so does each further turn of a `while`. Where the limit is used up the
//! outcome is a failure.
use vstd::prelude::*;
use crate::desugar::ExprView;
use crate::desugar::StatementView;
use crate::environment::AssignmentType;
use crate::environment::BindingView;
use crate::environment::EnvironmentView;
use crate::environment::Mutability;
use crate::error::RuntimeErrorView;
use crate::interpreter::display_list;
use crate::interpreter::statements::ControlFlow;
use crate::interpreter::ValueView;
use crate::number::Number;
use crate::number::SCALE;
use crate::parser::builtin_name;
use crate::parser::Builtin;
use crate::parser::ProgramView;
use crate::tokenizer::Operator;

verus! {

/// What an evaluation leaves behind: its result, the environment after it,
/// and all that was written up to its end. After a failure the environment
/// is as the failure left it: what was bound and assigned before it stays,
/// but a block that fails writes nothing back.
pub struct Outcome<T> {
    pub result: Result<T, RuntimeErrorView>,
    pub env: EnvironmentView,
    pub output: Seq<char>,
}

/// The outcome of an evaluation that went well.
pub open spec fn done<T>(value: T, env: EnvironmentView, output: Seq<char>) -> Outcome<T> {
    Outcome { result: Ok(value), env, output }
}

/// The outcome of an evaluation that failed.
pub open spec fn failed<T>(error: RuntimeErrorView, env: EnvironmentView, output: Seq<char>)
    -> Outcome<T> {
    Outcome { result: Err(error), env, output }
}

/// The outcome of an evaluation whose result is known, be it a value or a
/// failure.
pub open spec fn settled<T>(
    result: Result<T, RuntimeErrorView>,
    env: EnvironmentView,
    output: Seq<char>,
) -> Outcome<T> {
    Outcome { result, env, output }
}

/// The number that an operation gave, or the failure that names its
/// operands where it gave none.
pub open spec fn number_or(n: Option<Number>, error: RuntimeErrorView) -> Result<
    ValueView,
    RuntimeErrorView,
> {
    match n {
        Some(n) => Ok(ValueView::Num(n)),
        None => Err(error),
    }
}

/// Whether an operator takes two operands.
pub open spec fn is_binary(op: Operator) -> bool {
    match op {
        Operator::Plus
        | Operator::Minus
        | Operator::Times
        | Operator::Eq
        | Operator::Ne
        | Operator::LT
        | Operator::GT
        | Operator::LTE
        | Operator::GTE
        | Operator::Mod
        | Operator::Div
        | Operator::LogicOr
        | Operator::LogicAnd => true,
        _ => false,
    }
}

/// Whether an operator takes one operand.
pub open spec fn is_unary(op: Operator) -> bool {
    match op {
        Operator::Minus
        | Operator::LogicNot
        | Operator::PreIncrement
        | Operator::PostIncrement
        | Operator::PreDecrement
        | Operator::PostDecrement => true,
        _ => false,
    }
}

/// The result of a binary operator other than the logical ones on two
/// values. Arithmetic and comparison take two numbers; `+` also joins two
/// strings or two lists; `==` and `!=` also compare two booleans. An
/// arithmetic result that does not exist, by division by zero or for want
/// of room, is a failure that names both operands.
pub open spec fn binary_result(op: Operator, left: ValueView, right: ValueView) -> Result<
    ValueView,
    RuntimeErrorView,
> {
    let both = RuntimeErrorView::BadArgs(seq![left, right]);
    match op {
        Operator::Plus => match (left, right) {
            (ValueView::Num(a), ValueView::Num(b)) => number_or(a.spec_add(b), both),
            (ValueView::Str(a), ValueView::Str(b)) => Ok(ValueView::Str(a + b)),
            (ValueView::List(a), ValueView::List(b)) => Ok(ValueView::List(a + b)),
            (ValueView::Num(_), _) => Err(RuntimeErrorView::BadArg(right)),
            _ => Err(RuntimeErrorView::BadArg(left)),
        },
        Operator::Minus => match (left, right) {
            (ValueView::Num(a), ValueView::Num(b)) => number_or(a.spec_sub(b), both),
            (ValueView::Num(_), _) => Err(RuntimeErrorView::BadArg(right)),
            _ => Err(RuntimeErrorView::BadArg(left)),
        },
        Operator::Times => match (left, right) {
            (ValueView::Num(a), ValueView::Num(b)) => number_or(a.spec_mul(b), both),
            _ => Err(both),
        },
        Operator::Div => match (left, right) {
            (ValueView::Num(a), ValueView::Num(b)) => number_or(a.spec_div(b), both),
            _ => Err(both),
        },
        Operator::Mod => match (left, right) {
            (ValueView::Num(a), ValueView::Num(b)) => number_or(a.spec_rem(b), both),
            _ => Err(both),
        },
        Operator::Eq => match (left, right) {
            (ValueView::Num(a), ValueView::Num(b)) => Ok(ValueView::Bool(a.units == b.units)),
            (ValueView::Bool(a), ValueView::Bool(b)) => Ok(ValueView::Bool(a == b)),
            _ => Err(both),
        },
        Operator::Ne => match (left, right) {
            (ValueView::Num(a), ValueView::Num(b)) => Ok(ValueView::Bool(a.units != b.units)),
            (ValueView::Bool(a), ValueView::Bool(b)) => Ok(ValueView::Bool(a != b)),
            _ => Err(both),
        },
        Operator::LT => match (left, right) {
            (ValueView::Num(a), ValueView::Num(b)) => Ok(ValueView::Bool(a.units < b.units)),
            _ => Err(both),
        },
        Operator::GT => match (left, right) {
            (ValueView::Num(a), ValueView::Num(b)) => Ok(ValueView::Bool(a.units > b.units)),
            _ => Err(both),
        },
        Operator::LTE => match (left, right) {
            (ValueView::Num(a), ValueView::Num(b)) => Ok(ValueView::Bool(a.units <= b.units)),
            _ => Err(both),
        },
        Operator::GTE => match (left, right) {
            (ValueView::Num(a), ValueView::Num(b)) => Ok(ValueView::Bool(a.units >= b.units)),
            _ => Err(both),
        },
        _ => Err(RuntimeErrorView::UnaryAsBinary(op)),
    }
}

/// The place in a list or a string of the given length that an index value
/// names: the value must be a whole number, not negative and below the
/// length.
pub open spec fn index_position(length: nat, index: ValueView) -> Result<int, RuntimeErrorView> {
    match index {
        ValueView::Num(n) => {
            if !n.spec_is_integer() {
                Err(RuntimeErrorView::ExpectedInteger(index))
            } else if n.spec_integer_part() < 0 || n.spec_integer_part() >= length {
                Err(RuntimeErrorView::IndexOutOfBounds(n.spec_integer_part() as i64))
            } else {
                Ok(n.spec_integer_part())
            }
        },
        _ => Err(RuntimeErrorView::ExpectedInteger(index)),
    }
}

/// The element of a list or the character of a string at an index.
pub open spec fn index_result(base: ValueView, index: ValueView) -> Result<
    ValueView,
    RuntimeErrorView,
>
    recommends
        base is List || base is Str,
{
    match base {
        ValueView::List(items) => match index_position(items.len(), index) {
            Ok(i) => Ok(items[i]),
            Err(e) => Err(e),
        },
        ValueView::Str(s) => match index_position(s.len(), index) {
            Ok(i) => Ok(ValueView::Str(seq![s[i]])),
            Err(e) => Err(e),
        },
        _ => Err(RuntimeErrorView::NotIndexable(base)),
    }
}

/// The one argument of a builtin that takes one. Given another number of
/// arguments it fails; the failure names the builtin, then the one argument
/// that it takes, then the number that it was given.
pub open spec fn single_argument<T>(builtin: Builtin, args: Seq<T>) -> Result<T, RuntimeErrorView> {
    if args.len() == 1 {
        Ok(args[0])
    } else {
        Err(RuntimeErrorView::ArgMismatch(builtin_name(builtin), 1, args.len() as usize))
    }
}

/// The items of a value that must be a list.
pub open spec fn list_items(value: ValueView) -> Result<Seq<ValueView>, RuntimeErrorView> {
    match value {
        ValueView::List(items) => Ok(items),
        _ => Err(RuntimeErrorView::ExpectedList(value)),
    }
}

/// The result of a builtin of one argument on the value of that argument.
pub open spec fn builtin_result(builtin: Builtin, value: ValueView) -> Result<
    ValueView,
    RuntimeErrorView,
>
    recommends
        builtin != Builtin::Print && builtin != Builtin::List,
{
    match builtin {
        Builtin::IsNil => Ok(ValueView::Bool(value is Nil)),
        Builtin::IsEmpty => match list_items(value) {
            Ok(items) => Ok(ValueView::Bool(items.len() == 0)),
            Err(e) => Err(e),
        },
        Builtin::Head => match list_items(value) {
            Ok(items) => Ok(
                if items.len() == 0 {
                    ValueView::Nil
                } else {
                    items[0]
                },
            ),
            Err(e) => Err(e),
        },
        _ => match list_items(value) {
            Ok(items) => Ok(
                if items.len() == 0 {
                    ValueView::Nil
                } else {
                    ValueView::List(items.drop_first())
                },
            ),
            Err(e) => Err(e),
        },
    }
}

/// The bindings of the parameters of a call: each parameter bound to the
/// value of its argument, as a constant.
pub open spec fn parameter_bindings(params: Seq<Seq<char>>, values: Seq<ValueView>) -> Seq<
    BindingView,
> {
    Seq::new(
        params.len(),
        |i: int| (params[i], (values[i], AssignmentType::Initialized, Mutability::Constant)),
    )
}

/// The name by which a failure speaks of the callee of a call.
pub open spec fn callee_name(callee: ExprView) -> Seq<char> {
    match callee {
        ExprView::Var(name) => name,
        _ => "<lambda>"@,
    }
}

/// The value of a body that ended with the given value and signal: the
/// value where it ended by `return`, else nil.
pub open spec fn returned(value: ValueView, flow: ControlFlow) -> ValueView {
    if flow == ControlFlow::Return {
        value
    } else {
        ValueView::Nil
    }
}

/// The number one.
pub open spec fn one() -> Number {
    Number { units: SCALE }
}

/// The outcome of an expression.
pub open spec fn eval_expr(env: EnvironmentView, e: ExprView, output: Seq<char>, limit: nat)
    -> Outcome<ValueView>
    decreases limit, e, 1nat,
{
    match e {
        ExprView::Num(n) => done(ValueView::Num(n), env, output),
        ExprView::Bool(b) => done(ValueView::Bool(b), env, output),
        ExprView::Str(s) => done(ValueView::Str(s), env, output),
        ExprView::Var(name) => settled(env.lookup(name), env, output),
        ExprView::Lambda(params, body) => done(ValueView::Proc(params, *body, env), env, output),
        ExprView::Binary(_, _, _) => eval_binary(env, e, output, limit),
        ExprView::Unary(_, _) => eval_unary(env, e, output, limit),
        ExprView::PrimitiveCall(_, _) => eval_builtin(env, e, output, limit),
        ExprView::Call(_, _) => eval_call(env, e, output, limit),
        ExprView::Index(_, _) => eval_index(env, e, output, limit),
    }
}

/// The outcome of the expressions of a list, one after the other; the first
/// failure ends it.
pub open spec fn eval_exprs(
    env: EnvironmentView,
    es: Seq<ExprView>,
    output: Seq<char>,
    limit: nat,
) -> Outcome<Seq<ValueView>>
    decreases limit, es, 0nat,
{
    if es.len() == 0 {
        done(Seq::empty(), env, output)
    } else {
        let before = eval_exprs(env, es.drop_last(), output, limit);
        match before.result {
            Err(e) => before,
            Ok(values) => {
                let last = eval_expr(before.env, es.last(), before.output, limit);
                match last.result {
                    Err(e) => failed(e, last.env, last.output),
                    Ok(value) => done(values.push(value), last.env, last.output),
                }
            },
        }
    }
}

/// The outcome of a binary operation. The logical operators evaluate their
/// right operand only where the left one does not decide; the others
/// evaluate both, left first.
pub open spec fn eval_binary(env: EnvironmentView, e: ExprView, output: Seq<char>, limit: nat)
    -> Outcome<ValueView>
    decreases limit, e, 0nat,
    when e is Binary
{
    match e {
        ExprView::Binary(op, left, right) => {
            if !is_binary(op) {
                failed(RuntimeErrorView::UnaryAsBinary(op), env, output)
            } else {
                let l = eval_expr(env, *left, output, limit);
                match l.result {
                    Err(e) => l,
                    Ok(lv) => {
                        if op == Operator::LogicOr || op == Operator::LogicAnd {
                            match lv {
                                ValueView::Bool(b) => {
                                    if b == (op == Operator::LogicOr) {
                                        done(ValueView::Bool(b), l.env, l.output)
                                    } else {
                                        let r = eval_expr(l.env, *right, l.output, limit);
                                        match r.result {
                                            Err(e) => r,
                                            Ok(ValueView::Bool(c)) => r,
                                            Ok(rv) => failed(
                                                RuntimeErrorView::BadArg(rv),
                                                r.env,
                                                r.output,
                                            ),
                                        }
                                    }
                                },
                                _ => failed(RuntimeErrorView::BadArg(lv), l.env, l.output),
                            }
                        } else {
                            let r = eval_expr(l.env, *right, l.output, limit);
                            match r.result {
                                Err(e) => r,
                                Ok(rv) => settled(binary_result(op, lv, rv), r.env, r.output),
                            }
                        }
                    },
                }
            }
        },
        _ => arbitrary(),
    }
}

/// The outcome of a unary operation. An increment or a decrement takes a
/// variable, assigns it its value changed by one, and gives the new value
/// where it stands before the variable and the old one where it stands
/// after.
pub open spec fn eval_unary(env: EnvironmentView, e: ExprView, output: Seq<char>, limit: nat)
    -> Outcome<ValueView>
    decreases limit, e, 0nat,
    when e is Unary
{
    match e {
        ExprView::Unary(op, operand) => {
            if !is_unary(op) {
                failed(RuntimeErrorView::BinaryAsUnary(op), env, output)
            } else if op == Operator::Minus || op == Operator::LogicNot {
                let o = eval_expr(env, *operand, output, limit);
                match o.result {
                    Err(e) => o,
                    Ok(v) => settled(
                        match v {
                            ValueView::Num(n) => if op == Operator::Minus {
                                number_or(n.spec_neg(), RuntimeErrorView::BadArg(v))
                            } else {
                                Err(RuntimeErrorView::BadArg(v))
                            },
                            ValueView::Bool(b) => if op == Operator::LogicNot {
                                Ok(ValueView::Bool(!b))
                            } else {
                                Err(RuntimeErrorView::BadArg(v))
                            },
                            _ => Err(RuntimeErrorView::BadArg(v)),
                        },
                        o.env,
                        o.output,
                    ),
                }
            } else {
                match *operand {
                    ExprView::Var(name) => {
                        let o = eval_expr(env, *operand, output, limit);
                        match o.result {
                            Err(e) => o,
                            Ok(ValueView::Num(n)) => {
                                let up = op == Operator::PreIncrement || op
                                    == Operator::PostIncrement;
                                let pre = op == Operator::PreIncrement || op
                                    == Operator::PreDecrement;
                                let changed = if up {
                                    n.spec_add(one())
                                } else {
                                    n.spec_sub(one())
                                };
                                match changed {
                                    None => failed(
                                        RuntimeErrorView::BadArg(ValueView::Num(n)),
                                        o.env,
                                        o.output,
                                    ),
                                    Some(m) => match o.env.reassign(name, ValueView::Num(m)) {
                                        Err(e) => failed(e, o.env, o.output),
                                        Ok(next) => done(
                                            ValueView::Num(
                                                if pre {
                                                    m
                                                } else {
                                                    n
                                                },
                                            ),
                                            next,
                                            o.output,
                                        ),
                                    },
                                }
                            },
                            Ok(v) => failed(RuntimeErrorView::BadArg(v), o.env, o.output),
                        }
                    },
                    _ => failed(RuntimeErrorView::InvalidAssignmentTarget, env, output),
                }
            }
        },
        _ => arbitrary(),
    }
}

/// The outcome of a call of a builtin. `print` writes the texts of its
/// arguments with a space between each two, and gives nil; `list` gives the
/// list of its arguments; the others take one argument.
pub open spec fn eval_builtin(env: EnvironmentView, e: ExprView, output: Seq<char>, limit: nat)
    -> Outcome<ValueView>
    decreases limit, e, 0nat,
    when e is PrimitiveCall
{
    match e {
        ExprView::PrimitiveCall(builtin, args) => {
            if builtin == Builtin::Print || builtin == Builtin::List {
                let a = eval_exprs(env, args, output, limit);
                match a.result {
                    Err(e) => failed(e, a.env, a.output),
                    Ok(values) => if builtin == Builtin::Print {
                        done(ValueView::Nil, a.env, a.output + display_list(values, " "@))
                    } else {
                        done(ValueView::List(values), a.env, a.output)
                    },
                }
            } else {
                match single_argument(builtin, args) {
                    Err(e) => failed(e, env, output),
                    Ok(_) => {
                        let a = eval_expr(env, args[0], output, limit);
                        match a.result {
                            Err(e) => a,
                            Ok(v) => settled(builtin_result(builtin, v), a.env, a.output),
                        }
                    },
                }
            }
        },
        _ => arbitrary(),
    }
}

/// The outcome of a call. The callee is evaluated first and must be a
/// procedure with as many parameters as there are arguments. The arguments
/// are evaluated in the caller's environment, left to right. The body runs,
/// outside every loop, in the environment that the procedure was made in,
/// with the parameters bound as constants. It leaves the caller's
/// environment as the arguments left it.
pub open spec fn eval_call(env: EnvironmentView, e: ExprView, output: Seq<char>, limit: nat)
    -> Outcome<ValueView>
    decreases limit, e, 0nat,
    when e is Call
{
    match e {
        ExprView::Call(callee, args) => {
            let f = eval_expr(env, *callee, output, limit);
            match f.result {
                Err(e) => f,
                Ok(ValueView::Proc(params, body, captured)) => {
                    if args.len() != params.len() {
                        failed(
                            RuntimeErrorView::ArgMismatch(
                                callee_name(*callee),
                                params.len() as usize,
                                args.len() as usize,
                            ),
                            f.env,
                            f.output,
                        )
                    } else {
                        let a = eval_exprs(f.env, args, f.output, limit);
                        match a.result {
                            Err(e) => failed(e, a.env, a.output),
                            Ok(values) => {
                                if limit == 0 {
                                    failed(RuntimeErrorView::LimitExceeded, a.env, a.output)
                                } else {
                                    let b = eval_stmt(
                                        captured.extend(parameter_bindings(params, values)),
                                        body,
                                        false,
                                        a.output,
                                        (limit - 1) as nat,
                                    );
                                    match b.result {
                                        Err(e) => failed(e, a.env, b.output),
                                        Ok((value, flow)) => done(
                                            returned(value, flow),
                                            a.env,
                                            b.output,
                                        ),
                                    }
                                }
                            },
                        }
                    }
                },
                Ok(v) => failed(RuntimeErrorView::BadArg(v), f.env, f.output),
            }
        },
        _ => arbitrary(),
    }
}

/// The outcome of an indexing. The base is evaluated first; the index is
/// evaluated only where the base is a list or a string.
pub open spec fn eval_index(env: EnvironmentView, e: ExprView, output: Seq<char>, limit: nat)
    -> Outcome<ValueView>
    decreases limit, e, 0nat,
    when e is Index
{
    match e {
        ExprView::Index(base, index) => {
            let b = eval_expr(env, *base, output, limit);
            match b.result {
                Err(e) => b,
                Ok(bv) => {
                    if bv is List || bv is Str {
                        let i = eval_expr(b.env, *index, b.output, limit);
                        match i.result {
                            Err(e) => i,
                            Ok(iv) => settled(index_result(bv, iv), i.env, i.output),
                        }
                    } else {
                        failed(RuntimeErrorView::NotIndexable(bv), b.env, b.output)
                    }
                },
            }
        },
        _ => arbitrary(),
    }
}

/// The outcome of a statement: a value and a signal. `in_loop` says whether
/// the statement stands in the body of a loop of the same procedure.
pub open spec fn eval_stmt(
    env: EnvironmentView,
    s: StatementView,
    in_loop: bool,
    output: Seq<char>,
    limit: nat,
) -> Outcome<(ValueView, ControlFlow)>
    decreases limit, s, 1nat,
{
    match s {
        StatementView::Expr(e) => {
            let o = eval_expr(env, e, output, limit);
            match o.result {
                Err(e) => failed(e, o.env, o.output),
                Ok(v) => done((v, ControlFlow::Normal), o.env, o.output),
            }
        },
        StatementView::Let(name, e) => {
            let o = eval_expr(env, e, output, limit);
            match o.result {
                Err(e) => failed(e, o.env, o.output),
                Ok(v) => done(
                    (ValueView::Nil, ControlFlow::Normal),
                    o.env.bind(name, (v, AssignmentType::Initialized, Mutability::Mutable)),
                    o.output,
                ),
            }
        },
        StatementView::Const(name, e) => {
            let o = eval_expr(env, e, output, limit);
            match o.result {
                Err(e) => failed(e, o.env, o.output),
                Ok(v) => done(
                    (ValueView::Nil, ControlFlow::Normal),
                    o.env.bind(name, (v, AssignmentType::Initialized, Mutability::Constant)),
                    o.output,
                ),
            }
        },
        StatementView::Assign(name, e) => {
            let o = eval_expr(env, e, output, limit);
            match o.result {
                Err(e) => failed(e, o.env, o.output),
                Ok(v) => match o.env.reassign(name, v) {
                    Err(e) => failed(e, o.env, o.output),
                    Ok(next) => done((ValueView::Nil, ControlFlow::Normal), next, o.output),
                },
            }
        },
        StatementView::If(cond, then_branch, else_branch) => {
            let c = eval_expr(env, cond, output, limit);
            match c.result {
                Err(e) => failed(e, c.env, c.output),
                Ok(ValueView::Bool(b)) => {
                    if b {
                        eval_stmt(c.env, *then_branch, in_loop, c.output, limit)
                    } else {
                        match else_branch {
                            Some(branch) => eval_stmt(c.env, *branch, in_loop, c.output, limit),
                            None => done((ValueView::Nil, ControlFlow::Normal), c.env, c.output),
                        }
                    }
                },
                Ok(v) => failed(RuntimeErrorView::BadArg(v), c.env, c.output),
            }
        },
        StatementView::While(_, _) => eval_while(env, s, in_loop, output, limit),
        StatementView::Block(_) => eval_block(env, s, in_loop, output, limit),
        StatementView::Return(value) => match value {
            Some(e) => {
                let o = eval_expr(env, e, output, limit);
                match o.result {
                    Err(e) => failed(e, o.env, o.output),
                    Ok(v) => done((v, ControlFlow::Return), o.env, o.output),
                }
            },
            None => done((ValueView::Nil, ControlFlow::Return), env, output),
        },
        StatementView::Break => done((ValueView::Nil, ControlFlow::Break), env, output),
        StatementView::Continue => done((ValueView::Nil, ControlFlow::Continue), env, output),
    }
}

/// The outcome of a `while`. The condition must be a boolean. A `return` in
/// the body ends the loop and goes on upward; a `break` ends the loop, which
/// then ended as any other statement; after a `continue` or the end of the
/// body the loop takes its next turn, under a limit that is one less.
pub open spec fn eval_while(
    env: EnvironmentView,
    s: StatementView,
    in_loop: bool,
    output: Seq<char>,
    limit: nat,
) -> Outcome<(ValueView, ControlFlow)>
    decreases limit, s, 0nat,
    when s is While
{
    match s {
        StatementView::While(cond, body) => {
            let c = eval_expr(env, cond, output, limit);
            match c.result {
                Err(e) => failed(e, c.env, c.output),
                Ok(ValueView::Bool(b)) => {
                    if b {
                        let o = eval_stmt(c.env, *body, true, c.output, limit);
                        match o.result {
                            Err(e) => o,
                            Ok((value, ControlFlow::Return)) => o,
                            Ok((_, ControlFlow::Break)) => done(
                                (ValueView::Nil, ControlFlow::Normal),
                                o.env,
                                o.output,
                            ),
                            Ok(_) => {
                                if limit == 0 {
                                    failed(RuntimeErrorView::LimitExceeded, o.env, o.output)
                                } else {
                                    eval_stmt(o.env, s, in_loop, o.output, (limit - 1) as nat)
                                }
                            },
                        }
                    } else {
                        done((ValueView::Nil, ControlFlow::Normal), c.env, c.output)
                    }
                },
                Ok(v) => failed(RuntimeErrorView::BadArg(v), c.env, c.output),
            }
        },
        _ => arbitrary(),
    }
}

/// The outcome of the statements of a block in a scope: each in turn, up to
/// the first that fails or ends with a signal other than `Normal`. The
/// value is that of the last statement that ran, nil where none did.
pub open spec fn eval_statements(
    scope: EnvironmentView,
    statements: Seq<StatementView>,
    in_loop: bool,
    output: Seq<char>,
    limit: nat,
) -> Outcome<(ValueView, ControlFlow)>
    decreases limit, statements, 0nat,
{
    if statements.len() == 0 {
        done((ValueView::Nil, ControlFlow::Normal), scope, output)
    } else {
        let before = eval_statements(scope, statements.drop_last(), in_loop, output, limit);
        match before.result {
            Ok((_, ControlFlow::Normal)) => eval_stmt(
                before.env,
                statements.last(),
                in_loop,
                before.output,
                limit,
            ),
            _ => before,
        }
    }
}

/// The outcome of a block. Its statements run in a scope that starts as a
/// copy of the environment. When they end, by their last statement or by a
/// signal, what the scope reassigned is merged back into the environment; a
/// `break` or a `continue` outside every loop is a failure instead.
pub open spec fn eval_block(
    env: EnvironmentView,
    s: StatementView,
    in_loop: bool,
    output: Seq<char>,
    limit: nat,
) -> Outcome<(ValueView, ControlFlow)>
    decreases limit, s, 0nat,
    when s is Block
{
    match s {
        StatementView::Block(statements) => {
            let o = eval_statements(env, statements, in_loop, output, limit);
            match o.result {
                Err(e) => failed(e, env, o.output),
                Ok((value, flow)) => {
                    if flow == ControlFlow::Break && !in_loop {
                        failed(RuntimeErrorView::BreakNotInLoop, env, o.output)
                    } else if flow == ControlFlow::Continue && !in_loop {
                        failed(RuntimeErrorView::ContinueNotInLoop, env, o.output)
                    } else {
                        match env.merge(o.env.values) {
                            Err(e) => failed(e, env, o.output),
                            Ok(merged) => done((value, flow), merged, o.output),
                        }
                    }
                },
            }
        },
        _ => arbitrary(),
    }
}

/// The outcome of a program: that of the body of `main`, outside every
/// loop, in the environment of the top-level procedures.
pub open spec fn eval_program(program: ProgramView, output: Seq<char>, limit: nat) -> Outcome<
    ValueView,
> {
    let o = eval_stmt(
        EnvironmentView::initial(program.procedures),
        program.main,
        false,
        output,
        limit,
    );
    match o.result {
        Err(e) => failed(e, o.env, o.output),
        Ok((value, flow)) => done(returned(value, flow), o.env, o.output),
    }
}

/// Short circuit of `&&`: where the left operand is false, the whole is
/// false, and the environment and the output are those that the left operand
/// left. The right operand is not evaluated, whatever it is.
pub proof fn and_skips_its_right_operand(
    env: EnvironmentView,
    left: ExprView,
    right: ExprView,
    output: Seq<char>,
    limit: nat,
)
    requires
        eval_expr(env, left, output, limit).result == Ok::<ValueView, RuntimeErrorView>(
            ValueView::Bool(false),
        ),
    ensures
        eval_expr(
            env,
            ExprView::Binary(Operator::LogicAnd, Box::new(left), Box::new(right)),
            output,
            limit,
        ) == done(
            ValueView::Bool(false),
            eval_expr(env, left, output, limit).env,
            eval_expr(env, left, output, limit).output,
        ),
{
    let e = ExprView::Binary(Operator::LogicAnd, Box::new(left), Box::new(right));
    assert(eval_expr(env, e, output, limit) == eval_binary(env, e, output, limit));
}

/// Short circuit of `||`: where the left operand is true, the whole is
/// true, and the environment and the output are those that the left operand
/// left. The right operand is not evaluated, whatever it is.
pub proof fn or_skips_its_right_operand(
    env: EnvironmentView,
    left: ExprView,
    right: ExprView,
    output: Seq<char>,
    limit: nat,
)
    requires
        eval_expr(env, left, output, limit).result == Ok::<ValueView, RuntimeErrorView>(
            ValueView::Bool(true),
        ),
    ensures
        eval_expr(
            env,
            ExprView::Binary(Operator::LogicOr, Box::new(left), Box::new(right)),
            output,
            limit,
        ) == done(
            ValueView::Bool(true),
            eval_expr(env, left, output, limit).env,
            eval_expr(env, left, output, limit).output,
        ),
{
    let e = ExprView::Binary(Operator::LogicOr, Box::new(left), Box::new(right));
    assert(eval_expr(env, e, output, limit) == eval_binary(env, e, output, limit));
}

/// A `break` or a `continue` that reaches the end of a block outside every
/// loop is a failure.
pub proof fn signal_outside_a_loop_fails(
    env: EnvironmentView,
    statements: Seq<StatementView>,
    output: Seq<char>,
    limit: nat,
)
    ensures
        ({
            let inside = eval_statements(env, statements, false, output, limit);
            let whole = eval_block(env, StatementView::Block(statements), false, output, limit);
            &&& inside.result matches Ok((_, ControlFlow::Break)) ==> whole.result == Err::<
                (ValueView, ControlFlow),
                _,
            >(RuntimeErrorView::BreakNotInLoop)
            &&& inside.result matches Ok((_, ControlFlow::Continue)) ==> whole.result == Err::<
                (ValueView, ControlFlow),
                _,
            >(RuntimeErrorView::ContinueNotInLoop)
        }),
{
}

/// A `break` or a `continue` as a statement of a block outside every loop
/// is a failure, whatever follows it, where the statements before it end as
/// statements do.
pub proof fn break_in_a_body_fails(
    env: EnvironmentView,
    statements: Seq<StatementView>,
    k: int,
    output: Seq<char>,
    limit: nat,
)
    requires
        0 <= k < statements.len(),
        statements[k] == StatementView::Break || statements[k] == StatementView::Continue,
        eval_statements(env, statements.subrange(0, k), false, output, limit).result matches Ok(
            (_, ControlFlow::Normal),
        ),
    ensures
        eval_block(env, StatementView::Block(statements), false, output, limit).result == Err::<
            (ValueView, ControlFlow),
            _,
        >(
            if statements[k] == StatementView::Break {
                RuntimeErrorView::BreakNotInLoop
            } else {
                RuntimeErrorView::ContinueNotInLoop
            },
        ),
{
    let first = statements.subrange(0, k + 1);
    assert(first.drop_last() =~= statements.subrange(0, k));
    assert(first.last() == statements[k]);
    let before = eval_statements(env, first.drop_last(), false, output, limit);
    let at = eval_statements(env, first, false, output, limit);
    assert(at == eval_stmt(before.env, statements[k], false, before.output, limit));
    assert(at.result matches Ok((_, flow)) && flow != ControlFlow::Normal);
    crate::interpreter::statements::lemma_statements_end(
        env,
        statements,
        k + 1,
        false,
        output,
        limit,
    );
}

/// A loop keeps the `break` and the `continue` of its body to itself: a
/// `while` never ends with either signal, so a `break` ends the innermost
/// loop around it and no other.
pub proof fn while_keeps_its_signals(
    env: EnvironmentView,
    s: StatementView,
    in_loop: bool,
    output: Seq<char>,
    limit: nat,
)
    requires
        s is While,
    ensures
        !(eval_stmt(env, s, in_loop, output, limit).result matches Ok((_, ControlFlow::Break))),
        !(eval_stmt(env, s, in_loop, output, limit).result matches Ok((_, ControlFlow::Continue))),
    decreases limit,
{
    assert(eval_stmt(env, s, in_loop, output, limit) == eval_while(env, s, in_loop, output, limit));
    let cond = s->While_0;
    let body = *s->While_1;
    let c = eval_expr(env, cond, output, limit);
    if c.result == Ok::<ValueView, RuntimeErrorView>(ValueView::Bool(true)) {
        let o = eval_stmt(c.env, body, true, c.output, limit);
        match o.result {
            Ok((_, ControlFlow::Normal)) | Ok((_, ControlFlow::Continue)) => {
                if limit > 0 {
                    while_keeps_its_signals(o.env, s, in_loop, o.output, (limit - 1) as nat);
                }
            },
            _ => {},
        }
    }
}

/// Arity: a call of a procedure with another number of arguments than it
/// has parameters fails; the failure names the callee, the number of
/// parameters and the number of arguments. No argument is evaluated.
pub proof fn call_checks_arity(
    env: EnvironmentView,
    callee: ExprView,
    args: Seq<ExprView>,
    output: Seq<char>,
    limit: nat,
)
    requires
        eval_expr(env, callee, output, limit).result matches Ok(ValueView::Proc(params, _, _))
            && params.len() != args.len(),
    ensures
        ({
            let f = eval_expr(env, callee, output, limit);
            eval_expr(env, ExprView::Call(Box::new(callee), args), output, limit) == failed::<
                ValueView,
            >(
                RuntimeErrorView::ArgMismatch(
                    callee_name(callee),
                    f.result->Ok_0->Proc_0.len() as usize,
                    args.len() as usize,
                ),
                f.env,
                f.output,
            )
        }),
{
    let e = ExprView::Call(Box::new(callee), args);
    assert(eval_expr(env, e, output, limit) == eval_call(env, e, output, limit));
}

/// Indexing boundaries: a whole number `i` as index into a list gives the
/// item at `i` where `i` is not negative and below the length, and is out of
/// bounds else.
pub proof fn index_of_a_list(items: Seq<ValueView>, i: int)
    requires
        i64::MIN <= i * SCALE <= i64::MAX,
    ensures
        index_result(ValueView::List(items), ValueView::Num(Number { units: (i * SCALE) as i64 }))
            == if 0 <= i < items.len() {
            Ok::<ValueView, RuntimeErrorView>(items[i])
        } else {
            Err::<ValueView, RuntimeErrorView>(RuntimeErrorView::IndexOutOfBounds(i as i64))
        },
{
    whole_number(i);
}

/// The number of `i` millions of units is whole, and its integer part is
/// `i`.
pub proof fn whole_number(i: int)
    requires
        i64::MIN <= i * SCALE <= i64::MAX,
    ensures
        (Number { units: (i * SCALE) as i64 }).spec_is_integer(),
        (Number { units: (i * SCALE) as i64 }).spec_integer_part() == i,
        i64::MIN <= i <= i64::MAX,
{
    let m = crate::number::magnitude(i);
    assert(SCALE == 1_000_000);
    assert(crate::number::magnitude(i * SCALE) == m * 1_000_000);
    assert((m * 1_000_000) % 1_000_000 == 0 && (m * 1_000_000) / 1_000_000 == m) by (nonlinear_arith);
}

/// Indexing boundaries: an index that is no number, or a number that is not
/// whole, is no integer, whatever the list or the string.
pub proof fn index_must_be_an_integer(base: ValueView, index: ValueView)
    requires
        base is List || base is Str,
        !(index matches ValueView::Num(n) && n.spec_is_integer()),
    ensures
        index_result(base, index) == Err::<ValueView, RuntimeErrorView>(
            RuntimeErrorView::ExpectedInteger(index),
        ),
{
}

} // verus!
