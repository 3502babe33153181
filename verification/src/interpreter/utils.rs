//! Checks that the builtins share.
use vstd::prelude::*;
use crate::desugar::exprs_view;
use crate::desugar::Expr;
use crate::desugar::ExprView;
use crate::error::RuntimeError;
use crate::error::RuntimeErrorView;
use crate::interpreter::semantics::list_items;
use crate::interpreter::semantics::single_argument;
use crate::interpreter::values_view;
use crate::interpreter::Value;
use crate::interpreter::ValueView;
use crate::parser::Builtin;

verus! {

/// The one argument of a builtin that takes one. Given another number of
/// arguments it fails; the failure names the builtin, then the one argument
/// that it takes, then the number that it was given.
pub fn ensure_single_arg(builtin: Builtin, args: &Vec<Expr>) -> (r: Result<&Expr, RuntimeError>)
    ensures
        match r {
            Ok(arg) => single_argument(builtin, exprs_view(args@)) == Ok::<_, RuntimeErrorView>(
                arg@,
            ) && args@.len() == 1 && *arg == args@[0],
            Err(e) => single_argument(builtin, exprs_view(args@)) == Err::<ExprView, _>(e@),
        },
{
    if args.len() == 1 {
        Ok(&args[0])
    } else {
        Err(RuntimeError::ArgMismatch(builtin.name(), 1, args.len()))
    }
}

/// The items of a value that must be a list.
pub fn ensure_list(value: Value) -> (r: Result<Vec<Value>, RuntimeError>)
    ensures
        match r {
            Ok(items) => list_items(value@) == Ok::<_, RuntimeErrorView>(values_view(items@)),
            Err(e) => list_items(value@) == Err::<Seq<ValueView>, _>(e@),
        },
{
    match value {
        Value::List(items) => Ok(items),
        bad_value => Err(RuntimeError::ExpectedList(bad_value)),
    }
}

} // verus!
