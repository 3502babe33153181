//! The interpreter: the values of the language and the evaluation of a
//! program of the core language.
use vstd::prelude::*;
use vstd::string::StringExecFns;
use crate::desugar::duplicate_names;
use crate::desugar::names_view;
use crate::desugar::Statement;
use crate::desugar::StatementView;
use crate::environment::Environment;
use crate::environment::EnvironmentView;
use crate::error::RuntimeError;
use crate::environment::value_result_view;
use crate::interpreter::semantics::eval_program;
use crate::interpreter::statements::interp_statement;
use crate::interpreter::statements::ControlFlow;
use crate::number::Number;
use crate::parser::Program;
use crate::Writer;

pub mod expressions;
pub mod semantics;
pub mod statements;
pub mod utils;

verus! {

/// A value of the language.
#[derive(Debug)]
pub enum Value {
    Num(Number),
    Bool(bool),
    Str(String),
    /// A procedure: its parameters, its body, and the environment it was
    /// made in, as it was then.
    Proc(Vec<String>, Statement, Environment),
    List(Vec<Value>),
    Nil,
}

/// What a [`Value`] holds.
pub enum ValueView {
    Num(Number),
    Bool(bool),
    Str(Seq<char>),
    Proc(Seq<Seq<char>>, StatementView, EnvironmentView),
    List(Seq<ValueView>),
    Nil,
}

/// What a sequence of values holds.
pub open spec fn values_view(values: Seq<Value>) -> Seq<ValueView>
    decreases values,
{
    Seq::new(
        values.len(),
        |i: int|
            if 0 <= i < values.len() {
                values[i].model()
            } else {
                ValueView::Nil
            },
    )
}

impl Value {
    /// What the value holds.
    pub open spec fn model(self) -> ValueView
        decreases self,
    {
        match self {
            Value::Num(n) => ValueView::Num(n),
            Value::Bool(b) => ValueView::Bool(b),
            Value::Str(s) => ValueView::Str(s@),
            Value::Proc(params, body, env) => ValueView::Proc(
                names_view(params@),
                body@,
                env.model(),
            ),
            Value::List(items) => ValueView::List(values_view(items@)),
            Value::Nil => ValueView::Nil,
        }
    }
}

impl View for Value {
    type V = ValueView;

    open spec fn view(&self) -> ValueView {
        self.model()
    }
}

/// The texts of the values, with the separator between each two.
pub open spec fn display_list(items: Seq<ValueView>, separator: Seq<char>) -> Seq<char>
    decreases items,
{
    if items.len() == 0 {
        Seq::empty()
    } else if items.len() == 1 {
        items[0].display()
    } else {
        display_list(items.drop_last(), separator) + separator + items.last().display()
    }
}

impl ValueView {
    /// The value as it is printed.
    pub open spec fn display(self) -> Seq<char>
        decreases self,
    {
        match self {
            ValueView::Num(n) => n.spec_display(),
            ValueView::Bool(b) => if b {
                "true"@
            } else {
                "false"@
            },
            ValueView::Str(s) => s,
            ValueView::Proc(_, _, _) => "<lambda>"@,
            ValueView::List(items) => "["@ + display_list(items, ", "@) + "]"@,
            ValueView::Nil => "nil"@,
        }
    }
}

/// A copy of a list of values.
pub fn duplicate_values(values: &Vec<Value>) -> (r: Vec<Value>)
    ensures
        values_view(r@) == values_view(values@),
    decreases values,
{
    let mut copy: Vec<Value> = Vec::new();
    let mut i: usize = 0;
    while i < values.len()
        invariant
            i <= values.len(),
            copy@.len() == i,
            forall|j: int| 0 <= j < i ==> copy@[j]@ == values@[j]@,
        decreases values.len() - i,
    {
        copy.push(values[i].duplicate());
        i += 1;
    }
    proof {
        assert(values_view(copy@) =~= values_view(values@));
    }
    copy
}

/// The texts of the values, with the separator between each two.
pub fn join_values(values: &Vec<Value>, separator: &str) -> (r: String)
    ensures
        r@ == display_list(values_view(values@), separator@),
    decreases values,
{
    let mut text = String::new();
    let mut i: usize = 0;
    let ghost all = values_view(values@);
    while i < values.len()
        invariant
            i <= values.len(),
            all == values_view(values@),
            text@ == display_list(all.subrange(0, i as int), separator@),
        decreases values.len() - i,
    {
        let ghost before = text@;
        if i > 0 {
            text.append(separator);
        }
        let item = values[i].to_string();
        text.append(item.as_str());
        proof {
            let next = all.subrange(0, i + 1);
            assert(next.drop_last() =~= all.subrange(0, i as int));
            assert(next.last() == values@[i as int]@);
            if i == 0 {
                assert(text@ =~= item@);
            }
        }
        i += 1;
    }
    proof {
        assert(all.subrange(0, i as int) =~= all);
    }
    text
}

impl Value {
    /// A copy of the value.
    pub fn duplicate(&self) -> (r: Value)
        ensures
            r@ == self@,
        decreases self,
    {
        match self {
            Value::Num(n) => Value::Num(*n),
            Value::Bool(b) => Value::Bool(*b),
            Value::Str(s) => Value::Str(s.clone()),
            Value::Proc(params, body, env) => Value::Proc(
                duplicate_names(params),
                body.duplicate(),
                env.duplicate(),
            ),
            Value::List(items) => Value::List(duplicate_values(items)),
            Value::Nil => Value::Nil,
        }
    }

    /// The value as it is printed.
    pub fn to_string(&self) -> (r: String)
        ensures
            r@ == self@.display(),
        decreases self,
    {
        match self {
            Value::Num(n) => n.to_string(),
            Value::Bool(b) => if *b {
                String::from_str("true")
            } else {
                String::from_str("false")
            },
            Value::Str(s) => s.clone(),
            Value::Proc(_, _, _) => String::from_str("<lambda>"),
            Value::List(items) => {
                let mut text = String::from_str("[");
                let inner = join_values(items, ", ");
                text.append(inner.as_str());
                text.append("]");
                text
            },
            Value::Nil => String::from_str("nil"),
        }
    }
}

impl Clone for Value {
    fn clone(&self) -> (r: Self)
        ensures
            r@ == self@,
    {
        self.duplicate()
    }
}

/// Runs a program: evaluates the body of `main`, outside every loop, in the
/// environment of the top-level procedures. The value is what `main`
/// returned, nil where it ended without `return`. What the program prints
/// is written to the writer, also where the run fails. `limit` bounds how
/// deep the evaluation may go by calls and by turns of loops; a run that
/// would go deeper fails with `LimitExceeded`.
pub fn interp_program(p: Program, writer: &mut Writer, limit: u64) -> (r: Result<
    Value,
    RuntimeError,
>)
    ensures
        value_result_view(r) == eval_program(p@, old(writer)@, limit as nat).result,
        final(writer)@ == eval_program(p@, old(writer)@, limit as nat).output,
{
    let Program { procedures, main } = p;
    let mut env = Environment::new(procedures);
    let (value, flow) = interp_statement(&mut env, &main, false, writer, limit)?;
    if flow == ControlFlow::Return {
        Ok(value)
    } else {
        Ok(Value::Nil)
    }
}

} // verus!
