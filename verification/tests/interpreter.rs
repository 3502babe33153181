use linger::desugar::{Expr, Procedure, Statement};
use linger::environment::Environment;
use linger::error::RuntimeError;
use linger::interpreter::expressions::{apply_binary, apply_index, interp_expression};
use linger::interpreter::statements::{interp_statement, ControlFlow};
use linger::interpreter::utils::{ensure_list, ensure_single_arg};
use linger::interpreter::{interp_program, Value};
use linger::number::Number;
use linger::parser::{Builtin, Program};
use linger::tokenizer::Operator;
use linger::Writer;

fn num(n: i64) -> Number {
    Number::from_integer(n).unwrap()
}

fn lit(n: i64) -> Expr {
    Expr::Num(num(n))
}

fn eval(expr: Expr) -> Result<String, String> {
    let mut env = Environment::new(vec![]);
    let mut writer = Writer::new();
    match interp_expression(&mut env, &expr, &mut writer, 100) {
        Ok(value) => Ok(value.to_string()),
        Err(e) => Err(e.to_string()),
    }
}

fn exec(statement: Statement, in_loop: bool) -> Result<(String, ControlFlow), String> {
    let mut env = Environment::new(vec![]);
    let mut writer = Writer::new();
    match interp_statement(&mut env, &statement, in_loop, &mut writer, 100) {
        Ok((value, flow)) => Ok((value.to_string(), flow)),
        Err(e) => Err(e.to_string()),
    }
}

#[test]
fn literals_evaluate_to_themselves() {
    assert_eq!(eval(lit(5)), Ok("5".to_string()));
    assert_eq!(eval(Expr::Bool(true)), Ok("true".to_string()));
    assert_eq!(eval(Expr::Str("a b".to_string())), Ok("a b".to_string()));
}

#[test]
fn a_unary_operator_with_two_operands_fails() {
    assert_eq!(
        eval(Expr::Binary(
            Operator::LogicNot,
            Box::new(lit(1)),
            Box::new(lit(2))
        )),
        Err("unary operator \"!\" used as binary operator".to_string())
    );
    assert_eq!(
        eval(Expr::Binary(
            Operator::PostIncrement,
            Box::new(Expr::Var("missing".to_string())),
            Box::new(lit(2))
        )),
        Err("unary operator \"++\" used as binary operator".to_string())
    );
}

#[test]
fn a_binary_operator_with_one_operand_fails() {
    assert_eq!(
        eval(Expr::Unary(Operator::Plus, Box::new(lit(1)))),
        Err("binary operator \"+\" used as unary operator".to_string())
    );
    assert_eq!(
        eval(Expr::Unary(
            Operator::LogicAnd,
            Box::new(Expr::Var("missing".to_string()))
        )),
        Err("binary operator \"&&\" used as unary operator".to_string())
    );
}

#[test]
fn statements_end_with_a_signal() {
    assert_eq!(
        exec(Statement::Expr(lit(1)), false),
        Ok(("1".to_string(), ControlFlow::Normal))
    );
    assert_eq!(
        exec(Statement::Let("x".to_string(), lit(1)), false),
        Ok(("nil".to_string(), ControlFlow::Normal))
    );
    assert_eq!(
        exec(Statement::Return(Some(lit(7))), false),
        Ok(("7".to_string(), ControlFlow::Return))
    );
    assert_eq!(
        exec(Statement::Return(None), false),
        Ok(("nil".to_string(), ControlFlow::Return))
    );
    assert_eq!(
        exec(Statement::Break, false),
        Ok(("nil".to_string(), ControlFlow::Break))
    );
    assert_eq!(
        exec(Statement::Continue, true),
        Ok(("nil".to_string(), ControlFlow::Continue))
    );
}

#[test]
fn a_block_passes_signals_on_inside_a_loop_only() {
    let block = |s: Statement| Statement::Block(vec![s, Statement::Expr(lit(1))]);
    assert_eq!(
        exec(block(Statement::Break), true),
        Ok(("nil".to_string(), ControlFlow::Break))
    );
    assert_eq!(
        exec(block(Statement::Continue), true),
        Ok(("nil".to_string(), ControlFlow::Continue))
    );
    assert_eq!(
        exec(block(Statement::Return(Some(lit(3)))), false),
        Ok(("3".to_string(), ControlFlow::Return))
    );
    assert_eq!(
        exec(block(Statement::Break), false),
        Err("break statement found outside of a loop".to_string())
    );
    assert_eq!(
        exec(block(Statement::Continue), false),
        Err("continue statement found outside of a loop".to_string())
    );
}

#[test]
fn a_block_has_the_value_of_its_last_statement() {
    assert_eq!(
        exec(
            Statement::Block(vec![Statement::Expr(lit(1)), Statement::Expr(lit(2))]),
            false
        ),
        Ok(("2".to_string(), ControlFlow::Normal))
    );
    assert_eq!(
        exec(Statement::Block(vec![]), false),
        Ok(("nil".to_string(), ControlFlow::Normal))
    );
}

#[test]
fn a_while_ends_as_any_other_statement_after_break() {
    assert_eq!(
        exec(
            Statement::While(
                Expr::Bool(true),
                Box::new(Statement::Block(vec![Statement::Break]))
            ),
            false
        ),
        Ok(("nil".to_string(), ControlFlow::Normal))
    );
}

#[test]
fn interp_program_runs_main() {
    let program = Program {
        procedures: vec![Procedure {
            name: "double".to_string(),
            params: vec!["n".to_string()],
            body: Statement::Block(vec![Statement::Return(Some(Expr::Binary(
                Operator::Times,
                Box::new(Expr::Var("n".to_string())),
                Box::new(lit(2)),
            )))]),
        }],
        main: Statement::Block(vec![
            Statement::Expr(Expr::PrimitiveCall(
                Builtin::Print,
                vec![Expr::Str("go".to_string())],
            )),
            Statement::Return(Some(Expr::Call(
                Box::new(Expr::Var("double".to_string())),
                vec![lit(21)],
            ))),
        ]),
    };
    let mut writer = Writer::new();
    writer.write("> ");
    let value = interp_program(program, &mut writer, 10).unwrap();
    assert_eq!(value.to_string(), "42");
    assert_eq!(writer.into_string(), "> go");
}

#[test]
fn ensure_single_arg_takes_exactly_one() {
    assert_eq!(
        ensure_single_arg(Builtin::Head, &vec![lit(1)]).unwrap(),
        &lit(1)
    );
    assert!(matches!(
        ensure_single_arg(Builtin::Head, &vec![]),
        Err(RuntimeError::ArgMismatch(name, 1, 0)) if name == "head"
    ));
    assert!(matches!(
        ensure_single_arg(Builtin::IsNil, &vec![lit(1), lit(2)]),
        Err(RuntimeError::ArgMismatch(name, 1, 2)) if name == "is_nil"
    ));
}

#[test]
fn ensure_list_takes_lists_only() {
    assert_eq!(
        ensure_list(Value::List(vec![Value::Nil, Value::Bool(true)]))
            .unwrap()
            .len(),
        2
    );
    assert!(matches!(
        ensure_list(Value::Bool(true)),
        Err(RuntimeError::ExpectedList(Value::Bool(true)))
    ));
}

#[test]
fn operators_on_values() {
    let shown = |r: Result<Value, RuntimeError>| match r {
        Ok(v) => Ok(v.to_string()),
        Err(e) => Err(e.to_string()),
    };
    assert_eq!(
        shown(apply_binary(
            Operator::Plus,
            Value::Num(num(2)),
            Value::Num(num(3))
        )),
        Ok("5".to_string())
    );
    assert_eq!(
        shown(apply_binary(
            Operator::Plus,
            Value::List(vec![Value::Nil]),
            Value::List(vec![Value::Bool(false)])
        )),
        Ok("[nil, false]".to_string())
    );
    assert_eq!(
        shown(apply_binary(
            Operator::LogicAnd,
            Value::Bool(true),
            Value::Bool(true)
        )),
        Err("unary operator \"&&\" used as binary operator".to_string())
    );
    assert_eq!(
        shown(apply_index(
            Value::List(vec![Value::Nil, Value::Bool(false)]),
            Value::Num(num(1))
        )),
        Ok("false".to_string())
    );
    assert_eq!(
        shown(apply_index(Value::Nil, Value::Num(num(1)))),
        Err("\"nil\" is not indexable".to_string())
    );
}

#[test]
fn runtime_error_messages() {
    assert_eq!(
        RuntimeError::UnknownVariable("x".to_string()).to_string(),
        "unknown variable \"x\""
    );
    assert_eq!(
        RuntimeError::BadArg(Value::Bool(true)).to_string(),
        "bad argument \"true\""
    );
    assert_eq!(
        RuntimeError::BadArgs(vec![Value::Nil, Value::Str("s".to_string())]).to_string(),
        "bad args: [nil, s]"
    );
    assert_eq!(
        RuntimeError::ArgMismatch("f".to_string(), 2, 10).to_string(),
        "procedure \"f\" expected 2 args, instead got 10"
    );
    assert_eq!(
        RuntimeError::ExpectedBool(Value::Num(num(1))).to_string(),
        "expected boolean value, instead got 1"
    );
    assert_eq!(
        RuntimeError::ExpectedInteger(Value::Num(Number { units: 3_140_000 })).to_string(),
        "expected an integer but got \"3.14\", which is not an integer"
    );
    assert_eq!(
        RuntimeError::ExpectedList(Value::Num(num(4))).to_string(),
        "expected a list, instead got 4, which is not a list"
    );
    assert_eq!(
        RuntimeError::BinaryAsUnary(Operator::Times).to_string(),
        "binary operator \"*\" used as unary operator"
    );
    assert_eq!(
        RuntimeError::UnaryAsBinary(Operator::LogicNot).to_string(),
        "unary operator \"!\" used as binary operator"
    );
    assert_eq!(
        RuntimeError::BreakNotInLoop.to_string(),
        "break statement found outside of a loop"
    );
    assert_eq!(
        RuntimeError::ContinueNotInLoop.to_string(),
        "continue statement found outside of a loop"
    );
    assert_eq!(
        RuntimeError::InvalidAssignmentTarget.to_string(),
        "invalid assignment target"
    );
    assert_eq!(
        RuntimeError::ReassignConstant("c".to_string()).to_string(),
        "cannot assign to \"c\" because it is a constant"
    );
    assert_eq!(
        RuntimeError::ReassignTopLevelProc("main".to_string()).to_string(),
        "cannot assign to top-level procedure \"main\""
    );
    assert_eq!(
        RuntimeError::NotIndexable(Value::Num(num(10))).to_string(),
        "\"10\" is not indexable"
    );
    assert_eq!(
        RuntimeError::IndexOutOfBounds(-1).to_string(),
        "index -1 is out of bounds"
    );
    assert_eq!(
        RuntimeError::IndexOutOfBounds(3).to_string(),
        "index 3 is out of bounds"
    );
    assert_eq!(
        RuntimeError::LimitExceeded.to_string(),
        "evaluation limit exceeded"
    );
}

#[test]
fn values_are_shown() {
    assert_eq!(Value::Nil.to_string(), "nil");
    assert_eq!(Value::Bool(false).to_string(), "false");
    assert_eq!(Value::Str("verbatim \"text\"".to_string()).to_string(), "verbatim \"text\"");
    assert_eq!(
        Value::List(vec![
            Value::Num(num(1)),
            Value::List(vec![Value::Str("a".to_string()), Value::Nil]),
            Value::List(vec![]),
        ])
        .to_string(),
        "[1, [a, nil], []]"
    );
    assert_eq!(
        Value::Proc(vec![], Statement::Block(vec![]), Environment::new(vec![])).to_string(),
        "<lambda>"
    );
}

#[test]
fn a_block_that_fails_writes_nothing_back() {
    let mut env = Environment::new(vec![]);
    env.insert_new_mutable_value("x".to_string(), Value::Num(num(5)));
    let mut writer = Writer::new();
    let block = Statement::Block(vec![
        Statement::Assign("x".to_string(), lit(10)),
        Statement::Assign("y".to_string(), lit(1)),
    ]);
    let result = interp_statement(&mut env, &block, false, &mut writer, 100);
    assert!(matches!(
        result,
        Err(RuntimeError::UnknownVariable(name)) if name == "y"
    ));
    assert_eq!(env.get("x".to_string()).unwrap().to_string(), "5");
}

#[test]
fn what_was_assigned_before_a_failure_stays() {
    let mut env = Environment::new(vec![]);
    env.insert_new_mutable_value("x".to_string(), Value::Num(num(5)));
    let mut writer = Writer::new();
    let sum = Expr::Binary(
        Operator::Plus,
        Box::new(Expr::Unary(
            Operator::PreIncrement,
            Box::new(Expr::Var("x".to_string())),
        )),
        Box::new(Expr::Var("missing".to_string())),
    );
    let result = interp_expression(&mut env, &sum, &mut writer, 100);
    assert!(matches!(
        result,
        Err(RuntimeError::UnknownVariable(name)) if name == "missing"
    ));
    assert_eq!(env.get("x".to_string()).unwrap().to_string(), "6");
}

#[test]
fn builtins_have_their_names() {
    assert_eq!(Builtin::Print.name(), "print");
    assert_eq!(Builtin::List.name(), "list");
    assert_eq!(Builtin::IsEmpty.name(), "is_empty");
    assert_eq!(Builtin::IsNil.name(), "is_nil");
    assert_eq!(Builtin::Head.name(), "head");
    assert_eq!(Builtin::Rest.name(), "rest");
}
