use linger::desugar::{Expr, Procedure, Statement};
use linger::environment::{AssignmentType, Binding, Environment, Mutability};
use linger::error::RuntimeError;
use linger::interpreter::Value;
use linger::number::Number;

fn num(n: i64) -> Value {
    Value::Num(Number::from_integer(n).unwrap())
}

fn shown(bindings: Vec<Binding>) -> Vec<(String, String, AssignmentType, Mutability)> {
    bindings
        .into_iter()
        .map(|(name, (value, assignment, mutability))| {
            (name, value.to_string(), assignment, mutability)
        })
        .collect()
}

fn procedure(name: &str, params: Vec<&str>) -> Procedure {
    Procedure {
        name: name.to_string(),
        params: params.into_iter().map(|p| p.to_string()).collect(),
        body: Statement::Block(vec![Statement::Return(Some(Expr::Var("a".to_string())))]),
    }
}

#[test]
fn a_new_environment_binds_nothing() {
    let env = Environment::new(vec![]);
    assert!(env.bindings().is_empty());
    assert!(!env.contains_key(&"x".to_string()));
    assert!(matches!(
        env.get("x".to_string()),
        Err(RuntimeError::UnknownVariable(name)) if name == "x"
    ));
}

#[test]
fn insert_then_get() {
    let mut env = Environment::new(vec![]);
    env.insert_new_mutable_value("x".to_string(), num(1));
    env.insert_new_constant_value("y".to_string(), num(2));
    assert_eq!(env.get("x".to_string()).unwrap().to_string(), "1");
    assert_eq!(env.get("y".to_string()).unwrap().to_string(), "2");
    assert!(env.contains_key(&"x".to_string()));
    assert_eq!(
        shown(env.bindings()),
        vec![
            (
                "x".to_string(),
                "1".to_string(),
                AssignmentType::Initialized,
                Mutability::Mutable
            ),
            (
                "y".to_string(),
                "2".to_string(),
                AssignmentType::Initialized,
                Mutability::Constant
            ),
        ]
    );
}

#[test]
fn insert_of_a_bound_name_takes_its_place() {
    let mut env = Environment::new(vec![]);
    env.insert_new_constant_value("x".to_string(), num(1));
    env.insert_new_mutable_value("y".to_string(), num(2));
    env.insert_new_mutable_value("x".to_string(), num(3));
    assert_eq!(
        shown(env.bindings()),
        vec![
            (
                "x".to_string(),
                "3".to_string(),
                AssignmentType::Initialized,
                Mutability::Mutable
            ),
            (
                "y".to_string(),
                "2".to_string(),
                AssignmentType::Initialized,
                Mutability::Mutable
            ),
        ]
    );
}

#[test]
fn reassign_marks_the_binding() {
    let mut env = Environment::new(vec![]);
    env.insert_new_mutable_value("x".to_string(), num(1));
    assert!(env.reassign("x".to_string(), num(5)).is_ok());
    assert_eq!(
        shown(env.bindings()),
        vec![(
            "x".to_string(),
            "5".to_string(),
            AssignmentType::Reassigned,
            Mutability::Mutable
        )]
    );
}

#[test]
fn reassign_of_a_constant_fails_and_changes_nothing() {
    let mut env = Environment::new(vec![]);
    env.insert_new_constant_value("x".to_string(), num(1));
    assert!(matches!(
        env.reassign("x".to_string(), num(5)),
        Err(RuntimeError::ReassignConstant(name)) if name == "x"
    ));
    assert_eq!(env.get("x".to_string()).unwrap().to_string(), "1");
}

#[test]
fn reassign_of_a_procedure_or_an_unknown_name_fails() {
    let mut env = Environment::new(vec![procedure("f", vec![])]);
    assert!(matches!(
        env.reassign("f".to_string(), num(5)),
        Err(RuntimeError::ReassignTopLevelProc(name)) if name == "f"
    ));
    assert!(matches!(
        env.reassign("g".to_string(), num(5)),
        Err(RuntimeError::UnknownVariable(name)) if name == "g"
    ));
}

#[test]
fn a_top_level_procedure_is_found_by_name() {
    let mut env = Environment::new(vec![procedure("f", vec!["a"]), procedure("g", vec![])]);
    env.insert_new_mutable_value("x".to_string(), num(1));
    match env.get("f".to_string()).unwrap() {
        Value::Proc(params, body, captured) => {
            assert_eq!(params, vec!["a".to_string()]);
            assert_eq!(body, procedure("f", vec!["a"]).body);
            assert!(captured.bindings().is_empty());
            assert!(captured.get("g".to_string()).is_ok());
        }
        other => panic!("{:?}", other),
    }
}

#[test]
fn a_binding_hides_a_top_level_procedure() {
    let mut env = Environment::new(vec![procedure("f", vec![])]);
    env.insert_new_mutable_value("f".to_string(), num(1));
    assert_eq!(env.get("f".to_string()).unwrap().to_string(), "1");
}

#[test]
fn of_two_procedures_of_one_name_the_later_is_found() {
    let env = Environment::new(vec![procedure("f", vec!["a"]), procedure("f", vec!["b", "c"])]);
    match env.get("f".to_string()).unwrap() {
        Value::Proc(params, _, _) => assert_eq!(params, vec!["b".to_string(), "c".to_string()]),
        other => panic!("{:?}", other),
    }
}

#[test]
fn extend_binds_in_order() {
    let mut env = Environment::new(vec![]);
    env.insert_new_mutable_value("x".to_string(), num(1));
    let env = env.extend(vec![
        (
            "a".to_string(),
            (num(2), AssignmentType::Initialized, Mutability::Constant),
        ),
        (
            "x".to_string(),
            (num(3), AssignmentType::Initialized, Mutability::Constant),
        ),
        (
            "a".to_string(),
            (num(4), AssignmentType::Initialized, Mutability::Constant),
        ),
    ]);
    assert_eq!(
        shown(env.bindings()),
        vec![
            (
                "x".to_string(),
                "3".to_string(),
                AssignmentType::Initialized,
                Mutability::Constant
            ),
            (
                "a".to_string(),
                "4".to_string(),
                AssignmentType::Initialized,
                Mutability::Constant
            ),
        ]
    );
}

#[test]
fn a_copy_does_not_follow_what_it_was_made_from() {
    let mut env = Environment::new(vec![]);
    env.insert_new_mutable_value("x".to_string(), num(1));
    let copy = env.clone();
    env.reassign("x".to_string(), num(2)).unwrap();
    assert_eq!(copy.get("x".to_string()).unwrap().to_string(), "1");
    assert_eq!(env.get("x".to_string()).unwrap().to_string(), "2");
}

#[test]
fn merge_writes_back_what_was_reassigned() {
    let mut parent = Environment::new(vec![]);
    parent.insert_new_mutable_value("x".to_string(), num(1));
    parent.insert_new_mutable_value("y".to_string(), num(2));
    let mut child = parent.clone();
    child.reassign("x".to_string(), num(10)).unwrap();
    child.insert_new_mutable_value("y".to_string(), num(20));
    child.insert_new_mutable_value("z".to_string(), num(30));
    child.reassign("z".to_string(), num(31)).unwrap();
    assert!(parent.update_reassigned_entries(&child).is_ok());
    assert_eq!(
        shown(parent.bindings()),
        vec![
            (
                "x".to_string(),
                "10".to_string(),
                AssignmentType::Reassigned,
                Mutability::Mutable
            ),
            (
                "y".to_string(),
                "2".to_string(),
                AssignmentType::Initialized,
                Mutability::Mutable
            ),
        ]
    );
}

#[test]
fn merge_fails_on_a_constant() {
    let mut parent = Environment::new(vec![]);
    parent.insert_new_constant_value("x".to_string(), num(1));
    let mut child = parent.clone();
    child.insert_new_mutable_value("x".to_string(), num(2));
    child.reassign("x".to_string(), num(3)).unwrap();
    assert!(matches!(
        parent.update_reassigned_entries(&child),
        Err(RuntimeError::ReassignConstant(name)) if name == "x"
    ));
}

#[test]
fn a_merge_that_fails_changes_nothing() {
    let mut parent = Environment::new(vec![]);
    parent.insert_new_mutable_value("a".to_string(), num(1));
    parent.insert_new_constant_value("x".to_string(), num(2));
    let mut child = parent.clone();
    child.reassign("a".to_string(), num(10)).unwrap();
    child.insert_new_mutable_value("x".to_string(), num(20));
    child.reassign("x".to_string(), num(30)).unwrap();
    assert!(parent.update_reassigned_entries(&child).is_err());
    assert_eq!(
        shown(parent.bindings()),
        vec![
            (
                "a".to_string(),
                "1".to_string(),
                AssignmentType::Initialized,
                Mutability::Mutable
            ),
            (
                "x".to_string(),
                "2".to_string(),
                AssignmentType::Initialized,
                Mutability::Constant
            ),
        ]
    );
}
