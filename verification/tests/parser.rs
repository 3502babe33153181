use linger::desugar::{Expr, Procedure, Statement};
use linger::error::ParseError;
use linger::number::Number;
use linger::parser::Builtin;
use linger::parser::{parse_program, Program};
use linger::tokenizer::{tokenize, Keyword, Operator, Token, TokenValue};
use linger::tokenizer::TokenValue::{ID, KW, LBRACKET, LPAREN, NUM, RBRACKET, RPAREN, SEMICOLON};

fn num(n: i64) -> Number {
    Number::from_integer(n).unwrap()
}

fn tokens_from_values(values: Vec<TokenValue>) -> Vec<Token> {
    values
        .into_iter()
        .map(|value| Token(value, 0, 0))
        .collect::<Vec<Token>>()
}

fn parse_success(values: Vec<TokenValue>, expected: Program) -> bool {
    let tokens = tokens_from_values(values);
    match parse_program(tokens.as_slice()) {
        Ok(program) => program.eq(&expected),
        Err(_) => false,
    }
}

fn parse_error(values: Vec<TokenValue>) -> bool {
    let tokens = tokens_from_values(values);
    match parse_program(tokens.as_slice()) {
        Ok(_) => false,
        Err(_) => true,
    }
}

fn parse_source(source: &str) -> Result<Program, ParseError> {
    let tokens = tokenize(source).unwrap();
    parse_program(tokens.as_slice())
}

fn main_body(source: &str) -> Vec<Statement> {
    match parse_source(source).unwrap().main {
        Statement::Block(statements) => statements,
        other => panic!("{:?}", other),
    }
}

fn var(name: &str) -> Expr {
    Expr::Var(name.to_string())
}

fn binary(op: Operator, left: Expr, right: Expr) -> Expr {
    Expr::Binary(op, Box::new(left), Box::new(right))
}

#[test]
fn parser_print_ten() {
    assert!(parse_success(
        vec![
            KW(Keyword::Proc),
            ID("main".to_string()),
            LPAREN,
            RPAREN,
            LBRACKET,
            ID("print".to_string()),
            LPAREN,
            NUM(num(10)),
            RPAREN,
            SEMICOLON,
            RBRACKET
        ],
        Program {
            procedures: vec![],
            main: Statement::Block(vec![Statement::Expr(Expr::PrimitiveCall(
                Builtin::Print,
                vec![Expr::Num(num(10))]
            ))])
        }
    ))
}

#[test]
fn empty_program_gives_error() {
    assert!(parse_error(vec![]))
}

#[test]
fn empty_program_has_no_main() {
    assert!(matches!(parse_program(&[]), Err(ParseError::NoMain)));
    assert!(matches!(
        parse_source("proc f() { }"),
        Err(ParseError::NoMain)
    ));
}

#[test]
fn multiplication_binds_tighter_than_addition() {
    assert_eq!(
        main_body("proc main() { 2 + 3 * 4; }"),
        vec![Statement::Expr(binary(
            Operator::Plus,
            Expr::Num(num(2)),
            binary(Operator::Times, Expr::Num(num(3)), Expr::Num(num(4)))
        ))]
    );
}

#[test]
fn comparison_binds_tighter_than_logic() {
    assert_eq!(
        main_body("proc main() { 1 < 2 && 2 < 3 || false; }"),
        vec![Statement::Expr(binary(
            Operator::LogicOr,
            binary(
                Operator::LogicAnd,
                binary(Operator::LT, Expr::Num(num(1)), Expr::Num(num(2))),
                binary(Operator::LT, Expr::Num(num(2)), Expr::Num(num(3)))
            ),
            Expr::Bool(false)
        ))]
    );
}

#[test]
fn binary_operators_group_from_the_left() {
    assert_eq!(
        main_body("proc main() { 10 - 4 - 3; }"),
        vec![Statement::Expr(binary(
            Operator::Minus,
            binary(Operator::Minus, Expr::Num(num(10)), Expr::Num(num(4))),
            Expr::Num(num(3))
        ))]
    );
}

#[test]
fn brackets_group() {
    assert_eq!(
        main_body("proc main() { (2 + 3) * 4; }"),
        vec![Statement::Expr(binary(
            Operator::Times,
            binary(Operator::Plus, Expr::Num(num(2)), Expr::Num(num(3))),
            Expr::Num(num(4))
        ))]
    );
    assert_eq!(
        main_body("proc main() { (x) + 1; }"),
        vec![Statement::Expr(binary(
            Operator::Plus,
            var("x"),
            Expr::Num(num(1))
        ))]
    );
    assert_eq!(
        main_body("proc main() { (true); }"),
        vec![Statement::Expr(Expr::Bool(true))]
    );
}

#[test]
fn unary_operators_nest() {
    assert_eq!(
        main_body("proc main() { !-x; }"),
        vec![Statement::Expr(Expr::Unary(
            Operator::LogicNot,
            Box::new(Expr::Unary(Operator::Minus, Box::new(var("x"))))
        ))]
    );
}

#[test]
fn increments_before_and_after() {
    assert_eq!(
        main_body("proc main() { ++x; x--; }"),
        vec![
            Statement::Expr(Expr::Unary(Operator::PreIncrement, Box::new(var("x")))),
            Statement::Expr(Expr::Unary(Operator::PostDecrement, Box::new(var("x")))),
        ]
    );
}

#[test]
fn postfix_increment_binds_only_to_a_variable() {
    match parse_source("proc main() { f()++; }") {
        Err(ParseError::Expected(target, token)) => {
            assert_eq!(target, TokenValue::SEMICOLON);
            assert_eq!(token.0, TokenValue::DOUBLE_PLUS);
        }
        other => panic!("{:?}", other),
    }
}

#[test]
fn calls_and_builtins() {
    assert_eq!(
        main_body("proc main() { f(1, x)(2); list(); head(x); }"),
        vec![
            Statement::Expr(Expr::Call(
                Box::new(Expr::Call(
                    Box::new(var("f")),
                    vec![Expr::Num(num(1)), var("x")]
                )),
                vec![Expr::Num(num(2))]
            )),
            Statement::Expr(Expr::PrimitiveCall(Builtin::List, vec![])),
            Statement::Expr(Expr::PrimitiveCall(Builtin::Head, vec![var("x")])),
        ]
    );
}

#[test]
fn every_builtin_name_is_recognised() {
    assert_eq!(
        main_body("proc main() { print(); list(); is_empty(); is_nil(); head(); rest(); }"),
        vec![
            Statement::Expr(Expr::PrimitiveCall(Builtin::Print, vec![])),
            Statement::Expr(Expr::PrimitiveCall(Builtin::List, vec![])),
            Statement::Expr(Expr::PrimitiveCall(Builtin::IsEmpty, vec![])),
            Statement::Expr(Expr::PrimitiveCall(Builtin::IsNil, vec![])),
            Statement::Expr(Expr::PrimitiveCall(Builtin::Head, vec![])),
            Statement::Expr(Expr::PrimitiveCall(Builtin::Rest, vec![])),
        ]
    );
}

#[test]
fn a_builtin_is_recognised_only_by_its_name() {
    assert_eq!(
        main_body("proc main() { (print)(1); }"),
        vec![Statement::Expr(Expr::PrimitiveCall(
            Builtin::Print,
            vec![Expr::Num(num(1))]
        ))]
    );
    assert_eq!(
        main_body("proc main() { f()(1); }"),
        vec![Statement::Expr(Expr::Call(
            Box::new(Expr::Call(Box::new(var("f")), vec![])),
            vec![Expr::Num(num(1))]
        ))]
    );
}

#[test]
fn indexing_follows_calls() {
    assert_eq!(
        main_body("proc main() { f(1)[2][x]; }"),
        vec![Statement::Expr(Expr::Index(
            Box::new(Expr::Index(
                Box::new(Expr::Call(Box::new(var("f")), vec![Expr::Num(num(1))])),
                Box::new(Expr::Num(num(2)))
            )),
            Box::new(var("x"))
        ))]
    );
}

#[test]
fn lambda_expression() {
    assert_eq!(
        main_body("proc main() { let f = (a, b) -> { return a; }; }"),
        vec![Statement::Let(
            "f".to_string(),
            Expr::Lambda(
                vec!["a".to_string(), "b".to_string()],
                Box::new(Statement::Block(vec![Statement::Return(Some(var("a")))]))
            )
        )]
    );
    assert_eq!(
        main_body("proc main() { () -> { }; }"),
        vec![Statement::Expr(Expr::Lambda(
            vec![],
            Box::new(Statement::Block(vec![]))
        ))]
    );
}

#[test]
fn lambda_body_must_be_a_block() {
    assert!(matches!(
        parse_source("proc main() { let f = (a) -> a; }"),
        Err(ParseError::ExpectedBlock)
    ));
}

#[test]
fn statements_of_every_kind() {
    assert_eq!(
        main_body(
            "proc main() { let a = 1; const b = 2; a = 3; while (true) { break; continue; } return; return a; { } }"
        ),
        vec![
            Statement::Let("a".to_string(), Expr::Num(num(1))),
            Statement::Const("b".to_string(), Expr::Num(num(2))),
            Statement::Assign("a".to_string(), Expr::Num(num(3))),
            Statement::While(
                Expr::Bool(true),
                Box::new(Statement::Block(vec![Statement::Break, Statement::Continue]))
            ),
            Statement::Return(None),
            Statement::Return(Some(var("a"))),
            Statement::Block(vec![]),
        ]
    );
}

#[test]
fn compound_assignment_is_lowered() {
    assert_eq!(
        main_body("proc main() { x += 2; y -= x; }"),
        vec![
            Statement::Assign(
                "x".to_string(),
                binary(Operator::Plus, var("x"), Expr::Num(num(2)))
            ),
            Statement::Assign(
                "y".to_string(),
                binary(Operator::Minus, var("y"), var("x"))
            ),
        ]
    );
}

#[test]
fn for_is_lowered_to_a_block_with_a_while() {
    assert_eq!(
        main_body("proc main() { for (let i = 0; i < 3; i = i + 1) { print(i); } }"),
        vec![Statement::Block(vec![
            Statement::Let("i".to_string(), Expr::Num(num(0))),
            Statement::While(
                binary(Operator::LT, var("i"), Expr::Num(num(3))),
                Box::new(Statement::Block(vec![
                    Statement::Expr(Expr::PrimitiveCall(Builtin::Print, vec![var("i")])),
                    Statement::Assign(
                        "i".to_string(),
                        binary(Operator::Plus, var("i"), Expr::Num(num(1)))
                    ),
                ]))
            ),
        ])]
    );
}

#[test]
fn else_if_chain_is_lowered_to_nested_ifs() {
    assert_eq!(
        main_body("proc main() { if (a) { } else if (b) { } else if (c) { } else { x; } }"),
        vec![Statement::If(
            var("a"),
            Box::new(Statement::Block(vec![])),
            Some(Box::new(Statement::If(
                var("b"),
                Box::new(Statement::Block(vec![])),
                Some(Box::new(Statement::If(
                    var("c"),
                    Box::new(Statement::Block(vec![])),
                    Some(Box::new(Statement::Block(vec![Statement::Expr(var("x"))])))
                )))
            )))
        )]
    );
    assert_eq!(
        main_body("proc main() { if (a) { } else if (b) { } }"),
        vec![Statement::If(
            var("a"),
            Box::new(Statement::Block(vec![])),
            Some(Box::new(Statement::If(
                var("b"),
                Box::new(Statement::Block(vec![])),
                None
            )))
        )]
    );
    assert_eq!(
        main_body("proc main() { if (a) { } }"),
        vec![Statement::If(
            var("a"),
            Box::new(Statement::Block(vec![])),
            None
        )]
    );
}

#[test]
fn main_is_parted_from_the_other_procedures() {
    let program = parse_source("proc f(a) { } proc main() { f(1); } proc g() { }").unwrap();
    assert_eq!(
        program.procedures,
        vec![
            Procedure {
                name: "f".to_string(),
                params: vec!["a".to_string()],
                body: Statement::Block(vec![])
            },
            Procedure {
                name: "g".to_string(),
                params: vec![],
                body: Statement::Block(vec![])
            },
        ]
    );
    assert_eq!(
        program.main,
        Statement::Block(vec![Statement::Expr(Expr::Call(
            Box::new(var("f")),
            vec![Expr::Num(num(1))]
        ))])
    );
}

#[test]
fn duplicate_procedure_names_are_rejected() {
    match parse_source("proc f() { } proc main() { } proc f() { }") {
        Err(ParseError::MultipleSameNamedProcs(name)) => assert_eq!(name, "f"),
        other => panic!("{:?}", other),
    }
}

#[test]
fn tokens_after_the_procedures_are_unexpected() {
    match parse_source("proc main() { } 5") {
        Err(ParseError::UnexpectedToken(token)) => {
            assert_eq!(token, Token(TokenValue::NUM(num(5)), 1, 17))
        }
        other => panic!("{:?}", other),
    }
}

#[test]
fn end_of_input_is_told_from_a_wrong_token() {
    assert!(matches!(
        parse_source("proc main() { let x = "),
        Err(ParseError::UnexpectedEOF)
    ));
    assert!(matches!(
        parse_source("proc main() { x"),
        Err(ParseError::UnexpectedEOF)
    ));
    match parse_source("proc main() { let x = 1 }") {
        Err(ParseError::Expected(target, token)) => {
            assert_eq!(target, TokenValue::SEMICOLON);
            assert_eq!(token.0, TokenValue::RBRACKET);
        }
        other => panic!("{:?}", other),
    }
}

#[test]
fn keywords_cannot_be_names() {
    match parse_source("proc main() { let while = 1; }") {
        Err(ParseError::KeywordAsVar(kw)) => assert_eq!(kw, "while"),
        other => panic!("{:?}", other),
    }
    match parse_source("proc main() { for = 1; }") {
        Err(ParseError::KeywordAsVar(kw)) => assert_eq!(kw, "for"),
        other => panic!("{:?}", other),
    }
    match parse_source("proc main() { 1 + else; }") {
        Err(ParseError::KeywordAsVar(kw)) => assert_eq!(kw, "else"),
        other => panic!("{:?}", other),
    }
    match parse_source("proc if() { }") {
        Err(ParseError::KeywordAsProc(kw)) => assert_eq!(kw, "if"),
        other => panic!("{:?}", other),
    }
    match parse_source("proc f(a, break) { }") {
        Err(ParseError::KeywordAsParam(kw)) => assert_eq!(kw, "break"),
        other => panic!("{:?}", other),
    }
}

#[test]
fn procedure_body_must_be_a_block() {
    assert!(matches!(
        parse_source("proc main() return 1;"),
        Err(ParseError::ExpectedBlock)
    ));
    assert!(matches!(
        parse_source("proc main() { while (true) x = 1; }"),
        Err(ParseError::ExpectedBlock)
    ));
}

#[test]
fn for_clauses_must_have_the_right_shape() {
    assert!(matches!(
        parse_source("proc main() { for (f(); true; i = i + 1) { } }"),
        Err(ParseError::ExpectedAssignmentOrInitialization)
    ));
    assert!(matches!(
        parse_source("proc main() { for (let i = 0; true; f()) { } }"),
        Err(ParseError::ExpectedAssignment)
    ));
    assert!(matches!(
        parse_source("proc main() { for (} true; i = 1) { } }"),
        Err(ParseError::ExpectedStatement)
    ));
    assert!(matches!(
        parse_source("proc main() { for (let i = 0; true; i = 1) x; }"),
        Err(ParseError::ExpectedBlock)
    ));
    assert!(parse_source("proc main() { for (const i = 0; true; i++) { } }").is_ok());
    assert!(parse_source("proc main() { for (i = 0; true; i += 1) { } }").is_ok());
}

#[test]
fn a_comma_before_the_closing_bracket_is_unexpected() {
    match parse_source("proc main() { f(1, ); }") {
        Err(ParseError::UnexpectedToken(token)) => assert_eq!(token.0, TokenValue::COMMA),
        other => panic!("{:?}", other),
    }
    match parse_source("proc f(a, ) { }") {
        Err(ParseError::UnexpectedToken(token)) => assert_eq!(token.0, TokenValue::COMMA),
        other => panic!("{:?}", other),
    }
}

#[test]
fn parse_error_messages() {
    assert_eq!(ParseError::NoMain.to_string(), "main procedure not found");
    assert_eq!(
        ParseError::MultipleSameNamedProcs("f".to_string()).to_string(),
        "multiple procedures with name \"f\""
    );
    assert_eq!(
        ParseError::UnexpectedToken(Token(TokenValue::COMMA, 3, 14)).to_string(),
        "unexpected token \",\" @ (3, 14)"
    );
    assert_eq!(ParseError::UnexpectedEOF.to_string(), "unexpected end of file");
    assert_eq!(
        ParseError::Expected(
            TokenValue::SEMICOLON,
            Token(TokenValue::ID("x".to_string()), 2, 5)
        )
        .to_string(),
        "expected token \";\" @ (2, 5), instead got \"x\""
    );
    assert_eq!(
        ParseError::KeywordAsVar("if".to_string()).to_string(),
        "keyword \"if\" used as variable"
    );
    assert_eq!(
        ParseError::KeywordAsProc("if".to_string()).to_string(),
        "keyword \"if\" used as procedure name"
    );
    assert_eq!(
        ParseError::KeywordAsParam("if".to_string()).to_string(),
        "keyword \"if\" used as parameter name"
    );
    assert_eq!(ParseError::ExpectedStatement.to_string(), "expected a statement");
    assert_eq!(ParseError::ExpectedBlock.to_string(), "expected a block");
    assert_eq!(
        ParseError::ExpectedAssignment.to_string(),
        "expected an assignment statement"
    );
    assert_eq!(
        ParseError::ExpectedAssignmentOrInitialization.to_string(),
        "expected an assignment or initialization statement"
    );
}

#[test]
fn copies_are_equal() {
    let program = parse_source(
        "proc f(a) { for (let i = 0; i < a; i++) { if (i == 1) { print(i); } else { break; } } }
         proc main() { f(((x) -> { return x; })(3)); }",
    )
    .unwrap();
    assert_eq!(program.clone(), program);
    let error = ParseError::Expected(
        TokenValue::SEMICOLON,
        Token(TokenValue::ID("x".to_string()), 2, 5),
    );
    assert_eq!(error.clone().to_string(), error.to_string());
}
