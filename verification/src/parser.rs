//! The parser: tokens to the parsed language, and from there to a program of
//! the core language.
use vstd::prelude::*;
use vstd::string::StringExecFns;
use crate::desugar::desugar_statement;
use crate::desugar::duplicate_names;
use crate::desugar::names_view;
use crate::desugar::procedures_view;
use crate::desugar::Procedure;
use crate::desugar::ProcedureView;
use crate::desugar::Statement;
use crate::desugar::StatementView;
use crate::desugar::desugared_statement;
use crate::error::ParseError;
use crate::error::ParseErrorView;
use crate::number::Number;
use crate::parser::grammar::desugared_procedure;
use crate::parser::grammar::main_index;
use crate::parser::grammar::others_than_main;
use crate::parser::grammar::program;
use crate::parser::procedures::parse_procs;
use crate::parser::utils::unexpected_token;
use crate::tokenizer::tokens_view;
use crate::tokenizer::Token;
use crate::tokenizer::AssignOp;
use crate::tokenizer::Operator;

pub mod expressions;
pub mod grammar;
pub mod procedures;
pub mod progress;
pub mod statements;
pub mod utils;

verus! {

/// The name by which a builtin is called.
pub open spec fn builtin_name(builtin: Builtin) -> Seq<char> {
    match builtin {
        Builtin::Print => "print"@,
        Builtin::List => "list"@,
        Builtin::IsEmpty => "is_empty"@,
        Builtin::IsNil => "is_nil"@,
        Builtin::Head => "head"@,
        Builtin::Rest => "rest"@,
    }
}

impl Builtin {
    /// The name by which the builtin is called.
    pub fn name(&self) -> (r: String)
        ensures
            r@ == builtin_name(*self),
    {
        match self {
            Builtin::Print => String::from_str("print"),
            Builtin::List => String::from_str("list"),
            Builtin::IsEmpty => String::from_str("is_empty"),
            Builtin::IsNil => String::from_str("is_nil"),
            Builtin::Head => String::from_str("head"),
            Builtin::Rest => String::from_str("rest"),
        }
    }
}

/// A program of the core language.
#[derive(Debug, PartialEq)]
pub struct Program {
    /// The top-level procedures other than `main`.
    pub procedures: Vec<Procedure>,
    /// The body of `main`.
    pub main: Statement,
}

/// What a [`Program`] holds.
pub struct ProgramView {
    pub procedures: Seq<ProcedureView>,
    pub main: StatementView,
}

impl View for Program {
    type V = ProgramView;

    open spec fn view(&self) -> ProgramView {
        ProgramView { procedures: procedures_view(self.procedures@), main: self.main@ }
    }
}

/// A procedure that the interpreter itself provides.
#[derive(Clone, Copy, PartialEq, Eq, PartialOrd, Ord, Debug, Structural)]
pub enum Builtin {
    Print,
    List,
    IsEmpty,
    IsNil,
    Head,
    Rest,
}

/// A top-level procedure as it was parsed.
#[derive(Debug, PartialEq)]
pub struct SugaredProcedure {
    pub name: String,
    pub params: Vec<String>,
    pub body: SugaredStatement,
}

/// A statement as it was parsed.
#[derive(Debug, PartialEq)]
pub enum SugaredStatement {
    Expr(SugaredExpr),
    Let(String, SugaredExpr),
    Const(String, SugaredExpr),
    Assign(String, SugaredExpr),
    /// A compound assignment: the operator, the name, the right side.
    OperatorAssignment(AssignOp, String, SugaredExpr),
    Block(Vec<SugaredStatement>),
    /// The condition, the block, each `else if` with its condition and its
    /// block, and the block of the `else`.
    If(
        SugaredExpr,
        Box<SugaredStatement>,
        Vec<(SugaredExpr, SugaredStatement)>,
        Option<Box<SugaredStatement>>,
    ),
    While(SugaredExpr, Box<SugaredStatement>),
    /// The initialisation, the condition, the step, and the statements of
    /// the body.
    For(Box<SugaredStatement>, SugaredExpr, Box<SugaredStatement>, Vec<SugaredStatement>),
    Break,
    Continue,
    Return(Option<SugaredExpr>),
}

/// An expression as it was parsed.
#[derive(Debug, PartialEq)]
pub enum SugaredExpr {
    Num(Number),
    Bool(bool),
    Str(String),
    Var(String),
    Binary(Operator, Box<SugaredExpr>, Box<SugaredExpr>),
    Unary(Operator, Box<SugaredExpr>),
    PrimitiveCall(Builtin, Vec<SugaredExpr>),
    Call(Box<SugaredExpr>, Vec<SugaredExpr>),
    Lambda(Vec<String>, Box<SugaredStatement>),
    Index(Box<SugaredExpr>, Box<SugaredExpr>),
}

/// What a [`SugaredProcedure`] holds.
pub struct SugaredProcedureView {
    pub name: Seq<char>,
    pub params: Seq<Seq<char>>,
    pub body: SugaredStatementView,
}

/// What a [`SugaredStatement`] holds.
pub enum SugaredStatementView {
    Expr(SugaredExprView),
    Let(Seq<char>, SugaredExprView),
    Const(Seq<char>, SugaredExprView),
    Assign(Seq<char>, SugaredExprView),
    OperatorAssignment(AssignOp, Seq<char>, SugaredExprView),
    Block(Seq<SugaredStatementView>),
    If(
        SugaredExprView,
        Box<SugaredStatementView>,
        Seq<(SugaredExprView, SugaredStatementView)>,
        Option<Box<SugaredStatementView>>,
    ),
    While(SugaredExprView, Box<SugaredStatementView>),
    For(
        Box<SugaredStatementView>,
        SugaredExprView,
        Box<SugaredStatementView>,
        Seq<SugaredStatementView>,
    ),
    Break,
    Continue,
    Return(Option<SugaredExprView>),
}

/// What a [`SugaredExpr`] holds.
pub enum SugaredExprView {
    Num(Number),
    Bool(bool),
    Str(Seq<char>),
    Var(Seq<char>),
    Binary(Operator, Box<SugaredExprView>, Box<SugaredExprView>),
    Unary(Operator, Box<SugaredExprView>),
    PrimitiveCall(Builtin, Seq<SugaredExprView>),
    Call(Box<SugaredExprView>, Seq<SugaredExprView>),
    Lambda(Seq<Seq<char>>, Box<SugaredStatementView>),
    Index(Box<SugaredExprView>, Box<SugaredExprView>),
}

/// What a sequence of parsed expressions holds.
pub open spec fn sugared_exprs_view(exprs: Seq<SugaredExpr>) -> Seq<SugaredExprView>
    decreases exprs,
{
    Seq::new(
        exprs.len(),
        |i: int|
            if 0 <= i < exprs.len() {
                exprs[i].model()
            } else {
                SugaredExprView::Bool(false)
            },
    )
}

/// What a sequence of parsed statements holds.
pub open spec fn sugared_statements_view(statements: Seq<SugaredStatement>) -> Seq<
    SugaredStatementView,
>
    decreases statements,
{
    Seq::new(
        statements.len(),
        |i: int|
            if 0 <= i < statements.len() {
                statements[i].model()
            } else {
                SugaredStatementView::Break
            },
    )
}

/// What the `else if`s of an `if` hold.
pub open spec fn else_ifs_view(else_ifs: Seq<(SugaredExpr, SugaredStatement)>) -> Seq<
    (SugaredExprView, SugaredStatementView),
>
    decreases else_ifs,
{
    Seq::new(
        else_ifs.len(),
        |i: int|
            if 0 <= i < else_ifs.len() {
                (else_ifs[i].0.model(), else_ifs[i].1.model())
            } else {
                (SugaredExprView::Bool(false), SugaredStatementView::Break)
            },
    )
}

/// What a sequence of parsed procedures holds.
pub open spec fn sugared_procedures_view(procedures: Seq<SugaredProcedure>) -> Seq<
    SugaredProcedureView,
> {
    Seq::new(procedures.len(), |i: int| procedures[i]@)
}

impl SugaredExpr {
    /// What the expression holds.
    pub open spec fn model(self) -> SugaredExprView
        decreases self,
    {
        match self {
            SugaredExpr::Num(n) => SugaredExprView::Num(n),
            SugaredExpr::Bool(b) => SugaredExprView::Bool(b),
            SugaredExpr::Str(s) => SugaredExprView::Str(s@),
            SugaredExpr::Var(name) => SugaredExprView::Var(name@),
            SugaredExpr::Binary(op, left, right) => SugaredExprView::Binary(
                op,
                Box::new(left.model()),
                Box::new(right.model()),
            ),
            SugaredExpr::Unary(op, operand) => SugaredExprView::Unary(
                op,
                Box::new(operand.model()),
            ),
            SugaredExpr::PrimitiveCall(builtin, args) => SugaredExprView::PrimitiveCall(
                builtin,
                sugared_exprs_view(args@),
            ),
            SugaredExpr::Call(callee, args) => SugaredExprView::Call(
                Box::new(callee.model()),
                sugared_exprs_view(args@),
            ),
            SugaredExpr::Lambda(params, body) => SugaredExprView::Lambda(
                names_view(params@),
                Box::new(body.model()),
            ),
            SugaredExpr::Index(base, index) => SugaredExprView::Index(
                Box::new(base.model()),
                Box::new(index.model()),
            ),
        }
    }
}

impl SugaredStatement {
    /// What the statement holds.
    pub open spec fn model(self) -> SugaredStatementView
        decreases self,
    {
        match self {
            SugaredStatement::Expr(e) => SugaredStatementView::Expr(e.model()),
            SugaredStatement::Let(name, e) => SugaredStatementView::Let(name@, e.model()),
            SugaredStatement::Const(name, e) => SugaredStatementView::Const(name@, e.model()),
            SugaredStatement::Assign(name, e) => SugaredStatementView::Assign(name@, e.model()),
            SugaredStatement::OperatorAssignment(op, name, e) => SugaredStatementView::OperatorAssignment(
                op,
                name@,
                e.model(),
            ),
            SugaredStatement::Block(statements) => SugaredStatementView::Block(
                sugared_statements_view(statements@),
            ),
            SugaredStatement::If(cond, then_block, else_ifs, else_block) => SugaredStatementView::If(
                cond.model(),
                Box::new(then_block.model()),
                else_ifs_view(else_ifs@),
                match else_block {
                    Some(block) => Some(Box::new(block.model())),
                    None => None,
                },
            ),
            SugaredStatement::While(cond, body) => SugaredStatementView::While(
                cond.model(),
                Box::new(body.model()),
            ),
            SugaredStatement::For(init, stop, step, body) => SugaredStatementView::For(
                Box::new(init.model()),
                stop.model(),
                Box::new(step.model()),
                sugared_statements_view(body@),
            ),
            SugaredStatement::Break => SugaredStatementView::Break,
            SugaredStatement::Continue => SugaredStatementView::Continue,
            SugaredStatement::Return(value) => SugaredStatementView::Return(
                match value {
                    Some(e) => Some(e.model()),
                    None => None,
                },
            ),
        }
    }
}

impl View for SugaredExpr {
    type V = SugaredExprView;

    open spec fn view(&self) -> SugaredExprView {
        self.model()
    }
}

impl View for SugaredStatement {
    type V = SugaredStatementView;

    open spec fn view(&self) -> SugaredStatementView {
        self.model()
    }
}

impl View for SugaredProcedure {
    type V = SugaredProcedureView;

    open spec fn view(&self) -> SugaredProcedureView {
        SugaredProcedureView {
            name: self.name@,
            params: names_view(self.params@),
            body: self.body@,
        }
    }
}

/// `main_index` is the first index that holds a procedure named `main`.
proof fn lemma_main_index(procedures: Seq<SugaredProcedureView>, p: int)
    requires
        0 <= p <= procedures.len(),
        forall|j: int| 0 <= j < p ==> procedures[j].name != "main"@,
        p < procedures.len() ==> procedures[p].name == "main"@,
    ensures
        main_index(procedures) == p,
    decreases procedures.len(),
{
    if procedures.len() == 0 || p == 0 {
    } else {
        let t = procedures.drop_first();
        assert forall|j: int| 0 <= j < p - 1 implies t[j].name != "main"@ by {
            assert(t[j] == procedures[j + 1]);
        }
        lemma_main_index(t, p - 1);
    }
}

/// The program that a sequence of tokens writes: the top-level procedures
/// other than `main`, lowered to the core language, and the lowered body of
/// `main`. The tokens must be top-level procedures and nothing else, no two
/// of the same name, one of them named `main`.
pub fn parse_program(tokens: &[Token]) -> (r: Result<Program, ParseError>)
    ensures
        match r {
            Ok(p) => program(tokens_view(tokens@)) == Ok::<_, ParseErrorView>(p@),
            Err(e) => program(tokens_view(tokens@)) == Err::<ProgramView, _>(e@),
        },
{
    let (procedures, rest) = parse_procs(tokens)?;
    if rest.len() > 0 {
        return Err(unexpected_token(rest));
    }
    let ghost all = sugared_procedures_view(procedures@);
    let main_name = String::from_str("main");
    let mut main: Option<Statement> = None;
    let mut others: Vec<Procedure> = Vec::new();
    let ghost mut first_main: int = -1;
    let mut i: usize = 0;
    proof {
        assert(all.subrange(0, 0) =~= Seq::empty());
        assert(procedures_view(others@) =~= Seq::empty());
    }
    while i < procedures.len()
        invariant
            i <= procedures@.len(),
            all == sugared_procedures_view(procedures@),
            main_name@ == "main"@,
            procedures_view(others@) == others_than_main(all.subrange(0, i as int)),
            -1 <= first_main < i,
            main is Some <==> first_main >= 0,
            forall|j: int| 0 <= j < i && (first_main < 0 || j < first_main) ==> all[j].name != "main"@,
            first_main >= 0 ==> all[first_main].name == "main"@ && main->0@ == desugared_statement(
                all[first_main].body,
            ),
        decreases procedures@.len() - i,
    {
        let procedure = &procedures[i];
        let ghost before = procedures_view(others@);
        proof {
            assert(all.subrange(0, i + 1).drop_last() =~= all.subrange(0, i as int));
            assert(all.subrange(0, i + 1).last() == procedure@);
        }
        if procedure.name == main_name {
            if main.is_none() {
                main = Some(desugar_statement(&procedure.body));
                proof {
                    first_main = i as int;
                }
            }
        } else {
            let lowered = Procedure {
                name: procedure.name.clone(),
                params: duplicate_names(&procedure.params),
                body: desugar_statement(&procedure.body),
            };
            others.push(lowered);
            proof {
                assert(procedures_view(others@) =~= before.push(desugared_procedure(procedure@)));
            }
        }
        i += 1;
    }
    proof {
        assert(all.subrange(0, i as int) =~= all);
        lemma_main_index(
            all,
            if first_main >= 0 {
                first_main
            } else {
                all.len() as int
            },
        );
    }
    match main {
        Some(body) => Ok(Program { procedures: others, main: body }),
        None => Err(ParseError::NoMain),
    }
}

/// A copy of a list of parsed expressions.
pub fn duplicate_sugared_exprs(exprs: &Vec<SugaredExpr>) -> (r: Vec<SugaredExpr>)
    ensures
        sugared_exprs_view(r@) == sugared_exprs_view(exprs@),
    decreases exprs,
{
    let mut copy: Vec<SugaredExpr> = Vec::new();
    let mut i: usize = 0;
    while i < exprs.len()
        invariant
            i <= exprs.len(),
            copy@.len() == i,
            forall|j: int| 0 <= j < i ==> copy@[j]@ == exprs@[j]@,
        decreases exprs.len() - i,
    {
        copy.push(exprs[i].duplicate());
        i += 1;
    }
    proof {
        assert(sugared_exprs_view(copy@) =~= sugared_exprs_view(exprs@));
    }
    copy
}

/// A copy of a list of parsed statements.
pub fn duplicate_sugared_statements(statements: &Vec<SugaredStatement>) -> (r: Vec<
    SugaredStatement,
>)
    ensures
        sugared_statements_view(r@) == sugared_statements_view(statements@),
    decreases statements,
{
    let mut copy: Vec<SugaredStatement> = Vec::new();
    let mut i: usize = 0;
    while i < statements.len()
        invariant
            i <= statements.len(),
            copy@.len() == i,
            forall|j: int| 0 <= j < i ==> copy@[j]@ == statements@[j]@,
        decreases statements.len() - i,
    {
        copy.push(statements[i].duplicate());
        i += 1;
    }
    proof {
        assert(sugared_statements_view(copy@) =~= sugared_statements_view(statements@));
    }
    copy
}

fn duplicate_else_ifs(else_ifs: &Vec<(SugaredExpr, SugaredStatement)>) -> (r: Vec<
    (SugaredExpr, SugaredStatement),
>)
    ensures
        else_ifs_view(r@) == else_ifs_view(else_ifs@),
    decreases else_ifs,
{
    let mut copy: Vec<(SugaredExpr, SugaredStatement)> = Vec::new();
    let mut i: usize = 0;
    while i < else_ifs.len()
        invariant
            i <= else_ifs.len(),
            copy@.len() == i,
            forall|j: int|
                0 <= j < i ==> copy@[j].0@ == else_ifs@[j].0@ && copy@[j].1@ == else_ifs@[j].1@,
        decreases else_ifs.len() - i,
    {
        let else_if = &else_ifs[i];
        copy.push((else_if.0.duplicate(), else_if.1.duplicate()));
        i += 1;
    }
    proof {
        assert(else_ifs_view(copy@) =~= else_ifs_view(else_ifs@));
    }
    copy
}

impl SugaredExpr {
    /// A copy of the expression.
    pub fn duplicate(&self) -> (r: SugaredExpr)
        ensures
            r@ == self@,
        decreases self,
    {
        match self {
            SugaredExpr::Num(n) => SugaredExpr::Num(*n),
            SugaredExpr::Bool(b) => SugaredExpr::Bool(*b),
            SugaredExpr::Str(s) => SugaredExpr::Str(s.clone()),
            SugaredExpr::Var(name) => SugaredExpr::Var(name.clone()),
            SugaredExpr::Binary(op, left, right) => SugaredExpr::Binary(
                *op,
                Box::new(left.duplicate()),
                Box::new(right.duplicate()),
            ),
            SugaredExpr::Unary(op, operand) => SugaredExpr::Unary(
                *op,
                Box::new(operand.duplicate()),
            ),
            SugaredExpr::PrimitiveCall(builtin, args) => SugaredExpr::PrimitiveCall(
                *builtin,
                duplicate_sugared_exprs(args),
            ),
            SugaredExpr::Call(callee, args) => SugaredExpr::Call(
                Box::new(callee.duplicate()),
                duplicate_sugared_exprs(args),
            ),
            SugaredExpr::Lambda(params, body) => SugaredExpr::Lambda(
                duplicate_names(params),
                Box::new(body.duplicate()),
            ),
            SugaredExpr::Index(base, index) => SugaredExpr::Index(
                Box::new(base.duplicate()),
                Box::new(index.duplicate()),
            ),
        }
    }
}

impl SugaredStatement {
    /// A copy of the statement.
    pub fn duplicate(&self) -> (r: SugaredStatement)
        ensures
            r@ == self@,
        decreases self,
    {
        match self {
            SugaredStatement::Expr(e) => SugaredStatement::Expr(e.duplicate()),
            SugaredStatement::Let(name, e) => SugaredStatement::Let(name.clone(), e.duplicate()),
            SugaredStatement::Const(name, e) => SugaredStatement::Const(
                name.clone(),
                e.duplicate(),
            ),
            SugaredStatement::Assign(name, e) => SugaredStatement::Assign(
                name.clone(),
                e.duplicate(),
            ),
            SugaredStatement::OperatorAssignment(op, name, e) => SugaredStatement::OperatorAssignment(
                *op,
                name.clone(),
                e.duplicate(),
            ),
            SugaredStatement::Block(statements) => SugaredStatement::Block(
                duplicate_sugared_statements(statements),
            ),
            SugaredStatement::If(cond, then_block, else_ifs, else_block) => {
                let other = match else_block {
                    Some(block) => Some(Box::new(block.duplicate())),
                    None => None,
                };
                SugaredStatement::If(
                    cond.duplicate(),
                    Box::new(then_block.duplicate()),
                    duplicate_else_ifs(else_ifs),
                    other,
                )
            },
            SugaredStatement::While(cond, body) => SugaredStatement::While(
                cond.duplicate(),
                Box::new(body.duplicate()),
            ),
            SugaredStatement::For(init, stop, step, body) => SugaredStatement::For(
                Box::new(init.duplicate()),
                stop.duplicate(),
                Box::new(step.duplicate()),
                duplicate_sugared_statements(body),
            ),
            SugaredStatement::Break => SugaredStatement::Break,
            SugaredStatement::Continue => SugaredStatement::Continue,
            SugaredStatement::Return(value) => SugaredStatement::Return(
                match value {
                    Some(e) => Some(e.duplicate()),
                    None => None,
                },
            ),
        }
    }
}

impl SugaredProcedure {
    /// A copy of the procedure.
    pub fn duplicate(&self) -> (r: SugaredProcedure)
        ensures
            r@ == self@,
    {
        SugaredProcedure {
            name: self.name.clone(),
            params: duplicate_names(&self.params),
            body: self.body.duplicate(),
        }
    }
}

impl Clone for SugaredExpr {
    fn clone(&self) -> (r: Self)
        ensures
            r@ == self@,
    {
        self.duplicate()
    }
}

impl Clone for SugaredStatement {
    fn clone(&self) -> (r: Self)
        ensures
            r@ == self@,
    {
        self.duplicate()
    }
}

impl Clone for SugaredProcedure {
    fn clone(&self) -> (r: Self)
        ensures
            r@ == self@,
    {
        self.duplicate()
    }
}

impl Clone for Program {
    fn clone(&self) -> (r: Self)
        ensures
            r@ == self@,
    {
        Program {
            procedures: crate::desugar::duplicate_procedures(&self.procedures),
            main: self.main.duplicate(),
        }
    }
}

} // verus!
