//! The core language, and the lowering of the parsed language to it.
//!
//! The core language has no `for`, no compound assignment and no `else if`:
//! a `for` becomes a block of its initialisation and a `while`, a compound
//! assignment an assignment of a binary operation, and a chain of `else if`
//! a nest of `if`s.
use vstd::prelude::*;
use crate::number::Number;
use crate::parser::else_ifs_view;
use crate::parser::sugared_exprs_view;
use crate::parser::sugared_statements_view;
use crate::parser::Builtin;
use crate::parser::SugaredExpr;
use crate::parser::SugaredExprView;
use crate::parser::SugaredStatement;
use crate::parser::SugaredStatementView;
use crate::tokenizer::AssignOp;
use crate::tokenizer::Operator;

verus! {

/// A top-level procedure of the core language.
#[derive(Debug, PartialEq, Eq)]
pub struct Procedure {
    pub name: String,
    pub params: Vec<String>,
    pub body: Statement,
}

/// A statement of the core language.
#[derive(Debug, PartialEq, Eq)]
pub enum Statement {
    Expr(Expr),
    Let(String, Expr),
    Const(String, Expr),
    Assign(String, Expr),
    If(Expr, Box<Statement>, Option<Box<Statement>>),
    While(Expr, Box<Statement>),
    Block(Vec<Statement>),
    Return(Option<Expr>),
    Break,
    Continue,
}

/// An expression of the core language.
#[derive(Debug, Eq, PartialEq)]
pub enum Expr {
    Num(Number),
    Bool(bool),
    Str(String),
    Var(String),
    Binary(Operator, Box<Expr>, Box<Expr>),
    Unary(Operator, Box<Expr>),
    PrimitiveCall(Builtin, Vec<Expr>),
    Call(Box<Expr>, Vec<Expr>),
    Lambda(Vec<String>, Box<Statement>),
    Index(Box<Expr>, Box<Expr>),
}

/// What a [`Procedure`] holds.
pub struct ProcedureView {
    pub name: Seq<char>,
    pub params: Seq<Seq<char>>,
    pub body: StatementView,
}

/// What a [`Statement`] holds.
pub enum StatementView {
    Expr(ExprView),
    Let(Seq<char>, ExprView),
    Const(Seq<char>, ExprView),
    Assign(Seq<char>, ExprView),
    If(ExprView, Box<StatementView>, Option<Box<StatementView>>),
    While(ExprView, Box<StatementView>),
    Block(Seq<StatementView>),
    Return(Option<ExprView>),
    Break,
    Continue,
}

/// What an [`Expr`] holds.
pub enum ExprView {
    Num(Number),
    Bool(bool),
    Str(Seq<char>),
    Var(Seq<char>),
    Binary(Operator, Box<ExprView>, Box<ExprView>),
    Unary(Operator, Box<ExprView>),
    PrimitiveCall(Builtin, Seq<ExprView>),
    Call(Box<ExprView>, Seq<ExprView>),
    Lambda(Seq<Seq<char>>, Box<StatementView>),
    Index(Box<ExprView>, Box<ExprView>),
}

/// What a sequence of names holds.
pub open spec fn names_view(names: Seq<String>) -> Seq<Seq<char>> {
    Seq::new(names.len(), |i: int| names[i]@)
}

/// What a sequence of expressions holds.
pub open spec fn exprs_view(exprs: Seq<Expr>) -> Seq<ExprView>
    decreases exprs,
{
    Seq::new(
        exprs.len(),
        |i: int|
            if 0 <= i < exprs.len() {
                exprs[i].model()
            } else {
                ExprView::Bool(false)
            },
    )
}

/// What a sequence of statements holds.
pub open spec fn statements_view(statements: Seq<Statement>) -> Seq<StatementView>
    decreases statements,
{
    Seq::new(
        statements.len(),
        |i: int|
            if 0 <= i < statements.len() {
                statements[i].model()
            } else {
                StatementView::Break
            },
    )
}

/// What a sequence of procedures holds.
pub open spec fn procedures_view(procedures: Seq<Procedure>) -> Seq<ProcedureView> {
    Seq::new(procedures.len(), |i: int| procedures[i]@)
}

impl Expr {
    /// What the expression holds.
    pub open spec fn model(self) -> ExprView
        decreases self,
    {
        match self {
            Expr::Num(n) => ExprView::Num(n),
            Expr::Bool(b) => ExprView::Bool(b),
            Expr::Str(s) => ExprView::Str(s@),
            Expr::Var(name) => ExprView::Var(name@),
            Expr::Binary(op, left, right) => ExprView::Binary(
                op,
                Box::new(left.model()),
                Box::new(right.model()),
            ),
            Expr::Unary(op, operand) => ExprView::Unary(op, Box::new(operand.model())),
            Expr::PrimitiveCall(builtin, args) => ExprView::PrimitiveCall(
                builtin,
                exprs_view(args@),
            ),
            Expr::Call(callee, args) => ExprView::Call(
                Box::new(callee.model()),
                exprs_view(args@),
            ),
            Expr::Lambda(params, body) => ExprView::Lambda(
                names_view(params@),
                Box::new(body.model()),
            ),
            Expr::Index(base, index) => ExprView::Index(
                Box::new(base.model()),
                Box::new(index.model()),
            ),
        }
    }
}

impl Statement {
    /// What the statement holds.
    pub open spec fn model(self) -> StatementView
        decreases self,
    {
        match self {
            Statement::Expr(e) => StatementView::Expr(e.model()),
            Statement::Let(name, e) => StatementView::Let(name@, e.model()),
            Statement::Const(name, e) => StatementView::Const(name@, e.model()),
            Statement::Assign(name, e) => StatementView::Assign(name@, e.model()),
            Statement::If(cond, then_branch, else_branch) => StatementView::If(
                cond.model(),
                Box::new(then_branch.model()),
                match else_branch {
                    Some(branch) => Some(Box::new(branch.model())),
                    None => None,
                },
            ),
            Statement::While(cond, body) => StatementView::While(
                cond.model(),
                Box::new(body.model()),
            ),
            Statement::Block(statements) => StatementView::Block(statements_view(statements@)),
            Statement::Return(value) => StatementView::Return(
                match value {
                    Some(e) => Some(e.model()),
                    None => None,
                },
            ),
            Statement::Break => StatementView::Break,
            Statement::Continue => StatementView::Continue,
        }
    }
}

impl View for Expr {
    type V = ExprView;

    open spec fn view(&self) -> ExprView {
        self.model()
    }
}

impl View for Statement {
    type V = StatementView;

    open spec fn view(&self) -> StatementView {
        self.model()
    }
}

impl View for Procedure {
    type V = ProcedureView;

    open spec fn view(&self) -> ProcedureView {
        ProcedureView { name: self.name@, params: names_view(self.params@), body: self.body@ }
    }
}

/// A copy of a list of names.
pub fn duplicate_names(names: &Vec<String>) -> (r: Vec<String>)
    ensures
        names_view(r@) == names_view(names@),
{
    let mut copy: Vec<String> = Vec::new();
    let mut i: usize = 0;
    while i < names.len()
        invariant
            i <= names.len(),
            copy@.len() == i,
            forall|j: int| 0 <= j < i ==> copy@[j]@ == names@[j]@,
        decreases names.len() - i,
    {
        copy.push(names[i].clone());
        i += 1;
    }
    proof {
        assert(names_view(copy@) =~= names_view(names@));
    }
    copy
}

/// A copy of a list of expressions.
pub fn duplicate_exprs(exprs: &Vec<Expr>) -> (r: Vec<Expr>)
    ensures
        exprs_view(r@) == exprs_view(exprs@),
    decreases exprs,
{
    let mut copy: Vec<Expr> = Vec::new();
    let mut i: usize = 0;
    while i < exprs.len()
        invariant
            i <= exprs.len(),
            copy@.len() == i,
            forall|j: int| 0 <= j < i ==> copy@[j]@ == exprs@[j]@,
        decreases exprs.len() - i,
    {
        copy.push(exprs[i].duplicate());
        i += 1;
    }
    proof {
        assert(exprs_view(copy@) =~= exprs_view(exprs@));
    }
    copy
}

/// A copy of a list of statements.
pub fn duplicate_statements(statements: &Vec<Statement>) -> (r: Vec<Statement>)
    ensures
        statements_view(r@) == statements_view(statements@),
    decreases statements,
{
    let mut copy: Vec<Statement> = Vec::new();
    let mut i: usize = 0;
    while i < statements.len()
        invariant
            i <= statements.len(),
            copy@.len() == i,
            forall|j: int| 0 <= j < i ==> copy@[j]@ == statements@[j]@,
        decreases statements.len() - i,
    {
        copy.push(statements[i].duplicate());
        i += 1;
    }
    proof {
        assert(statements_view(copy@) =~= statements_view(statements@));
    }
    copy
}

impl Expr {
    /// A copy of the expression.
    pub fn duplicate(&self) -> (r: Expr)
        ensures
            r@ == self@,
        decreases self,
    {
        match self {
            Expr::Num(n) => Expr::Num(*n),
            Expr::Bool(b) => Expr::Bool(*b),
            Expr::Str(s) => Expr::Str(s.clone()),
            Expr::Var(name) => Expr::Var(name.clone()),
            Expr::Binary(op, left, right) => Expr::Binary(
                *op,
                Box::new(left.duplicate()),
                Box::new(right.duplicate()),
            ),
            Expr::Unary(op, operand) => Expr::Unary(*op, Box::new(operand.duplicate())),
            Expr::PrimitiveCall(builtin, args) => Expr::PrimitiveCall(
                *builtin,
                duplicate_exprs(args),
            ),
            Expr::Call(callee, args) => Expr::Call(
                Box::new(callee.duplicate()),
                duplicate_exprs(args),
            ),
            Expr::Lambda(params, body) => Expr::Lambda(
                duplicate_names(params),
                Box::new(body.duplicate()),
            ),
            Expr::Index(base, index) => Expr::Index(
                Box::new(base.duplicate()),
                Box::new(index.duplicate()),
            ),
        }
    }
}

impl Statement {
    /// A copy of the statement.
    pub fn duplicate(&self) -> (r: Statement)
        ensures
            r@ == self@,
        decreases self,
    {
        match self {
            Statement::Expr(e) => Statement::Expr(e.duplicate()),
            Statement::Let(name, e) => Statement::Let(name.clone(), e.duplicate()),
            Statement::Const(name, e) => Statement::Const(name.clone(), e.duplicate()),
            Statement::Assign(name, e) => Statement::Assign(name.clone(), e.duplicate()),
            Statement::If(cond, then_branch, else_branch) => {
                let other = match else_branch {
                    Some(branch) => Some(Box::new(branch.duplicate())),
                    None => None,
                };
                Statement::If(cond.duplicate(), Box::new(then_branch.duplicate()), other)
            },
            Statement::While(cond, body) => Statement::While(
                cond.duplicate(),
                Box::new(body.duplicate()),
            ),
            Statement::Block(statements) => Statement::Block(duplicate_statements(statements)),
            Statement::Return(value) => Statement::Return(
                match value {
                    Some(e) => Some(e.duplicate()),
                    None => None,
                },
            ),
            Statement::Break => Statement::Break,
            Statement::Continue => Statement::Continue,
        }
    }
}

impl Procedure {
    /// A copy of the procedure.
    pub fn duplicate(&self) -> (r: Procedure)
        ensures
            r@ == self@,
    {
        Procedure {
            name: self.name.clone(),
            params: duplicate_names(&self.params),
            body: self.body.duplicate(),
        }
    }
}

impl Clone for Expr {
    fn clone(&self) -> (r: Self)
        ensures
            r@ == self@,
    {
        self.duplicate()
    }
}

impl Clone for Statement {
    fn clone(&self) -> (r: Self)
        ensures
            r@ == self@,
    {
        self.duplicate()
    }
}

impl Clone for Procedure {
    fn clone(&self) -> (r: Self)
        ensures
            r@ == self@,
    {
        self.duplicate()
    }
}

/// A copy of a list of procedures.
pub fn duplicate_procedures(procedures: &Vec<Procedure>) -> (r: Vec<Procedure>)
    ensures
        procedures_view(r@) == procedures_view(procedures@),
{
    let mut copy: Vec<Procedure> = Vec::new();
    let mut i: usize = 0;
    while i < procedures.len()
        invariant
            i <= procedures.len(),
            copy@.len() == i,
            forall|j: int| 0 <= j < i ==> copy@[j]@ == procedures@[j]@,
        decreases procedures.len() - i,
    {
        copy.push(procedures[i].duplicate());
        i += 1;
    }
    proof {
        assert(procedures_view(copy@) =~= procedures_view(procedures@));
    }
    copy
}

/// The operator of a compound assignment.
pub open spec fn assign_operator(op: AssignOp) -> Operator {
    match op {
        AssignOp::Plus => Operator::Plus,
        AssignOp::Minus => Operator::Minus,
    }
}

/// The core expression of a parsed expression: the same expression, with
/// the statements in it lowered.
pub open spec fn desugared_expr(e: SugaredExprView) -> ExprView
    decreases e,
{
    match e {
        SugaredExprView::Num(n) => ExprView::Num(n),
        SugaredExprView::Bool(b) => ExprView::Bool(b),
        SugaredExprView::Str(s) => ExprView::Str(s),
        SugaredExprView::Var(name) => ExprView::Var(name),
        SugaredExprView::Binary(op, left, right) => ExprView::Binary(
            op,
            Box::new(desugared_expr(*left)),
            Box::new(desugared_expr(*right)),
        ),
        SugaredExprView::Unary(op, operand) => ExprView::Unary(
            op,
            Box::new(desugared_expr(*operand)),
        ),
        SugaredExprView::PrimitiveCall(builtin, args) => ExprView::PrimitiveCall(
            builtin,
            desugared_exprs(args),
        ),
        SugaredExprView::Call(callee, args) => ExprView::Call(
            Box::new(desugared_expr(*callee)),
            desugared_exprs(args),
        ),
        SugaredExprView::Lambda(params, body) => ExprView::Lambda(
            params,
            Box::new(desugared_statement(*body)),
        ),
        SugaredExprView::Index(base, index) => ExprView::Index(
            Box::new(desugared_expr(*base)),
            Box::new(desugared_expr(*index)),
        ),
    }
}

/// The core expressions of a sequence of parsed expressions.
pub open spec fn desugared_exprs(es: Seq<SugaredExprView>) -> Seq<ExprView>
    decreases es,
{
    Seq::new(
        es.len(),
        |i: int|
            if 0 <= i < es.len() {
                desugared_expr(es[i])
            } else {
                ExprView::Bool(false)
            },
    )
}

/// The core statements of a sequence of parsed statements.
pub open spec fn desugared_statements(ss: Seq<SugaredStatementView>) -> Seq<StatementView>
    decreases ss,
{
    Seq::new(
        ss.len(),
        |i: int|
            if 0 <= i < ss.len() {
                desugared_statement(ss[i])
            } else {
                StatementView::Break
            },
    )
}

/// What follows the first block of an `if`: nothing where there is neither
/// an `else if` nor an `else`; the lowered `else` block where there is no
/// `else if`; else an `if` of the first `else if`, followed by what follows
/// from the others.
pub open spec fn desugared_else(
    else_ifs: Seq<(SugaredExprView, SugaredStatementView)>,
    last: Option<StatementView>,
) -> Option<StatementView>
    decreases else_ifs,
{
    if else_ifs.len() == 0 {
        last
    } else {
        Some(
            StatementView::If(
                desugared_expr(else_ifs[0].0),
                Box::new(desugared_statement(else_ifs[0].1)),
                match desugared_else(else_ifs.drop_first(), last) {
                    Some(s) => Some(Box::new(s)),
                    None => None,
                },
            ),
        )
    }
}

/// The core statement of a parsed statement. A compound assignment becomes
/// the assignment of a binary operation on the variable; an `if` with
/// `else if`s becomes a nest of `if`s; a `for` becomes a block of its
/// initialisation and a `while` whose body is a block of the statements of
/// the `for` and then its step. Every other statement stays, with its parts
/// lowered.
pub open spec fn desugared_statement(s: SugaredStatementView) -> StatementView
    decreases s,
{
    match s {
        SugaredStatementView::Expr(e) => StatementView::Expr(desugared_expr(e)),
        SugaredStatementView::Let(name, e) => StatementView::Let(name, desugared_expr(e)),
        SugaredStatementView::Const(name, e) => StatementView::Const(name, desugared_expr(e)),
        SugaredStatementView::Assign(name, e) => StatementView::Assign(name, desugared_expr(e)),
        SugaredStatementView::OperatorAssignment(op, name, e) => StatementView::Assign(
            name,
            ExprView::Binary(
                assign_operator(op),
                Box::new(ExprView::Var(name)),
                Box::new(desugared_expr(e)),
            ),
        ),
        SugaredStatementView::Block(statements) => StatementView::Block(
            desugared_statements(statements),
        ),
        SugaredStatementView::If(cond, then_block, else_ifs, else_block) => StatementView::If(
            desugared_expr(cond),
            Box::new(desugared_statement(*then_block)),
            match desugared_else(
                else_ifs,
                match else_block {
                    Some(block) => Some(desugared_statement(*block)),
                    None => None,
                },
            ) {
                Some(s) => Some(Box::new(s)),
                None => None,
            },
        ),
        SugaredStatementView::While(cond, body) => StatementView::While(
            desugared_expr(cond),
            Box::new(desugared_statement(*body)),
        ),
        SugaredStatementView::For(init, stop, step, body) => StatementView::Block(
            seq![
                desugared_statement(*init),
                StatementView::While(
                    desugared_expr(stop),
                    Box::new(
                        StatementView::Block(
                            desugared_statements(body).push(desugared_statement(*step)),
                        ),
                    ),
                ),
            ],
        ),
        SugaredStatementView::Break => StatementView::Break,
        SugaredStatementView::Continue => StatementView::Continue,
        SugaredStatementView::Return(value) => StatementView::Return(
            match value {
                Some(e) => Some(desugared_expr(e)),
                None => None,
            },
        ),
    }
}

/// The core expressions of a list of parsed expressions.
pub fn desugar_expressions(sugared_exprs: &Vec<SugaredExpr>) -> (r: Vec<Expr>)
    ensures
        exprs_view(r@) == desugared_exprs(sugared_exprs_view(sugared_exprs@)),
    decreases sugared_exprs,
{
    let mut lowered: Vec<Expr> = Vec::new();
    let mut i: usize = 0;
    while i < sugared_exprs.len()
        invariant
            i <= sugared_exprs.len(),
            lowered@.len() == i,
            forall|j: int| 0 <= j < i ==> lowered@[j]@ == desugared_expr(sugared_exprs@[j]@),
        decreases sugared_exprs.len() - i,
    {
        lowered.push(desugar_expression(&sugared_exprs[i]));
        i += 1;
    }
    proof {
        assert(exprs_view(lowered@) =~= desugared_exprs(sugared_exprs_view(sugared_exprs@)));
    }
    lowered
}

/// The core statements of a list of parsed statements.
pub fn desugar_statements(sugared_statements: &Vec<SugaredStatement>) -> (r: Vec<Statement>)
    ensures
        statements_view(r@) == desugared_statements(sugared_statements_view(sugared_statements@)),
    decreases sugared_statements,
{
    let mut lowered: Vec<Statement> = Vec::new();
    let mut i: usize = 0;
    while i < sugared_statements.len()
        invariant
            i <= sugared_statements.len(),
            lowered@.len() == i,
            forall|j: int|
                0 <= j < i ==> lowered@[j]@ == desugared_statement(sugared_statements@[j]@),
        decreases sugared_statements.len() - i,
    {
        lowered.push(desugar_statement(&sugared_statements[i]));
        i += 1;
    }
    proof {
        assert(statements_view(lowered@) =~= desugared_statements(
            sugared_statements_view(sugared_statements@),
        ));
    }
    lowered
}

/// The core expression of a parsed expression.
pub fn desugar_expression(sugared_expr: &SugaredExpr) -> (r: Expr)
    ensures
        r@ == desugared_expr(sugared_expr@),
    decreases sugared_expr,
{
    match sugared_expr {
        SugaredExpr::Num(n) => Expr::Num(*n),
        SugaredExpr::Bool(b) => Expr::Bool(*b),
        SugaredExpr::Str(s) => Expr::Str(s.clone()),
        SugaredExpr::Var(id) => Expr::Var(id.clone()),
        SugaredExpr::Binary(op, left, right) => Expr::Binary(
            *op,
            Box::new(desugar_expression(left)),
            Box::new(desugar_expression(right)),
        ),
        SugaredExpr::Unary(op, operand) => Expr::Unary(*op, Box::new(desugar_expression(operand))),
        SugaredExpr::PrimitiveCall(builtin, args) => Expr::PrimitiveCall(
            *builtin,
            desugar_expressions(args),
        ),
        SugaredExpr::Call(callee, args) => Expr::Call(
            Box::new(desugar_expression(callee)),
            desugar_expressions(args),
        ),
        SugaredExpr::Lambda(params, body) => Expr::Lambda(
            duplicate_names(params),
            Box::new(desugar_statement(body)),
        ),
        SugaredExpr::Index(base, index) => Expr::Index(
            Box::new(desugar_expression(base)),
            Box::new(desugar_expression(index)),
        ),
    }
}

fn desugar_else(
    else_ifs: &Vec<(SugaredExpr, SugaredStatement)>,
    last: Option<Statement>,
) -> (r: Option<Statement>)
    ensures
        statement_option_view(r) == desugared_else(
            else_ifs_view(else_ifs@),
            statement_option_view(last),
        ),
    decreases else_ifs,
{
    let mut folded = last;
    let mut i: usize = else_ifs.len();
    let ghost all = else_ifs_view(else_ifs@);
    proof {
        assert(all.subrange(all.len() as int, all.len() as int) =~= Seq::empty());
    }
    while i > 0
        invariant
            i <= else_ifs.len(),
            all == else_ifs_view(else_ifs@),
            statement_option_view(folded) == desugared_else(
                all.subrange(i as int, all.len() as int),
                statement_option_view(last),
            ),
        decreases i,
    {
        i -= 1;
        let else_if = &else_ifs[i];
        proof {
            let from = all.subrange(i as int, all.len() as int);
            assert(from.drop_first() =~= all.subrange(i + 1, all.len() as int));
            assert(from[0] == (else_if.0@, else_if.1@));
        }
        folded = Some(
            Statement::If(
                desugar_expression(&else_if.0),
                Box::new(desugar_statement(&else_if.1)),
                match folded {
                    Some(s) => Some(Box::new(s)),
                    None => None,
                },
            ),
        );
    }
    proof {
        assert(all.subrange(0, all.len() as int) =~= all);
    }
    folded
}

/// What an optional statement holds.
pub open spec fn statement_option_view(s: Option<Statement>) -> Option<StatementView> {
    match s {
        Some(s) => Some(s@),
        None => None,
    }
}

/// The core statement of a parsed statement.
pub fn desugar_statement(sugared_statement: &SugaredStatement) -> (r: Statement)
    ensures
        r@ == desugared_statement(sugared_statement@),
    decreases sugared_statement,
{
    match sugared_statement {
        SugaredStatement::Expr(e) => Statement::Expr(desugar_expression(e)),
        SugaredStatement::Let(name, e) => Statement::Let(name.clone(), desugar_expression(e)),
        SugaredStatement::Const(name, e) => Statement::Const(name.clone(), desugar_expression(e)),
        SugaredStatement::Assign(name, e) => Statement::Assign(name.clone(), desugar_expression(e)),
        SugaredStatement::OperatorAssignment(assign_op, id, e) => {
            let op = match assign_op {
                AssignOp::Plus => Operator::Plus,
                AssignOp::Minus => Operator::Minus,
            };
            let variable = Expr::Var(id.clone());
            let value = desugar_expression(e);
            assert(variable@ == ExprView::Var(id@));
            let changed = Expr::Binary(op, Box::new(variable), Box::new(value));
            assert(changed@ == ExprView::Binary(op, Box::new(variable@), Box::new(value@)));
            Statement::Assign(id.clone(), changed)
        },
        SugaredStatement::Block(statements) => Statement::Block(desugar_statements(statements)),
        SugaredStatement::If(cond, then_block, else_ifs, else_block) => {
            let last = match else_block {
                Some(block) => Some(desugar_statement(block)),
                None => None,
            };
            let folded = desugar_else(else_ifs, last);
            Statement::If(
                desugar_expression(cond),
                Box::new(desugar_statement(then_block)),
                match folded {
                    Some(s) => Some(Box::new(s)),
                    None => None,
                },
            )
        },
        SugaredStatement::While(cond, body) => Statement::While(
            desugar_expression(cond),
            Box::new(desugar_statement(body)),
        ),
        SugaredStatement::For(init, stop, step, body) => {
            let first = desugar_statement(init);
            let cond = desugar_expression(stop);
            let last = desugar_statement(step);
            let mut turn = desugar_statements(body);
            let ghost before = statements_view(turn@);
            turn.push(last);
            proof {
                assert(statements_view(turn@) =~= before.push(last@));
            }
            let inner = Statement::Block(turn);
            assert(inner@ == StatementView::Block(before.push(last@)));
            let repeat = Statement::While(cond, Box::new(inner));
            assert(repeat@ == StatementView::While(cond@, Box::new(inner@)));
            let mut both: Vec<Statement> = Vec::new();
            both.push(first);
            both.push(repeat);
            proof {
                assert(statements_view(both@) =~= seq![first@, repeat@]);
            }
            Statement::Block(both)
        },
        SugaredStatement::Break => Statement::Break,
        SugaredStatement::Continue => Statement::Continue,
        SugaredStatement::Return(value) => Statement::Return(
            match value {
                Some(e) => Some(desugar_expression(e)),
                None => None,
            },
        ),
    }
}

/// A `for` is lowered to what its expansion by hand is lowered to: a block
/// of the initialisation and a `while` on the condition, whose body is a
/// block of the statements of the `for` and then the step.
pub proof fn for_is_its_expansion(
    init: SugaredStatementView,
    stop: SugaredExprView,
    step: SugaredStatementView,
    body: Seq<SugaredStatementView>,
)
    ensures
        desugared_statement(
            SugaredStatementView::For(Box::new(init), stop, Box::new(step), body),
        ) == desugared_statement(
            SugaredStatementView::Block(
                seq![
                    init,
                    SugaredStatementView::While(
                        stop,
                        Box::new(SugaredStatementView::Block(body.push(step))),
                    ),
                ],
            ),
        ),
{
    let turn = SugaredStatementView::Block(body.push(step));
    let repeat = SugaredStatementView::While(stop, Box::new(turn));
    assert(desugared_statements(body.push(step)) =~= desugared_statements(body).push(
        desugared_statement(step),
    ));
    assert(desugared_statement(turn) == StatementView::Block(
        desugared_statements(body).push(desugared_statement(step)),
    ));
    assert(desugared_statement(repeat) == StatementView::While(
        desugared_expr(stop),
        Box::new(desugared_statement(turn)),
    ));
    assert(desugared_statements(seq![init, repeat]) =~= seq![
        desugared_statement(init),
        desugared_statement(repeat),
    ]);
}

} // verus!
