//! The failures of the three stages: tokenizing, parsing and running.
use vstd::prelude::*;
use vstd::string::StringExecFns;
use crate::interpreter::display_list;
use crate::interpreter::duplicate_values;
use crate::interpreter::join_values;
use crate::interpreter::values_view;
use crate::interpreter::Value;
use crate::interpreter::ValueView;
use crate::number::int_digits;
use crate::number::nat_digits;
use crate::number::push_char;
use crate::number::push_int;
use crate::number::push_nat;
use crate::tokenizer::operator_text;
use crate::tokenizer::Operator;
use crate::tokenizer::Token;
use crate::tokenizer::TokenValue;
use crate::tokenizer::TokenValueView;
use crate::tokenizer::TokenView;

verus! {

/// A failure to split a source text into tokens.
#[derive(Debug, Clone)]
pub enum TokenizerError {
    /// The text holds characters that start no known token.
    UnknownToken(String),
    /// A string literal is not closed by a double quote on its line.
    UnterminatedStringLiteral,
    /// A backslash in a string literal is followed by this character, which
    /// names no escape.
    InvalidEscapeSequence(char),
}

/// What a [`TokenizerError`] holds.
pub enum TokenizerErrorView {
    UnknownToken(Seq<char>),
    UnterminatedStringLiteral,
    InvalidEscapeSequence(char),
}

impl View for TokenizerError {
    type V = TokenizerErrorView;

    open spec fn view(&self) -> TokenizerErrorView {
        match self {
            TokenizerError::UnknownToken(s) => TokenizerErrorView::UnknownToken(s@),
            TokenizerError::UnterminatedStringLiteral => TokenizerErrorView::UnterminatedStringLiteral,
            TokenizerError::InvalidEscapeSequence(c) => TokenizerErrorView::InvalidEscapeSequence(*c),
        }
    }
}

impl TokenizerErrorView {
    /// The message of the failure.
    pub open spec fn message(self) -> Seq<char> {
        match self {
            TokenizerErrorView::UnknownToken(s) => "unknown token: "@ + s,
            TokenizerErrorView::UnterminatedStringLiteral => "unterminated string literal"@,
            TokenizerErrorView::InvalidEscapeSequence(c) => "invalid escape sequence \"\\"@.push(c)
                + "\""@,
        }
    }
}

impl TokenizerError {
    /// The message of the failure.
    pub fn to_string(&self) -> (r: String)
        ensures
            r@ == self@.message(),
    {
        match self {
            TokenizerError::UnknownToken(s) => {
                let mut text = String::from_str("unknown token: ");
                text.append(s.as_str());
                text
            },
            TokenizerError::UnterminatedStringLiteral => String::from_str(
                "unterminated string literal",
            ),
            TokenizerError::InvalidEscapeSequence(c) => {
                let mut text = String::from_str("invalid escape sequence \"\\");
                push_char(&mut text, *c);
                text.append("\"");
                text
            },
        }
    }
}

/// A failure to parse a sequence of tokens.
#[derive(Debug)]
pub enum ParseError {
    /// There is no procedure named `main`.
    NoMain,
    /// Two top-level procedures have this name.
    MultipleSameNamedProcs(String),
    /// This token stands where nothing can begin or go on with it.
    UnexpectedToken(Token),
    /// The tokens end where more are needed.
    UnexpectedEOF,
    /// The first token value was needed where the second token stands.
    Expected(TokenValue, Token),
    /// A reserved word stands where a variable is named.
    KeywordAsVar(String),
    /// A reserved word stands where a top-level procedure is named.
    KeywordAsProc(String),
    /// A reserved word stands where a parameter is named.
    KeywordAsParam(String),
    /// A statement was needed.
    ExpectedStatement,
    /// A block was needed.
    ExpectedBlock,
    /// The step of a `for` is no assignment.
    ExpectedAssignment,
    /// The initialisation of a `for` is neither an assignment nor a `let`.
    ExpectedAssignmentOrInitialization,
}

/// What a [`ParseError`] holds.
pub enum ParseErrorView {
    NoMain,
    MultipleSameNamedProcs(Seq<char>),
    UnexpectedToken(TokenView),
    UnexpectedEOF,
    Expected(TokenValueView, TokenView),
    KeywordAsVar(Seq<char>),
    KeywordAsProc(Seq<char>),
    KeywordAsParam(Seq<char>),
    ExpectedStatement,
    ExpectedBlock,
    ExpectedAssignment,
    ExpectedAssignmentOrInitialization,
}

impl View for ParseError {
    type V = ParseErrorView;

    open spec fn view(&self) -> ParseErrorView {
        match self {
            ParseError::NoMain => ParseErrorView::NoMain,
            ParseError::MultipleSameNamedProcs(s) => ParseErrorView::MultipleSameNamedProcs(s@),
            ParseError::UnexpectedToken(t) => ParseErrorView::UnexpectedToken(t@),
            ParseError::UnexpectedEOF => ParseErrorView::UnexpectedEOF,
            ParseError::Expected(v, t) => ParseErrorView::Expected(v@, t@),
            ParseError::KeywordAsVar(s) => ParseErrorView::KeywordAsVar(s@),
            ParseError::KeywordAsProc(s) => ParseErrorView::KeywordAsProc(s@),
            ParseError::KeywordAsParam(s) => ParseErrorView::KeywordAsParam(s@),
            ParseError::ExpectedStatement => ParseErrorView::ExpectedStatement,
            ParseError::ExpectedBlock => ParseErrorView::ExpectedBlock,
            ParseError::ExpectedAssignment => ParseErrorView::ExpectedAssignment,
            ParseError::ExpectedAssignmentOrInitialization => ParseErrorView::ExpectedAssignmentOrInitialization,
        }
    }
}

/// A position as it is shown in a message: the line and the column in round
/// brackets.
pub open spec fn position_text(line: nat, column: nat) -> Seq<char> {
    "("@ + nat_digits(line) + ", "@ + nat_digits(column) + ")"@
}

impl ParseErrorView {
    /// The message of the failure.
    pub open spec fn message(self) -> Seq<char> {
        match self {
            ParseErrorView::NoMain => "main procedure not found"@,
            ParseErrorView::MultipleSameNamedProcs(name) => "multiple procedures with name \""@
                + name + "\""@,
            ParseErrorView::UnexpectedToken(token) => "unexpected token \""@ + token.value.text()
                + "\" @ "@ + position_text(token.line, token.column),
            ParseErrorView::UnexpectedEOF => "unexpected end of file"@,
            ParseErrorView::Expected(target, token) => "expected token \""@ + target.text()
                + "\" @ "@ + position_text(token.line, token.column) + ", instead got \""@
                + token.value.text() + "\""@,
            ParseErrorView::KeywordAsVar(keyword) => "keyword \""@ + keyword
                + "\" used as variable"@,
            ParseErrorView::KeywordAsProc(keyword) => "keyword \""@ + keyword
                + "\" used as procedure name"@,
            ParseErrorView::KeywordAsParam(keyword) => "keyword \""@ + keyword
                + "\" used as parameter name"@,
            ParseErrorView::ExpectedStatement => "expected a statement"@,
            ParseErrorView::ExpectedBlock => "expected a block"@,
            ParseErrorView::ExpectedAssignment => "expected an assignment statement"@,
            ParseErrorView::ExpectedAssignmentOrInitialization => "expected an assignment or initialization statement"@,
        }
    }
}

fn position_string(line: usize, column: usize) -> (r: String)
    ensures
        r@ == position_text(line as nat, column as nat),
{
    let mut text = String::from_str("(");
    push_nat(&mut text, line as u64);
    text.append(", ");
    push_nat(&mut text, column as u64);
    text.append(")");
    text
}

fn quoted(before: &str, middle: &str, after: &str) -> (r: String)
    ensures
        r@ == before@ + middle@ + after@,
{
    let mut text = String::from_str(before);
    text.append(middle);
    text.append(after);
    text
}

impl ParseError {
    /// The message of the failure.
    pub fn to_string(&self) -> (r: String)
        ensures
            r@ == self@.message(),
    {
        match self {
            ParseError::NoMain => String::from_str("main procedure not found"),
            ParseError::MultipleSameNamedProcs(name) => quoted(
                "multiple procedures with name \"",
                name.as_str(),
                "\"",
            ),
            ParseError::UnexpectedToken(token) => {
                let mut text = String::from_str("unexpected token \"");
                text.append(token.0.to_string().as_str());
                text.append("\" @ ");
                text.append(position_string(token.1, token.2).as_str());
                text
            },
            ParseError::UnexpectedEOF => String::from_str("unexpected end of file"),
            ParseError::Expected(target, token) => {
                let mut text = String::from_str("expected token \"");
                text.append(target.to_string().as_str());
                text.append("\" @ ");
                text.append(position_string(token.1, token.2).as_str());
                text.append(", instead got \"");
                text.append(token.0.to_string().as_str());
                text.append("\"");
                text
            },
            ParseError::KeywordAsVar(keyword) => quoted(
                "keyword \"",
                keyword.as_str(),
                "\" used as variable",
            ),
            ParseError::KeywordAsProc(keyword) => quoted(
                "keyword \"",
                keyword.as_str(),
                "\" used as procedure name",
            ),
            ParseError::KeywordAsParam(keyword) => quoted(
                "keyword \"",
                keyword.as_str(),
                "\" used as parameter name",
            ),
            ParseError::ExpectedStatement => String::from_str("expected a statement"),
            ParseError::ExpectedBlock => String::from_str("expected a block"),
            ParseError::ExpectedAssignment => String::from_str("expected an assignment statement"),
            ParseError::ExpectedAssignmentOrInitialization => String::from_str(
                "expected an assignment or initialization statement",
            ),
        }
    }
}

/// A failure while a program runs.
#[derive(Debug)]
pub enum RuntimeError {
    /// The name is bound to nothing.
    UnknownVariable(String),
    /// The value is no fit operand.
    BadArg(Value),
    /// The values are no fit operands.
    BadArgs(Vec<Value>),
    /// The procedure of this name takes the first number of arguments and
    /// was given the second.
    ArgMismatch(String, usize, usize),
    /// The value is no boolean.
    ExpectedBool(Value),
    /// The value is no whole number.
    ExpectedInteger(Value),
    /// The value is no list.
    ExpectedList(Value),
    /// An operator of two operands was given one.
    BinaryAsUnary(Operator),
    /// An operator of one operand was given two.
    UnaryAsBinary(Operator),
    /// A `break` outside every loop.
    BreakNotInLoop,
    /// A `continue` outside every loop.
    ContinueNotInLoop,
    /// An increment or decrement of what is no variable.
    InvalidAssignmentTarget,
    /// An assignment to the constant of this name.
    ReassignConstant(String),
    /// An assignment to the top-level procedure of this name.
    ReassignTopLevelProc(String),
    /// The value is neither a list nor a string.
    NotIndexable(Value),
    /// The index is negative or not below the length.
    IndexOutOfBounds(i64),
    /// The evaluation went deeper, by calls and turns of loops, than it was
    /// allowed to.
    LimitExceeded,
}

/// What a [`RuntimeError`] holds.
pub enum RuntimeErrorView {
    UnknownVariable(Seq<char>),
    BadArg(ValueView),
    BadArgs(Seq<ValueView>),
    ArgMismatch(Seq<char>, usize, usize),
    ExpectedBool(ValueView),
    ExpectedInteger(ValueView),
    ExpectedList(ValueView),
    BinaryAsUnary(Operator),
    UnaryAsBinary(Operator),
    BreakNotInLoop,
    ContinueNotInLoop,
    InvalidAssignmentTarget,
    ReassignConstant(Seq<char>),
    ReassignTopLevelProc(Seq<char>),
    NotIndexable(ValueView),
    IndexOutOfBounds(i64),
    LimitExceeded,
}

impl View for RuntimeError {
    type V = RuntimeErrorView;

    open spec fn view(&self) -> RuntimeErrorView {
        match self {
            RuntimeError::UnknownVariable(s) => RuntimeErrorView::UnknownVariable(s@),
            RuntimeError::BadArg(v) => RuntimeErrorView::BadArg(v@),
            RuntimeError::BadArgs(vs) => RuntimeErrorView::BadArgs(values_view(vs@)),
            RuntimeError::ArgMismatch(s, expected, actual) => RuntimeErrorView::ArgMismatch(
                s@,
                *expected,
                *actual,
            ),
            RuntimeError::ExpectedBool(v) => RuntimeErrorView::ExpectedBool(v@),
            RuntimeError::ExpectedInteger(v) => RuntimeErrorView::ExpectedInteger(v@),
            RuntimeError::ExpectedList(v) => RuntimeErrorView::ExpectedList(v@),
            RuntimeError::BinaryAsUnary(op) => RuntimeErrorView::BinaryAsUnary(*op),
            RuntimeError::UnaryAsBinary(op) => RuntimeErrorView::UnaryAsBinary(*op),
            RuntimeError::BreakNotInLoop => RuntimeErrorView::BreakNotInLoop,
            RuntimeError::ContinueNotInLoop => RuntimeErrorView::ContinueNotInLoop,
            RuntimeError::InvalidAssignmentTarget => RuntimeErrorView::InvalidAssignmentTarget,
            RuntimeError::ReassignConstant(s) => RuntimeErrorView::ReassignConstant(s@),
            RuntimeError::ReassignTopLevelProc(s) => RuntimeErrorView::ReassignTopLevelProc(s@),
            RuntimeError::NotIndexable(v) => RuntimeErrorView::NotIndexable(v@),
            RuntimeError::IndexOutOfBounds(i) => RuntimeErrorView::IndexOutOfBounds(*i),
            RuntimeError::LimitExceeded => RuntimeErrorView::LimitExceeded,
        }
    }
}

impl RuntimeErrorView {
    /// The message of the failure.
    pub open spec fn message(self) -> Seq<char> {
        match self {
            RuntimeErrorView::UnknownVariable(id) => "unknown variable \""@ + id + "\""@,
            RuntimeErrorView::BadArg(v) => "bad argument \""@ + v.display() + "\""@,
            RuntimeErrorView::BadArgs(vs) => "bad args: ["@ + display_list(vs, ", "@) + "]"@,
            RuntimeErrorView::ArgMismatch(name, expected, actual) => "procedure \""@ + name
                + "\" expected "@ + nat_digits(expected as nat) + " args, instead got "@
                + nat_digits(actual as nat),
            RuntimeErrorView::ExpectedBool(v) => "expected boolean value, instead got "@
                + v.display(),
            RuntimeErrorView::ExpectedInteger(v) => "expected an integer but got \""@ + v.display()
                + "\", which is not an integer"@,
            RuntimeErrorView::ExpectedList(v) => "expected a list, instead got "@ + v.display()
                + ", which is not a list"@,
            RuntimeErrorView::BinaryAsUnary(op) => "binary operator \""@ + operator_text(op)
                + "\" used as unary operator"@,
            RuntimeErrorView::UnaryAsBinary(op) => "unary operator \""@ + operator_text(op)
                + "\" used as binary operator"@,
            RuntimeErrorView::BreakNotInLoop => "break statement found outside of a loop"@,
            RuntimeErrorView::ContinueNotInLoop => "continue statement found outside of a loop"@,
            RuntimeErrorView::InvalidAssignmentTarget => "invalid assignment target"@,
            RuntimeErrorView::ReassignConstant(name) => "cannot assign to \""@ + name
                + "\" because it is a constant"@,
            RuntimeErrorView::ReassignTopLevelProc(name) => "cannot assign to top-level procedure \""@
                + name + "\""@,
            RuntimeErrorView::NotIndexable(v) => "\""@ + v.display() + "\" is not indexable"@,
            RuntimeErrorView::IndexOutOfBounds(i) => "index "@ + int_digits(i as int)
                + " is out of bounds"@,
            RuntimeErrorView::LimitExceeded => "evaluation limit exceeded"@,
        }
    }
}

impl RuntimeError {
    /// The message of the failure.
    pub fn to_string(&self) -> (r: String)
        ensures
            r@ == self@.message(),
    {
        match self {
            RuntimeError::UnknownVariable(id) => quoted("unknown variable \"", id.as_str(), "\""),
            RuntimeError::BadArg(v) => quoted("bad argument \"", v.to_string().as_str(), "\""),
            RuntimeError::BadArgs(vs) => quoted("bad args: [", join_values(vs, ", ").as_str(), "]"),
            RuntimeError::ArgMismatch(name, expected, actual) => {
                let mut text = String::from_str("procedure \"");
                text.append(name.as_str());
                text.append("\" expected ");
                push_nat(&mut text, *expected as u64);
                text.append(" args, instead got ");
                push_nat(&mut text, *actual as u64);
                text
            },
            RuntimeError::ExpectedBool(v) => {
                let mut text = String::from_str("expected boolean value, instead got ");
                text.append(v.to_string().as_str());
                text
            },
            RuntimeError::ExpectedInteger(v) => quoted(
                "expected an integer but got \"",
                v.to_string().as_str(),
                "\", which is not an integer",
            ),
            RuntimeError::ExpectedList(v) => quoted(
                "expected a list, instead got ",
                v.to_string().as_str(),
                ", which is not a list",
            ),
            RuntimeError::BinaryAsUnary(op) => quoted(
                "binary operator \"",
                op.to_string().as_str(),
                "\" used as unary operator",
            ),
            RuntimeError::UnaryAsBinary(op) => quoted(
                "unary operator \"",
                op.to_string().as_str(),
                "\" used as binary operator",
            ),
            RuntimeError::BreakNotInLoop => String::from_str(
                "break statement found outside of a loop",
            ),
            RuntimeError::ContinueNotInLoop => String::from_str(
                "continue statement found outside of a loop",
            ),
            RuntimeError::InvalidAssignmentTarget => String::from_str("invalid assignment target"),
            RuntimeError::ReassignConstant(name) => quoted(
                "cannot assign to \"",
                name.as_str(),
                "\" because it is a constant",
            ),
            RuntimeError::ReassignTopLevelProc(name) => quoted(
                "cannot assign to top-level procedure \"",
                name.as_str(),
                "\"",
            ),
            RuntimeError::NotIndexable(v) => quoted(
                "\"",
                v.to_string().as_str(),
                "\" is not indexable",
            ),
            RuntimeError::IndexOutOfBounds(i) => {
                let mut text = String::from_str("index ");
                push_int(&mut text, *i);
                text.append(" is out of bounds");
                text
            },
            RuntimeError::LimitExceeded => String::from_str("evaluation limit exceeded"),
        }
    }
}

impl Clone for ParseError {
    fn clone(&self) -> (r: Self)
        ensures
            r@ == self@,
    {
        match self {
            ParseError::NoMain => ParseError::NoMain,
            ParseError::MultipleSameNamedProcs(s) => ParseError::MultipleSameNamedProcs(s.clone()),
            ParseError::UnexpectedToken(t) => ParseError::UnexpectedToken(t.duplicate()),
            ParseError::UnexpectedEOF => ParseError::UnexpectedEOF,
            ParseError::Expected(v, t) => ParseError::Expected(v.duplicate(), t.duplicate()),
            ParseError::KeywordAsVar(s) => ParseError::KeywordAsVar(s.clone()),
            ParseError::KeywordAsProc(s) => ParseError::KeywordAsProc(s.clone()),
            ParseError::KeywordAsParam(s) => ParseError::KeywordAsParam(s.clone()),
            ParseError::ExpectedStatement => ParseError::ExpectedStatement,
            ParseError::ExpectedBlock => ParseError::ExpectedBlock,
            ParseError::ExpectedAssignment => ParseError::ExpectedAssignment,
            ParseError::ExpectedAssignmentOrInitialization => ParseError::ExpectedAssignmentOrInitialization,
        }
    }
}

impl Clone for RuntimeError {
    fn clone(&self) -> (r: Self)
        ensures
            r@ == self@,
    {
        match self {
            RuntimeError::UnknownVariable(s) => RuntimeError::UnknownVariable(s.clone()),
            RuntimeError::BadArg(v) => RuntimeError::BadArg(v.duplicate()),
            RuntimeError::BadArgs(vs) => RuntimeError::BadArgs(duplicate_values(vs)),
            RuntimeError::ArgMismatch(s, expected, actual) => RuntimeError::ArgMismatch(
                s.clone(),
                *expected,
                *actual,
            ),
            RuntimeError::ExpectedBool(v) => RuntimeError::ExpectedBool(v.duplicate()),
            RuntimeError::ExpectedInteger(v) => RuntimeError::ExpectedInteger(v.duplicate()),
            RuntimeError::ExpectedList(v) => RuntimeError::ExpectedList(v.duplicate()),
            RuntimeError::BinaryAsUnary(op) => RuntimeError::BinaryAsUnary(*op),
            RuntimeError::UnaryAsBinary(op) => RuntimeError::UnaryAsBinary(*op),
            RuntimeError::BreakNotInLoop => RuntimeError::BreakNotInLoop,
            RuntimeError::ContinueNotInLoop => RuntimeError::ContinueNotInLoop,
            RuntimeError::InvalidAssignmentTarget => RuntimeError::InvalidAssignmentTarget,
            RuntimeError::ReassignConstant(s) => RuntimeError::ReassignConstant(s.clone()),
            RuntimeError::ReassignTopLevelProc(s) => RuntimeError::ReassignTopLevelProc(s.clone()),
            RuntimeError::NotIndexable(v) => RuntimeError::NotIndexable(v.duplicate()),
            RuntimeError::IndexOutOfBounds(i) => RuntimeError::IndexOutOfBounds(*i),
            RuntimeError::LimitExceeded => RuntimeError::LimitExceeded,
        }
    }
}

} // verus!
