//! The tokenizer: source text to positioned tokens.
//!
//! A text is tokenized line by line. At the head of what is left of a line
//! the token patterns are tried in a fixed order, each as a regular
//! expression anchored there, and the first that matches a non-empty prefix
//! gives the token.
use vstd::prelude::*;
use vstd::string::StringExecFns;
use vstd::string::StrSliceExecFns;
use vstd::string::StringSliceAdditionalSpecFns;
use vstd::utf8::decode_utf8;
use vstd::utf8::decode_utf8_split;
use vstd::utf8::encode_utf8;
use vstd::utf8::encode_utf8_decode_utf8;
use vstd::utf8::encode_utf8_valid_utf8;
use vstd::utf8::is_char_boundary;
use crate::error::TokenizerError;
use crate::error::TokenizerErrorView;
use crate::number::parse_decimal;
use crate::number::push_char;
use crate::number::Number;

verus! {

/// A token with the line and the column at which it starts, both counted
/// from one.
#[derive(Debug, PartialEq, Clone)]
pub struct Token(pub TokenValue, pub usize, pub usize);

/// The kind of a token, with its text or value where it has one.
#[derive(Debug, PartialEq, Clone)]
#[allow(non_camel_case_types)]
pub enum TokenValue {
    ID(String),
    STR(String),
    NUM(Number),
    ASSIGN,
    OP(Operator),
    KW(Keyword),
    ASSIGN_OP(AssignOp),
    LPAREN,
    RPAREN,
    LBRACKET,
    RBRACKET,
    L_SQUARE_BRACKET,
    R_SQUARE_BRACKET,
    SEMICOLON,
    QUOTE,
    COMMA,
    THIN_ARROW,
    DOUBLE_SLASH,
    DOUBLE_PLUS,
    DOUBLE_MINUS,
}

/// The operators of the language. The four increment and decrement forms are
/// made by the parser, never by the tokenizer.
#[derive(Copy, Clone, Debug, Eq, PartialEq, PartialOrd, Ord, Structural)]
pub enum Operator {
    Plus,
    Minus,
    Times,
    Eq,
    Ne,
    LT,
    GT,
    LTE,
    GTE,
    Mod,
    Div,
    LogicOr,
    LogicAnd,
    LogicNot,
    PreIncrement,
    PostIncrement,
    PreDecrement,
    PostDecrement,
}

/// The operators of a compound assignment.
#[derive(Copy, Clone, Debug, Eq, PartialEq, PartialOrd, Ord, Structural)]
pub enum AssignOp {
    Plus,
    Minus,
}

/// The reserved words.
#[derive(Copy, Clone, Debug, Eq, PartialEq, PartialOrd, Ord, Structural)]
pub enum Keyword {
    If,
    Else,
    Proc,
    Let,
    Const,
    True,
    False,
    Return,
    While,
    Break,
    Continue,
    For,
}

/// What a [`TokenValue`] holds.
#[allow(non_camel_case_types)]
pub enum TokenValueView {
    ID(Seq<char>),
    STR(Seq<char>),
    NUM(Number),
    ASSIGN,
    OP(Operator),
    KW(Keyword),
    ASSIGN_OP(AssignOp),
    LPAREN,
    RPAREN,
    LBRACKET,
    RBRACKET,
    L_SQUARE_BRACKET,
    R_SQUARE_BRACKET,
    SEMICOLON,
    QUOTE,
    COMMA,
    THIN_ARROW,
    DOUBLE_SLASH,
    DOUBLE_PLUS,
    DOUBLE_MINUS,
}

/// What a [`Token`] holds.
pub struct TokenView {
    pub value: TokenValueView,
    pub line: nat,
    pub column: nat,
}

impl View for TokenValue {
    type V = TokenValueView;

    open spec fn view(&self) -> TokenValueView {
        match self {
            TokenValue::ID(s) => TokenValueView::ID(s@),
            TokenValue::STR(s) => TokenValueView::STR(s@),
            TokenValue::NUM(n) => TokenValueView::NUM(*n),
            TokenValue::ASSIGN => TokenValueView::ASSIGN,
            TokenValue::OP(op) => TokenValueView::OP(*op),
            TokenValue::KW(kw) => TokenValueView::KW(*kw),
            TokenValue::ASSIGN_OP(op) => TokenValueView::ASSIGN_OP(*op),
            TokenValue::LPAREN => TokenValueView::LPAREN,
            TokenValue::RPAREN => TokenValueView::RPAREN,
            TokenValue::LBRACKET => TokenValueView::LBRACKET,
            TokenValue::RBRACKET => TokenValueView::RBRACKET,
            TokenValue::L_SQUARE_BRACKET => TokenValueView::L_SQUARE_BRACKET,
            TokenValue::R_SQUARE_BRACKET => TokenValueView::R_SQUARE_BRACKET,
            TokenValue::SEMICOLON => TokenValueView::SEMICOLON,
            TokenValue::QUOTE => TokenValueView::QUOTE,
            TokenValue::COMMA => TokenValueView::COMMA,
            TokenValue::THIN_ARROW => TokenValueView::THIN_ARROW,
            TokenValue::DOUBLE_SLASH => TokenValueView::DOUBLE_SLASH,
            TokenValue::DOUBLE_PLUS => TokenValueView::DOUBLE_PLUS,
            TokenValue::DOUBLE_MINUS => TokenValueView::DOUBLE_MINUS,
        }
    }
}

impl View for Token {
    type V = TokenView;

    open spec fn view(&self) -> TokenView {
        TokenView { value: self.0@, line: self.1 as nat, column: self.2 as nat }
    }
}

/// What a sequence of tokens holds.
pub open spec fn tokens_view(tokens: Seq<Token>) -> Seq<TokenView> {
    Seq::new(tokens.len(), |i: int| tokens[i]@)
}

/// The text of an operator.
pub open spec fn operator_text(op: Operator) -> Seq<char> {
    match op {
        Operator::Plus => "+"@,
        Operator::Minus => "-"@,
        Operator::Times => "*"@,
        Operator::Eq => "=="@,
        Operator::Ne => "!="@,
        Operator::LT => "<"@,
        Operator::GT => ">"@,
        Operator::LTE => "<="@,
        Operator::GTE => ">="@,
        Operator::Mod => "%"@,
        Operator::Div => "/"@,
        Operator::LogicOr => "||"@,
        Operator::LogicAnd => "&&"@,
        Operator::LogicNot => "!"@,
        Operator::PreIncrement => "++"@,
        Operator::PostIncrement => "++"@,
        Operator::PreDecrement => "--"@,
        Operator::PostDecrement => "--"@,
    }
}

/// The text of a compound assignment operator.
pub open spec fn assign_op_text(op: AssignOp) -> Seq<char> {
    match op {
        AssignOp::Plus => "+="@,
        AssignOp::Minus => "-="@,
    }
}

/// The text of a reserved word.
pub open spec fn keyword_text(kw: Keyword) -> Seq<char> {
    match kw {
        Keyword::If => "if"@,
        Keyword::Else => "else"@,
        Keyword::Proc => "proc"@,
        Keyword::Let => "let"@,
        Keyword::Const => "const"@,
        Keyword::True => "true"@,
        Keyword::False => "false"@,
        Keyword::Return => "return"@,
        Keyword::While => "while"@,
        Keyword::Break => "break"@,
        Keyword::Continue => "continue"@,
        Keyword::For => "for"@,
    }
}

impl TokenValueView {
    /// The token as it is shown in a message.
    pub open spec fn text(self) -> Seq<char> {
        match self {
            TokenValueView::ID(id) => id,
            TokenValueView::STR(s) => "\""@ + s + "\""@,
            TokenValueView::NUM(n) => n.spec_display(),
            TokenValueView::ASSIGN => "="@,
            TokenValueView::OP(op) => operator_text(op),
            TokenValueView::KW(kw) => keyword_text(kw),
            TokenValueView::ASSIGN_OP(op) => assign_op_text(op),
            TokenValueView::LPAREN => "("@,
            TokenValueView::RPAREN => ")"@,
            TokenValueView::LBRACKET => "{"@,
            TokenValueView::RBRACKET => "}"@,
            TokenValueView::L_SQUARE_BRACKET => "["@,
            TokenValueView::R_SQUARE_BRACKET => "]"@,
            TokenValueView::SEMICOLON => ";"@,
            TokenValueView::QUOTE => "\""@,
            TokenValueView::COMMA => ","@,
            TokenValueView::THIN_ARROW => "->"@,
            TokenValueView::DOUBLE_SLASH => "//"@,
            TokenValueView::DOUBLE_PLUS => "++"@,
            TokenValueView::DOUBLE_MINUS => "--"@,
        }
    }
}

impl Operator {
    /// The text of the operator.
    pub fn to_string(&self) -> (r: String)
        ensures
            r@ == operator_text(*self),
    {
        match self {
            Operator::Plus => String::from_str("+"),
            Operator::Minus => String::from_str("-"),
            Operator::Times => String::from_str("*"),
            Operator::Eq => String::from_str("=="),
            Operator::Ne => String::from_str("!="),
            Operator::LT => String::from_str("<"),
            Operator::GT => String::from_str(">"),
            Operator::LTE => String::from_str("<="),
            Operator::GTE => String::from_str(">="),
            Operator::Mod => String::from_str("%"),
            Operator::Div => String::from_str("/"),
            Operator::LogicOr => String::from_str("||"),
            Operator::LogicAnd => String::from_str("&&"),
            Operator::LogicNot => String::from_str("!"),
            Operator::PreIncrement => String::from_str("++"),
            Operator::PostIncrement => String::from_str("++"),
            Operator::PreDecrement => String::from_str("--"),
            Operator::PostDecrement => String::from_str("--"),
        }
    }
}

impl AssignOp {
    /// The text of the operator.
    pub fn to_string(&self) -> (r: String)
        ensures
            r@ == assign_op_text(*self),
    {
        match self {
            AssignOp::Plus => String::from_str("+="),
            AssignOp::Minus => String::from_str("-="),
        }
    }
}

impl Keyword {
    /// The text of the reserved word.
    pub fn to_string(&self) -> (r: String)
        ensures
            r@ == keyword_text(*self),
    {
        match self {
            Keyword::If => String::from_str("if"),
            Keyword::Else => String::from_str("else"),
            Keyword::Proc => String::from_str("proc"),
            Keyword::Let => String::from_str("let"),
            Keyword::Const => String::from_str("const"),
            Keyword::True => String::from_str("true"),
            Keyword::False => String::from_str("false"),
            Keyword::Return => String::from_str("return"),
            Keyword::While => String::from_str("while"),
            Keyword::Break => String::from_str("break"),
            Keyword::Continue => String::from_str("continue"),
            Keyword::For => String::from_str("for"),
        }
    }
}

impl TokenValue {
    /// The token as it is shown in a message.
    pub fn to_string(&self) -> (r: String)
        ensures
            r@ == self@.text(),
    {
        match self {
            TokenValue::ID(id) => id.clone(),
            TokenValue::STR(s) => {
                let mut text = String::from_str("\"");
                text.append(s.as_str());
                text.append("\"");
                text
            },
            TokenValue::NUM(n) => n.to_string(),
            TokenValue::ASSIGN => String::from_str("="),
            TokenValue::OP(op) => op.to_string(),
            TokenValue::KW(kw) => kw.to_string(),
            TokenValue::ASSIGN_OP(op) => op.to_string(),
            TokenValue::LPAREN => String::from_str("("),
            TokenValue::RPAREN => String::from_str(")"),
            TokenValue::LBRACKET => String::from_str("{"),
            TokenValue::RBRACKET => String::from_str("}"),
            TokenValue::L_SQUARE_BRACKET => String::from_str("["),
            TokenValue::R_SQUARE_BRACKET => String::from_str("]"),
            TokenValue::SEMICOLON => String::from_str(";"),
            TokenValue::QUOTE => String::from_str("\""),
            TokenValue::COMMA => String::from_str(","),
            TokenValue::THIN_ARROW => String::from_str("->"),
            TokenValue::DOUBLE_SLASH => String::from_str("//"),
            TokenValue::DOUBLE_PLUS => String::from_str("++"),
            TokenValue::DOUBLE_MINUS => String::from_str("--"),
        }
    }

    /// A copy of the token value.
    pub fn duplicate(&self) -> (r: TokenValue)
        ensures
            r@ == self@,
    {
        match self {
            TokenValue::ID(s) => TokenValue::ID(s.clone()),
            TokenValue::STR(s) => TokenValue::STR(s.clone()),
            TokenValue::NUM(n) => TokenValue::NUM(*n),
            TokenValue::ASSIGN => TokenValue::ASSIGN,
            TokenValue::OP(op) => TokenValue::OP(*op),
            TokenValue::KW(kw) => TokenValue::KW(*kw),
            TokenValue::ASSIGN_OP(op) => TokenValue::ASSIGN_OP(*op),
            TokenValue::LPAREN => TokenValue::LPAREN,
            TokenValue::RPAREN => TokenValue::RPAREN,
            TokenValue::LBRACKET => TokenValue::LBRACKET,
            TokenValue::RBRACKET => TokenValue::RBRACKET,
            TokenValue::L_SQUARE_BRACKET => TokenValue::L_SQUARE_BRACKET,
            TokenValue::R_SQUARE_BRACKET => TokenValue::R_SQUARE_BRACKET,
            TokenValue::SEMICOLON => TokenValue::SEMICOLON,
            TokenValue::QUOTE => TokenValue::QUOTE,
            TokenValue::COMMA => TokenValue::COMMA,
            TokenValue::THIN_ARROW => TokenValue::THIN_ARROW,
            TokenValue::DOUBLE_SLASH => TokenValue::DOUBLE_SLASH,
            TokenValue::DOUBLE_PLUS => TokenValue::DOUBLE_PLUS,
            TokenValue::DOUBLE_MINUS => TokenValue::DOUBLE_MINUS,
        }
    }

    /// Whether two token values are the same kind with the same text or
    /// value.
    pub fn same(&self, other: &TokenValue) -> (r: bool)
        ensures
            r == (self@ == other@),
    {
        match self {
            TokenValue::ID(a) => match other {
                TokenValue::ID(b) => *a == *b,
                _ => false,
            },
            TokenValue::STR(a) => match other {
                TokenValue::STR(b) => *a == *b,
                _ => false,
            },
            TokenValue::NUM(a) => match other {
                TokenValue::NUM(b) => a.units == b.units,
                _ => false,
            },
            TokenValue::OP(a) => match other {
                TokenValue::OP(b) => *a == *b,
                _ => false,
            },
            TokenValue::KW(a) => match other {
                TokenValue::KW(b) => *a == *b,
                _ => false,
            },
            TokenValue::ASSIGN_OP(a) => match other {
                TokenValue::ASSIGN_OP(b) => *a == *b,
                _ => false,
            },
            TokenValue::ASSIGN => match other {
                TokenValue::ASSIGN => true,
                _ => false,
            },
            TokenValue::LPAREN => match other {
                TokenValue::LPAREN => true,
                _ => false,
            },
            TokenValue::RPAREN => match other {
                TokenValue::RPAREN => true,
                _ => false,
            },
            TokenValue::LBRACKET => match other {
                TokenValue::LBRACKET => true,
                _ => false,
            },
            TokenValue::RBRACKET => match other {
                TokenValue::RBRACKET => true,
                _ => false,
            },
            TokenValue::L_SQUARE_BRACKET => match other {
                TokenValue::L_SQUARE_BRACKET => true,
                _ => false,
            },
            TokenValue::R_SQUARE_BRACKET => match other {
                TokenValue::R_SQUARE_BRACKET => true,
                _ => false,
            },
            TokenValue::SEMICOLON => match other {
                TokenValue::SEMICOLON => true,
                _ => false,
            },
            TokenValue::QUOTE => match other {
                TokenValue::QUOTE => true,
                _ => false,
            },
            TokenValue::COMMA => match other {
                TokenValue::COMMA => true,
                _ => false,
            },
            TokenValue::THIN_ARROW => match other {
                TokenValue::THIN_ARROW => true,
                _ => false,
            },
            TokenValue::DOUBLE_SLASH => match other {
                TokenValue::DOUBLE_SLASH => true,
                _ => false,
            },
            TokenValue::DOUBLE_PLUS => match other {
                TokenValue::DOUBLE_PLUS => true,
                _ => false,
            },
            TokenValue::DOUBLE_MINUS => match other {
                TokenValue::DOUBLE_MINUS => true,
                _ => false,
            },
        }
    }
}

impl Token {
    /// A copy of the token.
    pub fn duplicate(&self) -> (r: Token)
        ensures
            r@ == self@,
    {
        Token(self.0.duplicate(), self.1, self.2)
    }
}

pub const WHITESPACE_REGEX: &'static str = "[[:space:]]+";

pub const ASSIGN_REGEX: &'static str = "=";

pub const THIN_ARROW_REGEX: &'static str = "->";

pub const EQ_REGEX: &'static str = "==";

pub const NE_REGEX: &'static str = "!=";

pub const LT_REGEX: &'static str = "<";

pub const GT_REGEX: &'static str = ">";

pub const LTE_REGEX: &'static str = "<=";

pub const GTE_REGEX: &'static str = ">=";

pub const ID_REGEX: &'static str = "([a-zA-Z][a-zA-Z0-9_]*)\\b";

pub const NUM_REGEX: &'static str = "(\\d*\\.?\\d+)\\b";

pub const PLUS_REGEX: &'static str = "\\+";

pub const MINUS_REGEX: &'static str = "\\-";

pub const STAR_REGEX: &'static str = "\\*";

pub const SLASH_REGEX: &'static str = "/";

pub const DOUBLE_SLASH_REGEX: &'static str = "//";

pub const DOUBLE_PLUS_REGEX: &'static str = "\\+\\+";

pub const DOUBLE_MINUS_REGEX: &'static str = "\\-\\-";

pub const MOD_REGEX: &'static str = "%";

pub const LPAREN_REGEX: &'static str = "\\(";

pub const RPAREN_REGEX: &'static str = "\\)";

pub const LBRACKET_REGEX: &'static str = "\\{";

pub const RBRACKET_REGEX: &'static str = "\\}";

pub const L_SQUARE_BRACKET_REGEX: &'static str = "\\[";

pub const R_SQUARE_BRACKET_REGEX: &'static str = "\\]";

pub const SEMICOLON_REGEX: &'static str = ";";

pub const COMMA_REGEX: &'static str = ",";

pub const QUOTE_REGEX: &'static str = "\"";

pub const LOGIC_OR_REGEX: &'static str = "\\|\\|";

pub const LOGIC_AND_REGEX: &'static str = "&&";

pub const LOGIC_NOT_REGEX: &'static str = "!";

pub const ASSIGNMENT_PLUS_REGEX: &'static str = "\\+=";

pub const ASSIGNMENT_MINUS_REGEX: &'static str = "\\-=";

/// Where the first match of a regular expression lies in a text: the
/// offsets of its start and its end in the UTF-8 encoding of the text.
/// There is none where nothing matches or the pattern is no regular
/// expression.
pub uninterp spec fn regex_find(pattern: Seq<char>, text: Seq<char>) -> Option<(usize, usize)>;

/// `regex::Regex::new` on the pattern, then `Regex::find` on the text, then
/// `Match::start` and `Match::end`. The contract names that result, and
/// claims what the documentation of `Match` says of the two offsets: the
/// start is not after the end, both lie within the text, and both fall on
/// character boundaries.
#[verifier::external_body]
fn find(pattern: &str, text: &str) -> (r: Option<(usize, usize)>)
    ensures
        r == regex_find(pattern@, text@),
        r matches Some(m) ==> m.0 <= m.1 <= text.spec_bytes().len() && is_char_boundary(
            text.spec_bytes(),
            m.0 as int,
        ) && is_char_boundary(text.spec_bytes(), m.1 as int),
{
    match regex::Regex::new(pattern) {
        Ok(compiled) => match compiled.find(text) {
            Some(m) => Some((m.start(), m.end())),
            None => None,
        },
        Err(_) => None,
    }
}

/// A token pattern as the regular expression that matches it at the head of
/// a text only.
pub open spec fn anchored(pattern: Seq<char>) -> Seq<char> {
    "^("@ + pattern + ")"@
}

/// The characters that the first bytes of the UTF-8 encoding of a text
/// write.
pub open spec fn chars_before(text: Seq<char>, bytes: int) -> Seq<char> {
    decode_utf8(encode_utf8(text).subrange(0, bytes))
}

/// The place of a match in characters: the offsets of its start and its end
/// in a text, given the offsets in the UTF-8 encoding of the text. There is
/// none where the two are not in order or do not fall on character
/// boundaries of the text.
pub open spec fn char_span(text: Seq<char>, found: Option<(usize, usize)>) -> Option<
    (usize, usize),
> {
    match found {
        Some(m) => {
            let start = chars_before(text, m.0 as int).len();
            let end = chars_before(text, m.1 as int).len();
            if m.0 <= m.1 && is_char_boundary(encode_utf8(text), m.0 as int) && is_char_boundary(
                encode_utf8(text),
                m.1 as int,
            ) && start <= end <= text.len() {
                Some((start as usize, end as usize))
            } else {
                None
            }
        },
        None => None,
    }
}

/// Where the first match of a token pattern lies in a text: the offsets of
/// its start and its end, counted in characters.
#[verifier::opaque]
pub open spec fn anchored_match(pattern: Seq<char>, text: Seq<char>) -> Option<(usize, usize)> {
    char_span(text, regex_find(anchored(pattern), text))
}

/// How many characters the first bytes of a text write, where the text can
/// be cut there.
fn chars_in(text: &str, bytes: usize) -> (r: usize)
    requires
        is_char_boundary(text.spec_bytes(), bytes as int),
    ensures
        r == chars_before(text@, bytes as int).len(),
        r <= text@.len(),
{
    let (head, tail) = text.split_at(bytes);
    proof {
        let all = text.spec_bytes();
        encode_utf8_valid_utf8(text@);
        encode_utf8_decode_utf8(text@);
        encode_utf8_decode_utf8(head@);
        encode_utf8_decode_utf8(tail@);
        decode_utf8_split(all, bytes as int);
        assert(text@ =~= head@ + tail@);
    }
    head.unicode_len()
}

/// The place of a match in characters, given the offsets of its start and
/// its end in the UTF-8 encoding of the text, as a search in the text gives
/// them.
pub fn match_span(text: &str, found: Option<(usize, usize)>) -> (r: Option<(usize, usize)>)
    ensures
        r == char_span(text@, found),
        r matches Some(m) ==> m.0 <= m.1 <= text@.len(),
{
    match found {
        Some(m) => {
            if m.0 <= m.1 && text.is_char_boundary(m.0) && text.is_char_boundary(m.1) {
                let start = chars_in(text, m.0);
                let end = chars_in(text, m.1);
                if start <= end {
                    Some((start, end))
                } else {
                    None
                }
            } else {
                None
            }
        },
        None => None,
    }
}

/// Where the first match of a token pattern lies in a text.
fn anchored_find(pattern: &str, text: &str) -> (r: Option<(usize, usize)>)
    ensures
        r == anchored_match(pattern@, text@),
        r matches Some(m) ==> m.0 <= m.1 <= text@.len(),
{
    let mut full = String::from_str("^(");
    full.append(pattern);
    full.append(")");
    proof {
        reveal(anchored_match);
    }
    match_span(text, find(full.as_str(), text))
}

/// What a token pattern stands for.
#[derive(Debug, PartialEq, Clone)]
pub enum TokenKind {
    /// White space, which is no token.
    Space,
    /// A reserved word or a symbol: the token is always the same.
    Fixed(TokenValue),
    /// An identifier: the token holds the text of the match.
    Identifier,
    /// A number: the token holds the number that the text of the match
    /// writes.
    Numeral,
}

/// What a [`TokenKind`] holds.
pub enum TokenKindView {
    Space,
    Fixed(TokenValueView),
    Identifier,
    Numeral,
}

impl View for TokenKind {
    type V = TokenKindView;

    open spec fn view(&self) -> TokenKindView {
        match self {
            TokenKind::Space => TokenKindView::Space,
            TokenKind::Fixed(value) => TokenKindView::Fixed(value@),
            TokenKind::Identifier => TokenKindView::Identifier,
            TokenKind::Numeral => TokenKindView::Numeral,
        }
    }
}

/// Whether a match counts as a token at the head of a text: it is not
/// empty and lies within the text.
pub open spec fn counts(text: Seq<char>, span: Option<(usize, usize)>) -> bool {
    span matches Some(m) && m.0 <= m.1 && 0 < m.1 <= text.len()
}

/// The token that a match of a pattern gives, with the number of characters
/// that it takes: none where the match does not count. The token of an
/// identifier holds the text of the match; the token of a number holds the
/// number that the text of the match writes, and where it writes none that
/// fits, the text is an unknown token.
pub open spec fn token_of(kind: TokenKindView, text: Seq<char>, span: Option<(usize, usize)>)
    -> Option<Result<(Option<TokenValueView>, usize), TokenizerErrorView>> {
    if counts(text, span) {
        let m = span->0;
        let matched = text.subrange(m.0 as int, m.1 as int);
        Some(
            match kind {
                TokenKindView::Space => Ok((None, m.1)),
                TokenKindView::Fixed(value) => Ok((Some(value), m.1)),
                TokenKindView::Identifier => Ok((Some(TokenValueView::ID(matched)), m.1)),
                TokenKindView::Numeral => match parse_decimal(matched) {
                    Some(n) => Ok((Some(TokenValueView::NUM(n)), m.1)),
                    None => Err(TokenizerErrorView::UnknownToken(matched)),
                },
            },
        )
    } else {
        None
    }
}

/// What the result of looking for a token holds.
pub open spec fn token_result_view(r: Result<(Option<TokenValue>, usize), TokenizerError>)
    -> Result<(Option<TokenValueView>, usize), TokenizerErrorView> {
    match r {
        Ok((found, length)) => Ok((found_view(found), length)),
        Err(e) => Err(e@),
    }
}

/// The token that a match of a pattern gives, with the number of characters
/// that it takes; nothing where the match does not count. The match is
/// given by the offsets of its start and its end in the text, counted in
/// characters.
pub fn token_of_match(kind: TokenKind, text: &str, span: Option<(usize, usize)>) -> (r: Option<
    Result<(Option<TokenValue>, usize), TokenizerError>,
>)
    ensures
        match r {
            Some(t) => token_of(kind@, text@, span) == Some(token_result_view(t)),
            None => token_of(kind@, text@, span) is None,
        },
        r matches Some(Ok((_, length))) ==> 0 < length <= text@.len(),
{
    let m = match span {
        Some(m) => m,
        None => {
            return None;
        },
    };
    if !(m.0 <= m.1 && 0 < m.1 && m.1 <= text.unicode_len()) {
        return None;
    }
    match kind {
        TokenKind::Space => Some(Ok((None, m.1))),
        TokenKind::Fixed(value) => Some(Ok((Some(value), m.1))),
        TokenKind::Identifier => {
            let matched = String::from_str(text.substring_char(m.0, m.1));
            Some(Ok((Some(TokenValue::ID(matched)), m.1)))
        },
        TokenKind::Numeral => {
            let matched = text.substring_char(m.0, m.1);
            match Number::parse(matched) {
                Some(number) => Some(Ok((Some(TokenValue::NUM(number)), m.1))),
                None => Some(Err(TokenizerError::UnknownToken(String::from_str(matched)))),
            }
        },
    }
}

/// The length of the non-empty prefix of a text that a token pattern
/// matches.
pub open spec fn prefix_match(pattern: Seq<char>, text: Seq<char>) -> Option<usize> {
    let span = anchored_match(pattern, text);
    if counts(text, span) {
        let m = span->0;
        Some(m.1)
    } else {
        None
    }
}

/// The token that starts with a reserved word, and the length of the word.
pub open spec fn keyword_token(s: Seq<char>) -> Option<(TokenValueView, usize)> {
    if prefix_match("if"@, s) is Some {
        Some((TokenValueView::KW(Keyword::If), prefix_match("if"@, s)->0))
    } else if prefix_match("else"@, s) is Some {
        Some((TokenValueView::KW(Keyword::Else), prefix_match("else"@, s)->0))
    } else if prefix_match("proc"@, s) is Some {
        Some((TokenValueView::KW(Keyword::Proc), prefix_match("proc"@, s)->0))
    } else if prefix_match("let"@, s) is Some {
        Some((TokenValueView::KW(Keyword::Let), prefix_match("let"@, s)->0))
    } else if prefix_match("true"@, s) is Some {
        Some((TokenValueView::KW(Keyword::True), prefix_match("true"@, s)->0))
    } else if prefix_match("false"@, s) is Some {
        Some((TokenValueView::KW(Keyword::False), prefix_match("false"@, s)->0))
    } else if prefix_match("return"@, s) is Some {
        Some((TokenValueView::KW(Keyword::Return), prefix_match("return"@, s)->0))
    } else if prefix_match("while"@, s) is Some {
        Some((TokenValueView::KW(Keyword::While), prefix_match("while"@, s)->0))
    } else if prefix_match("break"@, s) is Some {
        Some((TokenValueView::KW(Keyword::Break), prefix_match("break"@, s)->0))
    } else if prefix_match("continue"@, s) is Some {
        Some((TokenValueView::KW(Keyword::Continue), prefix_match("continue"@, s)->0))
    } else if prefix_match("for"@, s) is Some {
        Some((TokenValueView::KW(Keyword::For), prefix_match("for"@, s)->0))
    } else if prefix_match("const"@, s) is Some {
        Some((TokenValueView::KW(Keyword::Const), prefix_match("const"@, s)->0))
    } else {
        None
    }
}

/// The token of two characters at the head of a text, and its length.
pub open spec fn long_symbol_token(s: Seq<char>) -> Option<(TokenValueView, usize)> {
    if prefix_match(NE_REGEX@, s) is Some {
        Some((TokenValueView::OP(Operator::Ne), prefix_match(NE_REGEX@, s)->0))
    } else if prefix_match(EQ_REGEX@, s) is Some {
        Some((TokenValueView::OP(Operator::Eq), prefix_match(EQ_REGEX@, s)->0))
    } else if prefix_match(LTE_REGEX@, s) is Some {
        Some((TokenValueView::OP(Operator::LTE), prefix_match(LTE_REGEX@, s)->0))
    } else if prefix_match(GTE_REGEX@, s) is Some {
        Some((TokenValueView::OP(Operator::GTE), prefix_match(GTE_REGEX@, s)->0))
    } else if prefix_match(LOGIC_AND_REGEX@, s) is Some {
        Some((TokenValueView::OP(Operator::LogicAnd), prefix_match(LOGIC_AND_REGEX@, s)->0))
    } else if prefix_match(LOGIC_OR_REGEX@, s) is Some {
        Some((TokenValueView::OP(Operator::LogicOr), prefix_match(LOGIC_OR_REGEX@, s)->0))
    } else if prefix_match(DOUBLE_SLASH_REGEX@, s) is Some {
        Some((TokenValueView::DOUBLE_SLASH, prefix_match(DOUBLE_SLASH_REGEX@, s)->0))
    } else if prefix_match(THIN_ARROW_REGEX@, s) is Some {
        Some((TokenValueView::THIN_ARROW, prefix_match(THIN_ARROW_REGEX@, s)->0))
    } else if prefix_match(DOUBLE_PLUS_REGEX@, s) is Some {
        Some((TokenValueView::DOUBLE_PLUS, prefix_match(DOUBLE_PLUS_REGEX@, s)->0))
    } else if prefix_match(DOUBLE_MINUS_REGEX@, s) is Some {
        Some((TokenValueView::DOUBLE_MINUS, prefix_match(DOUBLE_MINUS_REGEX@, s)->0))
    } else if prefix_match(ASSIGNMENT_PLUS_REGEX@, s) is Some {
        Some(
            (TokenValueView::ASSIGN_OP(AssignOp::Plus), prefix_match(ASSIGNMENT_PLUS_REGEX@, s)->0),
        )
    } else if prefix_match(ASSIGNMENT_MINUS_REGEX@, s) is Some {
        Some(
            (
                TokenValueView::ASSIGN_OP(AssignOp::Minus),
                prefix_match(ASSIGNMENT_MINUS_REGEX@, s)->0,
            ),
        )
    } else {
        None
    }
}

/// The token of one character at the head of a text, and its length.
pub open spec fn short_symbol_token(s: Seq<char>) -> Option<(TokenValueView, usize)> {
    if prefix_match(ASSIGN_REGEX@, s) is Some {
        Some((TokenValueView::ASSIGN, prefix_match(ASSIGN_REGEX@, s)->0))
    } else if prefix_match(LT_REGEX@, s) is Some {
        Some((TokenValueView::OP(Operator::LT), prefix_match(LT_REGEX@, s)->0))
    } else if prefix_match(GT_REGEX@, s) is Some {
        Some((TokenValueView::OP(Operator::GT), prefix_match(GT_REGEX@, s)->0))
    } else if prefix_match(STAR_REGEX@, s) is Some {
        Some((TokenValueView::OP(Operator::Times), prefix_match(STAR_REGEX@, s)->0))
    } else if prefix_match(MOD_REGEX@, s) is Some {
        Some((TokenValueView::OP(Operator::Mod), prefix_match(MOD_REGEX@, s)->0))
    } else if prefix_match(SLASH_REGEX@, s) is Some {
        Some((TokenValueView::OP(Operator::Div), prefix_match(SLASH_REGEX@, s)->0))
    } else if prefix_match(PLUS_REGEX@, s) is Some {
        Some((TokenValueView::OP(Operator::Plus), prefix_match(PLUS_REGEX@, s)->0))
    } else if prefix_match(MINUS_REGEX@, s) is Some {
        Some((TokenValueView::OP(Operator::Minus), prefix_match(MINUS_REGEX@, s)->0))
    } else if prefix_match(LPAREN_REGEX@, s) is Some {
        Some((TokenValueView::LPAREN, prefix_match(LPAREN_REGEX@, s)->0))
    } else if prefix_match(RPAREN_REGEX@, s) is Some {
        Some((TokenValueView::RPAREN, prefix_match(RPAREN_REGEX@, s)->0))
    } else if prefix_match(LBRACKET_REGEX@, s) is Some {
        Some((TokenValueView::LBRACKET, prefix_match(LBRACKET_REGEX@, s)->0))
    } else if prefix_match(RBRACKET_REGEX@, s) is Some {
        Some((TokenValueView::RBRACKET, prefix_match(RBRACKET_REGEX@, s)->0))
    } else if prefix_match(L_SQUARE_BRACKET_REGEX@, s) is Some {
        Some((TokenValueView::L_SQUARE_BRACKET, prefix_match(L_SQUARE_BRACKET_REGEX@, s)->0))
    } else if prefix_match(R_SQUARE_BRACKET_REGEX@, s) is Some {
        Some((TokenValueView::R_SQUARE_BRACKET, prefix_match(R_SQUARE_BRACKET_REGEX@, s)->0))
    } else if prefix_match(SEMICOLON_REGEX@, s) is Some {
        Some((TokenValueView::SEMICOLON, prefix_match(SEMICOLON_REGEX@, s)->0))
    } else if prefix_match(COMMA_REGEX@, s) is Some {
        Some((TokenValueView::COMMA, prefix_match(COMMA_REGEX@, s)->0))
    } else if prefix_match(QUOTE_REGEX@, s) is Some {
        Some((TokenValueView::QUOTE, prefix_match(QUOTE_REGEX@, s)->0))
    } else if prefix_match(LOGIC_NOT_REGEX@, s) is Some {
        Some((TokenValueView::OP(Operator::LogicNot), prefix_match(LOGIC_NOT_REGEX@, s)->0))
    } else {
        None
    }
}

/// Whether a character is white space, as the white space pattern has it.
pub open spec fn is_space(c: char) -> bool {
    anchored_match(WHITESPACE_REGEX@, seq![c]) is Some
}

/// The index of the first white space character of a text, or its length if
/// it has none.
pub open spec fn space_index(s: Seq<char>) -> int
    decreases s.len(),
{
    if s.len() == 0 {
        0
    } else if is_space(s[0]) {
        0
    } else {
        1 + space_index(s.drop_first())
    }
}

/// The text that is reported where no token starts: all up to the first
/// white space.
pub open spec fn unknown_text(s: Seq<char>) -> Seq<char> {
    s.subrange(0, space_index(s))
}

/// The token at the head of a text, and how many characters it takes. White
/// space is no token, but is taken too. The patterns are tried in this
/// order: white space, the reserved words, the symbols of two characters,
/// those of one, identifiers, numbers.
pub open spec fn token_value_at(s: Seq<char>) -> Result<
    (Option<TokenValueView>, usize),
    TokenizerErrorView,
> {
    if prefix_match(WHITESPACE_REGEX@, s) is Some {
        Ok((None, prefix_match(WHITESPACE_REGEX@, s)->0))
    } else if keyword_token(s) is Some {
        let found = keyword_token(s)->0;
        Ok((Some(found.0), found.1))
    } else if long_symbol_token(s) is Some {
        let found = long_symbol_token(s)->0;
        Ok((Some(found.0), found.1))
    } else if short_symbol_token(s) is Some {
        let found = short_symbol_token(s)->0;
        Ok((Some(found.0), found.1))
    } else if prefix_match(ID_REGEX@, s) is Some {
        let m = anchored_match(ID_REGEX@, s)->0;
        Ok((Some(TokenValueView::ID(s.subrange(m.0 as int, m.1 as int))), m.1))
    } else if prefix_match(NUM_REGEX@, s) is Some {
        let m = anchored_match(NUM_REGEX@, s)->0;
        let text = s.subrange(m.0 as int, m.1 as int);
        match parse_decimal(text) {
            Some(n) => Ok((Some(TokenValueView::NUM(n)), m.1)),
            None => Err(TokenizerErrorView::UnknownToken(text)),
        }
    } else {
        Err(TokenizerErrorView::UnknownToken(unknown_text(s)))
    }
}

/// The character that an escape names.
pub open spec fn unescape(c: char) -> Option<char> {
    if c == 'n' {
        Some('\n')
    } else if c == 'r' {
        Some('\r')
    } else if c == 't' {
        Some('\t')
    } else if c == '\\' {
        Some('\\')
    } else if c == '0' {
        Some('\0')
    } else if c == '"' {
        Some('"')
    } else if c == '\'' {
        Some('\'')
    } else {
        None
    }
}

/// The content of a string literal and the index of its closing quote, read
/// from index `i` of the text after the opening quote, with `content` read
/// so far.
pub open spec fn string_literal(s: Seq<char>, i: int, content: Seq<char>) -> Result<
    (Seq<char>, int),
    TokenizerErrorView,
>
    decreases s.len() - i,
{
    if i < 0 || i >= s.len() {
        Err(TokenizerErrorView::UnterminatedStringLiteral)
    } else if s[i] == '"' {
        Ok((content, i))
    } else if s[i] == '\\' {
        if i + 1 >= s.len() {
            Err(TokenizerErrorView::UnterminatedStringLiteral)
        } else {
            match unescape(s[i + 1]) {
                Some(c) => string_literal(s, i + 2, content.push(c)),
                None => Err(TokenizerErrorView::InvalidEscapeSequence(s[i + 1])),
            }
        }
    } else {
        string_literal(s, i + 1, content.push(s[i]))
    }
}

/// A sequence of tokens put before the tokens of a result.
pub open spec fn tokens_then(
    first: Seq<TokenView>,
    rest: Result<Seq<TokenView>, TokenizerErrorView>,
) -> Result<Seq<TokenView>, TokenizerErrorView> {
    match rest {
        Ok(tokens) => Ok(first + tokens),
        Err(e) => Err(e),
    }
}

/// The tokens of one line, which starts at the given column. A comment ends
/// the line. After a string literal the column moves on by the length of
/// its content and two more.
pub open spec fn line_tokens(s: Seq<char>, line: nat, column: nat) -> Result<
    Seq<TokenView>,
    TokenizerErrorView,
>
    decreases s.len(),
{
    if s.len() == 0 {
        Ok(Seq::empty())
    } else {
        match token_value_at(s) {
            Err(e) => Err(e),
            Ok((found, length)) => {
                if 0 < length <= s.len() {
                    let rest = s.subrange(length as int, s.len() as int);
                    match found {
                        None => line_tokens(rest, line, column + length as nat),
                        Some(TokenValueView::QUOTE) => match string_literal(rest, 0, Seq::empty()) {
                            Err(e) => Err(e),
                            Ok((content, close)) => {
                                if 0 <= close < rest.len() {
                                    tokens_then(
                                        seq![
                                            TokenView { value: TokenValueView::STR(content), line, column },
                                        ],
                                        line_tokens(
                                            rest.subrange(close + 1, rest.len() as int),
                                            line,
                                            column + content.len() + 2,
                                        ),
                                    )
                                } else {
                                    Err(TokenizerErrorView::UnterminatedStringLiteral)
                                }
                            },
                        },
                        Some(TokenValueView::DOUBLE_SLASH) => Ok(Seq::empty()),
                        Some(value) => tokens_then(
                            seq![TokenView { value, line, column }],
                            line_tokens(rest, line, column + length as nat),
                        ),
                    }
                } else {
                    Err(TokenizerErrorView::UnknownToken(unknown_text(s)))
                }
            },
        }
    }
}

/// The index of the first line feed of a text, or its length if it has
/// none.
pub open spec fn line_end(s: Seq<char>) -> int
    decreases s.len(),
{
    if s.len() == 0 {
        0
    } else if s[0] == '\n' {
        0
    } else {
        1 + line_end(s.drop_first())
    }
}

/// The tokens of a text whose first line has the given number.
pub open spec fn text_tokens(s: Seq<char>, line: nat) -> Result<Seq<TokenView>, TokenizerErrorView>
    decreases s.len(),
{
    let end = line_end(s);
    if 0 <= end < s.len() {
        match line_tokens(s.subrange(0, end), line, 1) {
            Err(e) => Err(e),
            Ok(tokens) => tokens_then(
                tokens,
                text_tokens(s.subrange(end + 1, s.len() as int), line + 1),
            ),
        }
    } else {
        line_tokens(s, line, 1)
    }
}

/// What an optional token value holds.
pub open spec fn found_view(found: Option<TokenValue>) -> Option<TokenValueView> {
    match found {
        Some(value) => Some(value@),
        None => None,
    }
}

fn keyword_at(s: &str) -> (r: Option<Result<(Option<TokenValue>, usize), TokenizerError>>)
    ensures
        match r {
            Some(t) => keyword_token(s@) matches Some(found) && token_result_view(t) == Ok::<
                _,
                TokenizerErrorView,
            >((Some(found.0), found.1)) && 0 < found.1 <= s@.len(),
            None => keyword_token(s@) is None,
        },
{
    if let Some(t) = token_of_match(TokenKind::Fixed(TokenValue::KW(Keyword::If)), s, anchored_find("if", s)) {
        return Some(t);
    }
    if let Some(t) = token_of_match(TokenKind::Fixed(TokenValue::KW(Keyword::Else)), s, anchored_find("else", s)) {
        return Some(t);
    }
    if let Some(t) = token_of_match(TokenKind::Fixed(TokenValue::KW(Keyword::Proc)), s, anchored_find("proc", s)) {
        return Some(t);
    }
    if let Some(t) = token_of_match(TokenKind::Fixed(TokenValue::KW(Keyword::Let)), s, anchored_find("let", s)) {
        return Some(t);
    }
    if let Some(t) = token_of_match(TokenKind::Fixed(TokenValue::KW(Keyword::True)), s, anchored_find("true", s)) {
        return Some(t);
    }
    if let Some(t) = token_of_match(TokenKind::Fixed(TokenValue::KW(Keyword::False)), s, anchored_find("false", s)) {
        return Some(t);
    }
    if let Some(t) = token_of_match(TokenKind::Fixed(TokenValue::KW(Keyword::Return)), s, anchored_find("return", s)) {
        return Some(t);
    }
    if let Some(t) = token_of_match(TokenKind::Fixed(TokenValue::KW(Keyword::While)), s, anchored_find("while", s)) {
        return Some(t);
    }
    if let Some(t) = token_of_match(TokenKind::Fixed(TokenValue::KW(Keyword::Break)), s, anchored_find("break", s)) {
        return Some(t);
    }
    if let Some(t) = token_of_match(TokenKind::Fixed(TokenValue::KW(Keyword::Continue)), s, anchored_find("continue", s)) {
        return Some(t);
    }
    if let Some(t) = token_of_match(TokenKind::Fixed(TokenValue::KW(Keyword::For)), s, anchored_find("for", s)) {
        return Some(t);
    }
    if let Some(t) = token_of_match(TokenKind::Fixed(TokenValue::KW(Keyword::Const)), s, anchored_find("const", s)) {
        return Some(t);
    }
    None
}

fn long_symbol_at(s: &str) -> (r: Option<Result<(Option<TokenValue>, usize), TokenizerError>>)
    ensures
        match r {
            Some(t) => long_symbol_token(s@) matches Some(found) && token_result_view(t) == Ok::<
                _,
                TokenizerErrorView,
            >((Some(found.0), found.1)) && 0 < found.1 <= s@.len(),
            None => long_symbol_token(s@) is None,
        },
{
    if let Some(t) = token_of_match(TokenKind::Fixed(TokenValue::OP(Operator::Ne)), s, anchored_find(NE_REGEX, s)) {
        return Some(t);
    }
    if let Some(t) = token_of_match(TokenKind::Fixed(TokenValue::OP(Operator::Eq)), s, anchored_find(EQ_REGEX, s)) {
        return Some(t);
    }
    if let Some(t) = token_of_match(TokenKind::Fixed(TokenValue::OP(Operator::LTE)), s, anchored_find(LTE_REGEX, s)) {
        return Some(t);
    }
    if let Some(t) = token_of_match(TokenKind::Fixed(TokenValue::OP(Operator::GTE)), s, anchored_find(GTE_REGEX, s)) {
        return Some(t);
    }
    if let Some(t) = token_of_match(TokenKind::Fixed(TokenValue::OP(Operator::LogicAnd)), s, anchored_find(LOGIC_AND_REGEX, s)) {
        return Some(t);
    }
    if let Some(t) = token_of_match(TokenKind::Fixed(TokenValue::OP(Operator::LogicOr)), s, anchored_find(LOGIC_OR_REGEX, s)) {
        return Some(t);
    }
    if let Some(t) = token_of_match(TokenKind::Fixed(TokenValue::DOUBLE_SLASH), s, anchored_find(DOUBLE_SLASH_REGEX, s)) {
        return Some(t);
    }
    if let Some(t) = token_of_match(TokenKind::Fixed(TokenValue::THIN_ARROW), s, anchored_find(THIN_ARROW_REGEX, s)) {
        return Some(t);
    }
    if let Some(t) = token_of_match(TokenKind::Fixed(TokenValue::DOUBLE_PLUS), s, anchored_find(DOUBLE_PLUS_REGEX, s)) {
        return Some(t);
    }
    if let Some(t) = token_of_match(TokenKind::Fixed(TokenValue::DOUBLE_MINUS), s, anchored_find(DOUBLE_MINUS_REGEX, s)) {
        return Some(t);
    }
    if let Some(t) = token_of_match(TokenKind::Fixed(TokenValue::ASSIGN_OP(AssignOp::Plus)), s, anchored_find(ASSIGNMENT_PLUS_REGEX, s)) {
        return Some(t);
    }
    if let Some(t) = token_of_match(TokenKind::Fixed(TokenValue::ASSIGN_OP(AssignOp::Minus)), s, anchored_find(ASSIGNMENT_MINUS_REGEX, s)) {
        return Some(t);
    }
    None
}

fn short_symbol_at(s: &str) -> (r: Option<Result<(Option<TokenValue>, usize), TokenizerError>>)
    ensures
        match r {
            Some(t) => short_symbol_token(s@) matches Some(found) && token_result_view(t) == Ok::<
                _,
                TokenizerErrorView,
            >((Some(found.0), found.1)) && 0 < found.1 <= s@.len(),
            None => short_symbol_token(s@) is None,
        },
{
    if let Some(t) = token_of_match(TokenKind::Fixed(TokenValue::ASSIGN), s, anchored_find(ASSIGN_REGEX, s)) {
        return Some(t);
    }
    if let Some(t) = token_of_match(TokenKind::Fixed(TokenValue::OP(Operator::LT)), s, anchored_find(LT_REGEX, s)) {
        return Some(t);
    }
    if let Some(t) = token_of_match(TokenKind::Fixed(TokenValue::OP(Operator::GT)), s, anchored_find(GT_REGEX, s)) {
        return Some(t);
    }
    if let Some(t) = token_of_match(TokenKind::Fixed(TokenValue::OP(Operator::Times)), s, anchored_find(STAR_REGEX, s)) {
        return Some(t);
    }
    if let Some(t) = token_of_match(TokenKind::Fixed(TokenValue::OP(Operator::Mod)), s, anchored_find(MOD_REGEX, s)) {
        return Some(t);
    }
    if let Some(t) = token_of_match(TokenKind::Fixed(TokenValue::OP(Operator::Div)), s, anchored_find(SLASH_REGEX, s)) {
        return Some(t);
    }
    if let Some(t) = token_of_match(TokenKind::Fixed(TokenValue::OP(Operator::Plus)), s, anchored_find(PLUS_REGEX, s)) {
        return Some(t);
    }
    if let Some(t) = token_of_match(TokenKind::Fixed(TokenValue::OP(Operator::Minus)), s, anchored_find(MINUS_REGEX, s)) {
        return Some(t);
    }
    if let Some(t) = token_of_match(TokenKind::Fixed(TokenValue::LPAREN), s, anchored_find(LPAREN_REGEX, s)) {
        return Some(t);
    }
    if let Some(t) = token_of_match(TokenKind::Fixed(TokenValue::RPAREN), s, anchored_find(RPAREN_REGEX, s)) {
        return Some(t);
    }
    if let Some(t) = token_of_match(TokenKind::Fixed(TokenValue::LBRACKET), s, anchored_find(LBRACKET_REGEX, s)) {
        return Some(t);
    }
    if let Some(t) = token_of_match(TokenKind::Fixed(TokenValue::RBRACKET), s, anchored_find(RBRACKET_REGEX, s)) {
        return Some(t);
    }
    if let Some(t) = token_of_match(TokenKind::Fixed(TokenValue::L_SQUARE_BRACKET), s, anchored_find(L_SQUARE_BRACKET_REGEX, s)) {
        return Some(t);
    }
    if let Some(t) = token_of_match(TokenKind::Fixed(TokenValue::R_SQUARE_BRACKET), s, anchored_find(R_SQUARE_BRACKET_REGEX, s)) {
        return Some(t);
    }
    if let Some(t) = token_of_match(TokenKind::Fixed(TokenValue::SEMICOLON), s, anchored_find(SEMICOLON_REGEX, s)) {
        return Some(t);
    }
    if let Some(t) = token_of_match(TokenKind::Fixed(TokenValue::COMMA), s, anchored_find(COMMA_REGEX, s)) {
        return Some(t);
    }
    if let Some(t) = token_of_match(TokenKind::Fixed(TokenValue::QUOTE), s, anchored_find(QUOTE_REGEX, s)) {
        return Some(t);
    }
    if let Some(t) = token_of_match(TokenKind::Fixed(TokenValue::OP(Operator::LogicNot)), s, anchored_find(LOGIC_NOT_REGEX, s)) {
        return Some(t);
    }
    None
}

/// `space_index` is the first index that holds white space.
proof fn lemma_space_index(s: Seq<char>, p: int)
    requires
        0 <= p <= s.len(),
        forall|j: int| 0 <= j < p ==> !is_space(s[j]),
        p < s.len() ==> is_space(s[p]),
    ensures
        space_index(s) == p,
    decreases s.len(),
{
    if s.len() == 0 || p == 0 {
    } else {
        let t = s.drop_first();
        assert forall|j: int| 0 <= j < p - 1 implies !is_space(t[j]) by {
            assert(t[j] == s[j + 1]);
        }
        lemma_space_index(t, p - 1);
    }
}

/// `line_end` is the first index that holds a line feed.
proof fn lemma_line_end(s: Seq<char>, p: int)
    requires
        0 <= p <= s.len(),
        forall|j: int| 0 <= j < p ==> s[j] != '\n',
        p < s.len() ==> s[p] == '\n',
    ensures
        line_end(s) == p,
    decreases s.len(),
{
    if s.len() == 0 || p == 0 {
    } else {
        let t = s.drop_first();
        assert forall|j: int| 0 <= j < p - 1 implies t[j] != '\n' by {
            assert(t[j] == s[j + 1]);
        }
        lemma_line_end(t, p - 1);
    }
}

fn unknown_token_text(s: &str) -> (r: String)
    ensures
        r@ == unknown_text(s@),
{
    let n = s.unicode_len();
    let mut i: usize = 0;
    let mut found = false;
    while !found && i < n
        invariant
            i <= n,
            n == s@.len(),
            forall|j: int| 0 <= j < i ==> !is_space(s@[j]),
            found ==> i < n && is_space(s@[i as int]),
        decreases n - i + (if found { 0int } else { 1int }),
    {
        let c = s.substring_char(i, i + 1);
        assert(c@ =~= seq![s@[i as int]]);
        if anchored_find(WHITESPACE_REGEX, c).is_some() {
            found = true;
        } else {
            i += 1;
        }
    }
    proof {
        lemma_space_index(s@, i as int);
    }
    String::from_str(s.substring_char(0, i))
}

/// The token at the head of a text and the number of characters it takes;
/// for white space no token, and the number of characters.
pub fn get_token_value(s: &str) -> (r: Result<(Option<TokenValue>, usize), TokenizerError>)
    ensures
        match r {
            Ok((found, length)) => token_value_at(s@) == Ok::<_, TokenizerErrorView>(
                (found_view(found), length),
            ) && 0 < length <= s@.len(),
            Err(e) => token_value_at(s@) == Err::<(Option<TokenValueView>, usize), _>(e@),
        },
{
    if let Some(t) = token_of_match(TokenKind::Space, s, anchored_find(WHITESPACE_REGEX, s)) {
        return t;
    }
    if let Some(t) = keyword_at(s) {
        return t;
    }
    if let Some(t) = long_symbol_at(s) {
        return t;
    }
    if let Some(t) = short_symbol_at(s) {
        return t;
    }
    if let Some(t) = token_of_match(TokenKind::Identifier, s, anchored_find(ID_REGEX, s)) {
        return t;
    }
    if let Some(t) = token_of_match(TokenKind::Numeral, s, anchored_find(NUM_REGEX, s)) {
        return t;
    }
    Err(TokenizerError::UnknownToken(unknown_token_text(s)))
}

fn unescape_char(c: char) -> (r: Option<char>)
    ensures
        r == unescape(c),
{
    if c == 'n' {
        Some('\n')
    } else if c == 'r' {
        Some('\r')
    } else if c == 't' {
        Some('\t')
    } else if c == '\\' {
        Some('\\')
    } else if c == '0' {
        Some('\0')
    } else if c == '"' {
        Some('"')
    } else if c == '\'' {
        Some('\'')
    } else {
        None
    }
}

fn read_string_literal(s: &str) -> (r: Result<(String, usize), TokenizerError>)
    ensures
        match r {
            Ok((content, close)) => string_literal(s@, 0, Seq::empty()) == Ok::<
                _,
                TokenizerErrorView,
            >((content@, close as int)) && content@.len() <= close < s@.len(),
            Err(e) => string_literal(s@, 0, Seq::empty()) == Err::<(Seq<char>, int), _>(e@),
        },
{
    let n = s.unicode_len();
    let mut content = String::new();
    let mut i: usize = 0;
    loop
        invariant
            n == s@.len(),
            content@.len() <= i <= n,
            string_literal(s@, 0, Seq::empty()) == string_literal(s@, i as int, content@),
        decreases n - i,
    {
        if i >= n {
            return Err(TokenizerError::UnterminatedStringLiteral);
        }
        let c = s.get_char(i);
        if c == '"' {
            return Ok((content, i));
        } else if c == '\\' {
            if i + 1 >= n {
                return Err(TokenizerError::UnterminatedStringLiteral);
            }
            let escaped = s.get_char(i + 1);
            match unescape_char(escaped) {
                Some(plain) => {
                    push_char(&mut content, plain);
                    i = i + 2;
                },
                None => {
                    return Err(TokenizerError::InvalidEscapeSequence(escaped));
                },
            }
        } else {
            push_char(&mut content, c);
            i = i + 1;
        }
    }
}

/// The tokens of one line, which has the given number and starts at the
/// given column.
pub fn tokenize_helper(s: &str, line_num: usize, col_num: usize) -> (r: Result<
    Vec<Token>,
    TokenizerError,
>)
    requires
        col_num >= 1,
        col_num - 1 + s@.len() <= usize::MAX,
    ensures
        match r {
            Ok(tokens) => line_tokens(s@, line_num as nat, col_num as nat) == Ok::<
                _,
                TokenizerErrorView,
            >(tokens_view(tokens@)),
            Err(e) => line_tokens(s@, line_num as nat, col_num as nat) == Err::<Seq<TokenView>, _>(
                e@,
            ),
        },
{
    let mut tokens: Vec<Token> = Vec::new();
    let mut rest: &str = s;
    let mut before: usize = col_num - 1;
    proof {
        assert(tokens_view(tokens@) =~= Seq::empty());
        lemma_tokens_then_empty(line_tokens(s@, line_num as nat, col_num as nat));
    }
    loop
        invariant
            col_num >= 1,
            col_num - 1 + s@.len() <= usize::MAX,
            before + rest@.len() <= col_num - 1 + s@.len(),
            line_tokens(s@, line_num as nat, col_num as nat) == tokens_then(
                tokens_view(tokens@),
                line_tokens(rest@, line_num as nat, (before + 1) as nat),
            ),
        decreases rest@.len(),
    {
        let n = rest.unicode_len();
        if n == 0 {
            proof {
                assert(tokens_view(tokens@) + Seq::empty() =~= tokens_view(tokens@));
            }
            return Ok(tokens);
        }
        let (found, length) = match get_token_value(rest) {
            Ok(pair) => pair,
            Err(e) => {
                return Err(e);
            },
        };
        let after = rest.substring_char(length, n);
        let ghost earlier = tokens_view(tokens@);
        match found {
            None => {
                rest = after;
                before = before + length;
            },
            Some(TokenValue::QUOTE) => {
                match read_string_literal(after) {
                    Err(e) => {
                        return Err(e);
                    },
                    Ok((content, close)) => {
                        let m = after.unicode_len();
                        let width = content.as_str().unicode_len();
                        let token = Token(TokenValue::STR(content), line_num, before + 1);
                        proof {
                            lemma_tokens_then_push(
                                earlier,
                                token@,
                                line_tokens(
                                    after@.subrange(close + 1, m as int),
                                    line_num as nat,
                                    (before + 1 + width + 2) as nat,
                                ),
                            );
                        }
                        tokens.push(token);
                        proof {
                            assert(tokens_view(tokens@) =~= earlier.push(token@));
                        }
                        rest = after.substring_char(close + 1, m);
                        before = before + width + 2;
                    },
                }
            },
            Some(TokenValue::DOUBLE_SLASH) => {
                proof {
                    assert(tokens_view(tokens@) + Seq::empty() =~= tokens_view(tokens@));
                }
                return Ok(tokens);
            },
            Some(value) => {
                let token = Token(value, line_num, before + 1);
                proof {
                    lemma_tokens_then_push(
                        earlier,
                        token@,
                        line_tokens(after@, line_num as nat, (before + 1 + length) as nat),
                    );
                }
                tokens.push(token);
                proof {
                    assert(tokens_view(tokens@) =~= earlier.push(token@));
                }
                rest = after;
                before = before + length;
            },
        }
    }
}

proof fn lemma_tokens_then_empty(rest: Result<Seq<TokenView>, TokenizerErrorView>)
    ensures
        tokens_then(Seq::empty(), rest) == rest,
{
    match rest {
        Ok(tokens) => {
            assert(Seq::<TokenView>::empty() + tokens =~= tokens);
        },
        Err(_) => {},
    }
}

proof fn lemma_tokens_then_push(
    first: Seq<TokenView>,
    token: TokenView,
    rest: Result<Seq<TokenView>, TokenizerErrorView>,
)
    ensures
        tokens_then(first, tokens_then(seq![token], rest)) == tokens_then(first.push(token), rest),
{
    match rest {
        Ok(tokens) => {
            assert(first + (seq![token] + tokens) =~= first.push(token) + tokens);
        },
        Err(_) => {},
    }
}

proof fn lemma_tokens_then_append(
    first: Seq<TokenView>,
    second: Seq<TokenView>,
    rest: Result<Seq<TokenView>, TokenizerErrorView>,
)
    ensures
        tokens_then(first, tokens_then(second, rest)) == tokens_then(first + second, rest),
{
    match rest {
        Ok(tokens) => {
            assert(first + (second + tokens) =~= (first + second) + tokens);
        },
        Err(_) => {},
    }
}

/// The tokens of a source text, each with the line and the column where it
/// starts.
pub fn tokenize(s: &str) -> (r: Result<Vec<Token>, TokenizerError>)
    ensures
        match r {
            Ok(tokens) => text_tokens(s@, 1) == Ok::<_, TokenizerErrorView>(tokens_view(tokens@)),
            Err(e) => text_tokens(s@, 1) == Err::<Seq<TokenView>, _>(e@),
        },
{
    let n = s.unicode_len();
    let mut tokens: Vec<Token> = Vec::new();
    let mut start: usize = 0;
    let mut lines: usize = 0;
    proof {
        assert(tokens_view(tokens@) =~= Seq::empty());
        lemma_tokens_then_empty(text_tokens(s@, 1));
        assert(s@.subrange(0, n as int) =~= s@);
    }
    loop
        invariant
            n == s@.len(),
            lines <= start <= n,
            text_tokens(s@, 1) == tokens_then(
                tokens_view(tokens@),
                text_tokens(s@.subrange(start as int, n as int), (lines + 1) as nat),
            ),
        decreases n - start,
    {
        let ghost text = s@.subrange(start as int, n as int);
        let mut end: usize = start;
        while end < n && s.get_char(end) != '\n'
            invariant
                start <= end <= n,
                n == s@.len(),
                forall|j: int| start <= j < end ==> s@[j] != '\n',
            decreases n - end,
        {
            end += 1;
        }
        proof {
            lemma_line_end(text, end - start);
            assert(text.subrange(0, end - start) =~= s@.subrange(start as int, end as int));
        }
        let line = s.substring_char(start, end);
        let ghost earlier = tokens_view(tokens@);
        let ghost line_result = line_tokens(line@, (lines + 1) as nat, 1);
        if end > start {
            match tokenize_helper(line, lines + 1, 1) {
                Ok(mut found) => {
                    let ghost second = tokens_view(found@);
                    tokens.append(&mut found);
                    proof {
                        assert(tokens_view(tokens@) =~= earlier + second);
                    }
                },
                Err(e) => {
                    return Err(e);
                },
            }
        } else {
            proof {
                assert(tokens_view(tokens@) =~= earlier + Seq::empty());
            }
        }
        if end < n {
            proof {
                assert(text.subrange(end - start + 1, text.len() as int) =~= s@.subrange(
                    end + 1,
                    n as int,
                ));
                lemma_tokens_then_append(
                    earlier,
                    line_result->Ok_0,
                    text_tokens(s@.subrange(end + 1, n as int), (lines + 2) as nat),
                );
            }
            start = end + 1;
            lines = lines + 1;
        } else {
            proof {
                assert(text =~= line@);
            }
            return Ok(tokens);
        }
    }
}

} // verus!
