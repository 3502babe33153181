//! The front end and the evaluator of a small imperative language: source
//! text is split into tokens, the tokens are parsed, the parsed program is
//! lowered to a core language, and the core program is run.
use vstd::prelude::*;
use vstd::string::StrSliceExecFns;
use vstd::string::StringExecFns;
use vstd::utf8::encode_utf8;
use crate::interpreter::interp_program;
use crate::interpreter::semantics::eval_program;
use crate::parser::grammar::program;
use crate::parser::parse_program;
use crate::tokenizer::text_tokens;
use crate::tokenizer::tokenize;

pub mod desugar;
pub mod environment;
pub mod error;
pub mod interpreter;
pub mod number;
pub mod parser;
pub mod tokenizer;

verus! {

/// The sink of `print`: it keeps all that was written to it.
pub struct Writer {
    text: String,
}

impl View for Writer {
    type V = Seq<char>;

    closed spec fn view(&self) -> Seq<char> {
        self.text@
    }
}

impl Writer {
    /// A writer to which nothing was written yet.
    pub fn new() -> (r: Self)
        ensures
            r@ == Seq::<char>::empty(),
    {
        Writer { text: String::new() }
    }

    /// Writes a text.
    pub fn write(&mut self, text: &str)
        ensures
            final(self)@ == old(self)@ + text@,
    {
        self.text.append(text);
    }

    /// All that was written.
    pub fn into_string(self) -> (r: String)
        ensures
            r@ == self@,
    {
        self.text
    }
}

/// How deep a run may go by calls and by turns of loops where no limit is
/// given: as deep as a limit can say.
pub const EVALUATION_LIMIT: u64 = 0xffff_ffff_ffff_ffff;

/// What a run of a source text gives.
pub struct Run {
    /// The text of the value of `main`, or the message of the failure.
    pub result: Result<Seq<char>, Seq<char>>,
    /// All that the program printed.
    pub output: Seq<char>,
}

/// The run of a source text: it is split into tokens, the tokens are
/// parsed, and the program runs under the limit. The first stage that fails
/// ends the run with its message.
pub open spec fn run(source: Seq<char>, limit: nat) -> Run {
    match text_tokens(source, 1) {
        Err(e) => Run { result: Err(e.message()), output: Seq::empty() },
        Ok(tokens) => match program(tokens) {
            Err(e) => Run { result: Err(e.message()), output: Seq::empty() },
            Ok(parsed) => {
                let o = eval_program(parsed, Seq::empty(), limit);
                Run {
                    result: match o.result {
                        Ok(value) => Ok(value.display()),
                        Err(e) => Err(e.message()),
                    },
                    output: o.output,
                }
            },
        },
    }
}

/// What a result of texts holds.
pub open spec fn texts(r: Result<String, String>) -> Result<Seq<char>, Seq<char>> {
    match r {
        Ok(text) => Ok(text@),
        Err(text) => Err(text@),
    }
}

/// Runs a source text under a limit on how deep the evaluation may go by
/// calls and by turns of loops. Gives the text of the value of `main`, or
/// the message of the failure, and beside it all that the program printed.
pub fn interp_with_limit(s: &str, limit: u64) -> (r: (Result<String, String>, String))
    ensures
        texts(r.0) == run(s@, limit as nat).result,
        r.1@ == run(s@, limit as nat).output,
{
    let tokens = match tokenize(s) {
        Ok(tokens) => tokens,
        Err(e) => {
            return (Err(e.to_string()), String::new());
        },
    };
    let parsed = match parse_program(tokens.as_slice()) {
        Ok(parsed) => parsed,
        Err(e) => {
            return (Err(e.to_string()), String::new());
        },
    };
    let mut writer = Writer::new();
    let result = match interp_program(parsed, &mut writer, limit) {
        Ok(value) => Ok(value.to_string()),
        Err(e) => Err(e.to_string()),
    };
    (result, writer.into_string())
}

/// Runs a source text and appends what the program printed, in UTF-8, to
/// the buffer. Gives the text of the value of `main`, or the message of the
/// failure.
pub fn interp_to_buffer(s: String, buf: &mut Vec<u8>) -> (r: Result<String, String>)
    ensures
        texts(r) == run(s@, EVALUATION_LIMIT as nat).result,
        final(buf)@ == old(buf)@ + encode_utf8(run(s@, EVALUATION_LIMIT as nat).output),
{
    let (result, output) = interp_with_limit(s.as_str(), EVALUATION_LIMIT);
    let mut bytes = output.as_str().as_bytes_vec();
    buf.append(&mut bytes);
    result
}

} // verus!
