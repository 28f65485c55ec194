use vstd::prelude::*;
use vstd::string::StringExecFns;

verus! {

/// Generates the message of an `Unexpected End of Stream` error.
pub fn unexpected_end_of_stream_message() -> (r: String)
    ensures
        r@ == "Unexpected End of Stream"@,
{
    String::from_str("Unexpected End of Stream")
}

/// Generates the message of an `Unexpected Token` error.
pub fn unexpected_token_message(expected: &str, got: &str) -> (r: String)
    ensures
        r@ == "Unexpected Token: Expected "@ + expected@ + ", Got "@ + got@,
{
    let mut r = String::from_str("Unexpected Token: Expected ");
    r.append(expected);
    r.append(", Got ");
    r.append(got);
    r
}

/// Why a token sequence could not be parsed, and the index of the token
/// where it was found (the sequence's length for its end).
#[derive(Debug, PartialEq, Eq)]
pub enum ParseError {
    /// A scan still wanted a token where none was left.
    UnexpectedEndOfStream { at: usize },
    /// A marker position held something other than the marker.
    UnexpectedToken { expected: String, got: String, at: usize },
    /// A span that must be a Rust expression is not one; the message says why.
    Syntax { message: String, at: usize },
}

/// The mathematical value of a [`ParseError`].
pub enum Fault {
    EndOfStream { at: int },
    Token { expected: Seq<char>, got: Seq<char>, at: int },
    Syntax { message: Seq<char>, at: int },
}

impl Fault {
    /// The index of the token where the fault was found.
    pub open spec fn at(self) -> int {
        match self {
            Fault::EndOfStream { at } => at,
            Fault::Token { at, .. } => at,
            Fault::Syntax { at, .. } => at,
        }
    }

    /// The same fault, found `k` tokens further on.
    pub open spec fn shift(self, k: int) -> Fault {
        match self {
            Fault::EndOfStream { at } => Fault::EndOfStream { at: at + k },
            Fault::Token { expected, got, at } => Fault::Token { expected, got, at: at + k },
            Fault::Syntax { message, at } => Fault::Syntax { message, at: at + k },
        }
    }
}

/// Shifting by `a` and then by `b` shifts by `a + b`.
pub proof fn lemma_shift(f: Fault, a: int, b: int)
    ensures
        f.shift(a).shift(b) == f.shift(a + b),
        f.shift(0) == f,
        f.shift(a).at() == f.at() + a,
{
}

impl View for ParseError {
    type V = Fault;

    open spec fn view(&self) -> Fault {
        match self {
            ParseError::UnexpectedEndOfStream { at } => Fault::EndOfStream { at: *at as int },
            ParseError::UnexpectedToken { expected, got, at } => Fault::Token {
                expected: expected@,
                got: got@,
                at: *at as int,
            },
            ParseError::Syntax { message, at } => Fault::Syntax { message: message@, at: *at as int },
        }
    }
}

/// The text a diagnostic shows for a fault.
pub open spec fn fault_message(f: Fault) -> Seq<char> {
    match f {
        Fault::EndOfStream { .. } => "Unexpected End of Stream"@,
        Fault::Token { expected, got, .. } => "Unexpected Token: Expected "@ + expected
            + ", Got "@ + got,
        Fault::Syntax { message, .. } => message,
    }
}

impl ParseError {
    /// The text of the diagnostic that reports this error.
    pub fn message(&self) -> (r: String)
        ensures
            r@ == fault_message(self@),
    {
        match self {
            ParseError::UnexpectedEndOfStream { .. } => unexpected_end_of_stream_message(),
            ParseError::UnexpectedToken { expected, got, .. } => unexpected_token_message(
                expected.as_str(),
                got.as_str(),
            ),
            ParseError::Syntax { message, .. } => message.clone(),
        }
    }

    /// The index of the token where the error was found.
    pub fn at(&self) -> (r: usize)
        ensures
            r == self@.at(),
    {
        match self {
            ParseError::UnexpectedEndOfStream { at } => *at,
            ParseError::UnexpectedToken { at, .. } => *at,
            ParseError::Syntax { at, .. } => *at,
        }
    }

    /// The same error, found `k` tokens further on.
    pub fn shift(self, k: usize) -> (r: ParseError)
        requires
            self@.at() + k <= usize::MAX,
        ensures
            r@ == self@.shift(k as int),
    {
        match self {
            ParseError::UnexpectedEndOfStream { at } => ParseError::UnexpectedEndOfStream {
                at: at + k,
            },
            ParseError::UnexpectedToken { expected, got, at } => ParseError::UnexpectedToken {
                expected,
                got,
                at: at + k,
            },
            ParseError::Syntax { message, at } => ParseError::Syntax { message, at: at + k },
        }
    }
}

} // verus!
