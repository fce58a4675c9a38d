use super::text::{decimal, from_chars, push_decimal, push_str};
use vstd::prelude::*;

verus! {

/// What went wrong, and on which source line.
#[derive(Debug)]
pub struct Error {
    pub message: String,
    pub line: usize,
    /// Where in the line the fault was found, as the diagnostic says it:
    /// `at` and the characters of a token, or nothing.
    pub location: String,
}

/// An [`Error`] with its message as a sequence of characters.
pub struct ErrorView {
    pub message: Seq<char>,
    pub line: usize,
    pub location: Seq<char>,
}

impl View for Error {
    type V = ErrorView;

    open spec fn view(&self) -> ErrorView {
        ErrorView { message: self.message@, line: self.line, location: self.location@ }
    }
}

/// An error that names no place in its line.
pub open spec fn fault(message: Seq<char>, line: usize) -> ErrorView {
    ErrorView { message, line, location: Seq::empty() }
}

/// An error at the token that is written `lexeme`.
pub open spec fn fault_at(message: Seq<char>, line: usize, lexeme: Seq<char>) -> ErrorView {
    ErrorView { message, line, location: "at "@ + lexeme }
}

/// The line that reports a fault: `[line L] Error LOCATION: MESSAGE`.
pub open spec fn diagnostic(line: usize, location: Seq<char>, message: Seq<char>) -> Seq<char> {
    "[line "@ + decimal(line as nat) + "] Error "@ + location + ": "@ + message
}

impl Error {
    /// An error with the given line and message.
    pub fn new(line: usize, message: String) -> (r: Error)
        ensures
            r.line == line,
            r.message == message,
            r@ == fault(message@, line),
    {
        Error { message, line, location: String::new() }
    }

    /// An error whose message is the given text.
    pub fn with_message(line: usize, message: &str) -> (r: Error)
        ensures
            r@ == fault(message@, line),
    {
        Error { message: String::from_str(message), line, location: String::new() }
    }

    /// An error at the token that is written `lexeme`.
    pub fn at(line: usize, lexeme: &str, message: &str) -> (r: Error)
        ensures
            r@ == fault_at(message@, line, lexeme@),
    {
        Error {
            message: String::from_str(message),
            line,
            location: super::text::concatenate("at ", lexeme),
        }
    }

    /// The diagnostic line of a fault that names no place in the source text.
    pub fn error(line: usize, message: String) -> (r: String)
        ensures
            r@ == diagnostic(line, Seq::empty(), message@),
    {
        Error::report(line, String::new(), message)
    }

    /// The diagnostic line of a fault at `location`.
    pub fn report(line: usize, location: String, message: String) -> (r: String)
        ensures
            r@ == diagnostic(line, location@, message@),
    {
        let mut out: Vec<char> = Vec::new();
        push_str(&mut out, "[line ");
        push_decimal(&mut out, line);
        push_str(&mut out, "] Error ");
        push_str(&mut out, location.as_str());
        push_str(&mut out, ": ");
        push_str(&mut out, message.as_str());
        assert(out@ =~= diagnostic(line, location@, message@));
        from_chars(out.as_slice())
    }

    /// The diagnostic line of this error.
    pub fn to_string(&self) -> (r: String)
        ensures
            r@ == diagnostic(self.line, self.location@, self.message@),
    {
        Error::report(self.line, self.location.clone(), self.message.clone())
    }
}

impl Clone for Error {
    fn clone(&self) -> (r: Self)
        ensures
            r == *self,
    {
        Error {
            message: self.message.clone(),
            line: self.line,
            location: self.location.clone(),
        }
    }
}

} // verus!
