//! The two recoverable scanning failures. Each one refers to the whole source
//! and an offset into it, so that its line can be computed whenever it is
//! reported, whatever the scanner has done since.
use vstd::prelude::*;
use crate::text::{decimal, push_char, push_decimal};

verus! {

/// A character that starts no token.
#[derive(Debug)]
pub struct SingleTokenError<'a> {
    pub token: char,
    pub source_code: &'a str,
    pub source_code_idx: usize,
}

/// A `"` with no closing `"` after it.
#[derive(Debug)]
pub struct UnterminatedStringError<'a> {
    pub source_code: &'a str,
    pub source_code_idx: usize,
}

/// A scanning failure; the scan goes on after it.
#[derive(Debug)]
pub enum ScanError<'a> {
    UnexpectedCharacter(SingleTokenError<'a>),
    UnterminatedString(UnterminatedStringError<'a>),
}

/// The number of line breaks in `s`.
pub open spec fn newlines(s: Seq<char>) -> nat
    decreases s.len(),
{
    if s.len() == 0 {
        0
    } else {
        newlines(s.drop_last()) + if s.last() == '\n' {
            1nat
        } else {
            0nat
        }
    }
}

/// The 1-based line on which the character at `idx` stands.
pub open spec fn line_of(s: Seq<char>, idx: int) -> nat {
    1 + newlines(s.take(idx))
}

/// The report of an error with the given line and message.
pub open spec fn report(line: nat, message: Seq<char>) -> Seq<char> {
    "[line "@ + decimal(line) + "] Error: "@ + message
}

/// Whether an error's offset designates a character of its source.
pub open spec fn anchored(source: Seq<char>, idx: usize) -> bool {
    &&& idx < source.len()
    &&& source.len() <= usize::MAX
}

/// The line of the character at `idx` in `source`.
fn line_at(source: &str, idx: usize) -> (n: usize)
    requires
        anchored(source@, idx),
    ensures
        n == line_of(source@, idx as int),
{
    let mut count: usize = 0;
    let mut k: usize = 0;
    for c in it: source.chars()
        invariant
            it.seq() == source@,
            k == it.index(),
            k <= idx,
            anchored(source@, idx),
            count <= k,
            count == newlines(source@.take(k as int)),
    {
        if k == idx {
            return count + 1;
        }
        assert(source@.take(k + 1).drop_last() =~= source@.take(k as int));
        if c == '\n' {
            count += 1;
        }
        k += 1;
    }
    count + 1
}

impl<'a> SingleTokenError<'a> {
    /// The line of the unexpected character, counting from 1.
    pub fn line(&self) -> (n: usize)
        requires
            anchored(self.source_code@, self.source_code_idx),
        ensures
            n == line_of(self.source_code@, self.source_code_idx as int),
    {
        line_at(self.source_code, self.source_code_idx)
    }

    pub open spec fn message(&self) -> Seq<char> {
        "Unexpected character: "@.push(self.token)
    }

    /// `[line <n>] Error: Unexpected character: <c>`.
    pub fn render(&self) -> (r: String)
        requires
            anchored(self.source_code@, self.source_code_idx),
        ensures
            r@ == report(line_of(self.source_code@, self.source_code_idx as int), self.message()),
    {
        let mut r = String::from_str("[line ");
        push_decimal(&mut r, self.line());
        r.append("] Error: ");
        r.append("Unexpected character: ");
        push_char(&mut r, self.token);
        assert(r@ =~= report(line_of(self.source_code@, self.source_code_idx as int), self.message()));
        r
    }
}

impl<'a> UnterminatedStringError<'a> {
    /// The line of the opening quote, counting from 1.
    pub fn line(&self) -> (n: usize)
        requires
            anchored(self.source_code@, self.source_code_idx),
        ensures
            n == line_of(self.source_code@, self.source_code_idx as int),
    {
        line_at(self.source_code, self.source_code_idx)
    }

    pub open spec fn message(&self) -> Seq<char> {
        "Unterminated string."@
    }

    /// `[line <n>] Error: Unterminated string.`.
    pub fn render(&self) -> (r: String)
        requires
            anchored(self.source_code@, self.source_code_idx),
        ensures
            r@ == report(line_of(self.source_code@, self.source_code_idx as int), self.message()),
    {
        let mut r = String::from_str("[line ");
        push_decimal(&mut r, self.line());
        r.append("] Error: ");
        r.append("Unterminated string.");
        assert(r@ =~= report(line_of(self.source_code@, self.source_code_idx as int), self.message()));
        r
    }
}

impl<'a> ScanError<'a> {
    pub open spec fn source(&self) -> Seq<char> {
        match self {
            ScanError::UnexpectedCharacter(e) => e.source_code@,
            ScanError::UnterminatedString(e) => e.source_code@,
        }
    }

    pub open spec fn offset(&self) -> usize {
        match self {
            ScanError::UnexpectedCharacter(e) => e.source_code_idx,
            ScanError::UnterminatedString(e) => e.source_code_idx,
        }
    }

    pub open spec fn message(&self) -> Seq<char> {
        match self {
            ScanError::UnexpectedCharacter(e) => e.message(),
            ScanError::UnterminatedString(e) => e.message(),
        }
    }

    /// The line of the error, counting from 1.
    pub fn line(&self) -> (n: usize)
        requires
            anchored(self.source(), self.offset()),
        ensures
            n == line_of(self.source(), self.offset() as int),
    {
        match self {
            ScanError::UnexpectedCharacter(e) => e.line(),
            ScanError::UnterminatedString(e) => e.line(),
        }
    }

    /// The error's report line.
    pub fn render(&self) -> (r: String)
        requires
            anchored(self.source(), self.offset()),
        ensures
            r@ == report(line_of(self.source(), self.offset() as int), self.message()),
    {
        match self {
            ScanError::UnexpectedCharacter(e) => e.render(),
            ScanError::UnterminatedString(e) => e.render(),
        }
    }
}

} // verus!
