//! Failures, and the few operations on results that the grammar is built
//! from: commitment, optional occurrence and ordered choice.

use vstd::prelude::*;
use crate::command::Command;
use crate::lexer::{Token, spec_token_at, token_at};

verus! {

/// What a parser was looking for at the place where it gave up.
#[derive(Clone, Copy, Debug, PartialEq, Eq)]
pub enum Expected {
    /// The keyword of one command.
    Keyword(Command),
    /// The keyword of any of the twelve commands.
    AnyKeyword,
    /// One punctuation byte.
    Symbol(u8),
    /// One of `posedge`, `negedge` and `edge`.
    Edge,
    /// An identifier.
    Identifier,
    /// A number.
    Number,
    /// A number or an identifier.
    Primary,
}

/// What a parser was looking for where it gave up, and what it found.
#[derive(Clone, Copy, Debug, PartialEq, Eq)]
pub struct Failure {
    /// What the parser was looking for.
    pub expected: Expected,
    /// The offending token: what stands where `expected` was looked for.  It
    /// is empty at the end of the input.
    pub found: Token,
}

impl Failure {
    /// The offset of the offending token.
    pub open spec fn spec_position(self) -> usize {
        self.found.start
    }

    /// The offset of the offending token.
    pub fn position(&self) -> (r: usize)
        ensures
            r == self.spec_position(),
    {
        self.found.start
    }
}

/// The two ways in which a parser fails.
#[derive(Clone, Copy, Debug, PartialEq, Eq)]
pub enum ParseError {
    /// The production does not apply here; another one may.
    Soft(Failure),
    /// The production applies and the input is malformed.
    Hard(Failure),
}

/// A parsed value with the position behind it, or a failure.
pub type PResult<T> = Result<(T, usize), ParseError>;

impl ParseError {
    /// The failure, whichever way the parser failed.
    pub open spec fn spec_failure(self) -> Failure {
        match self {
            ParseError::Soft(f) => f,
            ParseError::Hard(f) => f,
        }
    }

    /// The failure, whichever way the parser failed.
    pub fn failure(&self) -> (r: Failure)
        ensures
            r == self.spec_failure(),
    {
        match self {
            ParseError::Soft(f) => *f,
            ParseError::Hard(f) => *f,
        }
    }

    /// Whether the failure must be reported rather than passed over.
    pub open spec fn spec_is_hard(self) -> bool {
        self is Hard
    }

    /// Whether the failure must be reported rather than passed over.
    pub fn is_hard(&self) -> (r: bool)
        ensures
            r == self.spec_is_hard(),
    {
        match self {
            ParseError::Soft(_) => false,
            ParseError::Hard(_) => true,
        }
    }
}

/// The failure of a parser that looked for `expected` at offset `at` of `s`.
pub open spec fn spec_failure_at(s: Seq<u8>, at: int, expected: Expected) -> Failure {
    Failure { expected, found: spec_token_at(s, at) }
}

/// A result that can no longer be passed over: a soft failure becomes a hard
/// one, everything else stays.
pub open spec fn spec_commit<T>(r: PResult<T>) -> PResult<T> {
    match r {
        Err(ParseError::Soft(f)) => Err(ParseError::Hard(f)),
        _ => r,
    }
}

/// An optional occurrence: an attempt that failed softly yields `None` at
/// the position `pos` where it began.  A hard failure stays.
pub open spec fn spec_opt<T>(r: PResult<T>, pos: usize) -> PResult<Option<T>> {
    match r {
        Ok((v, next)) => Ok((Some(v), next)),
        Err(ParseError::Soft(_)) => Ok((None, pos)),
        Err(ParseError::Hard(f)) => Err(ParseError::Hard(f)),
    }
}

/// Ordered choice between two attempts at one position: the second one counts
/// only where the first one failed softly.
pub open spec fn spec_alt<T>(first: PResult<T>, second: PResult<T>) -> PResult<T> {
    match first {
        Err(ParseError::Soft(_)) => second,
        _ => first,
    }
}

/// The value of a successful result, passed through `f`.
pub open spec fn spec_map<A, B>(r: PResult<A>, f: spec_fn(A) -> B) -> PResult<B> {
    match r {
        Ok((v, next)) => Ok((f(v), next)),
        Err(e) => Err(e),
    }
}

/// The failure of a parser that looked for `expected` at offset `at`.
pub fn failure_at(input: &[u8], at: usize, expected: Expected) -> (r: Failure)
    ensures
        r == spec_failure_at(input@, at as int, expected),
{
    Failure { expected, found: token_at(input, at) }
}

/// Makes a result one that can no longer be passed over: a soft failure
/// becomes a hard one, everything else stays.
pub fn commit<T>(r: PResult<T>) -> (out: PResult<T>)
    ensures
        out == spec_commit(r),
{
    match r {
        Err(ParseError::Soft(f)) => Err(ParseError::Hard(f)),
        other => other,
    }
}

/// Makes an attempt optional: one that failed softly yields `None` at the
/// position `pos` where it began.  A hard failure stays.
pub fn opt<T>(r: PResult<T>, pos: usize) -> (out: PResult<Option<T>>)
    ensures
        out == spec_opt(r, pos),
{
    match r {
        Ok((v, next)) => Ok((Some(v), next)),
        Err(ParseError::Soft(_)) => Ok((None, pos)),
        Err(ParseError::Hard(f)) => Err(ParseError::Hard(f)),
    }
}

} // verus!
