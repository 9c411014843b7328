//! Trivia and tokens.

use vstd::prelude::*;
use crate::error::{Expected, PResult, ParseError, failure_at, spec_failure_at};

verus! {

/// A token: the half-open range of input bytes that holds its text.
#[derive(Clone, Copy, Debug, PartialEq, Eq)]
pub struct Token {
    pub start: usize,
    pub end: usize,
}

impl Token {
    /// The bytes of the token in the input `s`.
    pub open spec fn spec_text(self, s: Seq<u8>) -> Seq<u8> {
        s.subrange(self.start as int, self.end as int)
    }

    /// The bytes of the token in the input that it was parsed from.
    pub fn text<'a>(&self, input: &'a [u8]) -> (r: &'a [u8])
        requires
            self.start <= self.end <= input@.len(),
        ensures
            r@ == self.spec_text(input@),
    {
        vstd::slice::slice_subrange(input, self.start, self.end)
    }
}

/// The length of a slice is a `usize`.
pub proof fn lemma_slice_fits(input: &[u8])
    ensures
        input@.len() <= usize::MAX,
{
    assert(vstd::slice::spec_slice_len(input) == input@.len());
}

/// White space: blank, tab, line feed and carriage return.
pub open spec fn is_space(b: u8) -> bool {
    b == ' ' as u8 || b == '\t' as u8 || b == '\n' as u8 || b == '\r' as u8
}

/// Decimal digits.
pub open spec fn is_digit(b: u8) -> bool {
    '0' as u8 <= b <= '9' as u8
}

/// Letters of either case.
pub open spec fn is_letter(b: u8) -> bool {
    ('a' as u8 <= b <= 'z' as u8) || ('A' as u8 <= b <= 'Z' as u8)
}

/// Bytes that may begin an identifier.
pub open spec fn is_identifier_start(b: u8) -> bool {
    is_letter(b) || b == '_' as u8
}

/// Bytes that may continue an identifier or a keyword.
pub open spec fn is_identifier_part(b: u8) -> bool {
    is_letter(b) || is_digit(b) || b == '_' as u8 || b == '$' as u8
}

/// Bytes that may continue a number.
pub open spec fn is_number_part(b: u8) -> bool {
    is_digit(b) || b == '_' as u8
}

/// Whether the two bytes at `i` and `i + 1` are `a` and `b`.
pub open spec fn pair_at(s: Seq<u8>, i: int, a: u8, b: u8) -> bool {
    0 <= i && i + 1 < s.len() && s[i] == a && s[i + 1] == b
}

/// End of the line that holds offset `i`: the offset of the next newline, or
/// the end of the input.
pub open spec fn line_end(s: Seq<u8>, i: int) -> int
    decreases s.len() - i,
{
    if 0 <= i < s.len() && s[i] != '\n' as u8 {
        line_end(s, i + 1)
    } else {
        i
    }
}

/// Offset behind the first `*/` at or after `i`, if there is one.
pub open spec fn block_end(s: Seq<u8>, i: int) -> Option<int>
    decreases s.len() - i,
{
    if i < 0 || i + 1 >= s.len() {
        None
    } else if s[i] == '*' as u8 && s[i + 1] == '/' as u8 {
        Some(i + 2)
    } else {
        block_end(s, i + 1)
    }
}

/// End of the trivia that begins at `i`: white space, `//` comments up to the
/// end of their line and closed `/* */` comments, as many as follow each
/// other.
pub open spec fn trivia_end(s: Seq<u8>, i: int) -> int
    decreases s.len() - i,
    via trivia_end_decreases
{
    if i < 0 || i >= s.len() {
        i
    } else if is_space(s[i]) {
        trivia_end(s, i + 1)
    } else if pair_at(s, i, '/' as u8, '/' as u8) {
        trivia_end(s, line_end(s, i + 2))
    } else if pair_at(s, i, '/' as u8, '*' as u8) {
        match block_end(s, i + 2) {
            Some(j) => trivia_end(s, j),
            None => i,
        }
    } else {
        i
    }
}

#[via_fn]
proof fn trivia_end_decreases(s: Seq<u8>, i: int) {
    if 0 <= i && i + 2 <= s.len() {
        lemma_line_end_bounds(s, i + 2);
        lemma_block_end_bounds(s, i + 2);
    }
}

/// A line ends at or behind any of its offsets, inside the input.
pub proof fn lemma_line_end_bounds(s: Seq<u8>, i: int)
    requires
        0 <= i <= s.len(),
    ensures
        i <= line_end(s, i) <= s.len(),
    decreases s.len() - i,
{
    if i < s.len() && s[i] != '\n' as u8 {
        lemma_line_end_bounds(s, i + 1);
    }
}

/// A `*/` ends behind the offset from which it was looked for, inside the
/// input.
pub proof fn lemma_block_end_bounds(s: Seq<u8>, i: int)
    requires
        0 <= i,
    ensures
        block_end(s, i) matches Some(j) ==> i + 2 <= j <= s.len(),
    decreases s.len() - i,
{
    if i + 1 < s.len() && !(s[i] == '*' as u8 && s[i + 1] == '/' as u8) {
        lemma_block_end_bounds(s, i + 1);
    }
}

/// Trivia ends at or behind the offset where it begins, inside the input.
pub proof fn lemma_trivia_end_bounds(s: Seq<u8>, i: int)
    requires
        0 <= i <= s.len(),
    ensures
        i <= trivia_end(s, i) <= s.len(),
    decreases s.len() - i,
{
    if i < s.len() {
        if is_space(s[i]) {
            lemma_trivia_end_bounds(s, i + 1);
        } else if pair_at(s, i, '/' as u8, '/' as u8) {
            lemma_line_end_bounds(s, i + 2);
            lemma_trivia_end_bounds(s, line_end(s, i + 2));
        } else if pair_at(s, i, '/' as u8, '*' as u8) {
            lemma_block_end_bounds(s, i + 2);
            match block_end(s, i + 2) {
                Some(j) => lemma_trivia_end_bounds(s, j),
                None => {},
            }
        }
    }
}

/// End of the run of identifier bytes that begins at `i`.
pub open spec fn identifier_end(s: Seq<u8>, i: int) -> int
    decreases s.len() - i,
{
    if 0 <= i < s.len() && is_identifier_part(s[i]) {
        identifier_end(s, i + 1)
    } else {
        i
    }
}

/// End of the run of digits and underscores that begins at `i`.
pub open spec fn number_end(s: Seq<u8>, i: int) -> int
    decreases s.len() - i,
{
    if 0 <= i < s.len() && is_number_part(s[i]) {
        number_end(s, i + 1)
    } else {
        i
    }
}

/// A run of identifier bytes ends at or behind its beginning, inside the input.
pub proof fn lemma_identifier_end_bounds(s: Seq<u8>, i: int)
    requires
        0 <= i <= s.len(),
    ensures
        i <= identifier_end(s, i) <= s.len(),
    decreases s.len() - i,
{
    if i < s.len() && is_identifier_part(s[i]) {
        lemma_identifier_end_bounds(s, i + 1);
    }
}

/// A run of digits ends at or behind its beginning, inside the input.
pub proof fn lemma_number_end_bounds(s: Seq<u8>, i: int)
    requires
        0 <= i <= s.len(),
    ensures
        i <= number_end(s, i) <= s.len(),
    decreases s.len() - i,
{
    if i < s.len() && is_number_part(s[i]) {
        lemma_number_end_bounds(s, i + 1);
    }
}

/// The token that a failure at offset `at` reports: the run of identifier
/// bytes that begins there, which takes in names, numbers and keywords, or
/// else the one byte there, or nothing at the end of the input.
pub open spec fn spec_token_at(s: Seq<u8>, at: int) -> Token {
    if 0 <= at < s.len() {
        if is_identifier_part(s[at]) {
            spec_token(at, identifier_end(s, at + 1))
        } else {
            spec_token(at, at + 1)
        }
    } else {
        spec_token(at, at)
    }
}

/// Whether the bytes of `lit` stand in `s` from offset `i` on.
pub open spec fn literal_at(s: Seq<u8>, i: int, lit: Seq<u8>) -> bool {
    0 <= i && i + lit.len() <= s.len() && s.subrange(i, i + lit.len()) == lit
}

/// Whether `lit` stands at `i` as a word of its own: no identifier byte
/// follows it.
pub open spec fn word_at(s: Seq<u8>, i: int, lit: Seq<u8>) -> bool {
    literal_at(s, i, lit) && !(i + lit.len() < s.len() && is_identifier_part(s[i + lit.len()]))
}

/// A keyword token.
#[derive(Clone, Copy, Debug, PartialEq, Eq)]
pub struct Keyword {
    pub nodes: (Token,),
}

/// A punctuation token.
#[derive(Clone, Copy, Debug, PartialEq, Eq)]
pub struct Symbol {
    pub nodes: (Token,),
}

/// An identifier token.
#[derive(Clone, Copy, Debug, PartialEq, Eq)]
pub struct Identifier {
    pub nodes: (Token,),
}

/// An unsigned decimal number token.
#[derive(Clone, Copy, Debug, PartialEq, Eq)]
pub struct Number {
    pub nodes: (Token,),
}

/// A group in round brackets.
#[derive(Copy, Debug, PartialEq, Eq)]
pub struct Paren<T> {
    pub nodes: (Symbol, T, Symbol),
}

impl<T: Copy> Clone for Paren<T> {
    fn clone(&self) -> (r: Self)
        ensures
            r == *self,
    {
        *self
    }
}

/// The token from offset `start` to offset `end`.
pub open spec fn spec_token(start: int, end: int) -> Token {
    Token { start: start as usize, end: end as usize }
}

/// The keyword `lit` behind the trivia at `pos`; `expected` is what a failure
/// reports.
pub open spec fn spec_keyword(s: Seq<u8>, pos: usize, lit: Seq<u8>, expected: Expected) -> PResult<Keyword> {
    let start = trivia_end(s, pos as int);
    let end = start + lit.len();
    if word_at(s, start, lit) {
        Ok((Keyword { nodes: (spec_token(start, end),) }, end as usize))
    } else {
        Err(ParseError::Soft(spec_failure_at(s, start, expected)))
    }
}

/// The punctuation byte `byte` behind the trivia at `pos`.
pub open spec fn spec_symbol(s: Seq<u8>, pos: usize, byte: u8) -> PResult<Symbol> {
    let start = trivia_end(s, pos as int);
    if start < s.len() && s[start] == byte {
        Ok((Symbol { nodes: (spec_token(start, start + 1),) }, (start + 1) as usize))
    } else {
        Err(ParseError::Soft(spec_failure_at(s, start, Expected::Symbol(byte))))
    }
}

/// The identifier behind the trivia at `pos`: a letter or an underscore and
/// all identifier bytes that follow.
pub open spec fn spec_identifier(s: Seq<u8>, pos: usize) -> PResult<Identifier> {
    let start = trivia_end(s, pos as int);
    if start < s.len() && is_identifier_start(s[start]) {
        let end = identifier_end(s, start + 1);
        Ok((Identifier { nodes: (spec_token(start, end),) }, end as usize))
    } else {
        Err(ParseError::Soft(spec_failure_at(s, start, Expected::Identifier)))
    }
}

/// The number behind the trivia at `pos`: a digit and all digits and
/// underscores that follow.
pub open spec fn spec_number(s: Seq<u8>, pos: usize) -> PResult<Number> {
    let start = trivia_end(s, pos as int);
    if start < s.len() && is_digit(s[start]) {
        let end = number_end(s, start + 1);
        Ok((Number { nodes: (spec_token(start, end),) }, end as usize))
    } else {
        Err(ParseError::Soft(spec_failure_at(s, start, Expected::Number)))
    }
}

/// Whether `b` is white space.
pub fn space(b: u8) -> (r: bool)
    ensures
        r == is_space(b),
{
    b == ' ' as u8 || b == '\t' as u8 || b == '\n' as u8 || b == '\r' as u8
}

/// Whether `b` is a decimal digit.
pub fn digit(b: u8) -> (r: bool)
    ensures
        r == is_digit(b),
{
    '0' as u8 <= b && b <= '9' as u8
}

/// Whether `b` is a letter.
pub fn letter(b: u8) -> (r: bool)
    ensures
        r == is_letter(b),
{
    ('a' as u8 <= b && b <= 'z' as u8) || ('A' as u8 <= b && b <= 'Z' as u8)
}

/// Whether `b` may begin an identifier.
pub fn identifier_start(b: u8) -> (r: bool)
    ensures
        r == is_identifier_start(b),
{
    letter(b) || b == '_' as u8
}

/// Whether `b` may continue an identifier or a keyword.
pub fn identifier_part(b: u8) -> (r: bool)
    ensures
        r == is_identifier_part(b),
{
    letter(b) || digit(b) || b == '_' as u8 || b == '$' as u8
}

/// Whether `b` may continue a number.
pub fn number_part(b: u8) -> (r: bool)
    ensures
        r == is_number_part(b),
{
    digit(b) || b == '_' as u8
}

/// Offset of the newline that ends the line of `pos`, or the end of the input.
fn find_line_end(input: &[u8], pos: usize) -> (r: usize)
    requires
        pos <= input@.len(),
    ensures
        r == line_end(input@, pos as int),
        pos <= r <= input@.len(),
{
    let n = input.len();
    let mut i = pos;
    while i < n && input[i] != '\n' as u8
        invariant
            n == input@.len(),
            pos <= i <= n,
            line_end(input@, i as int) == line_end(input@, pos as int),
        decreases n - i,
    {
        i += 1;
    }
    i
}

/// Offset behind the first `*/` at or after `pos`, if there is one.
fn find_block_end(input: &[u8], pos: usize) -> (r: Option<usize>)
    requires
        pos <= input@.len(),
    ensures
        match r {
            Some(j) => block_end(input@, pos as int) == Some(j as int) && pos + 2 <= j <= input@.len(),
            None => block_end(input@, pos as int) is None,
        },
{
    let n = input.len();
    let mut i = pos;
    while i < n && i + 1 < n
        invariant
            n == input@.len(),
            pos <= i <= n,
            block_end(input@, i as int) == block_end(input@, pos as int),
        decreases n - i,
    {
        if input[i] == '*' as u8 && input[i + 1] == '/' as u8 {
            return Some(i + 2);
        }
        i += 1;
    }
    None
}

/// The offset at which the trivia that begins at `pos` ends.
pub fn skip_trivia(input: &[u8], pos: usize) -> (r: usize)
    ensures
        r == trivia_end(input@, pos as int),
        pos <= input@.len() ==> pos <= r <= input@.len(),
{
    let n = input.len();
    let mut i = pos;
    proof {
        if pos <= n {
            lemma_trivia_end_bounds(input@, pos as int);
        }
    }
    while i < n
        invariant
            n == input@.len(),
            pos <= i,
            pos <= n ==> i <= n,
            trivia_end(input@, i as int) == trivia_end(input@, pos as int),
        decreases n - i,
    {
        let b = input[i];
        if space(b) {
            i += 1;
        } else if b == '/' as u8 && i + 1 < n && input[i + 1] == '/' as u8 {
            i = find_line_end(input, i + 2);
        } else if b == '/' as u8 && i + 1 < n && input[i + 1] == '*' as u8 {
            match find_block_end(input, i + 2) {
                Some(j) => {
                    i = j;
                },
                None => {
                    return i;
                },
            }
        } else {
            return i;
        }
    }
    i
}

/// The end of the run of identifier bytes that begins at `pos`.
pub fn skip_identifier(input: &[u8], pos: usize) -> (r: usize)
    requires
        pos <= input@.len(),
    ensures
        r == identifier_end(input@, pos as int),
        pos <= r <= input@.len(),
{
    let n = input.len();
    let mut end = pos;
    while end < n && identifier_part(input[end])
        invariant
            n == input@.len(),
            pos <= end <= n,
            identifier_end(input@, end as int) == identifier_end(input@, pos as int),
        decreases n - end,
    {
        end += 1;
    }
    end
}

/// The token that a failure at offset `at` reports.
pub fn token_at(input: &[u8], at: usize) -> (r: Token)
    ensures
        r == spec_token_at(input@, at as int),
{
    if at < input.len() {
        if identifier_part(input[at]) {
            Token { start: at, end: skip_identifier(input, at + 1) }
        } else {
            Token { start: at, end: at + 1 }
        }
    } else {
        Token { start: at, end: at }
    }
}

/// Whether the bytes of `lit` stand in the input from `pos` on.
pub fn literal_matches(input: &[u8], pos: usize, lit: &[u8]) -> (r: bool)
    ensures
        r == literal_at(input@, pos as int, lit@),
{
    let n = input.len();
    let m = lit.len();
    if pos > n || m > n - pos {
        return false;
    }
    let mut k: usize = 0;
    while k < m
        invariant
            n == input@.len(),
            m == lit@.len(),
            pos + m <= n,
            k <= m,
            forall|j: int| 0 <= j < k ==> input@[pos + j] == lit@[j],
        decreases m - k,
    {
        if input[pos + k] != lit[k] {
            proof {
                assert(input@.subrange(pos as int, pos + m)[k as int] == input@[pos + k]);
            }
            return false;
        }
        k += 1;
    }
    proof {
        assert(input@.subrange(pos as int, pos + m) =~= lit@);
    }
    true
}

/// Parses the keyword `lit` behind the trivia at `pos`.
pub fn keyword(input: &[u8], pos: usize, lit: &[u8], expected: Expected) -> (r: PResult<Keyword>)
    ensures
        r == spec_keyword(input@, pos, lit@, expected),
{
    let n = input.len();
    let m = lit.len();
    let start = skip_trivia(input, pos);
    if literal_matches(input, start, lit) && !(start + m < n && identifier_part(input[start + m])) {
        Ok((Keyword { nodes: (Token { start, end: start + m },) }, start + m))
    } else {
        Err(ParseError::Soft(failure_at(input, start, expected)))
    }
}

/// Parses the punctuation byte `byte` behind the trivia at `pos`.
pub fn symbol(input: &[u8], pos: usize, byte: u8) -> (r: PResult<Symbol>)
    ensures
        r == spec_symbol(input@, pos, byte),
{
    let n = input.len();
    let start = skip_trivia(input, pos);
    if start < n && input[start] == byte {
        Ok((Symbol { nodes: (Token { start, end: start + 1 },) }, start + 1))
    } else {
        Err(ParseError::Soft(failure_at(input, start, Expected::Symbol(byte))))
    }
}

/// Parses an identifier behind the trivia at `pos`.
pub fn identifier(input: &[u8], pos: usize) -> (r: PResult<Identifier>)
    ensures
        r == spec_identifier(input@, pos),
{
    let n = input.len();
    let start = skip_trivia(input, pos);
    if start < n && identifier_start(input[start]) {
        let end = skip_identifier(input, start + 1);
        Ok((Identifier { nodes: (Token { start, end },) }, end))
    } else {
        Err(ParseError::Soft(failure_at(input, start, Expected::Identifier)))
    }
}

/// Parses an unsigned number behind the trivia at `pos`.
pub fn number(input: &[u8], pos: usize) -> (r: PResult<Number>)
    ensures
        r == spec_number(input@, pos),
{
    let n = input.len();
    let start = skip_trivia(input, pos);
    if start < n && digit(input[start]) {
        let mut end = start + 1;
        while end < n && number_part(input[end])
            invariant
                n == input@.len(),
                start < end <= n,
                number_end(input@, end as int) == number_end(input@, start + 1),
            decreases n - end,
        {
            end += 1;
        }
        Ok((Number { nodes: (Token { start, end },) }, end))
    } else {
        Err(ParseError::Soft(failure_at(input, start, Expected::Number)))
    }
}

} // verus!
