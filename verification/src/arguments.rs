//! The arguments of a command, and the command around them: keyword,
//! brackets and `;`.

use vstd::prelude::*;
use crate::command::Command;
use crate::error::{Expected, PResult, commit, spec_commit};
use crate::layout::{all_commas, comma_count, lemma_tiles_concat, tiles};
use crate::lexer::{Keyword, Paren, Symbol, Token, keyword, spec_keyword, spec_symbol, symbol};
use crate::operands::{Argument, lemma_keyword_layout, lemma_symbol_layout};
use crate::tails::{Tail, lemma_commas_prepend};

verus! {

/// An argument and the comma behind it.
pub open spec fn spec_with_comma<A: Argument>(s: Seq<u8>, pos: usize) -> PResult<(A, Symbol)> {
    match A::spec_parse(s, pos) {
        Ok((a, p)) => match spec_symbol(s, p, ',' as u8) {
            Ok((comma, next)) => Ok(((a, comma), next)),
            Err(e) => Err(e),
        },
        Err(e) => Err(e),
    }
}

/// The tokens of an argument and of the comma behind it.
pub open spec fn with_comma_tokens<A: Argument>(a: A, comma: Symbol) -> Seq<Token> {
    a.tokens() + seq![comma.nodes.0]
}

/// Parses an argument and the comma behind it.
pub fn with_comma<A: Argument>(input: &[u8], pos: usize) -> (r: PResult<(A, Symbol)>)
    ensures
        r == spec_with_comma::<A>(input@, pos),
{
    let (a, p) = A::parse(input, pos)?;
    let (comma, next) = symbol(input, p, ',' as u8)?;
    Ok(((a, comma), next))
}

/// Appends the tokens of an argument and of the comma behind it to `out`.
pub fn push_with_comma_tokens<A: Argument>(a: &A, comma: &Symbol, out: &mut Vec<Token>)
    ensures
        final(out)@ == old(out)@ + with_comma_tokens(*a, *comma),
{
    a.push_tokens(out);
    out.push(comma.nodes.0);
    proof {
        assert(out@ =~= old(out)@ + with_comma_tokens(*a, *comma));
    }
}

/// The tokens of a parsed argument and of its comma tile what was consumed,
/// and the comma is their one comma.
pub proof fn lemma_with_comma_layout<A: Argument>(s: Seq<u8>, pos: usize)
    requires
        pos <= s.len() <= usize::MAX,
    ensures
        spec_with_comma::<A>(s, pos) matches Ok(((a, comma), next)) ==> tiles(
            s,
            with_comma_tokens(a, comma),
            pos,
            next,
        ) && comma.nodes.0.spec_text(s) == seq![',' as u8] && comma_count(
            s,
            with_comma_tokens(a, comma),
        ) == 1,
{
    A::lemma_layout(s, pos);
    if let Ok((a, p)) = A::spec_parse(s, pos) {
        lemma_symbol_layout(s, p, ',' as u8);
        if let Ok((comma, next)) = spec_symbol(s, p, ',' as u8) {
            lemma_tiles_concat(s, a.tokens(), seq![comma.nodes.0], pos, p, next);
        }
    }
}

/// What stands between the brackets of a command: the required arguments,
/// with a comma between each two, and the list of the optional ones.
pub trait Arguments: Sized {
    /// The tokens of the arguments, in the order of the input.
    spec fn tokens(self) -> Seq<Token>;

    /// The commas between and behind the arguments, in the order of the
    /// input.
    spec fn commas(self) -> Seq<Symbol>;

    /// The number of required arguments.
    spec fn required() -> nat;

    /// The number of optional arguments.
    spec fn optional() -> nat;

    /// The number of tiers of the optional list that are there.
    spec fn tiers(self) -> nat;

    /// Whether tier `k` of the optional list is there, counted from 0.
    spec fn present(self, k: nat) -> bool;

    /// What parsing the arguments at `pos` of `s` gives.
    spec fn spec_parse_arguments(s: Seq<u8>, pos: usize) -> PResult<Self>;

    /// Parses the arguments at `pos`.  A missing argument or comma is a soft
    /// failure here; it is the command that commits to its arguments.
    fn parse_arguments(input: &[u8], pos: usize) -> (r: PResult<Self>)
        ensures
            r == Self::spec_parse_arguments(input@, pos),
    ;

    /// Appends the tokens of the arguments to `out`.
    fn push_tokens(&self, out: &mut Vec<Token>)
        ensures
            final(out)@ == old(out)@ + self.tokens(),
    ;

    /// One comma parts each two required arguments, and one opens each tier
    /// of the optional list; a tier is there only if the one before it is.
    proof fn lemma_arguments_shape(self)
        ensures
            Self::required() >= 1,
            self.commas().len() == Self::required() - 1 + self.tiers(),
            self.tiers() <= Self::optional(),
            forall|k: nat| self.present(k) <==> k < self.tiers(),
    ;

    /// The tokens of parsed arguments tile what the parser consumed, their
    /// commas are commas of the input, and no other token of theirs is one.
    proof fn lemma_arguments_layout(s: Seq<u8>, pos: usize)
        requires
            pos <= s.len() <= usize::MAX,
        ensures
            Self::spec_parse_arguments(s, pos) matches Ok((v, next)) ==> tiles(
                s,
                v.tokens(),
                pos,
                next,
            ) && all_commas(s, v.commas()) && comma_count(s, v.tokens()) == Self::required() - 1
                + v.tiers(),
    ;
}

/// Two required arguments.
impl<A: Argument, B: Argument, T: Tail> Arguments for (A, Symbol, B, T) {
    open spec fn tokens(self) -> Seq<Token> {
        with_comma_tokens(self.0, self.1) + self.2.tokens() + self.3.tokens()
    }

    open spec fn commas(self) -> Seq<Symbol> {
        seq![self.1] + self.3.commas()
    }

    open spec fn required() -> nat {
        2
    }

    open spec fn optional() -> nat {
        T::depth()
    }

    open spec fn tiers(self) -> nat {
        self.3.tiers()
    }

    open spec fn present(self, k: nat) -> bool {
        self.3.present(k)
    }

    open spec fn spec_parse_arguments(s: Seq<u8>, pos: usize) -> PResult<Self> {
        match spec_with_comma::<A>(s, pos) {
            Err(e) => Err(e),
            Ok(((a, c1), p1)) => match B::spec_parse(s, p1) {
                Err(e) => Err(e),
                Ok((b, p2)) => match T::spec_parse_tail(s, p2) {
                    Err(e) => Err(e),
                    Ok((tail, next)) => Ok(((a, c1, b, tail), next)),
                },
            },
        }
    }

    fn parse_arguments(input: &[u8], pos: usize) -> (r: PResult<Self>) {
        let ((a, c1), p1) = with_comma::<A>(input, pos)?;
        let (b, p2) = B::parse(input, p1)?;
        let (tail, next) = T::parse_tail(input, p2)?;
        Ok(((a, c1, b, tail), next))
    }

    fn push_tokens(&self, out: &mut Vec<Token>) {
        push_with_comma_tokens(&self.0, &self.1, out);
        self.2.push_tokens(out);
        self.3.push_tokens(out);
        proof {
            assert(out@ =~= old(out)@ + self.tokens());
        }
    }

    proof fn lemma_arguments_shape(self) {
        self.3.lemma_shape();
    }

    proof fn lemma_arguments_layout(s: Seq<u8>, pos: usize) {
        lemma_with_comma_layout::<A>(s, pos);
        if let Ok(((a, c1), p1)) = spec_with_comma::<A>(s, pos) {
            B::lemma_layout(s, p1);
            if let Ok((b, p2)) = B::spec_parse(s, p1) {
                T::lemma_tail_layout(s, p2);
                if let Ok((tail, next)) = T::spec_parse_tail(s, p2) {
                    let t1 = with_comma_tokens(a, c1);
                    lemma_tiles_concat(s, t1, b.tokens(), pos, p1, p2);
                    lemma_tiles_concat(s, t1 + b.tokens(), tail.tokens(), pos, p2, next);
                    lemma_commas_prepend(s, c1, tail.commas());
                }
            }
        }
    }
}

/// Three required arguments.
impl<A: Argument, B: Argument, C: Argument, T: Tail> Arguments for (A, Symbol, B, Symbol, C, T) {
    open spec fn tokens(self) -> Seq<Token> {
        with_comma_tokens(self.0, self.1) + with_comma_tokens(self.2, self.3) + self.4.tokens()
            + self.5.tokens()
    }

    open spec fn commas(self) -> Seq<Symbol> {
        seq![self.1] + (seq![self.3] + self.5.commas())
    }

    open spec fn required() -> nat {
        3
    }

    open spec fn optional() -> nat {
        T::depth()
    }

    open spec fn tiers(self) -> nat {
        self.5.tiers()
    }

    open spec fn present(self, k: nat) -> bool {
        self.5.present(k)
    }

    open spec fn spec_parse_arguments(s: Seq<u8>, pos: usize) -> PResult<Self> {
        match spec_with_comma::<A>(s, pos) {
            Err(e) => Err(e),
            Ok(((a, c1), p1)) => match spec_with_comma::<B>(s, p1) {
                Err(e) => Err(e),
                Ok(((b, c2), p2)) => match C::spec_parse(s, p2) {
                    Err(e) => Err(e),
                    Ok((c, p3)) => match T::spec_parse_tail(s, p3) {
                        Err(e) => Err(e),
                        Ok((tail, next)) => Ok(((a, c1, b, c2, c, tail), next)),
                    },
                },
            },
        }
    }

    fn parse_arguments(input: &[u8], pos: usize) -> (r: PResult<Self>) {
        let ((a, c1), p1) = with_comma::<A>(input, pos)?;
        let ((b, c2), p2) = with_comma::<B>(input, p1)?;
        let (c, p3) = C::parse(input, p2)?;
        let (tail, next) = T::parse_tail(input, p3)?;
        Ok(((a, c1, b, c2, c, tail), next))
    }

    fn push_tokens(&self, out: &mut Vec<Token>) {
        push_with_comma_tokens(&self.0, &self.1, out);
        push_with_comma_tokens(&self.2, &self.3, out);
        self.4.push_tokens(out);
        self.5.push_tokens(out);
        proof {
            assert(out@ =~= old(out)@ + self.tokens());
        }
    }

    proof fn lemma_arguments_shape(self) {
        self.5.lemma_shape();
    }

    proof fn lemma_arguments_layout(s: Seq<u8>, pos: usize) {
        lemma_with_comma_layout::<A>(s, pos);
        if let Ok(((a, c1), p1)) = spec_with_comma::<A>(s, pos) {
            lemma_with_comma_layout::<B>(s, p1);
            if let Ok(((b, c2), p2)) = spec_with_comma::<B>(s, p1) {
                C::lemma_layout(s, p2);
                if let Ok((c, p3)) = C::spec_parse(s, p2) {
                    T::lemma_tail_layout(s, p3);
                    if let Ok((tail, next)) = T::spec_parse_tail(s, p3) {
                        let t1 = with_comma_tokens(a, c1);
                        let t2 = t1 + with_comma_tokens(b, c2);
                        lemma_tiles_concat(s, t1, with_comma_tokens(b, c2), pos, p1, p2);
                        lemma_tiles_concat(s, t2, c.tokens(), pos, p2, p3);
                        lemma_tiles_concat(s, t2 + c.tokens(), tail.tokens(), pos, p3, next);
                        lemma_commas_prepend(s, c2, tail.commas());
                        lemma_commas_prepend(s, c1, seq![c2] + tail.commas());
                    }
                }
            }
        }
    }
}

/// Four required arguments.
impl<A: Argument, B: Argument, C: Argument, D: Argument, T: Tail> Arguments for (
    A,
    Symbol,
    B,
    Symbol,
    C,
    Symbol,
    D,
    T,
) {
    open spec fn tokens(self) -> Seq<Token> {
        with_comma_tokens(self.0, self.1) + with_comma_tokens(self.2, self.3) + with_comma_tokens(
            self.4,
            self.5,
        ) + self.6.tokens() + self.7.tokens()
    }

    open spec fn commas(self) -> Seq<Symbol> {
        seq![self.1] + (seq![self.3] + (seq![self.5] + self.7.commas()))
    }

    open spec fn required() -> nat {
        4
    }

    open spec fn optional() -> nat {
        T::depth()
    }

    open spec fn tiers(self) -> nat {
        self.7.tiers()
    }

    open spec fn present(self, k: nat) -> bool {
        self.7.present(k)
    }

    open spec fn spec_parse_arguments(s: Seq<u8>, pos: usize) -> PResult<Self> {
        match spec_with_comma::<A>(s, pos) {
            Err(e) => Err(e),
            Ok(((a, c1), p1)) => match spec_with_comma::<B>(s, p1) {
                Err(e) => Err(e),
                Ok(((b, c2), p2)) => match spec_with_comma::<C>(s, p2) {
                    Err(e) => Err(e),
                    Ok(((c, c3), p3)) => match D::spec_parse(s, p3) {
                        Err(e) => Err(e),
                        Ok((d, p4)) => match T::spec_parse_tail(s, p4) {
                            Err(e) => Err(e),
                            Ok((tail, next)) => Ok(((a, c1, b, c2, c, c3, d, tail), next)),
                        },
                    },
                },
            },
        }
    }

    fn parse_arguments(input: &[u8], pos: usize) -> (r: PResult<Self>) {
        let ((a, c1), p1) = with_comma::<A>(input, pos)?;
        let ((b, c2), p2) = with_comma::<B>(input, p1)?;
        let ((c, c3), p3) = with_comma::<C>(input, p2)?;
        let (d, p4) = D::parse(input, p3)?;
        let (tail, next) = T::parse_tail(input, p4)?;
        Ok(((a, c1, b, c2, c, c3, d, tail), next))
    }

    fn push_tokens(&self, out: &mut Vec<Token>) {
        push_with_comma_tokens(&self.0, &self.1, out);
        push_with_comma_tokens(&self.2, &self.3, out);
        push_with_comma_tokens(&self.4, &self.5, out);
        self.6.push_tokens(out);
        self.7.push_tokens(out);
        proof {
            assert(out@ =~= old(out)@ + self.tokens());
        }
    }

    proof fn lemma_arguments_shape(self) {
        self.7.lemma_shape();
    }

    proof fn lemma_arguments_layout(s: Seq<u8>, pos: usize) {
        lemma_with_comma_layout::<A>(s, pos);
        if let Ok(((a, c1), p1)) = spec_with_comma::<A>(s, pos) {
            lemma_with_comma_layout::<B>(s, p1);
            if let Ok(((b, c2), p2)) = spec_with_comma::<B>(s, p1) {
                lemma_with_comma_layout::<C>(s, p2);
                if let Ok(((c, c3), p3)) = spec_with_comma::<C>(s, p2) {
                    D::lemma_layout(s, p3);
                    if let Ok((d, p4)) = D::spec_parse(s, p3) {
                        T::lemma_tail_layout(s, p4);
                        if let Ok((tail, next)) = T::spec_parse_tail(s, p4) {
                            let t1 = with_comma_tokens(a, c1);
                            let t2 = t1 + with_comma_tokens(b, c2);
                            let t3 = t2 + with_comma_tokens(c, c3);
                            lemma_tiles_concat(s, t1, with_comma_tokens(b, c2), pos, p1, p2);
                            lemma_tiles_concat(s, t2, with_comma_tokens(c, c3), pos, p2, p3);
                            lemma_tiles_concat(s, t3, d.tokens(), pos, p3, p4);
                            lemma_tiles_concat(s, t3 + d.tokens(), tail.tokens(), pos, p4, next);
                            lemma_commas_prepend(s, c3, tail.commas());
                            lemma_commas_prepend(s, c2, seq![c3] + tail.commas());
                            lemma_commas_prepend(s, c1, seq![c2] + (seq![c3] + tail.commas()));
                        }
                    }
                }
            }
        }
    }
}

/// The three parts of every command: its keyword, its arguments in round
/// brackets, and the `;` that ends it.
pub type Statement<A> = (Keyword, Paren<A>, Symbol);

/// The command `command` at `pos` of `s`.  Without its keyword the command is
/// not there, which is a soft failure; behind the keyword whatever is
/// missing is a hard one.
///
/// The definition is opaque; `reveal(spec_statement)` brings it in.
#[verifier::opaque]
pub open spec fn spec_statement<A: Arguments>(s: Seq<u8>, pos: usize, command: Command) -> PResult<
    Statement<A>,
> {
    match spec_keyword(s, pos, command.spec_keyword(), Expected::Keyword(command)) {
        Err(e) => Err(e),
        Ok((key, p0)) => match spec_commit(spec_symbol(s, p0, '(' as u8)) {
            Err(e) => Err(e),
            Ok((open, p1)) => match spec_commit(A::spec_parse_arguments(s, p1)) {
                Err(e) => Err(e),
                Ok((arguments, p2)) => match spec_commit(spec_symbol(s, p2, ')' as u8)) {
                    Err(e) => Err(e),
                    Ok((close, p3)) => match spec_commit(spec_symbol(s, p3, ';' as u8)) {
                        Err(e) => Err(e),
                        Ok((end, next)) => Ok(
                            ((key, Paren { nodes: (open, arguments, close) }, end), next),
                        ),
                    },
                },
            },
        },
    }
}

/// The tokens of a command, in the order of the input.
pub open spec fn statement_tokens<A: Arguments>(nodes: Statement<A>) -> Seq<Token> {
    seq![nodes.0.nodes.0] + seq![nodes.1.nodes.0.nodes.0] + nodes.1.nodes.1.tokens()
        + seq![nodes.1.nodes.2.nodes.0] + seq![nodes.2.nodes.0]
}

/// The tokens of a command, in the order of the input.
pub fn collect_statement_tokens<A: Arguments>(nodes: &Statement<A>) -> (r: Vec<Token>)
    ensures
        r@ == statement_tokens(*nodes),
{
    let mut out: Vec<Token> = Vec::new();
    out.push(nodes.0.nodes.0);
    out.push(nodes.1.nodes.0.nodes.0);
    nodes.1.nodes.1.push_tokens(&mut out);
    out.push(nodes.1.nodes.2.nodes.0);
    out.push(nodes.2.nodes.0);
    proof {
        assert(out@ =~= statement_tokens(*nodes));
    }
    out
}

/// Parses the command `command` at `pos`.
pub fn statement<A: Arguments>(input: &[u8], pos: usize, command: Command) -> (r: PResult<
    Statement<A>,
>)
    ensures
        r == spec_statement::<A>(input@, pos, command),
{
    proof {
        reveal(spec_statement);
    }
    let (key, p0) = keyword(input, pos, command.keyword(), Expected::Keyword(command))?;
    let (open, p1) = commit(symbol(input, p0, '(' as u8))?;
    let (arguments, p2) = commit(A::parse_arguments(input, p1))?;
    let (close, p3) = commit(symbol(input, p2, ')' as u8))?;
    let (end, next) = commit(symbol(input, p3, ';' as u8))?;
    Ok(((key, Paren { nodes: (open, arguments, close) }, end), next))
}

/// A command fails softly exactly where its keyword is missing.  Where it
/// succeeds its tokens tile what was consumed, from the keyword to the `;`,
/// the keyword is the command's own, and its commas are commas of the input.
pub proof fn lemma_statement_layout<A: Arguments>(s: Seq<u8>, pos: usize, command: Command)
    requires
        s.len() <= usize::MAX,
    ensures
        match spec_statement::<A>(s, pos, command) {
            Ok((nodes, next)) => {
                &&& tiles(s, statement_tokens(nodes), pos, next)
                &&& nodes.0.nodes.0.spec_text(s) == command.spec_keyword()
                &&& nodes.1.nodes.0.nodes.0.spec_text(s) == seq!['(' as u8]
                &&& nodes.1.nodes.2.nodes.0.spec_text(s) == seq![')' as u8]
                &&& nodes.2.nodes.0.spec_text(s) == seq![';' as u8]
                &&& all_commas(s, nodes.1.nodes.1.commas())
                &&& comma_count(s, statement_tokens(nodes)) == A::required() - 1
                    + nodes.1.nodes.1.tiers()
                &&& spec_keyword(s, pos, command.spec_keyword(), Expected::Keyword(command)) is Ok
            },
            Err(e) => e is Soft <==> spec_keyword(
                s,
                pos,
                command.spec_keyword(),
                Expected::Keyword(command),
            ) is Err,
        },
{
    reveal(spec_statement);
    let lit = command.spec_keyword();
    if pos <= s.len() {
        lemma_keyword_layout(s, pos, lit, Expected::Keyword(command));
    }
    if let Ok((key, p0)) = spec_keyword(s, pos, lit, Expected::Keyword(command)) {
        lemma_symbol_layout(s, p0, '(' as u8);
        if let Ok((open, p1)) = spec_symbol(s, p0, '(' as u8) {
            A::lemma_arguments_layout(s, p1);
            if let Ok((arguments, p2)) = A::spec_parse_arguments(s, p1) {
                lemma_symbol_layout(s, p2, ')' as u8);
                if let Ok((close, p3)) = spec_symbol(s, p2, ')' as u8) {
                    lemma_symbol_layout(s, p3, ';' as u8);
                    if let Ok((end, next)) = spec_symbol(s, p3, ';' as u8) {
                        let t1 = seq![key.nodes.0] + seq![open.nodes.0];
                        let t2 = t1 + arguments.tokens();
                        let t3 = t2 + seq![close.nodes.0];
                        lemma_tiles_concat(s, seq![key.nodes.0], seq![open.nodes.0], pos, p0, p1);
                        lemma_tiles_concat(s, t1, arguments.tokens(), pos, p1, p2);
                        lemma_tiles_concat(s, t2, seq![close.nodes.0], pos, p2, p3);
                        lemma_tiles_concat(s, t3, seq![end.nodes.0], pos, p3, next);
                    }
                }
            }
        }
    }
}

} // verus!
