//! Lists of trailing optional arguments.

use vstd::prelude::*;
use crate::error::{PResult, opt, spec_opt};
use crate::layout::{all_commas, comma_count, lemma_tiles_concat, tiles};
use crate::lexer::{Symbol, Token, spec_symbol, symbol};
use crate::operands::{
    Argument, DelayedData, DelayedReference, EventBasedFlag, Notifier, RemainActiveFlag,
    TimecheckCondition, TimestampCondition, lemma_symbol_layout,
};

verus! {

/// A list of trailing optional arguments:
///
/// ```text
/// tail  ::=  [ ","  [ argument ]  tail' ]
/// ```
///
/// where `tail'` is the list of the arguments that may follow.  A tier of the
/// list is one comma with the argument behind it, if that was written.
pub trait Tail: Sized {
    /// The tokens of the list, in the order of the input.
    spec fn tokens(self) -> Seq<Token>;

    /// The commas of the list, in the order of the input.
    spec fn commas(self) -> Seq<Symbol>;

    /// The number of tiers that the list can hold.
    spec fn depth() -> nat;

    /// The number of tiers that are there.
    spec fn tiers(self) -> nat;

    /// Whether tier `k` is there, counted from 0.
    spec fn present(self, k: nat) -> bool;

    /// The list that is read at `pos` of `s`, and the position behind it.
    spec fn spec_parse_tail(s: Seq<u8>, pos: usize) -> PResult<Self>;

    /// Reads the list at `pos`: tier by tier as long as a comma follows.
    /// Without a comma the list is empty, and an argument that is not there
    /// leaves its place empty, so the list itself never fails softly; a hard
    /// failure of one of its arguments is passed on.
    fn parse_tail(input: &[u8], pos: usize) -> (r: PResult<Self>)
        ensures
            r == Self::spec_parse_tail(input@, pos),
    ;

    /// Appends the tokens of the list to `out`.
    fn push_tokens(&self, out: &mut Vec<Token>)
        ensures
            final(out)@ == old(out)@ + self.tokens(),
    ;

    /// Each tier holds one comma, and the tiers that are there are the first
    /// ones of those that the list can hold.
    proof fn lemma_shape(self)
        ensures
            self.commas().len() == self.tiers(),
            self.tiers() <= Self::depth(),
            forall|k: nat| self.present(k) <==> k < self.tiers(),
    ;

    /// A list does not fail softly.  The tokens of a parsed list tile what
    /// the parser consumed, its commas are commas of the input, and among
    /// its tokens there is one comma for each tier.
    proof fn lemma_tail_layout(s: Seq<u8>, pos: usize)
        requires
            pos <= s.len() <= usize::MAX,
        ensures
            match Self::spec_parse_tail(s, pos) {
                Ok((tail, next)) => {
                    &&& tiles(s, tail.tokens(), pos, next)
                    &&& all_commas(s, tail.commas())
                    &&& comma_count(s, tail.tokens()) == tail.tiers()
                },
                Err(e) => e is Hard,
            },
    ;
}

/// The tokens of an argument that may have been left out.
pub open spec fn argument_tokens<A: Argument>(a: Option<A>) -> Seq<Token> {
    match a {
        Some(v) => v.tokens(),
        None => Seq::empty(),
    }
}

/// Appends the tokens of an argument that may have been left out to `out`.
pub fn push_argument_tokens<A: Argument>(a: &Option<A>, out: &mut Vec<Token>)
    ensures
        final(out)@ == old(out)@ + argument_tokens(*a),
{
    match a {
        Some(v) => {
            v.push_tokens(out);
        },
        None => {
            proof {
                assert(out@ =~= old(out)@ + argument_tokens(*a));
            }
        },
    }
}

/// One tier that ends a list: a comma and the argument behind it, if that is
/// there.
pub open spec fn spec_last_tier<A: Argument>(s: Seq<u8>, pos: usize) -> PResult<
    (Symbol, Option<A>),
> {
    match spec_symbol(s, pos, ',' as u8) {
        Ok((comma, p)) => match spec_opt(A::spec_parse(s, p), p) {
            Ok((a, next)) => Ok(((comma, a), next)),
            Err(e) => Err(e),
        },
        Err(e) => Err(e),
    }
}

/// One tier that others may follow: a comma, the argument behind it, if that
/// is there, and the list of what may follow.
pub open spec fn spec_tier<A: Argument, N: Tail>(s: Seq<u8>, pos: usize) -> PResult<
    (Symbol, Option<A>, N),
> {
    match spec_symbol(s, pos, ',' as u8) {
        Ok((comma, p)) => match spec_opt(A::spec_parse(s, p), p) {
            Ok((a, q)) => match N::spec_parse_tail(s, q) {
                Ok((rest, next)) => Ok(((comma, a, rest), next)),
                Err(e) => Err(e),
            },
            Err(e) => Err(e),
        },
        Err(e) => Err(e),
    }
}

/// Parses one tier that ends a list.
pub fn last_tier<A: Argument>(input: &[u8], pos: usize) -> (r: PResult<(Symbol, Option<A>)>)
    ensures
        r == spec_last_tier::<A>(input@, pos),
{
    let (comma, p) = symbol(input, pos, ',' as u8)?;
    let (a, next) = opt(A::parse(input, p), p)?;
    Ok(((comma, a), next))
}

/// Parses one tier that others may follow.
pub fn tier<A: Argument, N: Tail>(input: &[u8], pos: usize) -> (r: PResult<
    (Symbol, Option<A>, N),
>)
    ensures
        r == spec_tier::<A, N>(input@, pos),
{
    let (comma, p) = symbol(input, pos, ',' as u8)?;
    let (a, q) = opt(A::parse(input, p), p)?;
    let (rest, next) = N::parse_tail(input, q)?;
    Ok(((comma, a, rest), next))
}

/// The last tier of a list.
impl<A: Argument> Tail for Option<(Symbol, Option<A>)> {
    open spec fn tokens(self) -> Seq<Token> {
        match self {
            Some((comma, a)) => seq![comma.nodes.0] + argument_tokens(a),
            None => Seq::empty(),
        }
    }

    open spec fn commas(self) -> Seq<Symbol> {
        match self {
            Some((comma, _)) => seq![comma],
            None => Seq::empty(),
        }
    }

    open spec fn depth() -> nat {
        1
    }

    open spec fn tiers(self) -> nat {
        match self {
            Some(_) => 1,
            None => 0,
        }
    }

    open spec fn present(self, k: nat) -> bool {
        self is Some && k == 0
    }

    open spec fn spec_parse_tail(s: Seq<u8>, pos: usize) -> PResult<Self> {
        spec_opt(spec_last_tier::<A>(s, pos), pos)
    }

    fn parse_tail(input: &[u8], pos: usize) -> (r: PResult<Self>) {
        opt(last_tier::<A>(input, pos), pos)
    }

    fn push_tokens(&self, out: &mut Vec<Token>) {
        match self {
            Some((comma, a)) => {
                out.push(comma.nodes.0);
                push_argument_tokens(a, out);
            },
            None => {},
        }
        proof {
            assert(out@ =~= old(out)@ + self.tokens());
        }
    }

    proof fn lemma_shape(self) {
    }

    proof fn lemma_tail_layout(s: Seq<u8>, pos: usize) {
        lemma_symbol_layout(s, pos, ',' as u8);
        if let Ok((comma, p)) = spec_symbol(s, pos, ',' as u8) {
            A::lemma_layout(s, p);
            if let Ok((a, next)) = spec_opt(A::spec_parse(s, p), p) {
                lemma_tiles_concat(s, seq![comma.nodes.0], argument_tokens(a), pos, p, next);
            }
        }
    }
}

/// A tier that others may follow.
impl<A: Argument, N: Tail> Tail for Option<(Symbol, Option<A>, N)> {
    open spec fn tokens(self) -> Seq<Token> {
        match self {
            Some((comma, a, rest)) => seq![comma.nodes.0] + argument_tokens(a) + rest.tokens(),
            None => Seq::empty(),
        }
    }

    open spec fn commas(self) -> Seq<Symbol> {
        match self {
            Some((comma, _, rest)) => seq![comma] + rest.commas(),
            None => Seq::empty(),
        }
    }

    open spec fn depth() -> nat {
        1 + N::depth()
    }

    open spec fn tiers(self) -> nat {
        match self {
            Some((_, _, rest)) => 1 + rest.tiers(),
            None => 0,
        }
    }

    open spec fn present(self, k: nat) -> bool {
        match self {
            Some((_, _, rest)) => k == 0 || rest.present((k - 1) as nat),
            None => false,
        }
    }

    open spec fn spec_parse_tail(s: Seq<u8>, pos: usize) -> PResult<Self> {
        spec_opt(spec_tier::<A, N>(s, pos), pos)
    }

    fn parse_tail(input: &[u8], pos: usize) -> (r: PResult<Self>) {
        opt(tier::<A, N>(input, pos), pos)
    }

    fn push_tokens(&self, out: &mut Vec<Token>) {
        match self {
            Some((comma, a, rest)) => {
                out.push(comma.nodes.0);
                push_argument_tokens(a, out);
                rest.push_tokens(out);
            },
            None => {},
        }
        proof {
            assert(out@ =~= old(out)@ + self.tokens());
        }
    }

    proof fn lemma_shape(self) {
        match self {
            Some((_, _, rest)) => {
                rest.lemma_shape();
                assert forall|k: nat| self.present(k) <==> k < self.tiers() by {
                    if k > 0 {
                        assert(rest.present((k - 1) as nat) <==> ((k - 1) as nat) < rest.tiers());
                    }
                }
            },
            None => {},
        }
    }

    proof fn lemma_tail_layout(s: Seq<u8>, pos: usize) {
        lemma_symbol_layout(s, pos, ',' as u8);
        if let Ok((comma, p)) = spec_symbol(s, pos, ',' as u8) {
            A::lemma_layout(s, p);
            if let Ok((a, q)) = spec_opt(A::spec_parse(s, p), p) {
                N::lemma_tail_layout(s, q);
                if let Ok((rest, next)) = N::spec_parse_tail(s, q) {
                    lemma_tiles_concat(s, seq![comma.nodes.0], argument_tokens(a), pos, p, q);
                    lemma_tiles_concat(
                        s,
                        seq![comma.nodes.0] + argument_tokens(a),
                        rest.tokens(),
                        pos,
                        q,
                        next,
                    );
                    lemma_commas_prepend(s, comma, rest.commas());
                }
            }
        }
    }
}

/// A comma before commas is one more comma.
pub proof fn lemma_commas_prepend(s: Seq<u8>, comma: Symbol, rest: Seq<Symbol>)
    requires
        comma.nodes.0.spec_text(s) == seq![',' as u8],
        all_commas(s, rest),
    ensures
        all_commas(s, seq![comma] + rest),
{
    let all = seq![comma] + rest;
    assert forall|k: int| 0 <= k < all.len() implies (#[trigger] all[k]).nodes.0.spec_text(s)
        == seq![',' as u8] by {
        if k > 0 {
            assert(all[k] == rest[k - 1]);
        }
    }
}

/// The optional notifier behind the required arguments.
pub type NotifierTail = Option<(Symbol, Option<Notifier>)>;

/// Notifier, event based flag and remain active flag.
pub type FlagTail = Option<
    (
        Symbol,
        Option<Notifier>,
        Option<(Symbol, Option<EventBasedFlag>, Option<(Symbol, Option<RemainActiveFlag>)>)>,
    ),
>;

/// Notifier, timestamp condition, timecheck condition, delayed reference and
/// delayed data.
pub type ConditionTail = Option<
    (
        Symbol,
        Option<Notifier>,
        Option<
            (
                Symbol,
                Option<TimestampCondition>,
                Option<
                    (
                        Symbol,
                        Option<TimecheckCondition>,
                        Option<
                            (
                                Symbol,
                                Option<DelayedReference>,
                                Option<(Symbol, Option<DelayedData>)>,
                            ),
                        >,
                    ),
                >,
            ),
        >,
    ),
>;

/// In every list, a tier is there only if the tier before it is.
pub proof fn lemma_ancestor_presence<T: Tail>(tail: T, k: nat)
    requires
        tail.present(k + 1),
    ensures
        tail.present(k),
{
    tail.lemma_shape();
}

} // verus!
