//! How the tokens of a node lie in the input: one behind the other, with
//! nothing but trivia between them.

use vstd::prelude::*;
use crate::lexer::{Symbol, Token, lemma_trivia_end_bounds, trivia_end};

verus! {

/// Whether the tokens `toks` follow one another through the input `s` from
/// offset `from` to offset `to` with nothing but trivia between them: each
/// token begins where the trivia behind its predecessor ends, none is
/// empty, and the last one ends at `to`.
pub open spec fn chained(s: Seq<u8>, toks: Seq<Token>, from: int, to: int) -> bool
    decreases toks.len(),
{
    if toks.len() == 0 {
        from == to
    } else {
        &&& toks[0].start == trivia_end(s, from)
        &&& toks[0].start < toks[0].end <= s.len()
        &&& chained(s, toks.drop_first(), toks[0].end as int, to)
    }
}

/// Whether `toks` tile the range from `from` to `to` of the input `s`.
pub open spec fn tiles(s: Seq<u8>, toks: Seq<Token>, from: usize, to: usize) -> bool {
    from <= to <= s.len() && chained(s, toks, from as int, to as int)
}

/// The text that the tokens `toks` stand for when written out again from
/// offset `from` on: before each token the trivia that parts it from the one
/// before, then its own bytes.
pub open spec fn rendered(s: Seq<u8>, toks: Seq<Token>, from: int) -> Seq<u8>
    decreases toks.len(),
{
    if toks.len() == 0 {
        Seq::empty()
    } else {
        s.subrange(from, toks[0].start as int) + toks[0].spec_text(s) + rendered(
            s,
            toks.drop_first(),
            toks[0].end as int,
        )
    }
}

/// Whether the token `t` reads `,` in the input `s`.
pub open spec fn is_comma(s: Seq<u8>, t: Token) -> bool {
    t.spec_text(s) == seq![',' as u8]
}

/// The number of tokens of `toks` that read `,` in the input `s`.
pub open spec fn comma_count(s: Seq<u8>, toks: Seq<Token>) -> nat
    decreases toks.len(),
{
    if toks.len() == 0 {
        0
    } else {
        (if is_comma(s, toks[0]) {
            1nat
        } else {
            0nat
        }) + comma_count(s, toks.drop_first())
    }
}

/// Whether every symbol of `symbols` is a comma of the input `s`.
pub open spec fn all_commas(s: Seq<u8>, symbols: Seq<Symbol>) -> bool {
    forall|k: int|
        0 <= k < symbols.len() ==> (#[trigger] symbols[k]).nodes.0.spec_text(s) == seq![',' as u8]
}

/// One token behind the trivia tiles the range that it ends.
pub proof fn lemma_tiles_one(s: Seq<u8>, t: Token, from: usize)
    requires
        from <= s.len(),
        t.start == trivia_end(s, from as int),
        t.start < t.end <= s.len(),
    ensures
        tiles(s, seq![t], from, t.end),
        comma_count(s, seq![t]) == (if is_comma(s, t) {
            1nat
        } else {
            0nat
        }),
        s[t.start as int] != ',' as u8 ==> !is_comma(s, t),
{
    lemma_trivia_end_bounds(s, from as int);
    assert(seq![t].drop_first() =~= Seq::<Token>::empty());
    assert(chained(s, seq![t].drop_first(), t.end as int, t.end as int));
    assert(comma_count(s, seq![t].drop_first()) == 0);
    assert(t.spec_text(s)[0] == s[t.start as int]);
}

/// Two runs of tokens that tile adjoining ranges tile the whole range
/// together, and the commas of the whole are those of the two.
pub proof fn lemma_tiles_concat(s: Seq<u8>, a: Seq<Token>, b: Seq<Token>, from: usize, mid: usize, to: usize)
    requires
        tiles(s, a, from, mid),
        tiles(s, b, mid, to),
    ensures
        tiles(s, a + b, from, to),
        comma_count(s, a + b) == comma_count(s, a) + comma_count(s, b),
    decreases a.len(),
{
    if a.len() == 0 {
        assert(a + b =~= b);
    } else {
        lemma_chained_order(s, a.drop_first(), a[0].end as int, mid as int);
        lemma_tiles_concat(s, a.drop_first(), b, a[0].end, mid, to);
        assert((a + b).drop_first() =~= a.drop_first() + b);
    }
}

/// Tokens that follow one another end no earlier than they begin.
pub proof fn lemma_chained_order(s: Seq<u8>, toks: Seq<Token>, from: int, to: int)
    requires
        0 <= from <= s.len(),
        chained(s, toks, from, to),
    ensures
        from <= to <= s.len(),
    decreases toks.len(),
{
    if toks.len() > 0 {
        lemma_trivia_end_bounds(s, from);
        lemma_chained_order(s, toks.drop_first(), toks[0].end as int, to);
    }
}

/// Tokens that follow one another begin no earlier than where they set out.
pub proof fn lemma_chained_from(s: Seq<u8>, toks: Seq<Token>, from: int, to: int, k: int)
    requires
        0 <= from <= s.len(),
        chained(s, toks, from, to),
        0 <= k < toks.len(),
    ensures
        from <= toks[k].start < toks[k].end <= s.len(),
    decreases toks.len(),
{
    lemma_trivia_end_bounds(s, from);
    if k > 0 {
        lemma_chained_from(s, toks.drop_first(), toks[0].end as int, to, k - 1);
    }
}

/// Tokens that follow one another do not overlap: an earlier one ends before
/// a later one begins.
pub proof fn lemma_chained_sorted(s: Seq<u8>, toks: Seq<Token>, from: int, to: int, i: int, j: int)
    requires
        0 <= from <= s.len(),
        chained(s, toks, from, to),
        0 <= i < j < toks.len(),
    ensures
        toks[i].end <= toks[j].start,
    decreases toks.len(),
{
    lemma_trivia_end_bounds(s, from);
    if i == 0 {
        lemma_chained_from(s, toks.drop_first(), toks[0].end as int, to, j - 1);
    } else {
        lemma_chained_sorted(s, toks.drop_first(), toks[0].end as int, to, i - 1, j - 1);
    }
}

/// The last of the tokens that follow one another to `to` ends at `to`.
pub proof fn lemma_chained_last(s: Seq<u8>, toks: Seq<Token>, from: int, to: int)
    requires
        chained(s, toks, from, to),
        toks.len() > 0,
    ensures
        toks.last().end == to,
    decreases toks.len(),
{
    let rest = toks.drop_first();
    assert(chained(s, rest, toks[0].end as int, to));
    if toks.len() > 1 {
        lemma_chained_last(s, rest, toks[0].end as int, to);
        assert(rest.last() == toks.last());
    } else {
        assert(rest.len() == 0);
    }
}

/// Writing out tokens that tile a range gives back that range of the input.
pub proof fn lemma_rendered_tiles(s: Seq<u8>, toks: Seq<Token>, from: usize, to: usize)
    requires
        tiles(s, toks, from, to),
    ensures
        rendered(s, toks, from as int) == s.subrange(from as int, to as int),
    decreases toks.len(),
{
    if toks.len() == 0 {
        assert(s.subrange(from as int, to as int) =~= Seq::<u8>::empty());
    } else {
        let t = toks[0];
        lemma_trivia_end_bounds(s, from as int);
        lemma_chained_order(s, toks.drop_first(), t.end as int, to as int);
        lemma_rendered_tiles(s, toks.drop_first(), t.end, to);
        assert(s.subrange(from as int, t.start as int) + t.spec_text(s) + s.subrange(
            t.end as int,
            to as int,
        ) =~= s.subrange(from as int, to as int));
    }
}

} // verus!
