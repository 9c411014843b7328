//! What holds of every parse.

use vstd::prelude::*;
use crate::arguments::{Arguments, lemma_statement_layout};
use crate::checks::{
    FullskewArguments, HoldArguments, NochargeArguments, PeriodArguments, SetupArguments,
    SetupholdArguments, SystemTimingCheck, TimeskewArguments, WidthArguments, begins_before,
    events_in_order, keyword_at, parsed, spec_check, spec_system_timing_check,
};
use crate::command::Command;
use crate::error::{Expected, ParseError, spec_failure_at};
use crate::layout::{
    all_commas, comma_count, lemma_chained_from, lemma_chained_last, lemma_chained_sorted,
    lemma_rendered_tiles, rendered, tiles,
};
use crate::lexer::{Token, literal_at, trivia_end, word_at};
use crate::operands::Argument;

verus! {

/// Where a literal stands, each of its bytes stands.
pub proof fn lemma_literal_bytes(s: Seq<u8>, at: int, lit: Seq<u8>)
    requires
        literal_at(s, at, lit),
    ensures
        forall|j: int| 0 <= j < lit.len() ==> s[at + j] == #[trigger] lit[j],
{
    assert forall|j: int| 0 <= j < lit.len() implies s[at + j] == #[trigger] lit[j] by {
        assert(s.subrange(at, at + lit.len())[j] == s[at + j]);
    }
}

/// No two commands share a keyword: at one offset at most one of the twelve
/// keywords stands as a word of its own.
pub proof fn lemma_keywords_disjoint(s: Seq<u8>, at: int, a: Command, b: Command)
    requires
        word_at(s, at, a.spec_keyword()),
        word_at(s, at, b.spec_keyword()),
    ensures
        a == b,
{
    let ka = a.spec_keyword();
    let kb = b.spec_keyword();
    lemma_literal_bytes(s, at, ka);
    lemma_literal_bytes(s, at, kb);
    assert(s[at + 1] == ka[1] && s[at + 1] == kb[1]);
    assert(s[at + 2] == ka[2] && s[at + 2] == kb[2]);
    assert(s[at + 3] == ka[3] && s[at + 3] == kb[3]);
    assert(s[at + 4] == ka[4] && s[at + 4] == kb[4]);
    if ka.len() > 6 {
        assert(s[at + 6] == ka[6]);
    }
    if kb.len() > 6 {
        assert(s[at + 6] == kb[6]);
    }
}

/// Of two runs of tokens inside one chain, the one that stands first begins
/// first.
proof fn lemma_runs_in_order(
    s: Seq<u8>,
    toks: Seq<Token>,
    from: usize,
    to: usize,
    first: Seq<Token>,
    second: Seq<Token>,
    i: int,
    j: int,
)
    requires
        tiles(s, toks, from, to),
        0 <= i < j < toks.len(),
        first.len() > 0,
        second.len() > 0,
        toks[i] == first[0],
        toks[j] == second[0],
    ensures
        begins_before(first, second),
{
    lemma_chained_sorted(s, toks, from as int, to as int, i, j);
    lemma_chained_from(s, toks, from as int, to as int, i);
}

/// What holds of `$setup` tried at `pos`.
proof fn lemma_setup_parsed(s: Seq<u8>, pos: usize)
    requires
        s.len() <= usize::MAX,
    ensures
        match spec_check(s, pos, Command::Setup) {
            Ok((v, next)) => parsed(s, pos, Command::Setup, v, next),
            Err(e) => e is Soft <==> !keyword_at(s, pos, Command::Setup),
        },
{
    lemma_statement_layout::<SetupArguments>(s, pos, Command::Setup);
    if let Ok((v, next)) = spec_check(s, pos, Command::Setup) {
        let toks = v.tokens();
        lemma_chained_last(s, toks, pos as int, next as int);
        let d = v.data_event().unwrap().tokens();
        let r = v.reference_event().unwrap().tokens();
        assert(toks[2] == d[0]);
        assert(toks[2 + d.len() as int + 1] == r[0]);
        lemma_runs_in_order(s, toks, pos, next, d, r, 2, 2 + d.len() as int + 1);
    }
}

/// What holds of `$hold` tried at `pos`.
proof fn lemma_hold_parsed(s: Seq<u8>, pos: usize)
    requires
        s.len() <= usize::MAX,
    ensures
        match spec_check(s, pos, Command::Hold) {
            Ok((v, next)) => parsed(s, pos, Command::Hold, v, next),
            Err(e) => e is Soft <==> !keyword_at(s, pos, Command::Hold),
        },
{
    lemma_statement_layout::<HoldArguments>(s, pos, Command::Hold);
    if let Ok((v, next)) = spec_check(s, pos, Command::Hold) {
        let toks = v.tokens();
        lemma_chained_last(s, toks, pos as int, next as int);
        let d = v.data_event().unwrap().tokens();
        let r = v.reference_event().unwrap().tokens();
        assert(toks[2] == r[0]);
        assert(toks[2 + r.len() as int + 1] == d[0]);
        lemma_runs_in_order(s, toks, pos, next, r, d, 2, 2 + r.len() as int + 1);
    }
}

/// What holds of `$setuphold` tried at `pos`.
proof fn lemma_setuphold_parsed(s: Seq<u8>, pos: usize)
    requires
        s.len() <= usize::MAX,
    ensures
        match spec_check(s, pos, Command::Setuphold) {
            Ok((v, next)) => parsed(s, pos, Command::Setuphold, v, next),
            Err(e) => e is Soft <==> !keyword_at(s, pos, Command::Setuphold),
        },
{
    lemma_statement_layout::<SetupholdArguments>(s, pos, Command::Setuphold);
    if let Ok((v, next)) = spec_check(s, pos, Command::Setuphold) {
        let toks = v.tokens();
        lemma_chained_last(s, toks, pos as int, next as int);
        let d = v.data_event().unwrap().tokens();
        let r = v.reference_event().unwrap().tokens();
        assert(toks[2] == r[0]);
        assert(toks[2 + r.len() as int + 1] == d[0]);
        lemma_runs_in_order(s, toks, pos, next, r, d, 2, 2 + r.len() as int + 1);
    }
}

/// What holds of `$recovery` tried at `pos`.
proof fn lemma_recovery_parsed(s: Seq<u8>, pos: usize)
    requires
        s.len() <= usize::MAX,
    ensures
        match spec_check(s, pos, Command::Recovery) {
            Ok((v, next)) => parsed(s, pos, Command::Recovery, v, next),
            Err(e) => e is Soft <==> !keyword_at(s, pos, Command::Recovery),
        },
{
    lemma_statement_layout::<HoldArguments>(s, pos, Command::Recovery);
    if let Ok((v, next)) = spec_check(s, pos, Command::Recovery) {
        let toks = v.tokens();
        lemma_chained_last(s, toks, pos as int, next as int);
        let d = v.data_event().unwrap().tokens();
        let r = v.reference_event().unwrap().tokens();
        assert(toks[2] == r[0]);
        assert(toks[2 + r.len() as int + 1] == d[0]);
        lemma_runs_in_order(s, toks, pos, next, r, d, 2, 2 + r.len() as int + 1);
    }
}

/// What holds of `$removal` tried at `pos`.
proof fn lemma_removal_parsed(s: Seq<u8>, pos: usize)
    requires
        s.len() <= usize::MAX,
    ensures
        match spec_check(s, pos, Command::Removal) {
            Ok((v, next)) => parsed(s, pos, Command::Removal, v, next),
            Err(e) => e is Soft <==> !keyword_at(s, pos, Command::Removal),
        },
{
    lemma_statement_layout::<HoldArguments>(s, pos, Command::Removal);
    if let Ok((v, next)) = spec_check(s, pos, Command::Removal) {
        let toks = v.tokens();
        lemma_chained_last(s, toks, pos as int, next as int);
        let d = v.data_event().unwrap().tokens();
        let r = v.reference_event().unwrap().tokens();
        assert(toks[2] == r[0]);
        assert(toks[2 + r.len() as int + 1] == d[0]);
        lemma_runs_in_order(s, toks, pos, next, r, d, 2, 2 + r.len() as int + 1);
    }
}

/// What holds of `$recrem` tried at `pos`.
proof fn lemma_recrem_parsed(s: Seq<u8>, pos: usize)
    requires
        s.len() <= usize::MAX,
    ensures
        match spec_check(s, pos, Command::Recrem) {
            Ok((v, next)) => parsed(s, pos, Command::Recrem, v, next),
            Err(e) => e is Soft <==> !keyword_at(s, pos, Command::Recrem),
        },
{
    lemma_statement_layout::<SetupholdArguments>(s, pos, Command::Recrem);
    if let Ok((v, next)) = spec_check(s, pos, Command::Recrem) {
        let toks = v.tokens();
        lemma_chained_last(s, toks, pos as int, next as int);
        let d = v.data_event().unwrap().tokens();
        let r = v.reference_event().unwrap().tokens();
        assert(toks[2] == r[0]);
        assert(toks[2 + r.len() as int + 1] == d[0]);
        lemma_runs_in_order(s, toks, pos, next, r, d, 2, 2 + r.len() as int + 1);
    }
}

/// What holds of `$skew` tried at `pos`.
proof fn lemma_skew_parsed(s: Seq<u8>, pos: usize)
    requires
        s.len() <= usize::MAX,
    ensures
        match spec_check(s, pos, Command::Skew) {
            Ok((v, next)) => parsed(s, pos, Command::Skew, v, next),
            Err(e) => e is Soft <==> !keyword_at(s, pos, Command::Skew),
        },
{
    lemma_statement_layout::<HoldArguments>(s, pos, Command::Skew);
    if let Ok((v, next)) = spec_check(s, pos, Command::Skew) {
        let toks = v.tokens();
        lemma_chained_last(s, toks, pos as int, next as int);
        let d = v.data_event().unwrap().tokens();
        let r = v.reference_event().unwrap().tokens();
        assert(toks[2] == r[0]);
        assert(toks[2 + r.len() as int + 1] == d[0]);
        lemma_runs_in_order(s, toks, pos, next, r, d, 2, 2 + r.len() as int + 1);
    }
}

/// What holds of `$timeskew` tried at `pos`.
proof fn lemma_timeskew_parsed(s: Seq<u8>, pos: usize)
    requires
        s.len() <= usize::MAX,
    ensures
        match spec_check(s, pos, Command::Timeskew) {
            Ok((v, next)) => parsed(s, pos, Command::Timeskew, v, next),
            Err(e) => e is Soft <==> !keyword_at(s, pos, Command::Timeskew),
        },
{
    lemma_statement_layout::<TimeskewArguments>(s, pos, Command::Timeskew);
    if let Ok((v, next)) = spec_check(s, pos, Command::Timeskew) {
        let toks = v.tokens();
        lemma_chained_last(s, toks, pos as int, next as int);
        let d = v.data_event().unwrap().tokens();
        let r = v.reference_event().unwrap().tokens();
        assert(toks[2] == r[0]);
        assert(toks[2 + r.len() as int + 1] == d[0]);
        lemma_runs_in_order(s, toks, pos, next, r, d, 2, 2 + r.len() as int + 1);
    }
}

/// What holds of `$fullskew` tried at `pos`.
proof fn lemma_fullskew_parsed(s: Seq<u8>, pos: usize)
    requires
        s.len() <= usize::MAX,
    ensures
        match spec_check(s, pos, Command::Fullskew) {
            Ok((v, next)) => parsed(s, pos, Command::Fullskew, v, next),
            Err(e) => e is Soft <==> !keyword_at(s, pos, Command::Fullskew),
        },
{
    lemma_statement_layout::<FullskewArguments>(s, pos, Command::Fullskew);
    if let Ok((v, next)) = spec_check(s, pos, Command::Fullskew) {
        let toks = v.tokens();
        lemma_chained_last(s, toks, pos as int, next as int);
        let d = v.data_event().unwrap().tokens();
        let r = v.reference_event().unwrap().tokens();
        assert(toks[2] == r[0]);
        assert(toks[2 + r.len() as int + 1] == d[0]);
        lemma_runs_in_order(s, toks, pos, next, r, d, 2, 2 + r.len() as int + 1);
    }
}

/// What holds of `$period` tried at `pos`.
proof fn lemma_period_parsed(s: Seq<u8>, pos: usize)
    requires
        s.len() <= usize::MAX,
    ensures
        match spec_check(s, pos, Command::Period) {
            Ok((v, next)) => parsed(s, pos, Command::Period, v, next),
            Err(e) => e is Soft <==> !keyword_at(s, pos, Command::Period),
        },
{
    lemma_statement_layout::<PeriodArguments>(s, pos, Command::Period);
    if let Ok((v, next)) = spec_check(s, pos, Command::Period) {
        let toks = v.tokens();
        lemma_chained_last(s, toks, pos as int, next as int);
    }
}

/// What holds of `$width` tried at `pos`.
proof fn lemma_width_parsed(s: Seq<u8>, pos: usize)
    requires
        s.len() <= usize::MAX,
    ensures
        match spec_check(s, pos, Command::Width) {
            Ok((v, next)) => parsed(s, pos, Command::Width, v, next),
            Err(e) => e is Soft <==> !keyword_at(s, pos, Command::Width),
        },
{
    lemma_statement_layout::<WidthArguments>(s, pos, Command::Width);
    if let Ok((v, next)) = spec_check(s, pos, Command::Width) {
        let toks = v.tokens();
        lemma_chained_last(s, toks, pos as int, next as int);
    }
}

/// What holds of `$nocharge` tried at `pos`.
proof fn lemma_nocharge_parsed(s: Seq<u8>, pos: usize)
    requires
        s.len() <= usize::MAX,
    ensures
        match spec_check(s, pos, Command::Nocharge) {
            Ok((v, next)) => parsed(s, pos, Command::Nocharge, v, next),
            Err(e) => e is Soft <==> !keyword_at(s, pos, Command::Nocharge),
        },
{
    lemma_statement_layout::<NochargeArguments>(s, pos, Command::Nocharge);
    if let Ok((v, next)) = spec_check(s, pos, Command::Nocharge) {
        let toks = v.tokens();
        lemma_chained_last(s, toks, pos as int, next as int);
        let d = v.data_event().unwrap().tokens();
        let r = v.reference_event().unwrap().tokens();
        assert(toks[2] == r[0]);
        assert(toks[2 + r.len() as int + 1] == d[0]);
        lemma_runs_in_order(s, toks, pos, next, r, d, 2, 2 + r.len() as int + 1);
    }
}

/// What holds of one command tried at `pos`: it fails softly exactly where
/// its keyword is not there, and where it succeeds the node is as [`parsed`]
/// says.
pub proof fn lemma_check_layout(s: Seq<u8>, pos: usize, command: Command)
    requires
        s.len() <= usize::MAX,
    ensures
        match spec_check(s, pos, command) {
            Ok((v, next)) => parsed(s, pos, command, v, next),
            Err(e) => e is Soft <==> !keyword_at(s, pos, command),
        },
{
    match command {
        Command::Setup => {
            lemma_setup_parsed(s, pos);
        },
        Command::Hold => {
            lemma_hold_parsed(s, pos);
        },
        Command::Setuphold => {
            lemma_setuphold_parsed(s, pos);
        },
        Command::Recovery => {
            lemma_recovery_parsed(s, pos);
        },
        Command::Removal => {
            lemma_removal_parsed(s, pos);
        },
        Command::Recrem => {
            lemma_recrem_parsed(s, pos);
        },
        Command::Skew => {
            lemma_skew_parsed(s, pos);
        },
        Command::Timeskew => {
            lemma_timeskew_parsed(s, pos);
        },
        Command::Fullskew => {
            lemma_fullskew_parsed(s, pos);
        },
        Command::Period => {
            lemma_period_parsed(s, pos);
        },
        Command::Width => {
            lemma_width_parsed(s, pos);
        },
        Command::Nocharge => {
            lemma_nocharge_parsed(s, pos);
        },
    }
}

/// The dispatcher gives what the command gives whose keyword is the next
/// token: the order in which the commands are tried makes no difference.
pub proof fn lemma_dispatch(s: Seq<u8>, pos: usize, command: Command)
    requires
        s.len() <= usize::MAX,
        keyword_at(s, pos, command),
    ensures
        spec_system_timing_check(s, pos) == spec_check(s, pos, command),
        forall|other: Command|
            other != command ==> (#[trigger] spec_check(s, pos, other) matches Err(
                ParseError::Soft(_),
            )),
{
    let at = trivia_end(s, pos as int);
    assert forall|other: Command| other != command implies (#[trigger] spec_check(
        s,
        pos,
        other,
    ) matches Err(ParseError::Soft(_))) by {
        if keyword_at(s, pos, other) {
            lemma_keywords_disjoint(s, at, other, command);
        }
        lemma_check_layout(s, pos, other);
    }
    lemma_check_layout(s, pos, command);
    assert(Command::Setup != command ==> spec_check(s, pos, Command::Setup) is Err);
    assert(Command::Hold != command ==> spec_check(s, pos, Command::Hold) is Err);
    assert(Command::Setuphold != command ==> spec_check(s, pos, Command::Setuphold) is Err);
    assert(Command::Recovery != command ==> spec_check(s, pos, Command::Recovery) is Err);
    assert(Command::Removal != command ==> spec_check(s, pos, Command::Removal) is Err);
    assert(Command::Recrem != command ==> spec_check(s, pos, Command::Recrem) is Err);
    assert(Command::Skew != command ==> spec_check(s, pos, Command::Skew) is Err);
    assert(Command::Timeskew != command ==> spec_check(s, pos, Command::Timeskew) is Err);
    assert(Command::Fullskew != command ==> spec_check(s, pos, Command::Fullskew) is Err);
    assert(Command::Period != command ==> spec_check(s, pos, Command::Period) is Err);
    assert(Command::Width != command ==> spec_check(s, pos, Command::Width) is Err);
    assert(Command::Nocharge != command ==> spec_check(s, pos, Command::Nocharge) is Err);
}

/// Where none of the twelve keywords is the next token, the dispatcher fails
/// softly at that token.
pub proof fn lemma_no_alternative(s: Seq<u8>, pos: usize)
    requires
        s.len() <= usize::MAX,
        forall|command: Command| !keyword_at(s, pos, command),
    ensures
        spec_system_timing_check(s, pos) == Err::<(SystemTimingCheck, usize), ParseError>(
            ParseError::Soft(spec_failure_at(s, trivia_end(s, pos as int), Expected::AnyKeyword)),
        ),
{
    lemma_check_layout(s, pos, Command::Setup);
    assert(!keyword_at(s, pos, Command::Setup));
    lemma_check_layout(s, pos, Command::Hold);
    assert(!keyword_at(s, pos, Command::Hold));
    lemma_check_layout(s, pos, Command::Setuphold);
    assert(!keyword_at(s, pos, Command::Setuphold));
    lemma_check_layout(s, pos, Command::Recovery);
    assert(!keyword_at(s, pos, Command::Recovery));
    lemma_check_layout(s, pos, Command::Removal);
    assert(!keyword_at(s, pos, Command::Removal));
    lemma_check_layout(s, pos, Command::Recrem);
    assert(!keyword_at(s, pos, Command::Recrem));
    lemma_check_layout(s, pos, Command::Skew);
    assert(!keyword_at(s, pos, Command::Skew));
    lemma_check_layout(s, pos, Command::Timeskew);
    assert(!keyword_at(s, pos, Command::Timeskew));
    lemma_check_layout(s, pos, Command::Fullskew);
    assert(!keyword_at(s, pos, Command::Fullskew));
    lemma_check_layout(s, pos, Command::Period);
    assert(!keyword_at(s, pos, Command::Period));
    lemma_check_layout(s, pos, Command::Width);
    assert(!keyword_at(s, pos, Command::Width));
    lemma_check_layout(s, pos, Command::Nocharge);
    assert(!keyword_at(s, pos, Command::Nocharge));
}

/// Keyword disjointness.  The node that the dispatcher returns is of the
/// command whose keyword is the first token behind the trivia at `pos`, and
/// each of the other eleven commands fails softly there.  A hard failure
/// means that one keyword is there, a soft one that none is.
pub proof fn lemma_keyword_selects(s: Seq<u8>, pos: usize)
    requires
        s.len() <= usize::MAX,
    ensures
        match spec_system_timing_check(s, pos) {
            Ok((v, next)) => {
                &&& spec_check(s, pos, v.spec_command()) == spec_system_timing_check(s, pos)
                &&& keyword_at(s, pos, v.spec_command())
                &&& v.keyword().nodes.0.start == trivia_end(s, pos as int)
                &&& v.keyword().nodes.0.spec_text(s) == v.spec_command().spec_keyword()
                &&& forall|other: Command|
                    other != v.spec_command() ==> (#[trigger] spec_check(s, pos, other) matches Err(
                        ParseError::Soft(_),
                    ))
            },
            Err(ParseError::Hard(_)) => exists|command: Command| keyword_at(s, pos, command),
            Err(ParseError::Soft(f)) => {
                &&& forall|command: Command| !keyword_at(s, pos, command)
                &&& f == spec_failure_at(s, trivia_end(s, pos as int), Expected::AnyKeyword)
            },
        },
{
    if exists|command: Command| keyword_at(s, pos, command) {
        let command = choose|command: Command| keyword_at(s, pos, command);
        lemma_dispatch(s, pos, command);
        lemma_check_layout(s, pos, command);
    } else {
        lemma_no_alternative(s, pos);
    }
}

/// Round trip.  The tokens of a parsed command tile the input from `pos` to
/// the position behind the `;`, so the tokens written out again, each behind
/// the trivia that precedes it, are that range of the input byte for byte.
/// The first token is the keyword and the last one the `;`.
pub proof fn lemma_round_trip(s: Seq<u8>, pos: usize)
    requires
        s.len() <= usize::MAX,
    ensures
        spec_system_timing_check(s, pos) matches Ok((v, next)) ==> {
            &&& tiles(s, v.tokens(), pos, next)
            &&& rendered(s, v.tokens(), pos as int) == s.subrange(pos as int, next as int)
            &&& v.tokens().first() == v.keyword().nodes.0
            &&& v.tokens().last() == v.terminator().nodes.0
            &&& v.terminator().nodes.0.end == next
        },
{
    lemma_keyword_selects(s, pos);
    if let Ok((v, next)) = spec_system_timing_check(s, pos) {
        lemma_check_layout(s, pos, v.spec_command());
        lemma_rendered_tiles(s, v.tokens(), pos, next);
        lemma_chained_last(s, v.tokens(), pos as int, next as int);
    }
}

/// Comma count.  A command holds one comma between each two of its required
/// arguments and one for each tier of its optional list that is there, and no
/// more tiers than it has optional arguments.
pub proof fn lemma_comma_count(v: SystemTimingCheck)
    ensures
        v.commas().len() == v.spec_command().spec_positional_arguments() - 1 + v.tiers(),
        v.tiers() <= v.spec_command().spec_optional_arguments(),
{
    match v {
        SystemTimingCheck::SetupTimingCheck(x) => {
            x.nodes.1.nodes.1.lemma_arguments_shape();
        },
        SystemTimingCheck::HoldTimingCheck(x) => {
            x.nodes.1.nodes.1.lemma_arguments_shape();
        },
        SystemTimingCheck::SetupholdTimingCheck(x) => {
            x.nodes.1.nodes.1.lemma_arguments_shape();
        },
        SystemTimingCheck::RecoveryTimingCheck(x) => {
            x.nodes.1.nodes.1.lemma_arguments_shape();
        },
        SystemTimingCheck::RemovalTimingCheck(x) => {
            x.nodes.1.nodes.1.lemma_arguments_shape();
        },
        SystemTimingCheck::RecremTimingCheck(x) => {
            x.nodes.1.nodes.1.lemma_arguments_shape();
        },
        SystemTimingCheck::SkewTimingCheck(x) => {
            x.nodes.1.nodes.1.lemma_arguments_shape();
        },
        SystemTimingCheck::TimeskewTimingCheck(x) => {
            x.nodes.1.nodes.1.lemma_arguments_shape();
        },
        SystemTimingCheck::FullskewTimingCheck(x) => {
            x.nodes.1.nodes.1.lemma_arguments_shape();
        },
        SystemTimingCheck::PeriodTimingCheck(x) => {
            x.nodes.1.nodes.1.lemma_arguments_shape();
        },
        SystemTimingCheck::WidthTimingCheck(x) => {
            x.nodes.1.nodes.1.lemma_arguments_shape();
        },
        SystemTimingCheck::NochargeTimingCheck(x) => {
            x.nodes.1.nodes.1.lemma_arguments_shape();
        },
    }
}

/// Comma count, in the input.  The commas of a parsed command are commas of
/// the input, and they are all the commas among its tokens: the tokens that
/// read `,` are one fewer than the required arguments and one more for each
/// tier that is there.
pub proof fn lemma_commas_in_input(s: Seq<u8>, pos: usize)
    requires
        s.len() <= usize::MAX,
    ensures
        spec_system_timing_check(s, pos) matches Ok((v, next)) ==> {
            &&& all_commas(s, v.commas())
            &&& comma_count(s, v.tokens()) == v.commas().len()
            &&& comma_count(s, v.tokens()) == v.spec_command().spec_positional_arguments() - 1
                + v.tiers()
        },
{
    lemma_keyword_selects(s, pos);
    if let Ok((v, next)) = spec_system_timing_check(s, pos) {
        lemma_check_layout(s, pos, v.spec_command());
        lemma_comma_count(v);
    }
}

/// Ancestor presence.  A tier of the optional list is there only if the tier
/// before it is: the tiers that are there are the first ones.
pub proof fn lemma_tiers_nest(v: SystemTimingCheck, k: nat)
    ensures
        v.present(k) <==> k < v.tiers(),
        v.present(k + 1) ==> v.present(k),
{
    match v {
        SystemTimingCheck::SetupTimingCheck(x) => {
            x.nodes.1.nodes.1.lemma_arguments_shape();
        },
        SystemTimingCheck::HoldTimingCheck(x) => {
            x.nodes.1.nodes.1.lemma_arguments_shape();
        },
        SystemTimingCheck::SetupholdTimingCheck(x) => {
            x.nodes.1.nodes.1.lemma_arguments_shape();
        },
        SystemTimingCheck::RecoveryTimingCheck(x) => {
            x.nodes.1.nodes.1.lemma_arguments_shape();
        },
        SystemTimingCheck::RemovalTimingCheck(x) => {
            x.nodes.1.nodes.1.lemma_arguments_shape();
        },
        SystemTimingCheck::RecremTimingCheck(x) => {
            x.nodes.1.nodes.1.lemma_arguments_shape();
        },
        SystemTimingCheck::SkewTimingCheck(x) => {
            x.nodes.1.nodes.1.lemma_arguments_shape();
        },
        SystemTimingCheck::TimeskewTimingCheck(x) => {
            x.nodes.1.nodes.1.lemma_arguments_shape();
        },
        SystemTimingCheck::FullskewTimingCheck(x) => {
            x.nodes.1.nodes.1.lemma_arguments_shape();
        },
        SystemTimingCheck::PeriodTimingCheck(x) => {
            x.nodes.1.nodes.1.lemma_arguments_shape();
        },
        SystemTimingCheck::WidthTimingCheck(x) => {
            x.nodes.1.nodes.1.lemma_arguments_shape();
        },
        SystemTimingCheck::NochargeTimingCheck(x) => {
            x.nodes.1.nodes.1.lemma_arguments_shape();
        },
    }
}

/// Order preservation.  In a parsed `$setup` the first argument is the data
/// event, and the reference event begins behind it in the input.  In every
/// other command that relates two events it is the reference event that
/// comes first.
pub proof fn lemma_event_order(s: Seq<u8>, pos: usize)
    requires
        s.len() <= usize::MAX,
    ensures
        spec_system_timing_check(s, pos) matches Ok((v, next)) ==> events_in_order(v),
{
    lemma_keyword_selects(s, pos);
    if let Ok((v, next)) = spec_system_timing_check(s, pos) {
        lemma_check_layout(s, pos, v.spec_command());
    }
}

} // verus!
