//! The operands of a timing check: events, expressions and names.
//!
//! Each operand is a type of its own, so that the syntax tree says which
//! argument is which.  All of them implement [`Argument`], through which the
//! lists of arguments are read.

use vstd::prelude::*;
use crate::error::{
    Expected, PResult, ParseError, failure_at, opt, spec_alt, spec_failure_at, spec_map, spec_opt,
};
use crate::layout::{comma_count, lemma_tiles_concat, lemma_tiles_one, tiles};
use crate::lexer::{
    Identifier, Keyword, Number, Symbol, Token, identifier, keyword, lemma_identifier_end_bounds,
    lemma_number_end_bounds, lemma_trivia_end_bounds, number, skip_trivia, spec_identifier,
    spec_keyword, spec_number, spec_symbol, symbol, trivia_end,
};

verus! {

/// The edge that a timing check event waits for.
#[derive(Clone, Copy, Debug, PartialEq, Eq)]
pub enum TimingCheckEventControl {
    Posedge(Keyword),
    Negedge(Keyword),
    Edge(Keyword),
}

/// A terminal with the edge that is watched on it, if any.
#[derive(Clone, Copy, Debug, PartialEq, Eq)]
pub struct TimingCheckEvent {
    pub nodes: (Option<TimingCheckEventControl>, Identifier),
}

/// A terminal with the edge that is watched on it.
#[derive(Clone, Copy, Debug, PartialEq, Eq)]
pub struct ControlledTimingCheckEvent {
    pub nodes: (TimingCheckEventControl, Identifier),
}

/// The event on the data signal: a timing check event.
#[derive(Clone, Copy, Debug, PartialEq, Eq)]
pub struct DataEvent {
    pub nodes: (TimingCheckEvent,),
}

/// The event on the reference signal: a timing check event.
#[derive(Clone, Copy, Debug, PartialEq, Eq)]
pub struct ReferenceEvent {
    pub nodes: (TimingCheckEvent,),
}

/// The event on the one signal of `$period` and `$width`, which names its edge.
#[derive(Clone, Copy, Debug, PartialEq, Eq)]
pub struct ControlledReferenceEvent {
    pub nodes: (ControlledTimingCheckEvent,),
}

/// A number or a name.
#[derive(Clone, Copy, Debug, PartialEq, Eq)]
pub enum Primary {
    Number(Number),
    Identifier(Identifier),
}

/// A number or a name, with an optional sign.
#[derive(Clone, Copy, Debug, PartialEq, Eq)]
pub struct Expression {
    pub nodes: (Option<Symbol>, Primary),
}

/// A limit of a timing check: an expression.
#[derive(Clone, Copy, Debug, PartialEq, Eq)]
pub struct TimingCheckLimit {
    pub nodes: (Expression,),
}

/// The variable that is toggled when the check fires: an identifier.
#[derive(Clone, Copy, Debug, PartialEq, Eq)]
pub struct Notifier {
    pub nodes: (Identifier,),
}

/// The condition under which the time of the first event is taken: an
/// expression.
#[derive(Clone, Copy, Debug, PartialEq, Eq)]
pub struct TimestampCondition {
    pub nodes: (Expression,),
}

/// The condition under which the check is made: an expression.
#[derive(Clone, Copy, Debug, PartialEq, Eq)]
pub struct TimecheckCondition {
    pub nodes: (Expression,),
}

/// The delayed copy of the reference signal: an identifier.
#[derive(Clone, Copy, Debug, PartialEq, Eq)]
pub struct DelayedReference {
    pub nodes: (Identifier,),
}

/// The delayed copy of the data signal: an identifier.
#[derive(Clone, Copy, Debug, PartialEq, Eq)]
pub struct DelayedData {
    pub nodes: (Identifier,),
}

/// The flag that makes a skew check event based: an expression.
#[derive(Clone, Copy, Debug, PartialEq, Eq)]
pub struct EventBasedFlag {
    pub nodes: (Expression,),
}

/// The flag that keeps a skew check active: an expression.
#[derive(Clone, Copy, Debug, PartialEq, Eq)]
pub struct RemainActiveFlag {
    pub nodes: (Expression,),
}

/// The pulse width below which `$width` stays silent: an expression.
#[derive(Clone, Copy, Debug, PartialEq, Eq)]
pub struct Threshold {
    pub nodes: (Expression,),
}

/// The offset of the first edge of `$nocharge`: an expression.
#[derive(Clone, Copy, Debug, PartialEq, Eq)]
pub struct StartEdgeOffset {
    pub nodes: (Expression,),
}

/// The offset of the second edge of `$nocharge`: an expression.
#[derive(Clone, Copy, Debug, PartialEq, Eq)]
pub struct EndEdgeOffset {
    pub nodes: (Expression,),
}

// ---------------------------------------------------------------------------
// The tokens of each node, in the order of the input.

impl TimingCheckEventControl {
    /// The keyword that names the edge.
    pub open spec fn spec_keyword(self) -> Keyword {
        match self {
            TimingCheckEventControl::Posedge(k) => k,
            TimingCheckEventControl::Negedge(k) => k,
            TimingCheckEventControl::Edge(k) => k,
        }
    }

    /// The keyword that names the edge.
    pub fn keyword(&self) -> (r: Keyword)
        ensures
            r == self.spec_keyword(),
    {
        match self {
            TimingCheckEventControl::Posedge(k) => *k,
            TimingCheckEventControl::Negedge(k) => *k,
            TimingCheckEventControl::Edge(k) => *k,
        }
    }
}

/// The tokens of an optional edge.
pub open spec fn control_tokens(control: Option<TimingCheckEventControl>) -> Seq<Token> {
    match control {
        Some(c) => seq![c.spec_keyword().nodes.0],
        None => Seq::empty(),
    }
}

/// The tokens of an optional sign.
pub open spec fn sign_tokens(sign: Option<Symbol>) -> Seq<Token> {
    match sign {
        Some(c) => seq![c.nodes.0],
        None => Seq::empty(),
    }
}

impl TimingCheckEvent {
    /// The tokens of the event, in the order of the input.
    pub open spec fn tokens(self) -> Seq<Token> {
        control_tokens(self.nodes.0) + seq![self.nodes.1.nodes.0]
    }

    /// Appends the tokens of the event to `out`.
    pub fn push_tokens(&self, out: &mut Vec<Token>)
        ensures
            final(out)@ == old(out)@ + self.tokens(),
    {
        match &self.nodes.0 {
            Some(c) => {
                out.push(c.keyword().nodes.0);
            },
            None => {},
        }
        out.push(self.nodes.1.nodes.0);
        proof {
            assert(out@ =~= old(out)@ + self.tokens());
        }
    }
}

impl ControlledTimingCheckEvent {
    /// The tokens of the event, in the order of the input.
    pub open spec fn tokens(self) -> Seq<Token> {
        seq![self.nodes.0.spec_keyword().nodes.0] + seq![self.nodes.1.nodes.0]
    }

    /// Appends the tokens of the event to `out`.
    pub fn push_tokens(&self, out: &mut Vec<Token>)
        ensures
            final(out)@ == old(out)@ + self.tokens(),
    {
        out.push(self.nodes.0.keyword().nodes.0);
        out.push(self.nodes.1.nodes.0);
        proof {
            assert(out@ =~= old(out)@ + self.tokens());
        }
    }
}

impl Primary {
    /// The one token of the primary.
    pub open spec fn spec_token(self) -> Token {
        match self {
            Primary::Number(n) => n.nodes.0,
            Primary::Identifier(i) => i.nodes.0,
        }
    }

    /// The one token of the primary.
    pub fn token(&self) -> (r: Token)
        ensures
            r == self.spec_token(),
    {
        match self {
            Primary::Number(n) => n.nodes.0,
            Primary::Identifier(i) => i.nodes.0,
        }
    }
}

impl Expression {
    /// The tokens of the expression, in the order of the input.
    pub open spec fn tokens(self) -> Seq<Token> {
        sign_tokens(self.nodes.0) + seq![self.nodes.1.spec_token()]
    }

    /// Appends the tokens of the expression to `out`.
    pub fn push_tokens(&self, out: &mut Vec<Token>)
        ensures
            final(out)@ == old(out)@ + self.tokens(),
    {
        match &self.nodes.0 {
            Some(c) => {
                out.push(c.nodes.0);
            },
            None => {},
        }
        out.push(self.nodes.1.token());
        proof {
            assert(out@ =~= old(out)@ + self.tokens());
        }
    }
}

// ---------------------------------------------------------------------------
// The grammar of the operands.

/// The bytes of `posedge`.
pub open spec fn posedge_keyword() -> Seq<u8> {
    seq!['p' as u8, 'o' as u8, 's' as u8, 'e' as u8, 'd' as u8, 'g' as u8, 'e' as u8]
}

/// The bytes of `negedge`.
pub open spec fn negedge_keyword() -> Seq<u8> {
    seq!['n' as u8, 'e' as u8, 'g' as u8, 'e' as u8, 'd' as u8, 'g' as u8, 'e' as u8]
}

/// The bytes of `edge`.
pub open spec fn edge_keyword() -> Seq<u8> {
    seq!['e' as u8, 'd' as u8, 'g' as u8, 'e' as u8]
}

/// `posedge`, `negedge` or `edge`.
pub open spec fn spec_timing_check_event_control(s: Seq<u8>, pos: usize) -> PResult<
    TimingCheckEventControl,
> {
    spec_alt(
        spec_map(
            spec_keyword(s, pos, posedge_keyword(), Expected::Edge),
            |k: Keyword| TimingCheckEventControl::Posedge(k),
        ),
        spec_alt(
            spec_map(
                spec_keyword(s, pos, negedge_keyword(), Expected::Edge),
                |k: Keyword| TimingCheckEventControl::Negedge(k),
            ),
            spec_map(
                spec_keyword(s, pos, edge_keyword(), Expected::Edge),
                |k: Keyword| TimingCheckEventControl::Edge(k),
            ),
        ),
    )
}

/// An identifier, with an edge before it or without.
pub open spec fn spec_timing_check_event(s: Seq<u8>, pos: usize) -> PResult<TimingCheckEvent> {
    match spec_opt(spec_timing_check_event_control(s, pos), pos) {
        Ok((control, p)) => match spec_identifier(s, p) {
            Ok((terminal, next)) => Ok((TimingCheckEvent { nodes: (control, terminal) }, next)),
            Err(e) => Err(e),
        },
        Err(e) => Err(e),
    }
}

/// An edge and an identifier.
pub open spec fn spec_controlled_timing_check_event(s: Seq<u8>, pos: usize) -> PResult<
    ControlledTimingCheckEvent,
> {
    match spec_timing_check_event_control(s, pos) {
        Ok((control, p)) => match spec_identifier(s, p) {
            Ok((terminal, next)) => Ok(
                (ControlledTimingCheckEvent { nodes: (control, terminal) }, next),
            ),
            Err(e) => Err(e),
        },
        Err(e) => Err(e),
    }
}

/// `+` or `-`.
pub open spec fn spec_sign(s: Seq<u8>, pos: usize) -> PResult<Symbol> {
    spec_alt(spec_symbol(s, pos, '+' as u8), spec_symbol(s, pos, '-' as u8))
}

/// A number, or else an identifier.
pub open spec fn spec_primary(s: Seq<u8>, pos: usize) -> PResult<Primary> {
    spec_alt(
        spec_map(spec_number(s, pos), |n: Number| Primary::Number(n)),
        spec_alt(
            spec_map(spec_identifier(s, pos), |i: Identifier| Primary::Identifier(i)),
            Err(
                ParseError::Soft(spec_failure_at(s, trivia_end(s, pos as int), Expected::Primary)),
            ),
        ),
    )
}

/// A primary, with a sign before it or without.
pub open spec fn spec_expression(s: Seq<u8>, pos: usize) -> PResult<Expression> {
    match spec_opt(spec_sign(s, pos), pos) {
        Ok((sign, p)) => match spec_primary(s, p) {
            Ok((primary, next)) => Ok((Expression { nodes: (sign, primary) }, next)),
            Err(e) => Err(e),
        },
        Err(e) => Err(e),
    }
}

/// What [`data_event`] returns at `pos` of `s`.
pub open spec fn spec_data_event(s: Seq<u8>, pos: usize) -> PResult<DataEvent> {
    spec_map(spec_timing_check_event(s, pos), |e: TimingCheckEvent| DataEvent { nodes: (e,) })
}

/// What [`reference_event`] returns at `pos` of `s`.
pub open spec fn spec_reference_event(s: Seq<u8>, pos: usize) -> PResult<ReferenceEvent> {
    spec_map(spec_timing_check_event(s, pos), |e: TimingCheckEvent| ReferenceEvent { nodes: (e,) })
}

/// What [`controlled_reference_event`] returns at `pos` of `s`.
pub open spec fn spec_controlled_reference_event(s: Seq<u8>, pos: usize) -> PResult<
    ControlledReferenceEvent,
> {
    spec_map(
        spec_controlled_timing_check_event(s, pos),
        |e: ControlledTimingCheckEvent| ControlledReferenceEvent { nodes: (e,) },
    )
}

/// What [`timing_check_limit`] returns at `pos` of `s`.
pub open spec fn spec_timing_check_limit(s: Seq<u8>, pos: usize) -> PResult<TimingCheckLimit> {
    spec_map(spec_expression(s, pos), |e: Expression| TimingCheckLimit { nodes: (e,) })
}

/// What [`notifier`] returns at `pos` of `s`.
pub open spec fn spec_notifier(s: Seq<u8>, pos: usize) -> PResult<Notifier> {
    spec_map(spec_identifier(s, pos), |i: Identifier| Notifier { nodes: (i,) })
}

/// What [`timestamp_condition`] returns at `pos` of `s`.
pub open spec fn spec_timestamp_condition(s: Seq<u8>, pos: usize) -> PResult<TimestampCondition> {
    spec_map(spec_expression(s, pos), |e: Expression| TimestampCondition { nodes: (e,) })
}

/// What [`timecheck_condition`] returns at `pos` of `s`.
pub open spec fn spec_timecheck_condition(s: Seq<u8>, pos: usize) -> PResult<TimecheckCondition> {
    spec_map(spec_expression(s, pos), |e: Expression| TimecheckCondition { nodes: (e,) })
}

/// What [`delayed_reference`] returns at `pos` of `s`.
pub open spec fn spec_delayed_reference(s: Seq<u8>, pos: usize) -> PResult<DelayedReference> {
    spec_map(spec_identifier(s, pos), |i: Identifier| DelayedReference { nodes: (i,) })
}

/// What [`delayed_data`] returns at `pos` of `s`.
pub open spec fn spec_delayed_data(s: Seq<u8>, pos: usize) -> PResult<DelayedData> {
    spec_map(spec_identifier(s, pos), |i: Identifier| DelayedData { nodes: (i,) })
}

/// What [`event_based_flag`] returns at `pos` of `s`.
pub open spec fn spec_event_based_flag(s: Seq<u8>, pos: usize) -> PResult<EventBasedFlag> {
    spec_map(spec_expression(s, pos), |e: Expression| EventBasedFlag { nodes: (e,) })
}

/// What [`remain_active_flag`] returns at `pos` of `s`.
pub open spec fn spec_remain_active_flag(s: Seq<u8>, pos: usize) -> PResult<RemainActiveFlag> {
    spec_map(spec_expression(s, pos), |e: Expression| RemainActiveFlag { nodes: (e,) })
}

/// What [`threshold`] returns at `pos` of `s`.
pub open spec fn spec_threshold(s: Seq<u8>, pos: usize) -> PResult<Threshold> {
    spec_map(spec_expression(s, pos), |e: Expression| Threshold { nodes: (e,) })
}

/// What [`start_edge_offset`] returns at `pos` of `s`.
pub open spec fn spec_start_edge_offset(s: Seq<u8>, pos: usize) -> PResult<StartEdgeOffset> {
    spec_map(spec_expression(s, pos), |e: Expression| StartEdgeOffset { nodes: (e,) })
}

/// What [`end_edge_offset`] returns at `pos` of `s`.
pub open spec fn spec_end_edge_offset(s: Seq<u8>, pos: usize) -> PResult<EndEdgeOffset> {
    spec_map(spec_expression(s, pos), |e: Expression| EndEdgeOffset { nodes: (e,) })
}

// ---------------------------------------------------------------------------
// The parsers.

fn posedge_bytes() -> (r: &'static [u8])
    ensures
        r@ == posedge_keyword(),
{
    let a: &'static [u8; 7] = &[
        'p' as u8, 'o' as u8, 's' as u8, 'e' as u8, 'd' as u8, 'g' as u8, 'e' as u8,
    ];
    a.as_slice()
}

fn negedge_bytes() -> (r: &'static [u8])
    ensures
        r@ == negedge_keyword(),
{
    let a: &'static [u8; 7] = &[
        'n' as u8, 'e' as u8, 'g' as u8, 'e' as u8, 'd' as u8, 'g' as u8, 'e' as u8,
    ];
    a.as_slice()
}

fn edge_bytes() -> (r: &'static [u8])
    ensures
        r@ == edge_keyword(),
{
    let a: &'static [u8; 4] = &['e' as u8, 'd' as u8, 'g' as u8, 'e' as u8];
    a.as_slice()
}

/// Parses `posedge`, `negedge` or `edge` behind the trivia at `pos`.
pub fn timing_check_event_control(input: &[u8], pos: usize) -> (r: PResult<TimingCheckEventControl>)
    ensures
        r == spec_timing_check_event_control(input@, pos),
{
    match keyword(input, pos, posedge_bytes(), Expected::Edge) {
        Ok((k, next)) => {
            return Ok((TimingCheckEventControl::Posedge(k), next));
        },
        Err(ParseError::Hard(f)) => {
            return Err(ParseError::Hard(f));
        },
        Err(ParseError::Soft(_)) => {},
    }
    match keyword(input, pos, negedge_bytes(), Expected::Edge) {
        Ok((k, next)) => {
            return Ok((TimingCheckEventControl::Negedge(k), next));
        },
        Err(ParseError::Hard(f)) => {
            return Err(ParseError::Hard(f));
        },
        Err(ParseError::Soft(_)) => {},
    }
    let (k, next) = keyword(input, pos, edge_bytes(), Expected::Edge)?;
    Ok((TimingCheckEventControl::Edge(k), next))
}

/// Parses an identifier with an edge before it or without.
pub fn timing_check_event(input: &[u8], pos: usize) -> (r: PResult<TimingCheckEvent>)
    ensures
        r == spec_timing_check_event(input@, pos),
{
    let (control, p) = opt(timing_check_event_control(input, pos), pos)?;
    let (terminal, next) = identifier(input, p)?;
    Ok((TimingCheckEvent { nodes: (control, terminal) }, next))
}

/// Parses an edge and an identifier.
pub fn controlled_timing_check_event(input: &[u8], pos: usize) -> (r: PResult<
    ControlledTimingCheckEvent,
>)
    ensures
        r == spec_controlled_timing_check_event(input@, pos),
{
    let (control, p) = timing_check_event_control(input, pos)?;
    let (terminal, next) = identifier(input, p)?;
    Ok((ControlledTimingCheckEvent { nodes: (control, terminal) }, next))
}

/// Parses `+` or `-` behind the trivia at `pos`.
pub fn sign(input: &[u8], pos: usize) -> (r: PResult<Symbol>)
    ensures
        r == spec_sign(input@, pos),
{
    match symbol(input, pos, '+' as u8) {
        Err(ParseError::Soft(_)) => symbol(input, pos, '-' as u8),
        other => other,
    }
}

/// Parses a number, or else an identifier.
pub fn primary(input: &[u8], pos: usize) -> (r: PResult<Primary>)
    ensures
        r == spec_primary(input@, pos),
{
    match number(input, pos) {
        Ok((n, next)) => {
            return Ok((Primary::Number(n), next));
        },
        Err(ParseError::Hard(f)) => {
            return Err(ParseError::Hard(f));
        },
        Err(ParseError::Soft(_)) => {},
    }
    match identifier(input, pos) {
        Ok((i, next)) => {
            return Ok((Primary::Identifier(i), next));
        },
        Err(ParseError::Hard(f)) => {
            return Err(ParseError::Hard(f));
        },
        Err(ParseError::Soft(_)) => {},
    }
    let at = skip_trivia(input, pos);
    Err(ParseError::Soft(failure_at(input, at, Expected::Primary)))
}

/// Parses a primary with a sign before it or without.
pub fn expression(input: &[u8], pos: usize) -> (r: PResult<Expression>)
    ensures
        r == spec_expression(input@, pos),
{
    let (sign, p) = opt(sign(input, pos), pos)?;
    let (primary, next) = primary(input, p)?;
    Ok((Expression { nodes: (sign, primary) }, next))
}

/// Parses a data event behind the trivia at `pos`.
pub fn data_event(input: &[u8], pos: usize) -> (r: PResult<DataEvent>)
    ensures
        r == spec_data_event(input@, pos),
{
    let (e, next) = timing_check_event(input, pos)?;
    Ok((DataEvent { nodes: (e,) }, next))
}

/// Parses a reference event behind the trivia at `pos`.
pub fn reference_event(input: &[u8], pos: usize) -> (r: PResult<ReferenceEvent>)
    ensures
        r == spec_reference_event(input@, pos),
{
    let (e, next) = timing_check_event(input, pos)?;
    Ok((ReferenceEvent { nodes: (e,) }, next))
}

/// Parses a controlled reference event behind the trivia at `pos`.
pub fn controlled_reference_event(input: &[u8], pos: usize) -> (r: PResult<ControlledReferenceEvent>)
    ensures
        r == spec_controlled_reference_event(input@, pos),
{
    let (e, next) = controlled_timing_check_event(input, pos)?;
    Ok((ControlledReferenceEvent { nodes: (e,) }, next))
}

/// Parses a limit behind the trivia at `pos`.
pub fn timing_check_limit(input: &[u8], pos: usize) -> (r: PResult<TimingCheckLimit>)
    ensures
        r == spec_timing_check_limit(input@, pos),
{
    let (e, next) = expression(input, pos)?;
    Ok((TimingCheckLimit { nodes: (e,) }, next))
}

/// Parses a notifier behind the trivia at `pos`.
pub fn notifier(input: &[u8], pos: usize) -> (r: PResult<Notifier>)
    ensures
        r == spec_notifier(input@, pos),
{
    let (i, next) = identifier(input, pos)?;
    Ok((Notifier { nodes: (i,) }, next))
}

/// Parses a timestamp condition behind the trivia at `pos`.
pub fn timestamp_condition(input: &[u8], pos: usize) -> (r: PResult<TimestampCondition>)
    ensures
        r == spec_timestamp_condition(input@, pos),
{
    let (e, next) = expression(input, pos)?;
    Ok((TimestampCondition { nodes: (e,) }, next))
}

/// Parses a timecheck condition behind the trivia at `pos`.
pub fn timecheck_condition(input: &[u8], pos: usize) -> (r: PResult<TimecheckCondition>)
    ensures
        r == spec_timecheck_condition(input@, pos),
{
    let (e, next) = expression(input, pos)?;
    Ok((TimecheckCondition { nodes: (e,) }, next))
}

/// Parses a delayed reference signal behind the trivia at `pos`.
pub fn delayed_reference(input: &[u8], pos: usize) -> (r: PResult<DelayedReference>)
    ensures
        r == spec_delayed_reference(input@, pos),
{
    let (i, next) = identifier(input, pos)?;
    Ok((DelayedReference { nodes: (i,) }, next))
}

/// Parses a delayed data signal behind the trivia at `pos`.
pub fn delayed_data(input: &[u8], pos: usize) -> (r: PResult<DelayedData>)
    ensures
        r == spec_delayed_data(input@, pos),
{
    let (i, next) = identifier(input, pos)?;
    Ok((DelayedData { nodes: (i,) }, next))
}

/// Parses an event based flag behind the trivia at `pos`.
pub fn event_based_flag(input: &[u8], pos: usize) -> (r: PResult<EventBasedFlag>)
    ensures
        r == spec_event_based_flag(input@, pos),
{
    let (e, next) = expression(input, pos)?;
    Ok((EventBasedFlag { nodes: (e,) }, next))
}

/// Parses a remain active flag behind the trivia at `pos`.
pub fn remain_active_flag(input: &[u8], pos: usize) -> (r: PResult<RemainActiveFlag>)
    ensures
        r == spec_remain_active_flag(input@, pos),
{
    let (e, next) = expression(input, pos)?;
    Ok((RemainActiveFlag { nodes: (e,) }, next))
}

/// Parses a threshold behind the trivia at `pos`.
pub fn threshold(input: &[u8], pos: usize) -> (r: PResult<Threshold>)
    ensures
        r == spec_threshold(input@, pos),
{
    let (e, next) = expression(input, pos)?;
    Ok((Threshold { nodes: (e,) }, next))
}

/// Parses a start edge offset behind the trivia at `pos`.
pub fn start_edge_offset(input: &[u8], pos: usize) -> (r: PResult<StartEdgeOffset>)
    ensures
        r == spec_start_edge_offset(input@, pos),
{
    let (e, next) = expression(input, pos)?;
    Ok((StartEdgeOffset { nodes: (e,) }, next))
}

/// Parses an end edge offset behind the trivia at `pos`.
pub fn end_edge_offset(input: &[u8], pos: usize) -> (r: PResult<EndEdgeOffset>)
    ensures
        r == spec_end_edge_offset(input@, pos),
{
    let (e, next) = expression(input, pos)?;
    Ok((EndEdgeOffset { nodes: (e,) }, next))
}

// ---------------------------------------------------------------------------
// Where the tokens of a parsed operand lie.

/// A keyword that was found is one token behind the trivia, and holds the
/// bytes that were looked for.
pub proof fn lemma_keyword_layout(s: Seq<u8>, pos: usize, lit: Seq<u8>, expected: Expected)
    requires
        pos <= s.len() <= usize::MAX,
        lit.len() > 0,
    ensures
        match spec_keyword(s, pos, lit, expected) {
            Ok((k, next)) => {
                &&& tiles(s, seq![k.nodes.0], pos, next)
                &&& k.nodes.0.spec_text(s) == lit
                &&& lit[0] != ',' as u8 ==> comma_count(s, seq![k.nodes.0]) == 0
            },
            Err(e) => e is Soft,
        },
{
    lemma_trivia_end_bounds(s, pos as int);
    if let Ok((k, next)) = spec_keyword(s, pos, lit, expected) {
        lemma_tiles_one(s, k.nodes.0, pos);
        assert(k.nodes.0.spec_text(s)[0] == s[k.nodes.0.start as int]);
    }
}

/// A symbol that was found is one token of one byte behind the trivia.
pub proof fn lemma_symbol_layout(s: Seq<u8>, pos: usize, byte: u8)
    requires
        pos <= s.len() <= usize::MAX,
    ensures
        match spec_symbol(s, pos, byte) {
            Ok((c, next)) => {
                &&& tiles(s, seq![c.nodes.0], pos, next)
                &&& c.nodes.0.spec_text(s) == seq![byte]
                &&& comma_count(s, seq![c.nodes.0]) == (if byte == ',' as u8 {
                    1nat
                } else {
                    0nat
                })
            },
            Err(e) => e is Soft,
        },
{
    lemma_trivia_end_bounds(s, pos as int);
    if let Ok((c, next)) = spec_symbol(s, pos, byte) {
        lemma_tiles_one(s, c.nodes.0, pos);
        assert(c.nodes.0.spec_text(s) =~= seq![byte]);
    }
}

/// An identifier that was found is one token behind the trivia, and no comma.
pub proof fn lemma_identifier_layout(s: Seq<u8>, pos: usize)
    requires
        pos <= s.len() <= usize::MAX,
    ensures
        match spec_identifier(s, pos) {
            Ok((i, next)) => tiles(s, seq![i.nodes.0], pos, next) && comma_count(
                s,
                seq![i.nodes.0],
            ) == 0,
            Err(e) => e is Soft,
        },
{
    lemma_trivia_end_bounds(s, pos as int);
    if let Ok((i, next)) = spec_identifier(s, pos) {
        lemma_identifier_end_bounds(s, trivia_end(s, pos as int) + 1);
        lemma_tiles_one(s, i.nodes.0, pos);
    }
}

/// A number that was found is one token behind the trivia, and no comma.
pub proof fn lemma_number_layout(s: Seq<u8>, pos: usize)
    requires
        pos <= s.len() <= usize::MAX,
    ensures
        match spec_number(s, pos) {
            Ok((n, next)) => tiles(s, seq![n.nodes.0], pos, next) && comma_count(
                s,
                seq![n.nodes.0],
            ) == 0,
            Err(e) => e is Soft,
        },
{
    lemma_trivia_end_bounds(s, pos as int);
    if let Ok((n, next)) = spec_number(s, pos) {
        lemma_number_end_bounds(s, trivia_end(s, pos as int) + 1);
        lemma_tiles_one(s, n.nodes.0, pos);
    }
}

/// An edge that was found is one token behind the trivia, and no comma.
pub proof fn lemma_timing_check_event_control_layout(s: Seq<u8>, pos: usize)
    requires
        pos <= s.len() <= usize::MAX,
    ensures
        match spec_timing_check_event_control(s, pos) {
            Ok((c, next)) => tiles(s, seq![c.spec_keyword().nodes.0], pos, next) && comma_count(
                s,
                seq![c.spec_keyword().nodes.0],
            ) == 0,
            Err(e) => e is Soft,
        },
{
    lemma_keyword_layout(s, pos, posedge_keyword(), Expected::Edge);
    lemma_keyword_layout(s, pos, negedge_keyword(), Expected::Edge);
    lemma_keyword_layout(s, pos, edge_keyword(), Expected::Edge);
}

/// The tokens of a parsed event tile what was consumed, and none is a comma.
pub proof fn lemma_timing_check_event_layout(s: Seq<u8>, pos: usize)
    requires
        pos <= s.len() <= usize::MAX,
    ensures
        match spec_timing_check_event(s, pos) {
            Ok((e, next)) => tiles(s, e.tokens(), pos, next) && comma_count(s, e.tokens()) == 0,
            Err(e) => e is Soft,
        },
{
    lemma_timing_check_event_control_layout(s, pos);
    if let Ok((control, p)) = spec_opt(spec_timing_check_event_control(s, pos), pos) {
        lemma_identifier_layout(s, p);
        if let Ok((e, next)) = spec_timing_check_event(s, pos) {
            lemma_tiles_concat(s, control_tokens(control), seq![e.nodes.1.nodes.0], pos, p, next);
        }
    }
}

/// The tokens of a parsed event tile what was consumed, and none is a comma.
pub proof fn lemma_controlled_timing_check_event_layout(s: Seq<u8>, pos: usize)
    requires
        pos <= s.len() <= usize::MAX,
    ensures
        match spec_controlled_timing_check_event(s, pos) {
            Ok((e, next)) => tiles(s, e.tokens(), pos, next) && comma_count(s, e.tokens()) == 0,
            Err(e) => e is Soft,
        },
{
    lemma_timing_check_event_control_layout(s, pos);
    if let Ok((control, p)) = spec_timing_check_event_control(s, pos) {
        lemma_identifier_layout(s, p);
        if let Ok((e, next)) = spec_controlled_timing_check_event(s, pos) {
            lemma_tiles_concat(
                s,
                seq![control.spec_keyword().nodes.0],
                seq![e.nodes.1.nodes.0],
                pos,
                p,
                next,
            );
        }
    }
}

/// The tokens of a parsed expression tile what was consumed, and none is a
/// comma.
pub proof fn lemma_expression_layout(s: Seq<u8>, pos: usize)
    requires
        pos <= s.len() <= usize::MAX,
    ensures
        match spec_expression(s, pos) {
            Ok((e, next)) => tiles(s, e.tokens(), pos, next) && comma_count(s, e.tokens()) == 0,
            Err(e) => e is Soft,
        },
{
    lemma_symbol_layout(s, pos, '+' as u8);
    lemma_symbol_layout(s, pos, '-' as u8);
    if let Ok((sign, p)) = spec_opt(spec_sign(s, pos), pos) {
        lemma_number_layout(s, p);
        lemma_identifier_layout(s, p);
        if let Ok((e, next)) = spec_expression(s, pos) {
            lemma_tiles_concat(s, sign_tokens(sign), seq![e.nodes.1.spec_token()], pos, p, next);
        }
    }
}

// ---------------------------------------------------------------------------
// The operands as arguments of a command.

/// An argument of a timing check command.
pub trait Argument: Sized {
    /// The tokens of the argument, in the order of the input.
    spec fn tokens(self) -> Seq<Token>;

    /// What parsing the argument at `pos` of `s` gives.
    spec fn spec_parse(s: Seq<u8>, pos: usize) -> PResult<Self>;

    /// Parses the argument behind the trivia at `pos`.
    fn parse(input: &[u8], pos: usize) -> (r: PResult<Self>)
        ensures
            r == Self::spec_parse(input@, pos),
    ;

    /// Appends the tokens of the argument to `out`.
    fn push_tokens(&self, out: &mut Vec<Token>)
        ensures
            final(out)@ == old(out)@ + self.tokens(),
    ;

    /// The tokens of a parsed argument tile what the parser consumed, and
    /// none of them is a comma.
    proof fn lemma_layout(s: Seq<u8>, pos: usize)
        requires
            pos <= s.len() <= usize::MAX,
        ensures
            Self::spec_parse(s, pos) matches Ok((v, next)) ==> tiles(s, v.tokens(), pos, next)
                && comma_count(s, v.tokens()) == 0,
    ;
}

impl Argument for DataEvent {
    open spec fn tokens(self) -> Seq<Token> {
        self.nodes.0.tokens()
    }

    fn push_tokens(&self, out: &mut Vec<Token>) {
        self.nodes.0.push_tokens(out);
    }

    open spec fn spec_parse(s: Seq<u8>, pos: usize) -> PResult<Self> {
        spec_data_event(s, pos)
    }

    fn parse(input: &[u8], pos: usize) -> (r: PResult<Self>) {
        data_event(input, pos)
    }

    proof fn lemma_layout(s: Seq<u8>, pos: usize) {
        lemma_timing_check_event_layout(s, pos);
    }
}

impl Argument for ReferenceEvent {
    open spec fn tokens(self) -> Seq<Token> {
        self.nodes.0.tokens()
    }

    fn push_tokens(&self, out: &mut Vec<Token>) {
        self.nodes.0.push_tokens(out);
    }

    open spec fn spec_parse(s: Seq<u8>, pos: usize) -> PResult<Self> {
        spec_reference_event(s, pos)
    }

    fn parse(input: &[u8], pos: usize) -> (r: PResult<Self>) {
        reference_event(input, pos)
    }

    proof fn lemma_layout(s: Seq<u8>, pos: usize) {
        lemma_timing_check_event_layout(s, pos);
    }
}

impl Argument for ControlledReferenceEvent {
    open spec fn tokens(self) -> Seq<Token> {
        self.nodes.0.tokens()
    }

    fn push_tokens(&self, out: &mut Vec<Token>) {
        self.nodes.0.push_tokens(out);
    }

    open spec fn spec_parse(s: Seq<u8>, pos: usize) -> PResult<Self> {
        spec_controlled_reference_event(s, pos)
    }

    fn parse(input: &[u8], pos: usize) -> (r: PResult<Self>) {
        controlled_reference_event(input, pos)
    }

    proof fn lemma_layout(s: Seq<u8>, pos: usize) {
        lemma_controlled_timing_check_event_layout(s, pos);
    }
}

impl Argument for TimingCheckLimit {
    open spec fn tokens(self) -> Seq<Token> {
        self.nodes.0.tokens()
    }

    fn push_tokens(&self, out: &mut Vec<Token>) {
        self.nodes.0.push_tokens(out);
    }

    open spec fn spec_parse(s: Seq<u8>, pos: usize) -> PResult<Self> {
        spec_timing_check_limit(s, pos)
    }

    fn parse(input: &[u8], pos: usize) -> (r: PResult<Self>) {
        timing_check_limit(input, pos)
    }

    proof fn lemma_layout(s: Seq<u8>, pos: usize) {
        lemma_expression_layout(s, pos);
    }
}

impl Argument for Notifier {
    open spec fn tokens(self) -> Seq<Token> {
        seq![self.nodes.0.nodes.0]
    }

    fn push_tokens(&self, out: &mut Vec<Token>) {
        out.push(self.nodes.0.nodes.0);
        proof {
            assert(out@ =~= old(out)@ + self.tokens());
        }
    }

    open spec fn spec_parse(s: Seq<u8>, pos: usize) -> PResult<Self> {
        spec_notifier(s, pos)
    }

    fn parse(input: &[u8], pos: usize) -> (r: PResult<Self>) {
        notifier(input, pos)
    }

    proof fn lemma_layout(s: Seq<u8>, pos: usize) {
        lemma_identifier_layout(s, pos);
    }
}

impl Argument for TimestampCondition {
    open spec fn tokens(self) -> Seq<Token> {
        self.nodes.0.tokens()
    }

    fn push_tokens(&self, out: &mut Vec<Token>) {
        self.nodes.0.push_tokens(out);
    }

    open spec fn spec_parse(s: Seq<u8>, pos: usize) -> PResult<Self> {
        spec_timestamp_condition(s, pos)
    }

    fn parse(input: &[u8], pos: usize) -> (r: PResult<Self>) {
        timestamp_condition(input, pos)
    }

    proof fn lemma_layout(s: Seq<u8>, pos: usize) {
        lemma_expression_layout(s, pos);
    }
}

impl Argument for TimecheckCondition {
    open spec fn tokens(self) -> Seq<Token> {
        self.nodes.0.tokens()
    }

    fn push_tokens(&self, out: &mut Vec<Token>) {
        self.nodes.0.push_tokens(out);
    }

    open spec fn spec_parse(s: Seq<u8>, pos: usize) -> PResult<Self> {
        spec_timecheck_condition(s, pos)
    }

    fn parse(input: &[u8], pos: usize) -> (r: PResult<Self>) {
        timecheck_condition(input, pos)
    }

    proof fn lemma_layout(s: Seq<u8>, pos: usize) {
        lemma_expression_layout(s, pos);
    }
}

impl Argument for DelayedReference {
    open spec fn tokens(self) -> Seq<Token> {
        seq![self.nodes.0.nodes.0]
    }

    fn push_tokens(&self, out: &mut Vec<Token>) {
        out.push(self.nodes.0.nodes.0);
        proof {
            assert(out@ =~= old(out)@ + self.tokens());
        }
    }

    open spec fn spec_parse(s: Seq<u8>, pos: usize) -> PResult<Self> {
        spec_delayed_reference(s, pos)
    }

    fn parse(input: &[u8], pos: usize) -> (r: PResult<Self>) {
        delayed_reference(input, pos)
    }

    proof fn lemma_layout(s: Seq<u8>, pos: usize) {
        lemma_identifier_layout(s, pos);
    }
}

impl Argument for DelayedData {
    open spec fn tokens(self) -> Seq<Token> {
        seq![self.nodes.0.nodes.0]
    }

    fn push_tokens(&self, out: &mut Vec<Token>) {
        out.push(self.nodes.0.nodes.0);
        proof {
            assert(out@ =~= old(out)@ + self.tokens());
        }
    }

    open spec fn spec_parse(s: Seq<u8>, pos: usize) -> PResult<Self> {
        spec_delayed_data(s, pos)
    }

    fn parse(input: &[u8], pos: usize) -> (r: PResult<Self>) {
        delayed_data(input, pos)
    }

    proof fn lemma_layout(s: Seq<u8>, pos: usize) {
        lemma_identifier_layout(s, pos);
    }
}

impl Argument for EventBasedFlag {
    open spec fn tokens(self) -> Seq<Token> {
        self.nodes.0.tokens()
    }

    fn push_tokens(&self, out: &mut Vec<Token>) {
        self.nodes.0.push_tokens(out);
    }

    open spec fn spec_parse(s: Seq<u8>, pos: usize) -> PResult<Self> {
        spec_event_based_flag(s, pos)
    }

    fn parse(input: &[u8], pos: usize) -> (r: PResult<Self>) {
        event_based_flag(input, pos)
    }

    proof fn lemma_layout(s: Seq<u8>, pos: usize) {
        lemma_expression_layout(s, pos);
    }
}

impl Argument for RemainActiveFlag {
    open spec fn tokens(self) -> Seq<Token> {
        self.nodes.0.tokens()
    }

    fn push_tokens(&self, out: &mut Vec<Token>) {
        self.nodes.0.push_tokens(out);
    }

    open spec fn spec_parse(s: Seq<u8>, pos: usize) -> PResult<Self> {
        spec_remain_active_flag(s, pos)
    }

    fn parse(input: &[u8], pos: usize) -> (r: PResult<Self>) {
        remain_active_flag(input, pos)
    }

    proof fn lemma_layout(s: Seq<u8>, pos: usize) {
        lemma_expression_layout(s, pos);
    }
}

impl Argument for Threshold {
    open spec fn tokens(self) -> Seq<Token> {
        self.nodes.0.tokens()
    }

    fn push_tokens(&self, out: &mut Vec<Token>) {
        self.nodes.0.push_tokens(out);
    }

    open spec fn spec_parse(s: Seq<u8>, pos: usize) -> PResult<Self> {
        spec_threshold(s, pos)
    }

    fn parse(input: &[u8], pos: usize) -> (r: PResult<Self>) {
        threshold(input, pos)
    }

    proof fn lemma_layout(s: Seq<u8>, pos: usize) {
        lemma_expression_layout(s, pos);
    }
}

impl Argument for StartEdgeOffset {
    open spec fn tokens(self) -> Seq<Token> {
        self.nodes.0.tokens()
    }

    fn push_tokens(&self, out: &mut Vec<Token>) {
        self.nodes.0.push_tokens(out);
    }

    open spec fn spec_parse(s: Seq<u8>, pos: usize) -> PResult<Self> {
        spec_start_edge_offset(s, pos)
    }

    fn parse(input: &[u8], pos: usize) -> (r: PResult<Self>) {
        start_edge_offset(input, pos)
    }

    proof fn lemma_layout(s: Seq<u8>, pos: usize) {
        lemma_expression_layout(s, pos);
    }
}

impl Argument for EndEdgeOffset {
    open spec fn tokens(self) -> Seq<Token> {
        self.nodes.0.tokens()
    }

    fn push_tokens(&self, out: &mut Vec<Token>) {
        self.nodes.0.push_tokens(out);
    }

    open spec fn spec_parse(s: Seq<u8>, pos: usize) -> PResult<Self> {
        spec_end_edge_offset(s, pos)
    }

    fn parse(input: &[u8], pos: usize) -> (r: PResult<Self>) {
        end_edge_offset(input, pos)
    }

    proof fn lemma_layout(s: Seq<u8>, pos: usize) {
        lemma_expression_layout(s, pos);
    }
}

} // verus!
