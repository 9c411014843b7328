//! The twelve commands: their syntax tree, their parsers and the dispatcher
//! that chooses among them.

use vstd::prelude::*;
use crate::arguments::{
    Arguments, collect_statement_tokens, lemma_statement_layout, spec_statement,
    statement, statement_tokens,
};
use crate::command::Command;
use crate::error::{Expected, PResult, ParseError, failure_at, spec_alt, spec_failure_at};
use crate::laws::{lemma_check_layout, lemma_dispatch, lemma_keyword_selects};
use crate::layout::{all_commas, comma_count, tiles};
use crate::lexer::{
    Keyword, Paren, Symbol, Token, lemma_slice_fits, skip_trivia, trivia_end, word_at,
};
use crate::operands::{
    Argument, ControlledReferenceEvent, DataEvent, EndEdgeOffset, ReferenceEvent, StartEdgeOffset,
    Threshold, TimingCheckLimit,
};
use crate::tails::{ConditionTail, FlagTail, NotifierTail};

verus! {

/// The arguments of `$setup`: the data event comes first.
pub type SetupArguments = (DataEvent, Symbol, ReferenceEvent, Symbol, TimingCheckLimit, NotifierTail);

/// The arguments of `$hold`, `$recovery`, `$removal` and `$skew`: the
/// reference event comes first.
pub type HoldArguments = (ReferenceEvent, Symbol, DataEvent, Symbol, TimingCheckLimit, NotifierTail);

/// The arguments of `$setuphold` and `$recrem`.
pub type SetupholdArguments = (
    ReferenceEvent,
    Symbol,
    DataEvent,
    Symbol,
    TimingCheckLimit,
    Symbol,
    TimingCheckLimit,
    ConditionTail,
);

/// The arguments of `$timeskew`.
pub type TimeskewArguments = (ReferenceEvent, Symbol, DataEvent, Symbol, TimingCheckLimit, FlagTail);

/// The arguments of `$fullskew`.
pub type FullskewArguments = (
    ReferenceEvent,
    Symbol,
    DataEvent,
    Symbol,
    TimingCheckLimit,
    Symbol,
    TimingCheckLimit,
    FlagTail,
);

/// The arguments of `$period`.
pub type PeriodArguments = (ControlledReferenceEvent, Symbol, TimingCheckLimit, NotifierTail);

/// The arguments of `$width`.
pub type WidthArguments = (
    ControlledReferenceEvent,
    Symbol,
    TimingCheckLimit,
    Symbol,
    Threshold,
    NotifierTail,
);

/// The arguments of `$nocharge`.
pub type NochargeArguments = (
    ReferenceEvent,
    Symbol,
    DataEvent,
    Symbol,
    StartEdgeOffset,
    Symbol,
    EndEdgeOffset,
    NotifierTail,
);

/// One system timing check command.  Each variant owns the node of its
/// command in a box, so that the commands with many arguments do not make
/// every value large.
#[derive(Debug, PartialEq, Eq)]
pub enum SystemTimingCheck {
    SetupTimingCheck(Box<SetupTimingCheck>),
    HoldTimingCheck(Box<HoldTimingCheck>),
    SetupholdTimingCheck(Box<SetupholdTimingCheck>),
    RecoveryTimingCheck(Box<RecoveryTimingCheck>),
    RemovalTimingCheck(Box<RemovalTimingCheck>),
    RecremTimingCheck(Box<RecremTimingCheck>),
    SkewTimingCheck(Box<SkewTimingCheck>),
    TimeskewTimingCheck(Box<TimeskewTimingCheck>),
    FullskewTimingCheck(Box<FullskewTimingCheck>),
    PeriodTimingCheck(Box<PeriodTimingCheck>),
    WidthTimingCheck(Box<WidthTimingCheck>),
    NochargeTimingCheck(Box<NochargeTimingCheck>),
}

/// The `$setup` command: its keyword, its arguments in round brackets and
/// the closing `;`.
///
/// ```text
/// $setup ( data_event , reference_event , timing_check_limit [ , [ notifier ] ] ) ;
/// ```
#[derive(Clone, Copy, Debug, PartialEq, Eq)]
pub struct SetupTimingCheck {
    pub nodes: (Keyword, Paren<SetupArguments>, Symbol),
}

/// The `$hold` command: its keyword, its arguments in round brackets and
/// the closing `;`.
///
/// ```text
/// $hold ( reference_event , data_event , timing_check_limit [ , [ notifier ] ] ) ;
/// ```
#[derive(Clone, Copy, Debug, PartialEq, Eq)]
pub struct HoldTimingCheck {
    pub nodes: (Keyword, Paren<HoldArguments>, Symbol),
}

/// The `$setuphold` command: its keyword, its arguments in round brackets and
/// the closing `;`.
///
/// ```text
/// $setuphold ( reference_event , data_event , timing_check_limit , timing_check_limit
///     [ , [ notifier ] [ , [ timestamp_condition ] [ , [ timecheck_condition ]
///     [ , [ delayed_reference ] [ , [ delayed_data ] ] ] ] ] ] ) ;
/// ```
#[derive(Clone, Copy, Debug, PartialEq, Eq)]
pub struct SetupholdTimingCheck {
    pub nodes: (Keyword, Paren<SetupholdArguments>, Symbol),
}

/// The `$recovery` command: its keyword, its arguments in round brackets and
/// the closing `;`.
///
/// ```text
/// $recovery ( reference_event , data_event , timing_check_limit [ , [ notifier ] ] ) ;
/// ```
#[derive(Clone, Copy, Debug, PartialEq, Eq)]
pub struct RecoveryTimingCheck {
    pub nodes: (Keyword, Paren<HoldArguments>, Symbol),
}

/// The `$removal` command: its keyword, its arguments in round brackets and
/// the closing `;`.
///
/// ```text
/// $removal ( reference_event , data_event , timing_check_limit [ , [ notifier ] ] ) ;
/// ```
#[derive(Clone, Copy, Debug, PartialEq, Eq)]
pub struct RemovalTimingCheck {
    pub nodes: (Keyword, Paren<HoldArguments>, Symbol),
}

/// The `$recrem` command: its keyword, its arguments in round brackets and
/// the closing `;`.
///
/// ```text
/// $recrem ( reference_event , data_event , timing_check_limit , timing_check_limit
///     [ , [ notifier ] [ , [ timestamp_condition ] [ , [ timecheck_condition ]
///     [ , [ delayed_reference ] [ , [ delayed_data ] ] ] ] ] ] ) ;
/// ```
#[derive(Clone, Copy, Debug, PartialEq, Eq)]
pub struct RecremTimingCheck {
    pub nodes: (Keyword, Paren<SetupholdArguments>, Symbol),
}

/// The `$skew` command: its keyword, its arguments in round brackets and
/// the closing `;`.
///
/// ```text
/// $skew ( reference_event , data_event , timing_check_limit [ , [ notifier ] ] ) ;
/// ```
#[derive(Clone, Copy, Debug, PartialEq, Eq)]
pub struct SkewTimingCheck {
    pub nodes: (Keyword, Paren<HoldArguments>, Symbol),
}

/// The `$timeskew` command: its keyword, its arguments in round brackets and
/// the closing `;`.
///
/// ```text
/// $timeskew ( reference_event , data_event , timing_check_limit
///     [ , [ notifier ] [ , [ event_based_flag ] [ , [ remain_active_flag ] ] ] ] ) ;
/// ```
#[derive(Clone, Copy, Debug, PartialEq, Eq)]
pub struct TimeskewTimingCheck {
    pub nodes: (Keyword, Paren<TimeskewArguments>, Symbol),
}

/// The `$fullskew` command: its keyword, its arguments in round brackets and
/// the closing `;`.
///
/// ```text
/// $fullskew ( reference_event , data_event , timing_check_limit , timing_check_limit
///     [ , [ notifier ] [ , [ event_based_flag ] [ , [ remain_active_flag ] ] ] ] ) ;
/// ```
#[derive(Clone, Copy, Debug, PartialEq, Eq)]
pub struct FullskewTimingCheck {
    pub nodes: (Keyword, Paren<FullskewArguments>, Symbol),
}

/// The `$period` command: its keyword, its arguments in round brackets and
/// the closing `;`.
///
/// ```text
/// $period ( controlled_reference_event , timing_check_limit [ , [ notifier ] ] ) ;
/// ```
#[derive(Clone, Copy, Debug, PartialEq, Eq)]
pub struct PeriodTimingCheck {
    pub nodes: (Keyword, Paren<PeriodArguments>, Symbol),
}

/// The `$width` command: its keyword, its arguments in round brackets and
/// the closing `;`.
///
/// ```text
/// $width ( controlled_reference_event , timing_check_limit , threshold [ , [ notifier ] ] ) ;
/// ```
#[derive(Clone, Copy, Debug, PartialEq, Eq)]
pub struct WidthTimingCheck {
    pub nodes: (Keyword, Paren<WidthArguments>, Symbol),
}

/// The `$nocharge` command: its keyword, its arguments in round brackets and
/// the closing `;`.
///
/// ```text
/// $nocharge ( reference_event , data_event , start_edge_offset , end_edge_offset
///     [ , [ notifier ] ] ) ;
/// ```
#[derive(Clone, Copy, Debug, PartialEq, Eq)]
pub struct NochargeTimingCheck {
    pub nodes: (Keyword, Paren<NochargeArguments>, Symbol),
}

impl Clone for SystemTimingCheck {
    fn clone(&self) -> (r: Self)
        ensures
            r == *self,
    {
        match self {
            SystemTimingCheck::SetupTimingCheck(x) => {
                SystemTimingCheck::SetupTimingCheck(Box::new(**x))
            },
            SystemTimingCheck::HoldTimingCheck(x) => {
                SystemTimingCheck::HoldTimingCheck(Box::new(**x))
            },
            SystemTimingCheck::SetupholdTimingCheck(x) => {
                SystemTimingCheck::SetupholdTimingCheck(Box::new(**x))
            },
            SystemTimingCheck::RecoveryTimingCheck(x) => {
                SystemTimingCheck::RecoveryTimingCheck(Box::new(**x))
            },
            SystemTimingCheck::RemovalTimingCheck(x) => {
                SystemTimingCheck::RemovalTimingCheck(Box::new(**x))
            },
            SystemTimingCheck::RecremTimingCheck(x) => {
                SystemTimingCheck::RecremTimingCheck(Box::new(**x))
            },
            SystemTimingCheck::SkewTimingCheck(x) => {
                SystemTimingCheck::SkewTimingCheck(Box::new(**x))
            },
            SystemTimingCheck::TimeskewTimingCheck(x) => {
                SystemTimingCheck::TimeskewTimingCheck(Box::new(**x))
            },
            SystemTimingCheck::FullskewTimingCheck(x) => {
                SystemTimingCheck::FullskewTimingCheck(Box::new(**x))
            },
            SystemTimingCheck::PeriodTimingCheck(x) => {
                SystemTimingCheck::PeriodTimingCheck(Box::new(**x))
            },
            SystemTimingCheck::WidthTimingCheck(x) => {
                SystemTimingCheck::WidthTimingCheck(Box::new(**x))
            },
            SystemTimingCheck::NochargeTimingCheck(x) => {
                SystemTimingCheck::NochargeTimingCheck(Box::new(**x))
            },
        }
    }
}

impl SystemTimingCheck {
    /// The command that the node stands for.
    pub open spec fn spec_command(self) -> Command {
        match self {
            SystemTimingCheck::SetupTimingCheck(_) => Command::Setup,
            SystemTimingCheck::HoldTimingCheck(_) => Command::Hold,
            SystemTimingCheck::SetupholdTimingCheck(_) => Command::Setuphold,
            SystemTimingCheck::RecoveryTimingCheck(_) => Command::Recovery,
            SystemTimingCheck::RemovalTimingCheck(_) => Command::Removal,
            SystemTimingCheck::RecremTimingCheck(_) => Command::Recrem,
            SystemTimingCheck::SkewTimingCheck(_) => Command::Skew,
            SystemTimingCheck::TimeskewTimingCheck(_) => Command::Timeskew,
            SystemTimingCheck::FullskewTimingCheck(_) => Command::Fullskew,
            SystemTimingCheck::PeriodTimingCheck(_) => Command::Period,
            SystemTimingCheck::WidthTimingCheck(_) => Command::Width,
            SystemTimingCheck::NochargeTimingCheck(_) => Command::Nocharge,
        }
    }

    /// The command that the node stands for.
    pub fn command(&self) -> (r: Command)
        ensures
            r == self.spec_command(),
    {
        match self {
            SystemTimingCheck::SetupTimingCheck(_) => Command::Setup,
            SystemTimingCheck::HoldTimingCheck(_) => Command::Hold,
            SystemTimingCheck::SetupholdTimingCheck(_) => Command::Setuphold,
            SystemTimingCheck::RecoveryTimingCheck(_) => Command::Recovery,
            SystemTimingCheck::RemovalTimingCheck(_) => Command::Removal,
            SystemTimingCheck::RecremTimingCheck(_) => Command::Recrem,
            SystemTimingCheck::SkewTimingCheck(_) => Command::Skew,
            SystemTimingCheck::TimeskewTimingCheck(_) => Command::Timeskew,
            SystemTimingCheck::FullskewTimingCheck(_) => Command::Fullskew,
            SystemTimingCheck::PeriodTimingCheck(_) => Command::Period,
            SystemTimingCheck::WidthTimingCheck(_) => Command::Width,
            SystemTimingCheck::NochargeTimingCheck(_) => Command::Nocharge,
        }
    }

    /// The keyword of the command.
    pub open spec fn keyword(self) -> Keyword {
        match self {
            SystemTimingCheck::SetupTimingCheck(x) => x.nodes.0,
            SystemTimingCheck::HoldTimingCheck(x) => x.nodes.0,
            SystemTimingCheck::SetupholdTimingCheck(x) => x.nodes.0,
            SystemTimingCheck::RecoveryTimingCheck(x) => x.nodes.0,
            SystemTimingCheck::RemovalTimingCheck(x) => x.nodes.0,
            SystemTimingCheck::RecremTimingCheck(x) => x.nodes.0,
            SystemTimingCheck::SkewTimingCheck(x) => x.nodes.0,
            SystemTimingCheck::TimeskewTimingCheck(x) => x.nodes.0,
            SystemTimingCheck::FullskewTimingCheck(x) => x.nodes.0,
            SystemTimingCheck::PeriodTimingCheck(x) => x.nodes.0,
            SystemTimingCheck::WidthTimingCheck(x) => x.nodes.0,
            SystemTimingCheck::NochargeTimingCheck(x) => x.nodes.0,
        }
    }

    /// The bracket that opens the arguments.
    pub open spec fn open(self) -> Symbol {
        match self {
            SystemTimingCheck::SetupTimingCheck(x) => x.nodes.1.nodes.0,
            SystemTimingCheck::HoldTimingCheck(x) => x.nodes.1.nodes.0,
            SystemTimingCheck::SetupholdTimingCheck(x) => x.nodes.1.nodes.0,
            SystemTimingCheck::RecoveryTimingCheck(x) => x.nodes.1.nodes.0,
            SystemTimingCheck::RemovalTimingCheck(x) => x.nodes.1.nodes.0,
            SystemTimingCheck::RecremTimingCheck(x) => x.nodes.1.nodes.0,
            SystemTimingCheck::SkewTimingCheck(x) => x.nodes.1.nodes.0,
            SystemTimingCheck::TimeskewTimingCheck(x) => x.nodes.1.nodes.0,
            SystemTimingCheck::FullskewTimingCheck(x) => x.nodes.1.nodes.0,
            SystemTimingCheck::PeriodTimingCheck(x) => x.nodes.1.nodes.0,
            SystemTimingCheck::WidthTimingCheck(x) => x.nodes.1.nodes.0,
            SystemTimingCheck::NochargeTimingCheck(x) => x.nodes.1.nodes.0,
        }
    }

    /// The bracket that closes the arguments.
    pub open spec fn close(self) -> Symbol {
        match self {
            SystemTimingCheck::SetupTimingCheck(x) => x.nodes.1.nodes.2,
            SystemTimingCheck::HoldTimingCheck(x) => x.nodes.1.nodes.2,
            SystemTimingCheck::SetupholdTimingCheck(x) => x.nodes.1.nodes.2,
            SystemTimingCheck::RecoveryTimingCheck(x) => x.nodes.1.nodes.2,
            SystemTimingCheck::RemovalTimingCheck(x) => x.nodes.1.nodes.2,
            SystemTimingCheck::RecremTimingCheck(x) => x.nodes.1.nodes.2,
            SystemTimingCheck::SkewTimingCheck(x) => x.nodes.1.nodes.2,
            SystemTimingCheck::TimeskewTimingCheck(x) => x.nodes.1.nodes.2,
            SystemTimingCheck::FullskewTimingCheck(x) => x.nodes.1.nodes.2,
            SystemTimingCheck::PeriodTimingCheck(x) => x.nodes.1.nodes.2,
            SystemTimingCheck::WidthTimingCheck(x) => x.nodes.1.nodes.2,
            SystemTimingCheck::NochargeTimingCheck(x) => x.nodes.1.nodes.2,
        }
    }

    /// The `;` that ends the command.
    pub open spec fn terminator(self) -> Symbol {
        match self {
            SystemTimingCheck::SetupTimingCheck(x) => x.nodes.2,
            SystemTimingCheck::HoldTimingCheck(x) => x.nodes.2,
            SystemTimingCheck::SetupholdTimingCheck(x) => x.nodes.2,
            SystemTimingCheck::RecoveryTimingCheck(x) => x.nodes.2,
            SystemTimingCheck::RemovalTimingCheck(x) => x.nodes.2,
            SystemTimingCheck::RecremTimingCheck(x) => x.nodes.2,
            SystemTimingCheck::SkewTimingCheck(x) => x.nodes.2,
            SystemTimingCheck::TimeskewTimingCheck(x) => x.nodes.2,
            SystemTimingCheck::FullskewTimingCheck(x) => x.nodes.2,
            SystemTimingCheck::PeriodTimingCheck(x) => x.nodes.2,
            SystemTimingCheck::WidthTimingCheck(x) => x.nodes.2,
            SystemTimingCheck::NochargeTimingCheck(x) => x.nodes.2,
        }
    }

    /// All tokens of the command, in the order of the input.
    pub open spec fn tokens(self) -> Seq<Token> {
        match self {
            SystemTimingCheck::SetupTimingCheck(x) => statement_tokens(x.nodes),
            SystemTimingCheck::HoldTimingCheck(x) => statement_tokens(x.nodes),
            SystemTimingCheck::SetupholdTimingCheck(x) => statement_tokens(x.nodes),
            SystemTimingCheck::RecoveryTimingCheck(x) => statement_tokens(x.nodes),
            SystemTimingCheck::RemovalTimingCheck(x) => statement_tokens(x.nodes),
            SystemTimingCheck::RecremTimingCheck(x) => statement_tokens(x.nodes),
            SystemTimingCheck::SkewTimingCheck(x) => statement_tokens(x.nodes),
            SystemTimingCheck::TimeskewTimingCheck(x) => statement_tokens(x.nodes),
            SystemTimingCheck::FullskewTimingCheck(x) => statement_tokens(x.nodes),
            SystemTimingCheck::PeriodTimingCheck(x) => statement_tokens(x.nodes),
            SystemTimingCheck::WidthTimingCheck(x) => statement_tokens(x.nodes),
            SystemTimingCheck::NochargeTimingCheck(x) => statement_tokens(x.nodes),
        }
    }

    /// All tokens of the command, in the order of the input.
    pub fn collect_tokens(&self) -> (r: Vec<Token>)
        ensures
            r@ == self.tokens(),
    {
        match self {
            SystemTimingCheck::SetupTimingCheck(x) => collect_statement_tokens(&x.nodes),
            SystemTimingCheck::HoldTimingCheck(x) => collect_statement_tokens(&x.nodes),
            SystemTimingCheck::SetupholdTimingCheck(x) => collect_statement_tokens(&x.nodes),
            SystemTimingCheck::RecoveryTimingCheck(x) => collect_statement_tokens(&x.nodes),
            SystemTimingCheck::RemovalTimingCheck(x) => collect_statement_tokens(&x.nodes),
            SystemTimingCheck::RecremTimingCheck(x) => collect_statement_tokens(&x.nodes),
            SystemTimingCheck::SkewTimingCheck(x) => collect_statement_tokens(&x.nodes),
            SystemTimingCheck::TimeskewTimingCheck(x) => collect_statement_tokens(&x.nodes),
            SystemTimingCheck::FullskewTimingCheck(x) => collect_statement_tokens(&x.nodes),
            SystemTimingCheck::PeriodTimingCheck(x) => collect_statement_tokens(&x.nodes),
            SystemTimingCheck::WidthTimingCheck(x) => collect_statement_tokens(&x.nodes),
            SystemTimingCheck::NochargeTimingCheck(x) => collect_statement_tokens(&x.nodes),
        }
    }

    /// The commas between the brackets, in the order of the input.
    pub open spec fn commas(self) -> Seq<Symbol> {
        match self {
            SystemTimingCheck::SetupTimingCheck(x) => x.nodes.1.nodes.1.commas(),
            SystemTimingCheck::HoldTimingCheck(x) => x.nodes.1.nodes.1.commas(),
            SystemTimingCheck::SetupholdTimingCheck(x) => x.nodes.1.nodes.1.commas(),
            SystemTimingCheck::RecoveryTimingCheck(x) => x.nodes.1.nodes.1.commas(),
            SystemTimingCheck::RemovalTimingCheck(x) => x.nodes.1.nodes.1.commas(),
            SystemTimingCheck::RecremTimingCheck(x) => x.nodes.1.nodes.1.commas(),
            SystemTimingCheck::SkewTimingCheck(x) => x.nodes.1.nodes.1.commas(),
            SystemTimingCheck::TimeskewTimingCheck(x) => x.nodes.1.nodes.1.commas(),
            SystemTimingCheck::FullskewTimingCheck(x) => x.nodes.1.nodes.1.commas(),
            SystemTimingCheck::PeriodTimingCheck(x) => x.nodes.1.nodes.1.commas(),
            SystemTimingCheck::WidthTimingCheck(x) => x.nodes.1.nodes.1.commas(),
            SystemTimingCheck::NochargeTimingCheck(x) => x.nodes.1.nodes.1.commas(),
        }
    }

    /// The number of tiers of the optional list that are there.
    pub open spec fn tiers(self) -> nat {
        match self {
            SystemTimingCheck::SetupTimingCheck(x) => x.nodes.1.nodes.1.tiers(),
            SystemTimingCheck::HoldTimingCheck(x) => x.nodes.1.nodes.1.tiers(),
            SystemTimingCheck::SetupholdTimingCheck(x) => x.nodes.1.nodes.1.tiers(),
            SystemTimingCheck::RecoveryTimingCheck(x) => x.nodes.1.nodes.1.tiers(),
            SystemTimingCheck::RemovalTimingCheck(x) => x.nodes.1.nodes.1.tiers(),
            SystemTimingCheck::RecremTimingCheck(x) => x.nodes.1.nodes.1.tiers(),
            SystemTimingCheck::SkewTimingCheck(x) => x.nodes.1.nodes.1.tiers(),
            SystemTimingCheck::TimeskewTimingCheck(x) => x.nodes.1.nodes.1.tiers(),
            SystemTimingCheck::FullskewTimingCheck(x) => x.nodes.1.nodes.1.tiers(),
            SystemTimingCheck::PeriodTimingCheck(x) => x.nodes.1.nodes.1.tiers(),
            SystemTimingCheck::WidthTimingCheck(x) => x.nodes.1.nodes.1.tiers(),
            SystemTimingCheck::NochargeTimingCheck(x) => x.nodes.1.nodes.1.tiers(),
        }
    }

    /// Whether tier `k` of the optional list is there, counted from 0.
    pub open spec fn present(self, k: nat) -> bool {
        match self {
            SystemTimingCheck::SetupTimingCheck(x) => x.nodes.1.nodes.1.present(k),
            SystemTimingCheck::HoldTimingCheck(x) => x.nodes.1.nodes.1.present(k),
            SystemTimingCheck::SetupholdTimingCheck(x) => x.nodes.1.nodes.1.present(k),
            SystemTimingCheck::RecoveryTimingCheck(x) => x.nodes.1.nodes.1.present(k),
            SystemTimingCheck::RemovalTimingCheck(x) => x.nodes.1.nodes.1.present(k),
            SystemTimingCheck::RecremTimingCheck(x) => x.nodes.1.nodes.1.present(k),
            SystemTimingCheck::SkewTimingCheck(x) => x.nodes.1.nodes.1.present(k),
            SystemTimingCheck::TimeskewTimingCheck(x) => x.nodes.1.nodes.1.present(k),
            SystemTimingCheck::FullskewTimingCheck(x) => x.nodes.1.nodes.1.present(k),
            SystemTimingCheck::PeriodTimingCheck(x) => x.nodes.1.nodes.1.present(k),
            SystemTimingCheck::WidthTimingCheck(x) => x.nodes.1.nodes.1.present(k),
            SystemTimingCheck::NochargeTimingCheck(x) => x.nodes.1.nodes.1.present(k),
        }
    }

    /// The data event, for the commands that relate two events.
    pub open spec fn data_event(self) -> Option<DataEvent> {
        match self {
            SystemTimingCheck::SetupTimingCheck(x) => Some(x.nodes.1.nodes.1.0),
            SystemTimingCheck::HoldTimingCheck(x) => Some(x.nodes.1.nodes.1.2),
            SystemTimingCheck::SetupholdTimingCheck(x) => Some(x.nodes.1.nodes.1.2),
            SystemTimingCheck::RecoveryTimingCheck(x) => Some(x.nodes.1.nodes.1.2),
            SystemTimingCheck::RemovalTimingCheck(x) => Some(x.nodes.1.nodes.1.2),
            SystemTimingCheck::RecremTimingCheck(x) => Some(x.nodes.1.nodes.1.2),
            SystemTimingCheck::SkewTimingCheck(x) => Some(x.nodes.1.nodes.1.2),
            SystemTimingCheck::TimeskewTimingCheck(x) => Some(x.nodes.1.nodes.1.2),
            SystemTimingCheck::FullskewTimingCheck(x) => Some(x.nodes.1.nodes.1.2),
            SystemTimingCheck::PeriodTimingCheck(_) => None,
            SystemTimingCheck::WidthTimingCheck(_) => None,
            SystemTimingCheck::NochargeTimingCheck(x) => Some(x.nodes.1.nodes.1.2),
        }
    }

    /// The reference event, for the commands that relate two events.
    pub open spec fn reference_event(self) -> Option<ReferenceEvent> {
        match self {
            SystemTimingCheck::SetupTimingCheck(x) => Some(x.nodes.1.nodes.1.2),
            SystemTimingCheck::HoldTimingCheck(x) => Some(x.nodes.1.nodes.1.0),
            SystemTimingCheck::SetupholdTimingCheck(x) => Some(x.nodes.1.nodes.1.0),
            SystemTimingCheck::RecoveryTimingCheck(x) => Some(x.nodes.1.nodes.1.0),
            SystemTimingCheck::RemovalTimingCheck(x) => Some(x.nodes.1.nodes.1.0),
            SystemTimingCheck::RecremTimingCheck(x) => Some(x.nodes.1.nodes.1.0),
            SystemTimingCheck::SkewTimingCheck(x) => Some(x.nodes.1.nodes.1.0),
            SystemTimingCheck::TimeskewTimingCheck(x) => Some(x.nodes.1.nodes.1.0),
            SystemTimingCheck::FullskewTimingCheck(x) => Some(x.nodes.1.nodes.1.0),
            SystemTimingCheck::PeriodTimingCheck(_) => None,
            SystemTimingCheck::WidthTimingCheck(_) => None,
            SystemTimingCheck::NochargeTimingCheck(x) => Some(x.nodes.1.nodes.1.0),
        }
    }
}

/// What [`setup_timing_check`] returns at `pos` of `s`.
pub open spec fn spec_setup_timing_check(s: Seq<u8>, pos: usize) -> PResult<SetupTimingCheck> {
    match spec_statement::<SetupArguments>(s, pos, Command::Setup) {
        Ok((nodes, next)) => Ok((SetupTimingCheck { nodes }, next)),
        Err(e) => Err(e),
    }
}

/// What [`hold_timing_check`] returns at `pos` of `s`.
pub open spec fn spec_hold_timing_check(s: Seq<u8>, pos: usize) -> PResult<HoldTimingCheck> {
    match spec_statement::<HoldArguments>(s, pos, Command::Hold) {
        Ok((nodes, next)) => Ok((HoldTimingCheck { nodes }, next)),
        Err(e) => Err(e),
    }
}

/// What [`setuphold_timing_check`] returns at `pos` of `s`.
pub open spec fn spec_setuphold_timing_check(s: Seq<u8>, pos: usize) -> PResult<SetupholdTimingCheck> {
    match spec_statement::<SetupholdArguments>(s, pos, Command::Setuphold) {
        Ok((nodes, next)) => Ok((SetupholdTimingCheck { nodes }, next)),
        Err(e) => Err(e),
    }
}

/// What [`recovery_timing_check`] returns at `pos` of `s`.
pub open spec fn spec_recovery_timing_check(s: Seq<u8>, pos: usize) -> PResult<RecoveryTimingCheck> {
    match spec_statement::<HoldArguments>(s, pos, Command::Recovery) {
        Ok((nodes, next)) => Ok((RecoveryTimingCheck { nodes }, next)),
        Err(e) => Err(e),
    }
}

/// What [`removal_timing_check`] returns at `pos` of `s`.
pub open spec fn spec_removal_timing_check(s: Seq<u8>, pos: usize) -> PResult<RemovalTimingCheck> {
    match spec_statement::<HoldArguments>(s, pos, Command::Removal) {
        Ok((nodes, next)) => Ok((RemovalTimingCheck { nodes }, next)),
        Err(e) => Err(e),
    }
}

/// What [`recrem_timing_check`] returns at `pos` of `s`.
pub open spec fn spec_recrem_timing_check(s: Seq<u8>, pos: usize) -> PResult<RecremTimingCheck> {
    match spec_statement::<SetupholdArguments>(s, pos, Command::Recrem) {
        Ok((nodes, next)) => Ok((RecremTimingCheck { nodes }, next)),
        Err(e) => Err(e),
    }
}

/// What [`skew_timing_check`] returns at `pos` of `s`.
pub open spec fn spec_skew_timing_check(s: Seq<u8>, pos: usize) -> PResult<SkewTimingCheck> {
    match spec_statement::<HoldArguments>(s, pos, Command::Skew) {
        Ok((nodes, next)) => Ok((SkewTimingCheck { nodes }, next)),
        Err(e) => Err(e),
    }
}

/// What [`timeskew_timing_check`] returns at `pos` of `s`.
pub open spec fn spec_timeskew_timing_check(s: Seq<u8>, pos: usize) -> PResult<TimeskewTimingCheck> {
    match spec_statement::<TimeskewArguments>(s, pos, Command::Timeskew) {
        Ok((nodes, next)) => Ok((TimeskewTimingCheck { nodes }, next)),
        Err(e) => Err(e),
    }
}

/// What [`fullskew_timing_check`] returns at `pos` of `s`.
pub open spec fn spec_fullskew_timing_check(s: Seq<u8>, pos: usize) -> PResult<FullskewTimingCheck> {
    match spec_statement::<FullskewArguments>(s, pos, Command::Fullskew) {
        Ok((nodes, next)) => Ok((FullskewTimingCheck { nodes }, next)),
        Err(e) => Err(e),
    }
}

/// What [`period_timing_check`] returns at `pos` of `s`.
pub open spec fn spec_period_timing_check(s: Seq<u8>, pos: usize) -> PResult<PeriodTimingCheck> {
    match spec_statement::<PeriodArguments>(s, pos, Command::Period) {
        Ok((nodes, next)) => Ok((PeriodTimingCheck { nodes }, next)),
        Err(e) => Err(e),
    }
}

/// What [`width_timing_check`] returns at `pos` of `s`.
pub open spec fn spec_width_timing_check(s: Seq<u8>, pos: usize) -> PResult<WidthTimingCheck> {
    match spec_statement::<WidthArguments>(s, pos, Command::Width) {
        Ok((nodes, next)) => Ok((WidthTimingCheck { nodes }, next)),
        Err(e) => Err(e),
    }
}

/// What [`nocharge_timing_check`] returns at `pos` of `s`.
pub open spec fn spec_nocharge_timing_check(s: Seq<u8>, pos: usize) -> PResult<NochargeTimingCheck> {
    match spec_statement::<NochargeArguments>(s, pos, Command::Nocharge) {
        Ok((nodes, next)) => Ok((NochargeTimingCheck { nodes }, next)),
        Err(e) => Err(e),
    }
}

/// Whether the keyword of `command` is the token behind the trivia at `pos`.
pub open spec fn keyword_at(s: Seq<u8>, pos: usize, command: Command) -> bool {
    word_at(s, trivia_end(s, pos as int), command.spec_keyword())
}

/// Whether the first token of `first` begins before the first token of
/// `second`.
pub open spec fn begins_before(first: Seq<Token>, second: Seq<Token>) -> bool {
    first.len() > 0 && second.len() > 0 && first[0].start < second[0].start
}

/// Whether the two events of `v` stand in the order of their command: in
/// `$setup` the first argument, the one behind the opening bracket, is the
/// data event and the reference event begins behind it; in every other
/// command that relates two events the reference event comes first.
pub open spec fn events_in_order(v: SystemTimingCheck) -> bool {
    match (v.data_event(), v.reference_event()) {
        (Some(data), Some(reference)) => if v.spec_command() == Command::Setup {
            v.tokens()[2] == data.tokens()[0] && begins_before(data.tokens(), reference.tokens())
        } else {
            v.tokens()[2] == reference.tokens()[0] && begins_before(
                reference.tokens(),
                data.tokens(),
            )
        },
        _ => v.spec_command() == Command::Period || v.spec_command() == Command::Width,
    }
}

/// What holds of the node `v` that the command `command` gave at `pos`, with
/// `next` the position behind it.
pub open spec fn parsed(
    s: Seq<u8>,
    pos: usize,
    command: Command,
    v: SystemTimingCheck,
    next: usize,
) -> bool {
    &&& keyword_at(s, pos, command)
    &&& v.spec_command() == command
    &&& tiles(s, v.tokens(), pos, next)
    &&& v.tokens().first() == v.keyword().nodes.0
    &&& v.tokens().last() == v.terminator().nodes.0
    &&& v.keyword().nodes.0.spec_text(s) == command.spec_keyword()
    &&& v.terminator().nodes.0.spec_text(s) == seq![';' as u8]
    &&& v.open().nodes.0.spec_text(s) == seq!['(' as u8]
    &&& v.close().nodes.0.spec_text(s) == seq![')' as u8]
    &&& all_commas(s, v.commas())
    &&& comma_count(s, v.tokens()) == command.spec_positional_arguments() - 1 + v.tiers()
    &&& events_in_order(v)
}

/// The command `command` at `pos` of `s`, as a node of the common type.
pub open spec fn spec_check(s: Seq<u8>, pos: usize, command: Command) -> PResult<
    SystemTimingCheck,
> {
    match command {
        Command::Setup => match spec_setup_timing_check(s, pos) {
            Ok((x, next)) => Ok((SystemTimingCheck::SetupTimingCheck(Box::new(x)), next)),
            Err(e) => Err(e),
        },
        Command::Hold => match spec_hold_timing_check(s, pos) {
            Ok((x, next)) => Ok((SystemTimingCheck::HoldTimingCheck(Box::new(x)), next)),
            Err(e) => Err(e),
        },
        Command::Setuphold => match spec_setuphold_timing_check(s, pos) {
            Ok((x, next)) => Ok((SystemTimingCheck::SetupholdTimingCheck(Box::new(x)), next)),
            Err(e) => Err(e),
        },
        Command::Recovery => match spec_recovery_timing_check(s, pos) {
            Ok((x, next)) => Ok((SystemTimingCheck::RecoveryTimingCheck(Box::new(x)), next)),
            Err(e) => Err(e),
        },
        Command::Removal => match spec_removal_timing_check(s, pos) {
            Ok((x, next)) => Ok((SystemTimingCheck::RemovalTimingCheck(Box::new(x)), next)),
            Err(e) => Err(e),
        },
        Command::Recrem => match spec_recrem_timing_check(s, pos) {
            Ok((x, next)) => Ok((SystemTimingCheck::RecremTimingCheck(Box::new(x)), next)),
            Err(e) => Err(e),
        },
        Command::Skew => match spec_skew_timing_check(s, pos) {
            Ok((x, next)) => Ok((SystemTimingCheck::SkewTimingCheck(Box::new(x)), next)),
            Err(e) => Err(e),
        },
        Command::Timeskew => match spec_timeskew_timing_check(s, pos) {
            Ok((x, next)) => Ok((SystemTimingCheck::TimeskewTimingCheck(Box::new(x)), next)),
            Err(e) => Err(e),
        },
        Command::Fullskew => match spec_fullskew_timing_check(s, pos) {
            Ok((x, next)) => Ok((SystemTimingCheck::FullskewTimingCheck(Box::new(x)), next)),
            Err(e) => Err(e),
        },
        Command::Period => match spec_period_timing_check(s, pos) {
            Ok((x, next)) => Ok((SystemTimingCheck::PeriodTimingCheck(Box::new(x)), next)),
            Err(e) => Err(e),
        },
        Command::Width => match spec_width_timing_check(s, pos) {
            Ok((x, next)) => Ok((SystemTimingCheck::WidthTimingCheck(Box::new(x)), next)),
            Err(e) => Err(e),
        },
        Command::Nocharge => match spec_nocharge_timing_check(s, pos) {
            Ok((x, next)) => Ok((SystemTimingCheck::NochargeTimingCheck(Box::new(x)), next)),
            Err(e) => Err(e),
        },
    }
}

/// What [`system_timing_check`] returns at `pos` of `s`: the first of the
/// twelve commands, in their order, that does not fail softly; a soft
/// failure where each of them does.
pub open spec fn spec_system_timing_check(s: Seq<u8>, pos: usize) -> PResult<SystemTimingCheck> {
    let none = Err(
        ParseError::Soft(spec_failure_at(s, trivia_end(s, pos as int), Expected::AnyKeyword)),
    );
    spec_alt(spec_check(s, pos, Command::Setup),
    spec_alt(spec_check(s, pos, Command::Hold),
    spec_alt(spec_check(s, pos, Command::Setuphold),
    spec_alt(spec_check(s, pos, Command::Recovery),
    spec_alt(spec_check(s, pos, Command::Removal),
    spec_alt(spec_check(s, pos, Command::Recrem),
    spec_alt(spec_check(s, pos, Command::Skew),
    spec_alt(spec_check(s, pos, Command::Timeskew),
    spec_alt(spec_check(s, pos, Command::Fullskew),
    spec_alt(spec_check(s, pos, Command::Period),
    spec_alt(spec_check(s, pos, Command::Width),
    spec_alt(spec_check(s, pos, Command::Nocharge),
    none))))))))))))
}

/// Parses the `$setup` command behind the trivia at `pos`:
///
/// ```text
/// $setup ( data_event , reference_event , timing_check_limit [ , [ notifier ] ] ) ;
/// ```
///
/// The failure is soft where the keyword is not there, and hard wherever the
/// command breaks off behind its keyword.
pub fn setup_timing_check(input: &[u8], pos: usize) -> (r: PResult<SetupTimingCheck>)
    ensures
        r == spec_setup_timing_check(input@, pos),
        r matches Err(ParseError::Soft(_)) <==> !keyword_at(input@, pos, Command::Setup),
        r matches Ok((x, next)) ==> tiles(input@, statement_tokens(x.nodes), pos, next),
{
    proof {
        lemma_slice_fits(input);
        lemma_statement_layout::<SetupArguments>(input@, pos, Command::Setup);
    }
    let (nodes, next) = statement::<SetupArguments>(input, pos, Command::Setup)?;
    Ok((SetupTimingCheck { nodes }, next))
}

/// Parses the `$hold` command behind the trivia at `pos`:
///
/// ```text
/// $hold ( reference_event , data_event , timing_check_limit [ , [ notifier ] ] ) ;
/// ```
///
/// The failure is soft where the keyword is not there, and hard wherever the
/// command breaks off behind its keyword.
pub fn hold_timing_check(input: &[u8], pos: usize) -> (r: PResult<HoldTimingCheck>)
    ensures
        r == spec_hold_timing_check(input@, pos),
        r matches Err(ParseError::Soft(_)) <==> !keyword_at(input@, pos, Command::Hold),
        r matches Ok((x, next)) ==> tiles(input@, statement_tokens(x.nodes), pos, next),
{
    proof {
        lemma_slice_fits(input);
        lemma_statement_layout::<HoldArguments>(input@, pos, Command::Hold);
    }
    let (nodes, next) = statement::<HoldArguments>(input, pos, Command::Hold)?;
    Ok((HoldTimingCheck { nodes }, next))
}

/// Parses the `$setuphold` command behind the trivia at `pos`:
///
/// ```text
/// $setuphold ( reference_event , data_event , timing_check_limit , timing_check_limit
///     [ , [ notifier ] [ , [ timestamp_condition ] [ , [ timecheck_condition ]
///     [ , [ delayed_reference ] [ , [ delayed_data ] ] ] ] ] ] ) ;
/// ```
///
/// The failure is soft where the keyword is not there, and hard wherever the
/// command breaks off behind its keyword.
pub fn setuphold_timing_check(input: &[u8], pos: usize) -> (r: PResult<SetupholdTimingCheck>)
    ensures
        r == spec_setuphold_timing_check(input@, pos),
        r matches Err(ParseError::Soft(_)) <==> !keyword_at(input@, pos, Command::Setuphold),
        r matches Ok((x, next)) ==> tiles(input@, statement_tokens(x.nodes), pos, next),
{
    proof {
        lemma_slice_fits(input);
        lemma_statement_layout::<SetupholdArguments>(input@, pos, Command::Setuphold);
    }
    let (nodes, next) = statement::<SetupholdArguments>(input, pos, Command::Setuphold)?;
    Ok((SetupholdTimingCheck { nodes }, next))
}

/// Parses the `$recovery` command behind the trivia at `pos`:
///
/// ```text
/// $recovery ( reference_event , data_event , timing_check_limit [ , [ notifier ] ] ) ;
/// ```
///
/// The failure is soft where the keyword is not there, and hard wherever the
/// command breaks off behind its keyword.
pub fn recovery_timing_check(input: &[u8], pos: usize) -> (r: PResult<RecoveryTimingCheck>)
    ensures
        r == spec_recovery_timing_check(input@, pos),
        r matches Err(ParseError::Soft(_)) <==> !keyword_at(input@, pos, Command::Recovery),
        r matches Ok((x, next)) ==> tiles(input@, statement_tokens(x.nodes), pos, next),
{
    proof {
        lemma_slice_fits(input);
        lemma_statement_layout::<HoldArguments>(input@, pos, Command::Recovery);
    }
    let (nodes, next) = statement::<HoldArguments>(input, pos, Command::Recovery)?;
    Ok((RecoveryTimingCheck { nodes }, next))
}

/// Parses the `$removal` command behind the trivia at `pos`:
///
/// ```text
/// $removal ( reference_event , data_event , timing_check_limit [ , [ notifier ] ] ) ;
/// ```
///
/// The failure is soft where the keyword is not there, and hard wherever the
/// command breaks off behind its keyword.
pub fn removal_timing_check(input: &[u8], pos: usize) -> (r: PResult<RemovalTimingCheck>)
    ensures
        r == spec_removal_timing_check(input@, pos),
        r matches Err(ParseError::Soft(_)) <==> !keyword_at(input@, pos, Command::Removal),
        r matches Ok((x, next)) ==> tiles(input@, statement_tokens(x.nodes), pos, next),
{
    proof {
        lemma_slice_fits(input);
        lemma_statement_layout::<HoldArguments>(input@, pos, Command::Removal);
    }
    let (nodes, next) = statement::<HoldArguments>(input, pos, Command::Removal)?;
    Ok((RemovalTimingCheck { nodes }, next))
}

/// Parses the `$recrem` command behind the trivia at `pos`:
///
/// ```text
/// $recrem ( reference_event , data_event , timing_check_limit , timing_check_limit
///     [ , [ notifier ] [ , [ timestamp_condition ] [ , [ timecheck_condition ]
///     [ , [ delayed_reference ] [ , [ delayed_data ] ] ] ] ] ] ) ;
/// ```
///
/// The failure is soft where the keyword is not there, and hard wherever the
/// command breaks off behind its keyword.
pub fn recrem_timing_check(input: &[u8], pos: usize) -> (r: PResult<RecremTimingCheck>)
    ensures
        r == spec_recrem_timing_check(input@, pos),
        r matches Err(ParseError::Soft(_)) <==> !keyword_at(input@, pos, Command::Recrem),
        r matches Ok((x, next)) ==> tiles(input@, statement_tokens(x.nodes), pos, next),
{
    proof {
        lemma_slice_fits(input);
        lemma_statement_layout::<SetupholdArguments>(input@, pos, Command::Recrem);
    }
    let (nodes, next) = statement::<SetupholdArguments>(input, pos, Command::Recrem)?;
    Ok((RecremTimingCheck { nodes }, next))
}

/// Parses the `$skew` command behind the trivia at `pos`:
///
/// ```text
/// $skew ( reference_event , data_event , timing_check_limit [ , [ notifier ] ] ) ;
/// ```
///
/// The failure is soft where the keyword is not there, and hard wherever the
/// command breaks off behind its keyword.
pub fn skew_timing_check(input: &[u8], pos: usize) -> (r: PResult<SkewTimingCheck>)
    ensures
        r == spec_skew_timing_check(input@, pos),
        r matches Err(ParseError::Soft(_)) <==> !keyword_at(input@, pos, Command::Skew),
        r matches Ok((x, next)) ==> tiles(input@, statement_tokens(x.nodes), pos, next),
{
    proof {
        lemma_slice_fits(input);
        lemma_statement_layout::<HoldArguments>(input@, pos, Command::Skew);
    }
    let (nodes, next) = statement::<HoldArguments>(input, pos, Command::Skew)?;
    Ok((SkewTimingCheck { nodes }, next))
}

/// Parses the `$timeskew` command behind the trivia at `pos`:
///
/// ```text
/// $timeskew ( reference_event , data_event , timing_check_limit
///     [ , [ notifier ] [ , [ event_based_flag ] [ , [ remain_active_flag ] ] ] ] ) ;
/// ```
///
/// The failure is soft where the keyword is not there, and hard wherever the
/// command breaks off behind its keyword.
pub fn timeskew_timing_check(input: &[u8], pos: usize) -> (r: PResult<TimeskewTimingCheck>)
    ensures
        r == spec_timeskew_timing_check(input@, pos),
        r matches Err(ParseError::Soft(_)) <==> !keyword_at(input@, pos, Command::Timeskew),
        r matches Ok((x, next)) ==> tiles(input@, statement_tokens(x.nodes), pos, next),
{
    proof {
        lemma_slice_fits(input);
        lemma_statement_layout::<TimeskewArguments>(input@, pos, Command::Timeskew);
    }
    let (nodes, next) = statement::<TimeskewArguments>(input, pos, Command::Timeskew)?;
    Ok((TimeskewTimingCheck { nodes }, next))
}

/// Parses the `$fullskew` command behind the trivia at `pos`:
///
/// ```text
/// $fullskew ( reference_event , data_event , timing_check_limit , timing_check_limit
///     [ , [ notifier ] [ , [ event_based_flag ] [ , [ remain_active_flag ] ] ] ] ) ;
/// ```
///
/// The failure is soft where the keyword is not there, and hard wherever the
/// command breaks off behind its keyword.
pub fn fullskew_timing_check(input: &[u8], pos: usize) -> (r: PResult<FullskewTimingCheck>)
    ensures
        r == spec_fullskew_timing_check(input@, pos),
        r matches Err(ParseError::Soft(_)) <==> !keyword_at(input@, pos, Command::Fullskew),
        r matches Ok((x, next)) ==> tiles(input@, statement_tokens(x.nodes), pos, next),
{
    proof {
        lemma_slice_fits(input);
        lemma_statement_layout::<FullskewArguments>(input@, pos, Command::Fullskew);
    }
    let (nodes, next) = statement::<FullskewArguments>(input, pos, Command::Fullskew)?;
    Ok((FullskewTimingCheck { nodes }, next))
}

/// Parses the `$period` command behind the trivia at `pos`:
///
/// ```text
/// $period ( controlled_reference_event , timing_check_limit [ , [ notifier ] ] ) ;
/// ```
///
/// The failure is soft where the keyword is not there, and hard wherever the
/// command breaks off behind its keyword.
pub fn period_timing_check(input: &[u8], pos: usize) -> (r: PResult<PeriodTimingCheck>)
    ensures
        r == spec_period_timing_check(input@, pos),
        r matches Err(ParseError::Soft(_)) <==> !keyword_at(input@, pos, Command::Period),
        r matches Ok((x, next)) ==> tiles(input@, statement_tokens(x.nodes), pos, next),
{
    proof {
        lemma_slice_fits(input);
        lemma_statement_layout::<PeriodArguments>(input@, pos, Command::Period);
    }
    let (nodes, next) = statement::<PeriodArguments>(input, pos, Command::Period)?;
    Ok((PeriodTimingCheck { nodes }, next))
}

/// Parses the `$width` command behind the trivia at `pos`:
///
/// ```text
/// $width ( controlled_reference_event , timing_check_limit , threshold [ , [ notifier ] ] ) ;
/// ```
///
/// The failure is soft where the keyword is not there, and hard wherever the
/// command breaks off behind its keyword.
pub fn width_timing_check(input: &[u8], pos: usize) -> (r: PResult<WidthTimingCheck>)
    ensures
        r == spec_width_timing_check(input@, pos),
        r matches Err(ParseError::Soft(_)) <==> !keyword_at(input@, pos, Command::Width),
        r matches Ok((x, next)) ==> tiles(input@, statement_tokens(x.nodes), pos, next),
{
    proof {
        lemma_slice_fits(input);
        lemma_statement_layout::<WidthArguments>(input@, pos, Command::Width);
    }
    let (nodes, next) = statement::<WidthArguments>(input, pos, Command::Width)?;
    Ok((WidthTimingCheck { nodes }, next))
}

/// Parses the `$nocharge` command behind the trivia at `pos`:
///
/// ```text
/// $nocharge ( reference_event , data_event , start_edge_offset , end_edge_offset
///     [ , [ notifier ] ] ) ;
/// ```
///
/// The failure is soft where the keyword is not there, and hard wherever the
/// command breaks off behind its keyword.
pub fn nocharge_timing_check(input: &[u8], pos: usize) -> (r: PResult<NochargeTimingCheck>)
    ensures
        r == spec_nocharge_timing_check(input@, pos),
        r matches Err(ParseError::Soft(_)) <==> !keyword_at(input@, pos, Command::Nocharge),
        r matches Ok((x, next)) ==> tiles(input@, statement_tokens(x.nodes), pos, next),
{
    proof {
        lemma_slice_fits(input);
        lemma_statement_layout::<NochargeArguments>(input@, pos, Command::Nocharge);
    }
    let (nodes, next) = statement::<NochargeArguments>(input, pos, Command::Nocharge)?;
    Ok((NochargeTimingCheck { nodes }, next))
}

/// Parses one system timing check command: tries the twelve commands in
/// their order and returns what the first one gives that does not fail
/// softly.  Where all of them fail softly, so does the dispatcher, at the
/// token where a keyword was looked for.
///
/// No two commands share a keyword, so the outcome is that of the one
/// command whose keyword is the next token.
pub fn system_timing_check(input: &[u8], pos: usize) -> (r: PResult<SystemTimingCheck>)
    ensures
        r == spec_system_timing_check(input@, pos),
        forall|command: Command|
            keyword_at(input@, pos, command) ==> r == #[trigger] spec_check(input@, pos, command),
        match r {
            Ok((v, next)) => parsed(input@, pos, v.spec_command(), v, next),
            Err(ParseError::Soft(_)) => forall|command: Command| !keyword_at(input@, pos, command),
            Err(ParseError::Hard(_)) => exists|command: Command| keyword_at(input@, pos, command),
        },
{
    proof {
        lemma_slice_fits(input);
        lemma_keyword_selects(input@, pos);
        if let Ok((v, next)) = spec_system_timing_check(input@, pos) {
            lemma_check_layout(input@, pos, v.spec_command());
        }
        assert forall|command: Command| keyword_at(input@, pos, command) implies
            spec_system_timing_check(input@, pos) == #[trigger] spec_check(input@, pos, command) by {
            lemma_dispatch(input@, pos, command);
        }
    }
    match setup_timing_check(input, pos) {
        Ok((x, next)) => {
            return Ok((SystemTimingCheck::SetupTimingCheck(Box::new(x)), next));
        },
        Err(ParseError::Hard(f)) => {
            return Err(ParseError::Hard(f));
        },
        Err(ParseError::Soft(_)) => {},
    }
    match hold_timing_check(input, pos) {
        Ok((x, next)) => {
            return Ok((SystemTimingCheck::HoldTimingCheck(Box::new(x)), next));
        },
        Err(ParseError::Hard(f)) => {
            return Err(ParseError::Hard(f));
        },
        Err(ParseError::Soft(_)) => {},
    }
    match setuphold_timing_check(input, pos) {
        Ok((x, next)) => {
            return Ok((SystemTimingCheck::SetupholdTimingCheck(Box::new(x)), next));
        },
        Err(ParseError::Hard(f)) => {
            return Err(ParseError::Hard(f));
        },
        Err(ParseError::Soft(_)) => {},
    }
    match recovery_timing_check(input, pos) {
        Ok((x, next)) => {
            return Ok((SystemTimingCheck::RecoveryTimingCheck(Box::new(x)), next));
        },
        Err(ParseError::Hard(f)) => {
            return Err(ParseError::Hard(f));
        },
        Err(ParseError::Soft(_)) => {},
    }
    match removal_timing_check(input, pos) {
        Ok((x, next)) => {
            return Ok((SystemTimingCheck::RemovalTimingCheck(Box::new(x)), next));
        },
        Err(ParseError::Hard(f)) => {
            return Err(ParseError::Hard(f));
        },
        Err(ParseError::Soft(_)) => {},
    }
    match recrem_timing_check(input, pos) {
        Ok((x, next)) => {
            return Ok((SystemTimingCheck::RecremTimingCheck(Box::new(x)), next));
        },
        Err(ParseError::Hard(f)) => {
            return Err(ParseError::Hard(f));
        },
        Err(ParseError::Soft(_)) => {},
    }
    match skew_timing_check(input, pos) {
        Ok((x, next)) => {
            return Ok((SystemTimingCheck::SkewTimingCheck(Box::new(x)), next));
        },
        Err(ParseError::Hard(f)) => {
            return Err(ParseError::Hard(f));
        },
        Err(ParseError::Soft(_)) => {},
    }
    match timeskew_timing_check(input, pos) {
        Ok((x, next)) => {
            return Ok((SystemTimingCheck::TimeskewTimingCheck(Box::new(x)), next));
        },
        Err(ParseError::Hard(f)) => {
            return Err(ParseError::Hard(f));
        },
        Err(ParseError::Soft(_)) => {},
    }
    match fullskew_timing_check(input, pos) {
        Ok((x, next)) => {
            return Ok((SystemTimingCheck::FullskewTimingCheck(Box::new(x)), next));
        },
        Err(ParseError::Hard(f)) => {
            return Err(ParseError::Hard(f));
        },
        Err(ParseError::Soft(_)) => {},
    }
    match period_timing_check(input, pos) {
        Ok((x, next)) => {
            return Ok((SystemTimingCheck::PeriodTimingCheck(Box::new(x)), next));
        },
        Err(ParseError::Hard(f)) => {
            return Err(ParseError::Hard(f));
        },
        Err(ParseError::Soft(_)) => {},
    }
    match width_timing_check(input, pos) {
        Ok((x, next)) => {
            return Ok((SystemTimingCheck::WidthTimingCheck(Box::new(x)), next));
        },
        Err(ParseError::Hard(f)) => {
            return Err(ParseError::Hard(f));
        },
        Err(ParseError::Soft(_)) => {},
    }
    match nocharge_timing_check(input, pos) {
        Ok((x, next)) => {
            return Ok((SystemTimingCheck::NochargeTimingCheck(Box::new(x)), next));
        },
        Err(ParseError::Hard(f)) => {
            return Err(ParseError::Hard(f));
        },
        Err(ParseError::Soft(_)) => {},
    }
    let at = skip_trivia(input, pos);
    Err(ParseError::Soft(failure_at(input, at, Expected::AnyKeyword)))
}

} // verus!
