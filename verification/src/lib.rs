//! Parser for the system timing check commands of a `specify` block.
//!
//! A timing check states how two signal events must lie in time: that data
//! is stable before a clock edge (`$setup`), after it (`$hold`), that a pulse
//! is wide enough (`$width`), and so on.  There are twelve commands, and they
//! share one shape: a keyword, a list of arguments in round brackets, and a
//! closing `;`.
//!
//! ```text
//! system_timing_check ::= $setup     ( data_event , reference_event , limit [ , [ notifier ] ] ) ;
//!                       | $hold      ( reference_event , data_event , limit [ , [ notifier ] ] ) ;
//!                       | $setuphold ( reference_event , data_event , limit , limit conditions ) ;
//!                       | $recovery  ( reference_event , data_event , limit [ , [ notifier ] ] ) ;
//!                       | $removal   ( reference_event , data_event , limit [ , [ notifier ] ] ) ;
//!                       | $recrem    ( reference_event , data_event , limit , limit conditions ) ;
//!                       | $skew      ( reference_event , data_event , limit [ , [ notifier ] ] ) ;
//!                       | $timeskew  ( reference_event , data_event , limit flags ) ;
//!                       | $fullskew  ( reference_event , data_event , limit , limit flags ) ;
//!                       | $period    ( controlled_reference_event , limit [ , [ notifier ] ] ) ;
//!                       | $width     ( controlled_reference_event , limit , threshold [ , [ notifier ] ] ) ;
//!                       | $nocharge  ( reference_event , data_event , start_edge_offset ,
//!                                      end_edge_offset [ , [ notifier ] ] ) ;
//!
//! conditions ::= [ , [ notifier ] [ , [ timestamp_condition ] [ , [ timecheck_condition ]
//!                [ , [ delayed_reference ] [ , [ delayed_data ] ] ] ] ] ]
//! flags      ::= [ , [ notifier ] [ , [ event_based_flag ] [ , [ remain_active_flag ] ] ] ]
//! ```
//!
//! # Optional arguments
//!
//! The arguments behind the required ones are optional, but they are told
//! apart by their place.  To write a later one, the commas of the earlier
//! ones must be written, whether those arguments are or not: in
//! `$setuphold(clk, d, 2, 3, , , tcc);` the notifier and the timestamp
//! condition are left out and their commas kept.  The syntax tree holds such
//! a list as a nest of tiers, `Option<(comma, Option<argument>, next tier)>`,
//! which tells a missing tier from a tier whose argument is missing.  The
//! module [`tails`] reads a nest of any depth.
//!
//! # Operands
//!
//! Events, limits and flags are expressions of the surrounding language,
//! whose grammar is not part of this crate.  The parsers of [`operands`] read
//! the forms in which timing checks are commonly written:
//!
//! ```text
//! data_event, reference_event  ::= [ edge ] identifier
//! controlled_reference_event   ::= edge identifier
//! edge                         ::= posedge | negedge | edge
//! limit, threshold, the offsets, the conditions and the flags
//!                              ::= [ + | - ] ( number | identifier )
//! notifier, delayed_reference, delayed_data
//!                              ::= identifier
//! ```
//!
//! # Tokens and trivia
//!
//! Every token of the tree is a range of the input ([`lexer::Token`]); the
//! tree copies nothing.  White space and comments before a token are skipped
//! and belong to no token, so a parsed command begins at its keyword and ends
//! behind its `;`.
//!
//! # Failures
//!
//! A parser fails softly where its production does not apply, which lets the
//! caller try another one, and hard where the production applies and the
//! input is malformed ([`error::ParseError`]).  A command fails softly where
//! its keyword is missing and hard wherever it breaks off behind the keyword.
//! Either failure names the offending token and what was looked for in its
//! place.
//!
//! # Contracts
//!
//! Every parser `p` is a function of the input and a position, and returns
//! exactly what the function `spec_p` of the same module says.  The module
//! [`laws`] proves what holds of every parse: the tokens of a parsed command
//! tile what was consumed, so that writing them out again gives the input
//! back; the keyword decides the command; the commas are counted by the
//! arguments and the tiers; tiers nest; and the two events keep the order
//! of their command.

pub mod arguments;
pub mod checks;
pub mod command;
pub mod error;
pub mod laws;
pub mod layout;
pub mod lexer;
pub mod operands;
pub mod tails;

pub use checks::{
    fullskew_timing_check, hold_timing_check, nocharge_timing_check, period_timing_check,
    recovery_timing_check, recrem_timing_check, removal_timing_check, setup_timing_check,
    setuphold_timing_check, skew_timing_check, system_timing_check, timeskew_timing_check,
    width_timing_check, FullskewTimingCheck, HoldTimingCheck, NochargeTimingCheck,
    PeriodTimingCheck, RecoveryTimingCheck, RecremTimingCheck, RemovalTimingCheck,
    SetupTimingCheck, SetupholdTimingCheck, SkewTimingCheck, SystemTimingCheck,
    TimeskewTimingCheck, WidthTimingCheck,
};
pub use command::Command;
pub use error::{Expected, Failure, PResult, ParseError};
