use timing_checks::checks::{
    hold_timing_check, nocharge_timing_check, period_timing_check, setup_timing_check,
    setuphold_timing_check, system_timing_check, width_timing_check, HoldTimingCheck,
    PeriodTimingCheck, SetupTimingCheck, SystemTimingCheck,
};
use timing_checks::command::Command;
use timing_checks::error::{Expected, Failure, ParseError};
use timing_checks::lexer::{Identifier, Keyword, Number, Paren, Symbol, Token};
use timing_checks::operands::{
    ControlledReferenceEvent, ControlledTimingCheckEvent, DataEvent, Expression, Notifier, Primary,
    ReferenceEvent, TimingCheckEvent, TimingCheckEventControl, TimingCheckLimit,
};

fn token(start: usize, end: usize) -> Token {
    Token { start, end }
}

fn keyword(start: usize, end: usize) -> Keyword {
    Keyword { nodes: (token(start, end),) }
}

fn symbol(start: usize) -> Symbol {
    Symbol { nodes: (token(start, start + 1),) }
}

fn identifier(start: usize, end: usize) -> Identifier {
    Identifier { nodes: (token(start, end),) }
}

fn number_limit(start: usize, end: usize) -> TimingCheckLimit {
    TimingCheckLimit {
        nodes: (Expression { nodes: (None, Primary::Number(Number { nodes: (token(start, end),) })) },),
    }
}

fn plain_event(start: usize, end: usize) -> TimingCheckEvent {
    TimingCheckEvent { nodes: (None, identifier(start, end)) }
}

fn posedge_event(start: usize, name_start: usize, name_end: usize) -> TimingCheckEvent {
    TimingCheckEvent {
        nodes: (
            Some(TimingCheckEventControl::Posedge(keyword(start, start + 7))),
            identifier(name_start, name_end),
        ),
    }
}

#[test]
fn setup_with_three_arguments() {
    let input = b"$setup(data, posedge clk, 3);";
    let expected = SetupTimingCheck {
        nodes: (
            keyword(0, 6),
            Paren {
                nodes: (
                    symbol(6),
                    (
                        DataEvent { nodes: (plain_event(7, 11),) },
                        symbol(11),
                        ReferenceEvent { nodes: (posedge_event(13, 21, 24),) },
                        symbol(24),
                        number_limit(26, 27),
                        None,
                    ),
                    symbol(27),
                ),
            },
            symbol(28),
        ),
    };
    assert_eq!(setup_timing_check(input, 0), Ok((expected, 29)));
    assert_eq!(
        system_timing_check(input, 0),
        Ok((SystemTimingCheck::SetupTimingCheck(Box::new(expected)), 29))
    );
    let arguments = expected.nodes.1.nodes.1;
    assert_eq!(arguments.0.nodes.0.nodes.1.nodes.0.text(input), b"data");
    let reference = arguments.2.nodes.0;
    assert_eq!(reference.nodes.0.unwrap().keyword().nodes.0.text(input), b"posedge");
    assert_eq!(reference.nodes.1.nodes.0.text(input), b"clk");
    assert_eq!(arguments.4.nodes.0.nodes.1.token().text(input), b"3");
}

#[test]
fn hold_with_notifier() {
    let input = b"$hold(posedge clk, data, 5, nt);";
    let expected = HoldTimingCheck {
        nodes: (
            keyword(0, 5),
            Paren {
                nodes: (
                    symbol(5),
                    (
                        ReferenceEvent { nodes: (posedge_event(6, 14, 17),) },
                        symbol(17),
                        DataEvent { nodes: (plain_event(19, 23),) },
                        symbol(23),
                        number_limit(25, 26),
                        Some((symbol(26), Some(Notifier { nodes: (identifier(28, 30),) }))),
                    ),
                    symbol(30),
                ),
            },
            symbol(31),
        ),
    };
    assert_eq!(hold_timing_check(input, 0), Ok((expected, 32)));
    assert_eq!(
        system_timing_check(input, 0),
        Ok((SystemTimingCheck::HoldTimingCheck(Box::new(expected)), 32))
    );
    let tail = expected.nodes.1.nodes.1.5.unwrap();
    assert_eq!(tail.0.nodes.0.text(input), b",");
    assert_eq!(tail.1.unwrap().nodes.0.nodes.0.text(input), b"nt");
}

#[test]
fn setuphold_with_skipped_arguments() {
    let input = b"$setuphold(posedge clk, data, 2, 3, , , tcc);";
    let (check, next) = setuphold_timing_check(input, 0).unwrap();
    assert_eq!(next, input.len());
    let arguments = check.nodes.1.nodes.1;
    assert_eq!(arguments.0.nodes.0.nodes.0.unwrap().keyword().nodes.0.text(input), b"posedge");
    assert_eq!(arguments.0.nodes.0.nodes.1.nodes.0.text(input), b"clk");
    assert_eq!(arguments.2.nodes.0.nodes.0, None);
    assert_eq!(arguments.2.nodes.0.nodes.1.nodes.0.text(input), b"data");
    assert_eq!(arguments.4.nodes.0.nodes.1.token().text(input), b"2");
    assert_eq!(arguments.6.nodes.0.nodes.1.token().text(input), b"3");
    let (comma0, notifier, tier1) = arguments.7.unwrap();
    assert_eq!(comma0, symbol(34));
    assert_eq!(notifier, None);
    let (comma1, timestamp, tier2) = tier1.unwrap();
    assert_eq!(comma1, symbol(36));
    assert_eq!(timestamp, None);
    let (comma2, timecheck, tier3) = tier2.unwrap();
    assert_eq!(comma2, symbol(38));
    assert_eq!(timecheck.unwrap().nodes.0.nodes.1.token().text(input), b"tcc");
    assert_eq!(timecheck.unwrap().nodes.0.nodes.0, None);
    assert_eq!(tier3, None);
    assert!(matches!(
        system_timing_check(input, 0),
        Ok((SystemTimingCheck::SetupholdTimingCheck(_), 45))
    ));
}

#[test]
fn period_without_tail() {
    let input = b"$period(posedge clk, 10);";
    let expected = PeriodTimingCheck {
        nodes: (
            keyword(0, 7),
            Paren {
                nodes: (
                    symbol(7),
                    (
                        ControlledReferenceEvent {
                            nodes: (ControlledTimingCheckEvent {
                                nodes: (
                                    TimingCheckEventControl::Posedge(keyword(8, 15)),
                                    identifier(16, 19),
                                ),
                            },),
                        },
                        symbol(19),
                        number_limit(21, 23),
                        None,
                    ),
                    symbol(23),
                ),
            },
            symbol(24),
        ),
    };
    assert_eq!(period_timing_check(input, 0), Ok((expected, 25)));
    assert_eq!(
        system_timing_check(input, 0),
        Ok((SystemTimingCheck::PeriodTimingCheck(Box::new(expected)), 25))
    );
}

#[test]
fn width_with_threshold_and_notifier() {
    let input = b"$width(posedge clk, 2, 1, nt);";
    let (check, next) = width_timing_check(input, 0).unwrap();
    assert_eq!(next, input.len());
    let arguments = check.nodes.1.nodes.1;
    assert_eq!(arguments.0.nodes.0.nodes.0.keyword().nodes.0.text(input), b"posedge");
    assert_eq!(arguments.0.nodes.0.nodes.1.nodes.0.text(input), b"clk");
    assert_eq!(arguments.2.nodes.0.nodes.1.token().text(input), b"2");
    assert_eq!(arguments.4.nodes.0.nodes.1.token().text(input), b"1");
    let (comma, notifier) = arguments.5.unwrap();
    assert_eq!(comma.nodes.0.text(input), b",");
    assert_eq!(notifier.unwrap().nodes.0.nodes.0.text(input), b"nt");
    assert!(matches!(
        system_timing_check(input, 0),
        Ok((SystemTimingCheck::WidthTimingCheck(_), 30))
    ));
}

#[test]
fn nocharge_with_signed_offsets() {
    let input = b"$nocharge(ref, data, -1, +1);";
    let (check, next) = nocharge_timing_check(input, 0).unwrap();
    assert_eq!(next, input.len());
    let arguments = check.nodes.1.nodes.1;
    assert_eq!(arguments.0.nodes.0.nodes.1.nodes.0.text(input), b"ref");
    assert_eq!(arguments.2.nodes.0.nodes.1.nodes.0.text(input), b"data");
    let start = arguments.4.nodes.0;
    assert_eq!(start.nodes.0.unwrap().nodes.0.text(input), b"-");
    assert_eq!(start.nodes.1.token().text(input), b"1");
    assert!(matches!(start.nodes.1, Primary::Number(_)));
    let end = arguments.6.nodes.0;
    assert_eq!(end.nodes.0.unwrap().nodes.0.text(input), b"+");
    assert_eq!(end.nodes.1.token().text(input), b"1");
    assert_eq!(arguments.7, None);
    assert!(matches!(
        system_timing_check(input, 0),
        Ok((SystemTimingCheck::NochargeTimingCheck(_), 29))
    ));
}

#[test]
fn missing_limit_is_a_hard_failure() {
    let input = b"$setup(data, ref);";
    let failure = Failure { expected: Expected::Symbol(b','), found: token(16, 17) };
    assert_eq!(setup_timing_check(input, 0), Err(ParseError::Hard(failure)));
    assert_eq!(system_timing_check(input, 0), Err(ParseError::Hard(failure)));
}

#[test]
fn missing_bracket_is_a_hard_failure() {
    let input = b"$setup data, ref, 1);";
    let failure = Failure { expected: Expected::Symbol(b'('), found: token(7, 11) };
    assert_eq!(setup_timing_check(input, 0), Err(ParseError::Hard(failure)));
    assert_eq!(system_timing_check(input, 0), Err(ParseError::Hard(failure)));
}

#[test]
fn unknown_keyword_is_a_soft_failure() {
    let input = b"$bogus(a, b, 1);";
    let failure = Failure { expected: Expected::AnyKeyword, found: token(0, 6) };
    assert_eq!(system_timing_check(input, 0), Err(ParseError::Soft(failure)));
    let own = Failure { expected: Expected::Keyword(Command::Setup), found: token(0, 6) };
    assert_eq!(setup_timing_check(input, 0), Err(ParseError::Soft(own)));
}

#[test]
fn missing_terminator_is_a_hard_failure() {
    let input = b"$period(posedge clk, 10)";
    let failure = Failure { expected: Expected::Symbol(b';'), found: token(24, 24) };
    assert_eq!(period_timing_check(input, 0), Err(ParseError::Hard(failure)));
    assert_eq!(system_timing_check(input, 0), Err(ParseError::Hard(failure)));
}

#[test]
fn missing_closing_bracket_is_a_hard_failure() {
    let input = b"$period(posedge clk, 10 ;";
    let failure = Failure { expected: Expected::Symbol(b')'), found: token(24, 25) };
    assert_eq!(system_timing_check(input, 0), Err(ParseError::Hard(failure)));
}

#[test]
fn missing_edge_is_a_hard_failure() {
    let input = b"$period(clk, 10);";
    let failure = Failure { expected: Expected::Edge, found: token(8, 11) };
    assert_eq!(system_timing_check(input, 0), Err(ParseError::Hard(failure)));
}

#[test]
fn missing_event_is_a_hard_failure() {
    let input = b"$hold(, data, 5);";
    let failure = Failure { expected: Expected::Identifier, found: token(6, 7) };
    assert_eq!(system_timing_check(input, 0), Err(ParseError::Hard(failure)));
}

#[test]
fn missing_limit_value_is_a_hard_failure() {
    let input = b"$hold(clk, data, );";
    let failure = Failure { expected: Expected::Primary, found: token(17, 18) };
    assert_eq!(system_timing_check(input, 0), Err(ParseError::Hard(failure)));
}
