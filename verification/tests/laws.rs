use timing_checks::checks::{
    fullskew_timing_check, hold_timing_check, nocharge_timing_check, period_timing_check,
    recovery_timing_check, recrem_timing_check, removal_timing_check, setup_timing_check,
    setuphold_timing_check, skew_timing_check, system_timing_check, timeskew_timing_check,
    width_timing_check, SystemTimingCheck,
};
use timing_checks::command::Command;
use timing_checks::error::ParseError;
use timing_checks::lexer::Token;

const INPUTS: [(&[u8], Command, usize); 16] = [
    (b"$setup(data, posedge clk, 3);", Command::Setup, 0),
    (b"$hold(posedge clk, data, 5, nt);", Command::Hold, 1),
    (b"$setuphold(posedge clk, data, 2, 3, , , tcc);", Command::Setuphold, 3),
    (b"$recovery(negedge rst, posedge clk, 4,);", Command::Recovery, 1),
    (b"$removal(negedge rst, posedge clk, 4);", Command::Removal, 0),
    (b"$recrem(rst, clk, 1, 2, nt, ts, tc, dr, dd);", Command::Recrem, 5),
    (b"$skew(posedge a, posedge b, 9);", Command::Skew, 0),
    (b"$timeskew(posedge a, posedge b, 9, nt, 1, 0);", Command::Timeskew, 3),
    (b"$fullskew(posedge a, negedge b, 9, 8, , 1);", Command::Fullskew, 2),
    (b"$period(posedge clk, 10);", Command::Period, 0),
    (b"$width(posedge clk, 2, 1, nt);", Command::Width, 1),
    (b"$nocharge(ref, data, -1, +1);", Command::Nocharge, 0),
    (b"$setup ( data , edge clk /* both */ , 1_000 , ) ;", Command::Setup, 1),
    (b"$hold(a,b,c)// done\n;", Command::Hold, 0),
    (b"$setuphold(a, b, 1, 2,,,,,);", Command::Setuphold, 5),
    (b"$timeskew(a, b, t, , , );", Command::Timeskew, 3),
];

fn written_out(input: &[u8], tokens: &[Token], from: usize) -> Vec<u8> {
    let mut out = Vec::new();
    let mut at = from;
    for t in tokens {
        out.extend_from_slice(&input[at..t.start]);
        out.extend_from_slice(t.text(input));
        at = t.end;
    }
    out
}

fn soft(result: Result<(), ParseError>) -> bool {
    matches!(result, Err(ParseError::Soft(_)))
}

fn leaf(input: &[u8], command: Command) -> Result<(), ParseError> {
    match command {
        Command::Setup => setup_timing_check(input, 0).map(|_| ()),
        Command::Hold => hold_timing_check(input, 0).map(|_| ()),
        Command::Setuphold => setuphold_timing_check(input, 0).map(|_| ()),
        Command::Recovery => recovery_timing_check(input, 0).map(|_| ()),
        Command::Removal => removal_timing_check(input, 0).map(|_| ()),
        Command::Recrem => recrem_timing_check(input, 0).map(|_| ()),
        Command::Skew => skew_timing_check(input, 0).map(|_| ()),
        Command::Timeskew => timeskew_timing_check(input, 0).map(|_| ()),
        Command::Fullskew => fullskew_timing_check(input, 0).map(|_| ()),
        Command::Period => period_timing_check(input, 0).map(|_| ()),
        Command::Width => width_timing_check(input, 0).map(|_| ()),
        Command::Nocharge => nocharge_timing_check(input, 0).map(|_| ()),
    }
}

const COMMANDS: [Command; 12] = [
    Command::Setup,
    Command::Hold,
    Command::Setuphold,
    Command::Recovery,
    Command::Removal,
    Command::Recrem,
    Command::Skew,
    Command::Timeskew,
    Command::Fullskew,
    Command::Period,
    Command::Width,
    Command::Nocharge,
];

#[test]
fn tokens_written_out_give_the_input_back() {
    for (input, _, _) in INPUTS {
        let (check, next) = system_timing_check(input, 0).unwrap();
        assert_eq!(next, input.len());
        let tokens = check.collect_tokens();
        assert_eq!(written_out(input, &tokens, 0), input);
        assert_eq!(tokens.last().unwrap().end, next);
        assert_eq!(tokens.last().unwrap().text(input), b";");
    }
}

#[test]
fn tokens_written_out_give_the_consumed_range_back() {
    let input = b"  // a check\n $hold(posedge clk, data, 5, nt) ;  $skew(a, b, 1);";
    let (check, next) = system_timing_check(input, 0).unwrap();
    assert_eq!(next, 47);
    let tokens = check.collect_tokens();
    assert_eq!(tokens[0], Token { start: 14, end: 19 });
    assert_eq!(written_out(input, &tokens, 0), &input[..47]);
    let (second, end) = system_timing_check(input, next).unwrap();
    assert_eq!(end, input.len());
    assert_eq!(second.command(), Command::Skew);
    assert_eq!(written_out(input, &second.collect_tokens(), next), &input[47..]);
}

#[test]
fn the_keyword_selects_the_command() {
    for (input, command, _) in INPUTS {
        let (check, _) = system_timing_check(input, 0).unwrap();
        assert_eq!(check.command(), command);
        assert_eq!(check.collect_tokens()[0].text(input), command.keyword());
        for other in COMMANDS {
            if other == command {
                assert_eq!(leaf(input, other), Ok(()));
            } else {
                assert!(soft(leaf(input, other)));
            }
        }
    }
}

#[test]
fn one_comma_for_each_gap_and_each_tier() {
    for (input, command, tiers) in INPUTS {
        let (check, _) = system_timing_check(input, 0).unwrap();
        let commas = check.collect_tokens().iter().filter(|t| t.text(input) == b",").count();
        assert_eq!(commas, command.positional_arguments() - 1 + tiers);
        assert!(tiers <= command.optional_arguments());
    }
}

#[test]
fn required_and_optional_argument_counts() {
    let required: Vec<usize> = COMMANDS.iter().map(|c| c.positional_arguments()).collect();
    assert_eq!(required, vec![3, 3, 4, 3, 3, 4, 3, 3, 4, 2, 3, 4]);
    let optional: Vec<usize> = COMMANDS.iter().map(|c| c.optional_arguments()).collect();
    assert_eq!(optional, vec![1, 1, 5, 1, 1, 5, 1, 3, 3, 1, 1, 1]);
}

#[test]
fn a_later_tier_needs_the_earlier_ones() {
    let input = b"$setuphold(a, b, 1, 2, , , tcc);";
    let (check, _) = setuphold_timing_check(input, 0).unwrap();
    let tier0 = check.nodes.1.nodes.1.7;
    let tier1 = tier0.unwrap().2;
    let tier2 = tier1.unwrap().2;
    let tier3 = tier2.unwrap().2;
    assert!(tier0.is_some() && tier1.is_some() && tier2.is_some());
    assert!(tier0.unwrap().1.is_none() && tier1.unwrap().1.is_none());
    assert!(tier2.unwrap().1.is_some());
    assert_eq!(tier3, None);
    let input = b"$setuphold(a, b, 1, 2, nt);";
    let (check, _) = setuphold_timing_check(input, 0).unwrap();
    let tier0 = check.nodes.1.nodes.1.7.unwrap();
    assert!(tier0.1.is_some());
    assert_eq!(tier0.2, None);
}

#[test]
fn setup_takes_the_data_event_first() {
    let input = b"$setup(posedge d, negedge c, 3);";
    let (check, _) = setup_timing_check(input, 0).unwrap();
    let arguments = check.nodes.1.nodes.1;
    let data = arguments.0.nodes.0;
    let reference = arguments.2.nodes.0;
    assert_eq!(data.nodes.1.nodes.0.text(input), b"d");
    assert_eq!(reference.nodes.1.nodes.0.text(input), b"c");
    assert!(data.nodes.1.nodes.0.start < reference.nodes.1.nodes.0.start);
    assert!(matches!(
        system_timing_check(input, 0),
        Ok((SystemTimingCheck::SetupTimingCheck(_), 32))
    ));
}

#[test]
fn the_other_commands_take_the_reference_event_first() {
    let input = b"$hold(posedge c, negedge d, 3);";
    let (check, _) = hold_timing_check(input, 0).unwrap();
    let arguments = check.nodes.1.nodes.1;
    let reference = arguments.0.nodes.0;
    let data = arguments.2.nodes.0;
    assert_eq!(reference.nodes.1.nodes.0.text(input), b"c");
    assert_eq!(data.nodes.1.nodes.0.text(input), b"d");
    assert!(reference.nodes.1.nodes.0.start < data.nodes.1.nodes.0.start);
    let input = b"$nocharge(c, d, 1, 2);";
    let (check, _) = nocharge_timing_check(input, 0).unwrap();
    let arguments = check.nodes.1.nodes.1;
    assert_eq!(arguments.0.nodes.0.nodes.1.nodes.0.text(input), b"c");
    assert_eq!(arguments.2.nodes.0.nodes.1.nodes.0.text(input), b"d");
}

#[test]
fn setup_is_not_setuphold() {
    let input = b"$setuphold(a, b, 1, 2);";
    assert!(soft(leaf(input, Command::Setup)));
    assert_eq!(leaf(input, Command::Setuphold), Ok(()));
    let input = b"$setup(a, b, 1);";
    assert!(soft(leaf(input, Command::Setuphold)));
    assert_eq!(leaf(input, Command::Setup), Ok(()));
    let input = b"$setup$(a, b, 1);";
    assert!(soft(leaf(input, Command::Setup)));
    assert!(soft(system_timing_check(input, 0).map(|_| ())));
    let input = b"$SETUP(a, b, 1);";
    assert!(soft(system_timing_check(input, 0).map(|_| ())));
}
