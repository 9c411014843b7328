use timing_checks::arguments::{
    collect_statement_tokens, statement, with_comma, Arguments, Statement,
};
use timing_checks::checks::{
    system_timing_check, HoldArguments, PeriodArguments, SetupholdArguments, SystemTimingCheck,
};
use timing_checks::command::Command;
use timing_checks::error::{Expected, Failure, ParseError};
use timing_checks::lexer::{Paren, Symbol, Token};
use timing_checks::operands::{Argument, DataEvent, Notifier, TimingCheckLimit};

fn token(start: usize, end: usize) -> Token {
    Token { start, end }
}

#[test]
fn an_argument_then_its_comma() {
    let ((limit, comma), next) = with_comma::<TimingCheckLimit>(b" -4 , x", 0).unwrap();
    assert_eq!(next, 5);
    assert_eq!(comma, Symbol { nodes: (token(4, 5),) });
    let mut tokens = Vec::new();
    limit.push_tokens(&mut tokens);
    assert_eq!(tokens, vec![token(1, 2), token(2, 3)]);
    let failure = Failure { expected: Expected::Symbol(b','), found: token(3, 4) };
    assert_eq!(with_comma::<Notifier>(b"nt )", 0), Err(ParseError::Soft(failure)));
    let failure = Failure { expected: Expected::Identifier, found: token(0, 1) };
    assert_eq!(with_comma::<DataEvent>(b", d", 0), Err(ParseError::Soft(failure)));
}

#[test]
fn arguments_fail_softly_by_themselves() {
    let failure = Failure { expected: Expected::Primary, found: token(4, 5) };
    assert_eq!(HoldArguments::parse_arguments(b"a,b,)", 0), Err(ParseError::Soft(failure)));
    let failure = Failure { expected: Expected::Edge, found: token(0, 1) };
    assert_eq!(PeriodArguments::parse_arguments(b"a,1", 0), Err(ParseError::Soft(failure)));
    let (arguments, next) = PeriodArguments::parse_arguments(b"edge a,1", 0).unwrap();
    assert_eq!(next, 8);
    assert_eq!(arguments.3, None);
    let mut tokens = Vec::new();
    arguments.push_tokens(&mut tokens);
    assert_eq!(tokens, vec![token(0, 4), token(5, 6), token(6, 7), token(7, 8)]);
}

#[test]
fn arguments_with_every_optional_one() {
    let input = b"r, d, 1, 2, n, 3, 4, x, y";
    let (arguments, next) = SetupholdArguments::parse_arguments(input, 0).unwrap();
    assert_eq!(next, input.len());
    let mut tokens = Vec::new();
    arguments.push_tokens(&mut tokens);
    let texts: Vec<&[u8]> = tokens.iter().map(|t| t.text(input)).collect();
    let expected: Vec<&[u8]> = vec![
        b"r", b",", b"d", b",", b"1", b",", b"2", b",", b"n", b",", b"3", b",", b"4", b",", b"x",
        b",", b"y",
    ];
    assert_eq!(texts, expected);
}

#[test]
fn a_statement_is_keyword_brackets_and_terminator() {
    let input = b"$removal (a, b, 1) ;";
    let (nodes, next): (Statement<HoldArguments>, usize) =
        statement(input, 0, Command::Removal).unwrap();
    assert_eq!(next, 20);
    assert_eq!(nodes.0.nodes.0, token(0, 8));
    assert_eq!(nodes.1.nodes.0.nodes.0, token(9, 10));
    assert_eq!(nodes.1.nodes.2.nodes.0, token(17, 18));
    assert_eq!(nodes.2.nodes.0, token(19, 20));
    let tokens = collect_statement_tokens(&nodes);
    assert_eq!(tokens.len(), 9);
    assert_eq!(tokens[0], token(0, 8));
    assert_eq!(tokens[8], token(19, 20));
    let copy: Paren<HoldArguments> = nodes.1.clone();
    assert_eq!(copy, nodes.1);
}

#[test]
fn a_statement_needs_its_own_keyword() {
    let input = b"$removal (a, b, 1) ;";
    let failure =
        Failure { expected: Expected::Keyword(Command::Recovery), found: token(0, 8) };
    assert_eq!(
        statement::<HoldArguments>(input, 0, Command::Recovery),
        Err(ParseError::Soft(failure))
    );
}

#[test]
fn parsing_starts_at_the_given_position() {
    let input = b"xx $skew(a, b, 1); yy";
    assert!(matches!(system_timing_check(input, 0), Err(ParseError::Soft(_))));
    let (check, next) = system_timing_check(input, 2).unwrap();
    assert_eq!(next, 18);
    assert_eq!(check.command(), Command::Skew);
    assert_eq!(check.clone(), check);
    assert!(matches!(check, SystemTimingCheck::SkewTimingCheck(_)));
    let failure = Failure { expected: Expected::AnyKeyword, found: token(19, 21) };
    assert_eq!(system_timing_check(input, next), Err(ParseError::Soft(failure)));
    let failure = Failure { expected: Expected::AnyKeyword, found: token(21, 21) };
    assert_eq!(system_timing_check(input, 21), Err(ParseError::Soft(failure)));
    let failure = Failure { expected: Expected::AnyKeyword, found: token(99, 99) };
    assert_eq!(system_timing_check(input, 99), Err(ParseError::Soft(failure)));
}

#[test]
fn comments_may_stand_between_all_tokens() {
    let input = b"/*a*/$width/*b*/(/*c*/posedge/*d*/clk/*e*/,/*f*/2//g\n,1/*h*/,/*i*/nt/*j*/)/*k*/;";
    let (check, next) = system_timing_check(input, 0).unwrap();
    assert_eq!(next, input.len());
    let texts: Vec<&[u8]> = check.collect_tokens().iter().map(|t| t.text(input)).collect();
    let expected: Vec<&[u8]> = vec![
        b"$width", b"(", b"posedge", b"clk", b",", b"2", b",", b"1", b",", b"nt", b")", b";",
    ];
    assert_eq!(texts, expected);
}

#[test]
fn an_open_comment_is_no_trivia() {
    let input = b"$width(posedge clk, /* 2, 1);";
    let failure = Failure { expected: Expected::Primary, found: token(20, 21) };
    assert_eq!(system_timing_check(input, 0), Err(ParseError::Hard(failure)));
}
