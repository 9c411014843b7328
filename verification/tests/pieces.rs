use timing_checks::command::Command;
use timing_checks::error::{commit, failure_at, opt, Expected, Failure, PResult, ParseError};
use timing_checks::lexer::{
    identifier, keyword, literal_matches, number, skip_identifier, skip_trivia, symbol, token_at,
    Identifier, Keyword, Number, Symbol, Token,
};
use timing_checks::operands::{
    controlled_reference_event, data_event, delayed_data, delayed_reference, end_edge_offset,
    event_based_flag, expression, notifier, primary, reference_event, remain_active_flag, sign,
    start_edge_offset, threshold, timecheck_condition, timestamp_condition, timing_check_event,
    timing_check_event_control, timing_check_limit, Notifier, Primary, TimingCheckEventControl,
};
use timing_checks::tails::{last_tier, tier, ConditionTail, FlagTail, NotifierTail, Tail};

fn token(start: usize, end: usize) -> Token {
    Token { start, end }
}

#[test]
fn trivia_is_white_space_and_comments() {
    assert_eq!(skip_trivia(b"", 0), 0);
    assert_eq!(skip_trivia(b"abc", 0), 0);
    assert_eq!(skip_trivia(b" \t\r\n x", 0), 5);
    assert_eq!(skip_trivia(b"  // note\n  x", 0), 12);
    assert_eq!(skip_trivia(b"// note", 0), 7);
    assert_eq!(skip_trivia(b"/* a */ /* b */x", 0), 15);
    assert_eq!(skip_trivia(b"/**/x", 0), 4);
    assert_eq!(skip_trivia(b"/* open", 0), 0);
    assert_eq!(skip_trivia(b"  /* open", 0), 2);
    assert_eq!(skip_trivia(b"/*/ x", 0), 0);
    assert_eq!(skip_trivia(b"/ x", 0), 0);
    assert_eq!(skip_trivia(b"a  b", 1), 3);
    assert_eq!(skip_trivia(b"ab", 2), 2);
    assert_eq!(skip_trivia(b"ab", 7), 7);
}

#[test]
fn token_text_is_a_range_of_the_input() {
    let input = b"hello world";
    assert_eq!(token(6, 11).text(input), b"world");
    assert_eq!(token(3, 3).text(input), b"");
}

#[test]
fn literal_matches_only_inside_the_input() {
    assert!(literal_matches(b"abcdef", 2, b"cd"));
    assert!(literal_matches(b"abcdef", 4, b"ef"));
    assert!(literal_matches(b"abcdef", 6, b""));
    assert!(!literal_matches(b"abcdef", 2, b"ce"));
    assert!(!literal_matches(b"abcdef", 5, b"fg"));
    assert!(!literal_matches(b"abcdef", 7, b""));
    assert!(!literal_matches(b"abcdef", usize::MAX, b"ab"));
}

#[test]
fn keyword_must_end_the_word() {
    let expected = Expected::Keyword(Command::Skew);
    assert_eq!(
        keyword(b"  $skew (", 0, b"$skew", expected),
        Ok((Keyword { nodes: (token(2, 7),) }, 7))
    );
    assert_eq!(keyword(b"$skew", 0, b"$skew", expected), Ok((Keyword { nodes: (token(0, 5),) }, 5)));
    let failure = |end: usize| ParseError::Soft(Failure { expected, found: token(0, end) });
    assert_eq!(keyword(b"$skewed(", 0, b"$skew", expected), Err(failure(7)));
    assert_eq!(keyword(b"$skew_(", 0, b"$skew", expected), Err(failure(6)));
    assert_eq!(keyword(b"$skew1(", 0, b"$skew", expected), Err(failure(6)));
    assert_eq!(keyword(b"$ske", 0, b"$skew", expected), Err(failure(4)));
    let failure = Failure { expected, found: token(3, 3) };
    assert_eq!(keyword(b"   ", 0, b"$skew", expected), Err(ParseError::Soft(failure)));
}

#[test]
fn symbol_is_one_byte() {
    assert_eq!(symbol(b" ,x", 0, b','), Ok((Symbol { nodes: (token(1, 2),) }, 2)));
    let failure = Failure { expected: Expected::Symbol(b';'), found: token(1, 2) };
    assert_eq!(symbol(b" ,x", 0, b';'), Err(ParseError::Soft(failure)));
    let failure = Failure { expected: Expected::Symbol(b';'), found: token(9, 9) };
    assert_eq!(symbol(b" ,x", 9, b';'), Err(ParseError::Soft(failure)));
}

#[test]
fn identifier_takes_the_whole_word() {
    assert_eq!(identifier(b" clk_1$x+", 0), Ok((Identifier { nodes: (token(1, 8),) }, 8)));
    assert_eq!(identifier(b"_", 0), Ok((Identifier { nodes: (token(0, 1),) }, 1)));
    let failure = Failure { expected: Expected::Identifier, found: token(0, 2) };
    assert_eq!(identifier(b"1a", 0), Err(ParseError::Soft(failure)));
    let failure = Failure { expected: Expected::Identifier, found: token(0, 2) };
    assert_eq!(identifier(b"$a", 0), Err(ParseError::Soft(failure)));
    let failure = Failure { expected: Expected::Identifier, found: token(2, 2) };
    assert_eq!(identifier(b"  ", 0), Err(ParseError::Soft(failure)));
}

#[test]
fn number_takes_digits_and_underscores() {
    assert_eq!(number(b" 1_000ns", 0), Ok((Number { nodes: (token(1, 6),) }, 6)));
    assert_eq!(number(b"7", 0), Ok((Number { nodes: (token(0, 1),) }, 1)));
    let failure = Failure { expected: Expected::Number, found: token(0, 2) };
    assert_eq!(number(b"_1", 0), Err(ParseError::Soft(failure)));
}

#[test]
fn failure_reports_what_stands_there() {
    assert_eq!(
        failure_at(b"ab", 1, Expected::Edge),
        Failure { expected: Expected::Edge, found: token(1, 2) }
    );
    assert_eq!(
        failure_at(b"ab", 2, Expected::Edge),
        Failure { expected: Expected::Edge, found: token(2, 2) }
    );
    assert_eq!(failure_at(b"ab cd", 3, Expected::Edge).position(), 3);
    assert_eq!(token_at(b"ab cd", 3), token(3, 5));
    assert_eq!(token_at(b"ab+cd", 2), token(2, 3));
    assert_eq!(token_at(b"$x1_ y", 0), token(0, 4));
    assert_eq!(token_at(b"ab", 2), token(2, 2));
    assert_eq!(token_at(b"ab", 5), token(5, 5));
    assert_eq!(skip_identifier(b"ab cd", 0), 2);
    assert_eq!(skip_identifier(b"ab cd", 2), 2);
    assert_eq!(skip_identifier(b"ab cd", 5), 5);
    let soft = ParseError::Soft(failure_at(b"ab", 1, Expected::Edge));
    let hard = ParseError::Hard(failure_at(b"ab", 1, Expected::Edge));
    assert!(!soft.is_hard());
    assert!(hard.is_hard());
    assert_eq!(soft.failure(), hard.failure());
}

#[test]
fn commit_makes_a_soft_failure_hard() {
    let failure = Failure { expected: Expected::Identifier, found: token(4, 4) };
    let soft: PResult<u8> = Err(ParseError::Soft(failure));
    let hard: PResult<u8> = Err(ParseError::Hard(failure));
    let fine: PResult<u8> = Ok((1, 2));
    assert_eq!(commit(soft), hard);
    assert_eq!(commit(hard), hard);
    assert_eq!(commit(fine), fine);
}

#[test]
fn opt_turns_a_failure_into_none() {
    let failure = Failure { expected: Expected::Identifier, found: token(4, 4) };
    let soft: PResult<u8> = Err(ParseError::Soft(failure));
    let fine: PResult<u8> = Ok((1, 9));
    let hard: PResult<u8> = Err(ParseError::Hard(failure));
    assert_eq!(opt(soft, 3), Ok((None, 3)));
    assert_eq!(opt(fine, 3), Ok((Some(1), 9)));
    assert_eq!(opt(hard, 3), Err(ParseError::Hard(failure)));
}

#[test]
fn edges_are_three_keywords() {
    assert!(matches!(
        timing_check_event_control(b"posedge x", 0),
        Ok((TimingCheckEventControl::Posedge(_), 7))
    ));
    assert!(matches!(
        timing_check_event_control(b"negedge x", 0),
        Ok((TimingCheckEventControl::Negedge(_), 7))
    ));
    assert!(matches!(
        timing_check_event_control(b" edge x", 0),
        Ok((TimingCheckEventControl::Edge(_), 5))
    ));
    let failure = Failure { expected: Expected::Edge, found: token(0, 5) };
    assert_eq!(timing_check_event_control(b"edges", 0), Err(ParseError::Soft(failure)));
}

#[test]
fn event_has_an_optional_edge() {
    let (event, next) = timing_check_event(b"negedge rst,", 0).unwrap();
    assert_eq!(next, 11);
    assert!(matches!(event.nodes.0, Some(TimingCheckEventControl::Negedge(_))));
    assert_eq!(event.nodes.1.nodes.0, token(8, 11));
    let (event, next) = timing_check_event(b"negedges,", 0).unwrap();
    assert_eq!(next, 8);
    assert_eq!(event.nodes.0, None);
    let failure = Failure { expected: Expected::Identifier, found: token(7, 8) };
    assert_eq!(timing_check_event(b"posedge, clk", 0), Err(ParseError::Soft(failure)));
    assert_eq!(data_event(b"posedge, clk", 0), Err(ParseError::Soft(failure)));
    assert_eq!(reference_event(b"posedge, clk", 0), Err(ParseError::Soft(failure)));
    assert_eq!(data_event(b"d", 0).unwrap().1, 1);
    assert_eq!(reference_event(b"edge r", 0).unwrap().1, 6);
    assert_eq!(controlled_reference_event(b"edge r", 0).unwrap().1, 6);
    let failure = Failure { expected: Expected::Edge, found: token(0, 1) };
    assert_eq!(controlled_reference_event(b"r", 0), Err(ParseError::Soft(failure)));
}

#[test]
fn expression_is_a_signed_primary() {
    assert!(matches!(primary(b"12", 0), Ok((Primary::Number(_), 2))));
    assert!(matches!(primary(b"t12", 0), Ok((Primary::Identifier(_), 3))));
    let failure = Failure { expected: Expected::Primary, found: token(0, 1) };
    assert_eq!(primary(b"(1)", 0), Err(ParseError::Soft(failure)));
    assert_eq!(sign(b" -", 0), Ok((Symbol { nodes: (token(1, 2),) }, 2)));
    assert_eq!(sign(b"+", 0), Ok((Symbol { nodes: (token(0, 1),) }, 1)));
    let failure = Failure { expected: Expected::Symbol(b'-'), found: token(0, 1) };
    assert_eq!(sign(b"*", 0), Err(ParseError::Soft(failure)));
    let (e, next) = expression(b"- 5", 0).unwrap();
    assert_eq!(next, 3);
    assert_eq!(e.nodes.0, Some(Symbol { nodes: (token(0, 1),) }));
    assert_eq!(e.nodes.1.token(), token(2, 3));
    let failure = Failure { expected: Expected::Primary, found: token(1, 2) };
    assert_eq!(expression(b"--5", 0), Err(ParseError::Soft(failure)));
}

#[test]
fn operands_are_expressions_or_names() {
    assert_eq!(timing_check_limit(b"+3", 0).unwrap().1, 2);
    assert_eq!(timestamp_condition(b"ts", 0).unwrap().1, 2);
    assert_eq!(timecheck_condition(b"-tc", 0).unwrap().1, 3);
    assert_eq!(event_based_flag(b"1", 0).unwrap().1, 1);
    assert_eq!(remain_active_flag(b"0", 0).unwrap().1, 1);
    assert_eq!(threshold(b"10", 0).unwrap().1, 2);
    assert_eq!(start_edge_offset(b"-1", 0).unwrap().1, 2);
    assert_eq!(end_edge_offset(b"+1", 0).unwrap().1, 2);
    assert_eq!(notifier(b"nt", 0).unwrap().1, 2);
    assert_eq!(delayed_reference(b"dr", 0).unwrap().1, 2);
    assert_eq!(delayed_data(b"dd", 0).unwrap().1, 2);
    let failure = Failure { expected: Expected::Identifier, found: token(0, 1) };
    assert_eq!(notifier(b"1", 0), Err(ParseError::Soft(failure)));
    assert_eq!(delayed_reference(b"1", 0), Err(ParseError::Soft(failure)));
    assert_eq!(delayed_data(b"1", 0), Err(ParseError::Soft(failure)));
}

#[test]
fn tail_stops_where_no_comma_follows() {
    let (tail, next) = NotifierTail::parse_tail(b")", 0).unwrap();
    assert_eq!((tail, next), (None, 0));
    let (tail, next) = NotifierTail::parse_tail(b" , )", 0).unwrap();
    assert_eq!(next, 2);
    assert_eq!(tail, Some((Symbol { nodes: (token(1, 2),) }, None)));
    let (tail, next) = NotifierTail::parse_tail(b", nt, x)", 0).unwrap();
    assert_eq!(next, 4);
    assert!(tail.unwrap().1.is_some());
}

#[test]
fn a_tier_begins_with_a_comma() {
    let failure = Failure { expected: Expected::Symbol(b','), found: token(0, 1) };
    assert_eq!(last_tier::<Notifier>(b")", 0), Err(ParseError::Soft(failure)));
    assert_eq!(
        tier::<Notifier, NotifierTail>(b")", 0).map(|(_, next)| next),
        Err(ParseError::Soft(failure))
    );
    assert_eq!(last_tier::<Notifier>(b", n)", 0).unwrap().1, 3);
    assert_eq!(last_tier::<Notifier>(b", 7)", 0).unwrap().1, 1);
    let ((_, first, rest), next) = tier::<Notifier, NotifierTail>(b", , n)", 0).unwrap();
    assert_eq!(next, 5);
    assert_eq!(first, None);
    assert!(rest.unwrap().1.is_some());
}

#[test]
fn tail_keeps_the_place_of_a_skipped_argument() {
    let (tail, next) = FlagTail::parse_tail(b", , 1)", 0).unwrap();
    assert_eq!(next, 5);
    let (_, notifier, tier1) = tail.unwrap();
    assert_eq!(notifier, None);
    let (_, flag, tier2) = tier1.unwrap();
    assert!(flag.is_some());
    assert_eq!(tier2, None);
    let (tail, next) = ConditionTail::parse_tail(b",n,1,2,r,d,", 0).unwrap();
    assert_eq!(next, 10);
    let mut tokens = Vec::new();
    tail.push_tokens(&mut tokens);
    assert_eq!(tokens.len(), 10);
    let (tail, next) = ConditionTail::parse_tail(b",,,,,)", 0).unwrap();
    assert_eq!(next, 5);
    let mut tokens = vec![token(0, 0)];
    tail.push_tokens(&mut tokens);
    assert_eq!(
        tokens,
        vec![token(0, 0), token(0, 1), token(1, 2), token(2, 3), token(3, 4), token(4, 5)]
    );
}
