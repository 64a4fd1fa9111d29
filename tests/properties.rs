use rusty_regex::{
    compile, run, Accept, CaptureRe, Capture, CharClass, CharRange, Choice, Cont, End, Literal,
    NoChoice, OrChoice, PlusMax, Question, RangeChoice, Regex, RegexContinuation, RegexThen,
    StarMax, StarMin, YesChoice,
};
use rusty_regex::{alpha as alpha_class, space as space_class};

fn lit(s: &'static str) -> Regex {
    Regex::Literal(Literal(s))
}

fn cat(a: Regex, b: Regex) -> Regex {
    Regex::Concat(Box::new(a), Box::new(b))
}

fn group(r: Regex) -> Regex {
    Regex::CaptureRe(CaptureRe(Box::new(r)))
}

fn star(r: Regex) -> Regex {
    Regex::StarMax(StarMax(Box::new(r)))
}

fn star_min(r: Regex) -> Regex {
    Regex::StarMin(StarMin(Box::new(r)))
}

fn plus(r: Regex) -> Regex {
    Regex::PlusMax(PlusMax(Box::new(r)))
}

fn spans(caps: &[Capture<'_>]) -> Vec<(usize, usize)> {
    caps.iter().map(|c| (c.start, c.end)).collect()
}

#[test]
fn literal_exact_span() {
    let re = compile(lit("hi"), true);
    assert_eq!(spans(&run(&re, "hi").unwrap()), vec![(0, 2)]);
    assert!(run(&re, "ho").is_none());
}

#[test]
fn bare_literal_ends_after_its_bytes() {
    let done = Cont::Done;
    let mut caps = Vec::new();
    assert_eq!(lit("hi").match_then("hi", 0, &mut caps, &done), Some(2));
    assert_eq!(lit("hi").match_then("ho", 0, &mut caps, &done), None);
    assert!(caps.is_empty());
}

#[test]
fn greedy_and_lazy_star_diverge() {
    let greedy = compile(cat(group(star(lit("a"))), group(plus(lit("a")))), true);
    assert_eq!(spans(&run(&greedy, "aaa").unwrap()), vec![(0, 3), (0, 2), (2, 3)]);
    let lazy = compile(cat(group(star_min(lit("a"))), group(plus(lit("a")))), true);
    assert_eq!(spans(&run(&lazy, "aaa").unwrap()), vec![(0, 3), (0, 0), (0, 3)]);
}

#[test]
fn failed_attempt_leaves_buffer_as_it_was() {
    let text = "aab";
    let before = vec![Capture { text, start: 1, end: 2 }];
    let mut caps = before.clone();
    // groups inside a quantifier, followed by something that never matches
    let re = cat(star(group(lit("a"))), lit("c"));
    let done = Cont::Done;
    assert_eq!(re.match_then(text, 0, &mut caps, &done), None);
    assert_eq!(caps, before);
}

#[test]
fn groups_in_a_quantifier_are_one_per_repetition_kept() {
    let re = compile(cat(star(group(lit("a"))), lit("b")), true);
    assert_eq!(spans(&run(&re, "aab").unwrap()), vec![(0, 3), (0, 1), (1, 2)]);
    // the group's spans from abandoned repetitions are gone
    let re = compile(cat(star(group(lit("a"))), lit("ab")), true);
    assert_eq!(spans(&run(&re, "aab").unwrap()), vec![(0, 3), (0, 1)]);
}

#[test]
fn sequencing() {
    let re = compile(cat(lit("hi"), lit("ho")), true);
    assert_eq!(spans(&run(&re, "hihoX").unwrap()), vec![(0, 4)]);
    assert!(run(&re, "hihihi").is_none());
}

#[test]
fn unanchored_search_is_leftmost() {
    let re = compile(plus(lit("a")), false);
    assert_eq!(spans(&run(&re, "xxaaayy").unwrap()), vec![(2, 5)]);
    assert!(run(&re, "xx").is_none());
}

fn a_to_c_then_end() -> Regex {
    let c = CharClass::Range(RangeChoice('a', 'c'));
    compile(cat(star(Regex::Choice(Choice(c))), Regex::End(End)), true)
}

#[test]
fn end_anchor() {
    let re = a_to_c_then_end();
    assert!(run(&re, "").is_some());
    assert_eq!(spans(&run(&re, "abcabc").unwrap()), vec![(0, 6)]);
    assert!(run(&re, "abcabcd").is_none());
}

#[test]
fn compiling_twice_gives_the_same_results() {
    let first = a_to_c_then_end();
    let second = a_to_c_then_end();
    for text in ["", "abc", "abcd", "cab", "xyz"] {
        assert_eq!(run(&first, text), run(&second, text));
    }
}

#[test]
fn empty_iteration_ends_a_repetition() {
    let re = compile(cat(star(star(lit("a"))), lit("b")), true);
    assert_eq!(spans(&run(&re, "aab").unwrap()), vec![(0, 3)]);
    assert!(run(&re, "aac").is_none());
    let re = compile(plus(group(star(lit("a")))), true);
    assert_eq!(spans(&run(&re, "").unwrap()), vec![(0, 0), (0, 0)]);
}

#[test]
fn question_prefers_one_occurrence() {
    let re = compile(cat(group(Regex::Question(Question(Box::new(lit("a"))))), lit("ab")), true);
    assert_eq!(spans(&run(&re, "aab").unwrap()), vec![(0, 3), (0, 1)]);
    assert_eq!(spans(&run(&re, "ab").unwrap()), vec![(0, 2), (0, 0)]);
}

#[test]
fn multibyte_characters_step_by_their_encoding() {
    let any = Regex::Choice(Choice(CharClass::Anything(YesChoice)));
    let re = compile(cat(any, Regex::End(End)), true);
    assert_eq!(spans(&run(&re, "é").unwrap()), vec![(0, 2)]);
    assert_eq!(spans(&run(&re, "語").unwrap()), vec![(0, 3)]);
    assert_eq!(spans(&run(&re, "🦀").unwrap()), vec![(0, 4)]);
    assert!(run(&re, "ab").is_none());
    assert!(run(&re, "").is_none());
}

#[test]
fn to_str_gives_the_captured_text() {
    let re = compile(cat(lit("x"), group(plus(lit("é")))), false);
    let caps = run(&re, "..xéé!").unwrap();
    assert_eq!(caps[0].to_str(), "xéé");
    assert_eq!(caps[1].to_str(), "éé");
}

#[test]
fn named_classes() {
    assert!(alpha_class.test('é'));
    assert!(!alpha_class.test('1'));
    assert!(space_class.test('\t'));
    assert!(space_class.test('\u{A0}'));
    assert!(!space_class.test('x'));
    let letters = CharClass::Alpha(alpha_class);
    let re = compile(cat(plus(Regex::Choice(Choice(letters))), Regex::End(End)), true);
    assert!(run(&re, "Straße").is_some());
    assert!(run(&re, "a1").is_none());
}

#[test]
fn empty_class_never_matches() {
    assert!(!NoChoice.test('a'));
    let c = CharClass::Or(OrChoice(Box::new(CharClass::Nothing(NoChoice)), Box::new(CharClass::Nothing(NoChoice))));
    let re = compile(Regex::Choice(Choice(c)), false);
    assert!(run(&re, "abc").is_none());
}

#[test]
fn accept_continues_where_it_stands() {
    let done = Cont::Done;
    let mut caps = Vec::new();
    assert_eq!(Regex::Accept(Accept).match_then("abc", 1, &mut caps, &done), Some(1));
    assert_eq!(done.match_continue("abc", 3, &mut caps), Some(3));
}

