use rusty_regex::{
    compile, run, CaptureRe, Capture, CharChoice, CharClass, Choice, End, Literal, NoChoice,
    NotChoice, OrChoice, PlusMax, PlusMin, Regex, StarMax, StarMin, YesChoice,
};
use rusty_regex::{digit as digit_class, space as space_class};

fn lit(s: &'static str) -> Regex {
    Regex::Literal(Literal(s))
}

fn seq(items: Vec<Regex>) -> Regex {
    let mut r = Regex::Accept(rusty_regex::Accept);
    for item in items.into_iter().rev() {
        r = Regex::Concat(Box::new(item), Box::new(r));
    }
    r
}

fn star(r: Regex) -> Regex {
    Regex::StarMax(StarMax(Box::new(r)))
}

fn star_min(r: Regex) -> Regex {
    Regex::StarMin(StarMin(Box::new(r)))
}

fn plus(r: Regex) -> Regex {
    Regex::PlusMax(PlusMax(Box::new(r)))
}

fn plus_min(r: Regex) -> Regex {
    Regex::PlusMin(PlusMin(Box::new(r)))
}

fn group(r: Regex) -> Regex {
    Regex::CaptureRe(CaptureRe(Box::new(r)))
}

fn end_anchor() -> Regex {
    Regex::End(End)
}

fn class(c: CharClass) -> Regex {
    Regex::Choice(Choice(c))
}

/// A bracketed class listing single characters: each one, or-ed onto "no character".
fn one_of(chars: &[char]) -> CharClass {
    let mut c = CharClass::Nothing(NoChoice);
    for &ch in chars.iter().rev() {
        c = CharClass::Or(OrChoice(Box::new(CharClass::Char(CharChoice(ch))), Box::new(c)));
    }
    c
}

fn or(a: CharClass, b: CharClass) -> CharClass {
    CharClass::Or(OrChoice(Box::new(a), Box::new(b)))
}

fn anchored(items: Vec<Regex>) -> Regex {
    compile(seq(items), true)
}

fn unanchored(items: Vec<Regex>) -> Regex {
    compile(seq(items), false)
}

fn cap(text: &str, start: usize, end: usize) -> Capture<'_> {
    Capture { text, start, end }
}

#[test]
fn literal() {
    let re = anchored(vec![lit("hi")]);
    assert_eq!(run(&re, "hi").unwrap()[0].end, 2);
    assert!(run(&re, "ho").is_none());
}

#[test]
fn literal_star() {
    let re = anchored(vec![star(lit("hi"))]);
    assert!(run(&re, "hihihi").unwrap()[0].end == 6);
    assert!(run(&re, "hihiho").unwrap()[0].end == 4);
    assert!(run(&re, "hihohi").unwrap()[0].end == 2);
    assert!(run(&re, "hohihi").unwrap()[0].end == 0);
}

#[test]
fn literal_plus() {
    let re = anchored(vec![plus(lit("hi"))]);
    assert!(run(&re, "hihihi").unwrap()[0].end == 6);
    assert!(run(&re, "hihiho").unwrap()[0].end == 4);
    assert!(run(&re, "hihohi").unwrap()[0].end == 2);
    assert!(run(&re, "hohihi").is_none());
}

#[test]
fn literal_literal() {
    let re = anchored(vec![lit("hi"), lit("ho")]);
    assert!(run(&re, "hihihi").is_none());
    assert!(run(&re, "hihiho").is_none());
    assert!(run(&re, "hihohi").unwrap()[0].end == 4);
    assert!(run(&re, "hohihi").is_none());
}

#[test]
fn literal_star_literal() {
    let re = anchored(vec![group(seq(vec![star(lit("hi"))])), lit("ho")]);
    assert!(run(&re, "hihihi").is_none());
    assert!(run(&re, "hihiho").is_some());
    assert!(run(&re, "hihiho").unwrap()[1].end == 4);
}

#[test]
fn star_plus() {
    let re = anchored(vec![group(seq(vec![star(lit("hi"))])), group(seq(vec![plus(lit("hi"))]))]);
    assert_eq!(
        run(&re, "hihihi").unwrap(),
        vec![cap("hihihi", 0, 6), cap("hihihi", 0, 4), cap("hihihi", 4, 6)]
    );
    assert_eq!(run(&re, "hi").unwrap(), vec![cap("hi", 0, 2), cap("hi", 0, 0), cap("hi", 0, 2)]);
}

#[test]
fn star_min_plus() {
    let re =
        anchored(vec![group(seq(vec![star_min(lit("hi"))])), group(seq(vec![plus(lit("hi"))]))]);
    assert_eq!(
        run(&re, "hihihi").unwrap(),
        vec![cap("hihihi", 0, 6), cap("hihihi", 0, 0), cap("hihihi", 0, 6)]
    );
    assert_eq!(run(&re, "hi").unwrap(), vec![cap("hi", 0, 2), cap("hi", 0, 0), cap("hi", 0, 2)]);
}

#[test]
fn star_min_hi_plus_ho() {
    let re = anchored(vec![
        group(seq(vec![star_min(class(one_of(&['a', 'c'])))])),
        group(seq(vec![plus(class(one_of(&['b', 'c'])))])),
        end_anchor(),
    ]);
    assert_eq!(
        run(&re, "aacbbc").unwrap(),
        vec![cap("aacbbc", 0, 6), cap("aacbbc", 0, 2), cap("aacbbc", 2, 6)]
    );
    assert_eq!(
        run(&re, "aacabbc").unwrap(),
        vec![cap("aacabbc", 0, 7), cap("aacabbc", 0, 4), cap("aacabbc", 4, 7)]
    );
}

#[test]
fn plus_plus() {
    let re = anchored(vec![group(seq(vec![plus(lit("hi"))])), group(seq(vec![plus(lit("hi"))]))]);
    assert_eq!(
        run(&re, "hihihi").unwrap(),
        vec![cap("hihihi", 0, 6), cap("hihihi", 0, 4), cap("hihihi", 4, 6)]
    );
    assert!(run(&re, "hi").is_none());
}

#[test]
fn paren_no_cap() {
    let re = anchored(vec![plus(seq(vec![lit("hi"), lit("hi")])), group(seq(vec![plus(lit("hi"))]))]);
    assert_eq!(run(&re, "hihihi").unwrap(), vec![cap("hihihi", 0, 6), cap("hihihi", 4, 6)]);
}

#[test]
fn char_range() {
    let re = anchored(vec![plus(class(one_of(&['a', 'b', 'c'])))]);
    assert!(run(&re, "abc").is_some());
    assert!(run(&re, "def").is_none());
}

#[test]
fn inv_char_range() {
    let re = anchored(vec![plus(class(CharClass::Not(NotChoice(Box::new(one_of(&['a', 'b', 'c']))))))]);
    assert!(run(&re, "abc").is_none());
    assert!(run(&re, "def").is_some());
}

#[test]
fn end() {
    let re = anchored(vec![star(class(one_of(&['a', 'b', 'c']))), end_anchor()]);
    assert!(run(&re, "").is_some());
    assert!(run(&re, "abcabc").is_some());
    assert!(run(&re, "abcabcd").is_none());
}

fn digits() -> CharClass {
    or(CharClass::Digit(digit_class), CharClass::Nothing(NoChoice))
}

#[test]
fn digit() {
    let re = anchored(vec![star(class(digits())), end_anchor()]);
    assert!(run(&re, "0123").is_some());
    assert!(run(&re, "0 123").is_none());
    assert!(run(&re, "abc").is_none());
}

#[test]
fn digit_or_space() {
    let c = or(
        CharClass::Digit(digit_class),
        or(CharClass::Space(space_class), CharClass::Nothing(NoChoice)),
    );
    let re = anchored(vec![star(class(c)), end_anchor()]);
    assert!(run(&re, "0123").is_some());
    assert!(run(&re, "0 123").is_some());
    assert!(run(&re, "abc").is_none());
}

#[test]
fn dot() {
    let re = anchored(vec![star(class(CharClass::Anything(YesChoice))), end_anchor()]);
    assert!(run(&re, "0123").is_some());
    assert!(run(&re, "0 123").is_some());
    assert!(run(&re, "abc").is_some());
    assert!(run(&re, "").is_some());
}

#[test]
fn missing_anchor() {
    let re = unanchored(vec![plus(lit("a"))]);
    // contains an 'a':
    assert!(run(&re, "gjoijqpavadsaf").is_some());
    // does not:
    assert!(run(&re, "gjoijqpvdsf").is_none());
}

#[test]
fn lazy_plus_takes_one_repetition() {
    let re = anchored(vec![group(seq(vec![plus_min(lit("hi"))])), star(lit("hi"))]);
    assert_eq!(
        run(&re, "hihihi").unwrap(),
        vec![cap("hihihi", 0, 6), cap("hihihi", 0, 2)]
    );
}
