//! The pattern tree, capture spans, and continuations ("what matches next").
use vstd::prelude::*;
use vstd::utf8::*;
use vstd::string::StringSliceAdditionalSpecFns;
use crate::chars::CharClass;

verus! {

/// One capturing group's span: byte offsets `[start, end)` into `text`.
#[derive(Clone, Copy, Debug, PartialEq, Eq)]
pub struct Capture<'text> {
    pub text: &'text str,
    pub start: usize,
    pub end: usize,
}

impl<'text> Capture<'text> {
    /// The part of the text the span covers.
    pub fn to_str(self) -> (r: &'text str)
        requires
            self.start <= self.end <= self.text.spec_bytes().len(),
            is_char_boundary(self.text.spec_bytes(), self.start as int),
            is_char_boundary(self.text.spec_bytes(), self.end as int),
        ensures
            r.spec_bytes() == self.text.spec_bytes().subrange(self.start as int, self.end as int),
    {
        broadcast use encode_utf8_valid_utf8, is_char_boundary_iff_not_is_continuation_byte;

        let ghost bytes = self.text.spec_bytes();
        let (_, tail) = self.text.split_at(self.start);
        proof {
            let k = self.end - self.start;
            if k < tail.spec_bytes().len() {
                assert(tail.spec_bytes()[k as int] == bytes[self.end as int]);
                assert(!is_continuation_byte(bytes[self.end as int]));
                encode_utf8_valid_utf8(tail@);
            }
            is_char_boundary_start_end_of_seq(tail.spec_bytes());
        }
        let (r, _) = tail.split_at(self.end - self.start);
        proof {
            assert(r.spec_bytes() =~= bytes.subrange(self.start as int, self.end as int));
        }
        r
    }
}

/// Succeeds at once, where it stands.
#[derive(Clone, Copy, Debug)]
pub struct Accept;

/// Succeeds only at the end of the text.
#[derive(Clone, Copy, Debug)]
pub struct End;

/// The exact bytes of a string.
#[derive(Clone, Copy, Debug)]
pub struct Literal(pub &'static str);

/// One character that the class admits.
#[derive(Debug)]
pub struct Choice(pub CharClass);

/// Greedy `*`: as many repetitions as lead to a match, most first.
#[derive(Debug)]
pub struct StarMax(pub Box<Regex>);

/// Greedy `+`: one repetition, then as many more as lead to a match, most first.
#[derive(Debug)]
pub struct PlusMax(pub Box<Regex>);

/// Lazy `*?`: as few repetitions as lead to a match, fewest first.
#[derive(Debug)]
pub struct StarMin(pub Box<Regex>);

/// Lazy `+?`: one repetition, then as few more as lead to a match.
#[derive(Debug)]
pub struct PlusMin(pub Box<Regex>);

/// Greedy `?`: one occurrence if that leads to a match, else none.
#[derive(Debug)]
pub struct Question(pub Box<Regex>);

/// A capturing group: records the span its inner pattern matched.
#[derive(Debug)]
pub struct CaptureRe(pub Box<Regex>);

/// A pattern tree. `Concat(a, b)` matches `a`, then `b` where `a` stopped.
#[derive(Debug)]
pub enum Regex {
    Accept(Accept),
    End(End),
    Literal(Literal),
    Choice(Choice),
    Concat(Box<Regex>, Box<Regex>),
    StarMax(StarMax),
    PlusMax(PlusMax),
    StarMin(StarMin),
    PlusMin(PlusMin),
    Question(Question),
    CaptureRe(CaptureRe),
}

/// The rest of a match, as a value: the model of a continuation chain.
pub enum Kont {
    /// Nothing is left: the match ends here.
    Done,
    /// Match the pattern, then go on with the rest.
    Then(Regex, Box<Kont>),
    /// A repetition state: after an iteration of the pattern, try another one
    /// (greedy: first; lazy: last), or go on with the rest. `last` is where the
    /// iteration that led here began, if any; an iteration that consumed nothing
    /// ends the repetition.
    Repeat(Regex, bool, Option<int>, Box<Kont>),
    /// Close the group at this index: its span ends here.
    Close(usize, Box<Kont>),
}

/// A continuation chain, built on the stack as matching descends; each variant is the
/// executable form of the `Kont` variant of the same name.
pub enum Cont<'a> {
    Done,
    Then(&'a Regex, &'a Cont<'a>),
    Repeat(&'a Regex, bool, Option<usize>, &'a Cont<'a>),
    Close(usize, &'a Cont<'a>),
}

impl<'a> Cont<'a> {
    /// The rest of the match this chain stands for.
    pub open spec fn model(&self) -> Kont
        decreases self,
    {
        match *self {
            Cont::Done => Kont::Done,
            Cont::Then(r, k) => Kont::Then(*r, Box::new(k.model())),
            Cont::Repeat(r, greedy, last, k) => Kont::Repeat(
                *r,
                greedy,
                match last {
                    Some(l) => Some(l as int),
                    None => None,
                },
                Box::new(k.model()),
            ),
            Cont::Close(i, k) => Kont::Close(i, Box::new(k.model())),
        }
    }
}

} // verus!
