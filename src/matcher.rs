//! The matching protocol as traits, and the entry points: building a searchable pattern
//! and running it over a text.
use vstd::prelude::*;
use crate::chars::{CharClass, YesChoice};
use crate::engine::{agrees, match_kont, match_node};
use crate::pattern::{Capture, CaptureRe, Choice, Cont, Kont, Regex, StarMin};
use crate::semantics::{bytes_of, kont_run, node_run};

verus! {

/// A pattern that can match at a position and then hand over to a continuation.
pub trait RegexThen {
    /// The outcome of matching at `position` and then going on with `continuation`.
    spec fn then_outcome<'t>(
        &self,
        text: &'t str,
        position: int,
        captures: Seq<Capture<'t>>,
        continuation: Kont,
    ) -> Option<(int, Seq<Capture<'t>>)>;

    /// Tries every way to match at `position`, in order, each followed by `continuation`;
    /// returns the end position of the first that succeeds. On failure `captures` is left
    /// as it was.
    fn match_then<'t>(
        &self,
        text: &'t str,
        position: usize,
        captures: &mut Vec<Capture<'t>>,
        continuation: &Cont,
    ) -> (r: Option<usize>)
        requires
            position <= bytes_of(text).len(),
        ensures
            agrees(
                r,
                final(captures)@,
                old(captures)@,
                self.then_outcome(text, position as int, old(captures)@, continuation.model()),
            ),
    ;
}

/// The rest of a match: what has to succeed after the current step.
pub trait RegexContinuation {
    /// The outcome of going on at `position`.
    spec fn continue_outcome<'t>(&self, text: &'t str, position: int, captures: Seq<Capture<'t>>) -> Option<
        (int, Seq<Capture<'t>>),
    >;

    /// Goes on at `position`; on failure `captures` is left as it was.
    fn match_continue<'t>(&self, text: &'t str, position: usize, captures: &mut Vec<Capture<'t>>) -> (r:
        Option<usize>)
        requires
            position <= bytes_of(text).len(),
        ensures
            agrees(
                r,
                final(captures)@,
                old(captures)@,
                self.continue_outcome(text, position as int, old(captures)@),
            ),
    ;
}

impl RegexThen for Regex {
    open spec fn then_outcome<'t>(
        &self,
        text: &'t str,
        position: int,
        captures: Seq<Capture<'t>>,
        continuation: Kont,
    ) -> Option<(int, Seq<Capture<'t>>)> {
        node_run(*self, text, position, captures, continuation)
    }

    fn match_then<'t>(
        &self,
        text: &'t str,
        position: usize,
        captures: &mut Vec<Capture<'t>>,
        continuation: &Cont,
    ) -> (r: Option<usize>) {
        match_node(self, text, text.as_bytes(), position, captures, continuation)
    }
}

impl<'a> RegexContinuation for Cont<'a> {
    open spec fn continue_outcome<'t>(&self, text: &'t str, position: int, captures: Seq<Capture<'t>>) -> Option<
        (int, Seq<Capture<'t>>),
    > {
        kont_run(self.model(), text, position, captures)
    }

    fn match_continue<'t>(&self, text: &'t str, position: usize, captures: &mut Vec<Capture<'t>>) -> (r:
        Option<usize>) {
        match_kont(self, text, text.as_bytes(), position, captures)
    }
}

/// The tree for a pattern body: anchored, the body as group 0; unanchored, the same behind a
/// lazy skip of any characters, so that the leftmost start where the body matches wins.
pub open spec fn compiled(body: Regex, anchored: bool) -> Regex {
    let group = Regex::CaptureRe(CaptureRe(Box::new(body)));
    if anchored {
        group
    } else {
        Regex::Concat(
            Box::new(Regex::StarMin(StarMin(Box::new(Regex::Choice(Choice(CharClass::Anything(YesChoice))))))),
            Box::new(group),
        )
    }
}

/// Builds the searchable tree for a pattern body: the whole body becomes capture group 0;
/// without a leading anchor the match may start anywhere, the leftmost start first.
pub fn compile(body: Regex, anchored: bool) -> (r: Regex)
    ensures
        r == compiled(body, anchored),
{
    let group = Regex::CaptureRe(CaptureRe(Box::new(body)));
    if anchored {
        group
    } else {
        Regex::Concat(
            Box::new(Regex::StarMin(StarMin(Box::new(Regex::Choice(Choice(CharClass::Anything(YesChoice))))))),
            Box::new(group),
        )
    }
}

/// The captures that running `pattern` over `text` yields, or `None` when it does not match.
pub open spec fn run_outcome<'t>(pattern: Regex, text: &'t str) -> Option<Seq<Capture<'t>>> {
    match node_run(pattern, text, 0, seq![], Kont::Done) {
        Some((_, caps)) => Some(caps),
        None => None,
    }
}

/// Matches `pattern` from the start of `text`, with an empty capture buffer and nothing
/// after it; returns the captures of the first way that matches.
pub fn run<'t>(pattern: &Regex, text: &'t str) -> (r: Option<Vec<Capture<'t>>>)
    ensures
        match run_outcome(*pattern, text) {
            Some(caps) => r is Some && r->0@ == caps,
            None => r is None,
        },
{
    let mut captures: Vec<Capture<'t>> = Vec::new();
    let done = Cont::Done;
    match match_node(pattern, text, text.as_bytes(), 0, &mut captures, &done) {
        Some(_) => Some(captures),
        None => None,
    }
}

} // verus!
