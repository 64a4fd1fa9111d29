//! Laws of matching, proved over the semantics.
use vstd::prelude::*;
use crate::chars::{CharClass, YesChoice};
use crate::matcher::{compiled, run_outcome};
use crate::pattern::{Capture, Choice, Kont, Regex};
use crate::scalar::{lemma_boundary_after_literal, lemma_boundary_after_scalar, scalar_at};
use vstd::utf8::{encode_utf8_valid_utf8, is_char_boundary, is_char_boundary_start_end_of_seq};
use crate::semantics::{bytes_of, first_of, kont_run, kont_weight, node_run, node_weight};

verus! {

/// Tries `g` alone at each start position from `p` on, stepping one character at a time,
/// left to right; the first start at which it matches decides the outcome.
pub open spec fn leftmost_from<'t>(g: Regex, text: &'t str, p: int) -> Option<(int, Seq<Capture<'t>>)>
    decreases bytes_of(text).len() - p,
{
    let t = bytes_of(text);
    if p < 0 || p > t.len() {
        None
    } else {
        first_of(
            node_run(g, text, p, seq![], Kont::Done),
            match scalar_at(t, p) {
                Some((_, w)) => if w > 0 {
                    leftmost_from(g, text, p + w)
                } else {
                    None
                },
                None => None,
            },
        )
    }
}

/// The pattern that admits any one character.
pub open spec fn any_char() -> Regex {
    Regex::Choice(Choice(CharClass::Anything(YesChoice)))
}

proof fn lemma_skip_step<'t>(g: Regex, text: &'t str, p: int)
    requires
        0 <= p <= bytes_of(text).len(),
    ensures
        first_of(
            node_run(g, text, p, seq![], Kont::Done),
            node_run(
                any_char(),
                text,
                p,
                seq![],
                Kont::Repeat(any_char(), false, Some(p), Box::new(Kont::Then(g, Box::new(Kont::Done)))),
            ),
        ) == leftmost_from(g, text, p),
    decreases bytes_of(text).len() - p,
{
    let t = bytes_of(text);
    let rest = Kont::Then(g, Box::new(Kont::Done));
    let rp = Kont::Repeat(any_char(), false, Some(p), Box::new(rest));
    match scalar_at(t, p) {
        Some((c, w)) => {
            assert(CharClass::Anything(YesChoice).holds(c));
            if w > 0 {
                assert(node_run(any_char(), text, p, seq![], rp) == kont_run(rp, text, p + w, seq![]));
                if p + w <= t.len() {
                    lemma_skip_step(g, text, p + w);
                    assert(kont_run(rest, text, p + w, seq![]) == node_run(g, text, p + w, seq![], Kont::Done));
                    assert(kont_run(rp, text, p + w, seq![]) == first_of(
                        kont_run(rest, text, p + w, seq![]),
                        node_run(
                            any_char(),
                            text,
                            p + w,
                            seq![],
                            Kont::Repeat(any_char(), false, Some(p + w), Box::new(rest)),
                        ),
                    ));
                } else {
                    assert(kont_run(rp, text, p + w, seq![]) is None);
                    assert(leftmost_from(g, text, p + w) is None);
                }
            }
        },
        None => {},
    }
}

/// Without a leading anchor the compiled pattern finds the leftmost match: its outcome is
/// that of trying the anchored pattern at each start position in turn, from the left.
pub proof fn lemma_unanchored_is_leftmost<'t>(body: Regex, text: &'t str)
    ensures
        node_run(compiled(body, false), text, 0, seq![], Kont::Done) == leftmost_from(
            compiled(body, true),
            text,
            0,
        ),
        run_outcome(compiled(body, false), text) == match leftmost_from(compiled(body, true), text, 0) {
            Some((_, caps)) => Some(caps),
            None => None,
        },
{
    let g = compiled(body, true);
    let rest = Kont::Then(g, Box::new(Kont::Done));
    lemma_skip_step(g, text, 0);
    assert(node_run(compiled(body, false), text, 0, seq![], Kont::Done) == node_run(
        Regex::StarMin(crate::pattern::StarMin(Box::new(any_char()))),
        text,
        0,
        seq![],
        rest,
    ));
    assert(kont_run(Kont::Then(g, Box::new(Kont::Done)), text, 0, seq![]) == node_run(g, text, 0, seq![], Kont::Done));
}

/// Greedy and lazy repetition differ only in which way they try first. At every point where
/// a repetition may go on, a greedy one takes another repetition whenever that leads to a
/// match, and stops only when none does; a lazy one stops whenever what follows matches
/// there, and repeats only when it does not.
pub proof fn lemma_greedy_more_lazy_fewer<'t>(
    a: Regex,
    text: &'t str,
    p: int,
    caps: Seq<Capture<'t>>,
    k: Kont,
)
    requires
        0 <= p <= bytes_of(text).len(),
    ensures
        ({
            let more = node_run(a, text, p, caps, Kont::Repeat(a, true, Some(p), Box::new(k)));
            &&& more is Some ==> node_run(
                Regex::StarMax(crate::pattern::StarMax(Box::new(a))),
                text,
                p,
                caps,
                k,
            ) == more
            &&& more is None ==> node_run(
                Regex::StarMax(crate::pattern::StarMax(Box::new(a))),
                text,
                p,
                caps,
                k,
            ) == kont_run(k, text, p, caps)
            &&& more is Some ==> kont_run(Kont::Repeat(a, true, None, Box::new(k)), text, p, caps)
                == more
        }),
        ({
            let stop = kont_run(k, text, p, caps);
            let more = node_run(a, text, p, caps, Kont::Repeat(a, false, Some(p), Box::new(k)));
            &&& stop is Some ==> node_run(
                Regex::StarMin(crate::pattern::StarMin(Box::new(a))),
                text,
                p,
                caps,
                k,
            ) == stop
            &&& stop is None ==> node_run(
                Regex::StarMin(crate::pattern::StarMin(Box::new(a))),
                text,
                p,
                caps,
                k,
            ) == more
            &&& stop is Some ==> kont_run(Kont::Repeat(a, false, None, Box::new(k)), text, p, caps)
                == stop
        }),
{
}

/// Compiling the same description twice gives trees that match every text alike.
pub proof fn lemma_compile_deterministic<'t>(b1: Regex, b2: Regex, anchored: bool, text: &'t str)
    requires
        b1 == b2,
    ensures
        compiled(b1, anchored) == compiled(b2, anchored),
        run_outcome(compiled(b1, anchored), text) == run_outcome(compiled(b2, anchored), text),
{
}

/// Whether `after` keeps every span of `before`, in place, with its text and start, and
/// perhaps more after them.
pub open spec fn keeps_opened<'t>(before: Seq<Capture<'t>>, after: Seq<Capture<'t>>) -> bool {
    &&& before.len() <= after.len()
    &&& forall|i: int|
        0 <= i < before.len() ==> #[trigger] after[i].text == before[i].text && after[i].start
            == before[i].start
}

/// A successful match only adds spans after those it was given, and never moves the start
/// of a group opened before it.
pub proof fn lemma_node_keeps_opened<'t>(r: Regex, text: &'t str, p: int, caps: Seq<Capture<'t>>, k: Kont)
    ensures
        node_run(r, text, p, caps, k) matches Some((_, c)) ==> keeps_opened(caps, c),
    decreases bytes_of(text).len() - p, 2 * node_weight(r) + kont_weight(k, p), 1int,
{
    let t = bytes_of(text);
    if 0 <= p <= t.len() {
        match r {
            Regex::Accept(_) => lemma_kont_keeps_opened(k, text, p, caps),
            Regex::End(_) => lemma_kont_keeps_opened(k, text, p, caps),
            Regex::Literal(l) => {
                let n = bytes_of(l.0).len();
                if p + n <= t.len() {
                    lemma_kont_keeps_opened(k, text, p + n, caps);
                }
            },
            Regex::Choice(_) => {
                match scalar_at(t, p) {
                    Some((_, w)) => if w > 0 && p + w <= t.len() {
                        lemma_kont_keeps_opened(k, text, p + w, caps);
                    },
                    None => {},
                }
            },
            Regex::Concat(a, b) => lemma_node_keeps_opened(*a, text, p, caps, Kont::Then(*b, Box::new(k))),
            Regex::StarMax(x) => {
                lemma_node_keeps_opened(*x.0, text, p, caps, Kont::Repeat(*x.0, true, Some(p), Box::new(k)));
                lemma_kont_keeps_opened(k, text, p, caps);
            },
            Regex::PlusMax(x) => lemma_node_keeps_opened(
                *x.0,
                text,
                p,
                caps,
                Kont::Repeat(*x.0, true, None, Box::new(k)),
            ),
            Regex::StarMin(x) => {
                lemma_node_keeps_opened(*x.0, text, p, caps, Kont::Repeat(*x.0, false, Some(p), Box::new(k)));
                lemma_kont_keeps_opened(k, text, p, caps);
            },
            Regex::PlusMin(x) => lemma_node_keeps_opened(
                *x.0,
                text,
                p,
                caps,
                Kont::Repeat(*x.0, false, None, Box::new(k)),
            ),
            Regex::Question(x) => {
                lemma_node_keeps_opened(*x.0, text, p, caps, k);
                lemma_kont_keeps_opened(k, text, p, caps);
            },
            Regex::CaptureRe(x) => {
                let pushed = caps.push(Capture { text, start: p as usize, end: p as usize });
                lemma_node_keeps_opened(*x.0, text, p, pushed, Kont::Close(caps.len() as usize, Box::new(k)));
                assert(keeps_opened(caps, pushed));
            },
        }
    }
}

/// The same for going on with a continuation.
pub proof fn lemma_kont_keeps_opened<'t>(k: Kont, text: &'t str, p: int, caps: Seq<Capture<'t>>)
    ensures
        kont_run(k, text, p, caps) matches Some((_, c)) ==> keeps_opened(caps, c),
    decreases bytes_of(text).len() - p, kont_weight(k, p), 0int,
{
    let t = bytes_of(text);
    if 0 <= p <= t.len() {
        match k {
            Kont::Done => {},
            Kont::Then(b, rest) => lemma_node_keeps_opened(b, text, p, caps, *rest),
            Kont::Close(i, rest) => {
                if i < caps.len() {
                    let closed = caps.update(i as int, Capture { end: p as usize, ..caps[i as int] });
                    lemma_kont_keeps_opened(*rest, text, p, closed);
                    assert(keeps_opened(caps, closed));
                }
            },
            Kont::Repeat(a, greedy, last, rest) => {
                if crate::semantics::may_repeat(last, p) {
                    lemma_node_keeps_opened(a, text, p, caps, Kont::Repeat(a, greedy, Some(p), rest));
                    lemma_kont_keeps_opened(*rest, text, p, caps);
                }
            },
        }
    }
}

/// Whether `c` is a span of `text` that ends no later than `p`, with `start <= end`, both
/// on character boundaries.
pub open spec fn span_sound<'t>(text: &'t str, c: Capture<'t>, p: int) -> bool {
    let t = bytes_of(text);
    &&& c.text == text
    &&& c.start <= c.end <= p
    &&& is_char_boundary(t, c.start as int)
    &&& is_char_boundary(t, c.end as int)
}

pub open spec fn spans_sound<'t>(text: &'t str, caps: Seq<Capture<'t>>, p: int) -> bool {
    forall|i: int| 0 <= i < caps.len() ==> span_sound(text, #[trigger] caps[i], p)
}

proof fn lemma_spans_sound_later<'t>(text: &'t str, caps: Seq<Capture<'t>>, p: int, q: int)
    requires
        spans_sound(text, caps, p),
        p <= q,
    ensures
        spans_sound(text, caps, q),
{
    assert forall|i: int| 0 <= i < caps.len() implies span_sound(text, #[trigger] caps[i], q) by {
        assert(span_sound(text, caps[i], p));
    }
}

/// Matching from a character boundary, with sound spans, ends on a boundary no earlier than
/// it started, and every span it hands back is sound there.
pub proof fn lemma_node_spans_sound<'t>(r: Regex, text: &'t str, p: int, caps: Seq<Capture<'t>>, k: Kont)
    requires
        bytes_of(text).len() <= usize::MAX,
        is_char_boundary(bytes_of(text), p),
        spans_sound(text, caps, p),
    ensures
        node_run(r, text, p, caps, k) matches Some((e, c)) ==> p <= e && is_char_boundary(
            bytes_of(text),
            e,
        ) && spans_sound(text, c, e),
    decreases bytes_of(text).len() - p, 2 * node_weight(r) + kont_weight(k, p), 1int,
{
    let t = bytes_of(text);
    encode_utf8_valid_utf8(text@);
    if 0 <= p <= t.len() {
        match r {
            Regex::Accept(_) => lemma_kont_spans_sound(k, text, p, caps),
            Regex::End(_) => lemma_kont_spans_sound(k, text, p, caps),
            Regex::Literal(l) => {
                let lit = bytes_of(l.0);
                if p + lit.len() <= t.len() && t.subrange(p, p + lit.len()) == lit {
                    encode_utf8_valid_utf8(l.0@);
                    lemma_boundary_after_literal(t, p, lit);
                    lemma_spans_sound_later(text, caps, p, p + lit.len());
                    lemma_kont_spans_sound(k, text, p + lit.len(), caps);
                }
            },
            Regex::Choice(_) => {
                lemma_boundary_after_scalar(t, p);
                match scalar_at(t, p) {
                    Some((_, w)) => if w > 0 {
                        lemma_spans_sound_later(text, caps, p, p + w);
                        lemma_kont_spans_sound(k, text, p + w, caps);
                    },
                    None => {},
                }
            },
            Regex::Concat(a, b) => lemma_node_spans_sound(*a, text, p, caps, Kont::Then(*b, Box::new(k))),
            Regex::StarMax(x) => {
                lemma_node_spans_sound(*x.0, text, p, caps, Kont::Repeat(*x.0, true, Some(p), Box::new(k)));
                lemma_kont_spans_sound(k, text, p, caps);
            },
            Regex::PlusMax(x) => lemma_node_spans_sound(
                *x.0,
                text,
                p,
                caps,
                Kont::Repeat(*x.0, true, None, Box::new(k)),
            ),
            Regex::StarMin(x) => {
                lemma_node_spans_sound(*x.0, text, p, caps, Kont::Repeat(*x.0, false, Some(p), Box::new(k)));
                lemma_kont_spans_sound(k, text, p, caps);
            },
            Regex::PlusMin(x) => lemma_node_spans_sound(
                *x.0,
                text,
                p,
                caps,
                Kont::Repeat(*x.0, false, None, Box::new(k)),
            ),
            Regex::Question(x) => {
                lemma_node_spans_sound(*x.0, text, p, caps, k);
                lemma_kont_spans_sound(k, text, p, caps);
            },
            Regex::CaptureRe(x) => {
                let pushed = caps.push(Capture { text, start: p as usize, end: p as usize });
                assert(spans_sound(text, pushed, p)) by {
                    assert forall|i: int| 0 <= i < pushed.len() implies span_sound(
                        text,
                        #[trigger] pushed[i],
                        p,
                    ) by {
                        if i < caps.len() {
                            assert(pushed[i] == caps[i]);
                        }
                    }
                }
                lemma_node_spans_sound(*x.0, text, p, pushed, Kont::Close(caps.len() as usize, Box::new(k)));
            },
        }
    }
}

/// The same for going on with a continuation.
pub proof fn lemma_kont_spans_sound<'t>(k: Kont, text: &'t str, p: int, caps: Seq<Capture<'t>>)
    requires
        bytes_of(text).len() <= usize::MAX,
        is_char_boundary(bytes_of(text), p),
        spans_sound(text, caps, p),
    ensures
        kont_run(k, text, p, caps) matches Some((e, c)) ==> p <= e && is_char_boundary(
            bytes_of(text),
            e,
        ) && spans_sound(text, c, e),
    decreases bytes_of(text).len() - p, kont_weight(k, p), 0int,
{
    let t = bytes_of(text);
    encode_utf8_valid_utf8(text@);
    if 0 <= p <= t.len() {
        match k {
            Kont::Done => {},
            Kont::Then(b, rest) => lemma_node_spans_sound(b, text, p, caps, *rest),
            Kont::Close(i, rest) => {
                if i < caps.len() {
                    let closed = caps.update(i as int, Capture { end: p as usize, ..caps[i as int] });
                    assert(spans_sound(text, closed, p)) by {
                        assert forall|j: int| 0 <= j < closed.len() implies span_sound(
                            text,
                            #[trigger] closed[j],
                            p,
                        ) by {
                            assert(span_sound(text, caps[j], p));
                        }
                    }
                    lemma_kont_spans_sound(*rest, text, p, closed);
                }
            },
            Kont::Repeat(a, greedy, last, rest) => {
                if crate::semantics::may_repeat(last, p) {
                    lemma_node_spans_sound(a, text, p, caps, Kont::Repeat(a, greedy, Some(p), rest));
                    lemma_kont_spans_sound(*rest, text, p, caps);
                }
            },
        }
    }
}

/// Every span a successful run reports is a span of the text with `start <= end`, both on
/// character boundaries, so `Capture::to_str` may be called on it.
pub proof fn lemma_run_spans_on_boundaries<'t>(pattern: Regex, text: &'t str)
    requires
        bytes_of(text).len() <= usize::MAX,
    ensures
        run_outcome(pattern, text) matches Some(caps) ==> forall|i: int|
            0 <= i < caps.len() ==> span_sound(text, #[trigger] caps[i], bytes_of(text).len() as int),
{
    encode_utf8_valid_utf8(text@);
    is_char_boundary_start_end_of_seq(bytes_of(text));
    lemma_node_spans_sound(pattern, text, 0, seq![], Kont::Done);
    if let Some((e, c)) = node_run(pattern, text, 0, seq![], Kont::Done) {
        lemma_spans_sound_later(text, c, e, bytes_of(text).len() as int);
    }
}

} // verus!
