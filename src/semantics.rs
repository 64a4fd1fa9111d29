//! What matching means: the outcome of a pattern tree followed by a continuation, as spec
//! functions. Alternatives are explored in a fixed order, and the first one whose
//! continuation succeeds decides the outcome.
use vstd::prelude::*;
use vstd::string::StringSliceAdditionalSpecFns;
use crate::pattern::{Capture, Kont, Regex};
use crate::scalar::scalar_at;

verus! {

/// A size for patterns that pays for the work a node can do at one position before
/// the position has to move on.
pub open spec fn node_weight(r: Regex) -> nat
    decreases r,
{
    match r {
        Regex::Concat(a, b) => 1 + node_weight(*a) + node_weight(*b),
        Regex::StarMax(x) => 1 + node_weight(*x.0),
        Regex::StarMin(x) => 1 + node_weight(*x.0),
        Regex::PlusMax(x) => 2 + 2 * node_weight(*x.0),
        Regex::PlusMin(x) => 2 + 2 * node_weight(*x.0),
        Regex::Question(x) => 1 + node_weight(*x.0),
        Regex::CaptureRe(x) => 1 + node_weight(*x.0),
        _ => 1,
    }
}

/// Whether a repetition state may start another iteration at `p`.
pub open spec fn may_repeat(last: Option<int>, p: int) -> bool {
    match last {
        Some(l) => l < p,
        None => true,
    }
}

/// The work a continuation can do at position `p` before the position moves on.
pub open spec fn kont_weight(k: Kont, p: int) -> nat
    decreases k,
{
    match k {
        Kont::Done => 0,
        Kont::Then(b, rest) => 2 * node_weight(b) + 1 + kont_weight(*rest, p),
        Kont::Close(_, rest) => 1 + kont_weight(*rest, p),
        Kont::Repeat(a, _, last, rest) => 1 + kont_weight(*rest, p) + if may_repeat(last, p) {
            2 * node_weight(a) + 2
        } else {
            0nat
        },
    }
}

/// The bytes of `text`.
pub open spec fn bytes_of(text: &str) -> Seq<u8> {
    text.spec_bytes()
}

/// Whether the bytes of `lit` stand in `t` at `p`.
pub open spec fn literal_at(t: Seq<u8>, p: int, lit: Seq<u8>) -> bool {
    p + lit.len() <= t.len() && t.subrange(p, p + lit.len()) == lit
}

/// The first of two alternatives that succeeds.
pub open spec fn first_of<T>(a: Option<T>, b: Option<T>) -> Option<T> {
    match a {
        Some(x) => Some(x),
        None => b,
    }
}

/// The outcome of matching `r` at byte `p` of `text`, with the capture buffer `caps`, and
/// then the rest `k`: the end position and the buffer of the first way that succeeds, or
/// `None` when none does.
pub open spec fn node_run<'t>(r: Regex, text: &'t str, p: int, caps: Seq<Capture<'t>>, k: Kont)
    -> Option<(int, Seq<Capture<'t>>)>
    decreases bytes_of(text).len() - p, 2 * node_weight(r) + kont_weight(k, p),
{
    let t = bytes_of(text);
    if p < 0 || p > t.len() {
        None
    } else {
        match r {
            Regex::Accept(_) => kont_run(k, text, p, caps),
            Regex::End(_) => if p == t.len() {
                kont_run(k, text, p, caps)
            } else {
                None
            },
            Regex::Literal(l) => {
                let lit = bytes_of(l.0);
                if literal_at(t, p, lit) {
                    kont_run(k, text, p + lit.len(), caps)
                } else {
                    None
                }
            },
            Regex::Choice(ch) => match scalar_at(t, p) {
                Some((c, w)) => if ch.0.holds(c) && w > 0 {
                    kont_run(k, text, p + w, caps)
                } else {
                    None
                },
                None => None,
            },
            Regex::Concat(a, b) => node_run(*a, text, p, caps, Kont::Then(*b, Box::new(k))),
            Regex::StarMax(x) => first_of(
                node_run(*x.0, text, p, caps, Kont::Repeat(*x.0, true, Some(p), Box::new(k))),
                kont_run(k, text, p, caps),
            ),
            Regex::PlusMax(x) => node_run(*x.0, text, p, caps, Kont::Repeat(*x.0, true, None, Box::new(k))),
            Regex::StarMin(x) => first_of(
                kont_run(k, text, p, caps),
                node_run(*x.0, text, p, caps, Kont::Repeat(*x.0, false, Some(p), Box::new(k))),
            ),
            Regex::PlusMin(x) => node_run(*x.0, text, p, caps, Kont::Repeat(*x.0, false, None, Box::new(k))),
            Regex::Question(x) => first_of(node_run(*x.0, text, p, caps, k), kont_run(k, text, p, caps)),
            Regex::CaptureRe(x) => node_run(
                *x.0,
                text,
                p,
                caps.push(Capture { text, start: p as usize, end: p as usize }),
                Kont::Close(caps.len() as usize, Box::new(k)),
            ),
        }
    }
}

/// The outcome of going on with the rest `k` at byte `p` of `text`.
pub open spec fn kont_run<'t>(k: Kont, text: &'t str, p: int, caps: Seq<Capture<'t>>) -> Option<
    (int, Seq<Capture<'t>>),
>
    decreases bytes_of(text).len() - p, kont_weight(k, p),
{
    let t = bytes_of(text);
    if p < 0 || p > t.len() {
        None
    } else {
        match k {
            Kont::Done => Some((p, caps)),
            Kont::Then(b, rest) => node_run(b, text, p, caps, *rest),
            Kont::Close(i, rest) => if i < caps.len() {
                kont_run(*rest, text, p, caps.update(i as int, Capture { end: p as usize, ..caps[i as int] }))
            } else {
                None
            },
            Kont::Repeat(a, greedy, last, rest) => if !may_repeat(last, p) {
                None
            } else if greedy {
                first_of(
                    node_run(a, text, p, caps, Kont::Repeat(a, true, Some(p), rest)),
                    kont_run(*rest, text, p, caps),
                )
            } else {
                first_of(
                    kont_run(*rest, text, p, caps),
                    node_run(a, text, p, caps, Kont::Repeat(a, false, Some(p), rest)),
                )
            },
        }
    }
}

} // verus!
