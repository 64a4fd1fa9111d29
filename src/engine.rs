//! The backtracking matcher: continuation-passing recursion over the pattern tree, with one
//! capture buffer shared by reference. Every path that fails hands the buffer back exactly
//! as it found it, so abandoned alternatives leave no trace in it.
use vstd::prelude::*;
use crate::pattern::{Capture, Cont, Kont, Regex};
use crate::scalar::decode_at;
use crate::semantics::{bytes_of, kont_run, kont_weight, literal_at, node_run, node_weight};

verus! {

/// Whether a result and the buffer after a call agree with the outcome `o` of the semantics,
/// given the buffer `before` the call: on success the end position and the buffer are the
/// outcome's; on failure the buffer is exactly as it was.
pub open spec fn agrees<'t>(
    res: Option<usize>,
    after: Seq<Capture<'t>>,
    before: Seq<Capture<'t>>,
    o: Option<(int, Seq<Capture<'t>>)>,
) -> bool {
    match o {
        Some((e, c)) => res is Some && res->0 as int == e && after == c,
        None => res is None && after == before,
    }
}

/// Whether the bytes `lit` stand in `t` at `p`.
fn literal_matches(t: &[u8], p: usize, lit: &[u8]) -> (r: bool)
    requires
        p <= t@.len(),
    ensures
        r == literal_at(t@, p as int, lit@),
{
    let n = t.len();
    if lit.len() > n - p {
        return false;
    }
    let mut i: usize = 0;
    while i < lit.len()
        invariant
            n == t@.len(),
            p + lit@.len() <= t@.len(),
            i <= lit@.len(),
            forall|j: int| 0 <= j < i ==> t@[p + j] == lit@[j],
        decreases lit@.len() - i,
    {
        if t[p + i] != lit[i] {
            assert(t@.subrange(p as int, p + lit@.len())[i as int] != lit@[i as int]);
            return false;
        }
        i += 1;
    }
    assert(t@.subrange(p as int, p + lit@.len()) =~= lit@);
    true
}

/// Matches `r` at byte `p` of `text`, then goes on with `k`.
pub fn match_node<'t>(
    r: &Regex,
    text: &'t str,
    t: &[u8],
    p: usize,
    caps: &mut Vec<Capture<'t>>,
    k: &Cont,
) -> (res: Option<usize>)
    requires
        t@ == bytes_of(text),
        p <= t@.len(),
    ensures
        agrees(res, final(caps)@, old(caps)@, node_run(*r, text, p as int, old(caps)@, k.model())),
    decreases t@.len() - p, 2 * node_weight(*r) + kont_weight(k.model(), p as int),
{
    let n = t.len();
    match r {
        Regex::Accept(_) => match_kont(k, text, t, p, caps),
        Regex::End(_) => {
            if p == t.len() {
                match_kont(k, text, t, p, caps)
            } else {
                None
            }
        },
        Regex::Literal(l) => {
            let lit = l.0.as_bytes();
            if literal_matches(t, p, lit) {
                match_kont(k, text, t, p + lit.len(), caps)
            } else {
                None
            }
        },
        Regex::Choice(ch) => {
            match decode_at(t, p) {
                Some((c, w)) => {
                    if ch.0.test_char(c) && w > 0 {
                        match_kont(k, text, t, p + w, caps)
                    } else {
                        None
                    }
                },
                None => None,
            }
        },
        Regex::Concat(a, b) => {
            let next = Cont::Then(b, k);
            match_node(a, text, t, p, caps, &next)
        },
        Regex::StarMax(x) => {
            let state = Cont::Repeat(&x.0, true, Some(p), k);
            match match_node(&x.0, text, t, p, caps, &state) {
                Some(e) => Some(e),
                None => match_kont(k, text, t, p, caps),
            }
        },
        Regex::PlusMax(x) => {
            let state = Cont::Repeat(&x.0, true, None, k);
            match_node(&x.0, text, t, p, caps, &state)
        },
        Regex::StarMin(x) => {
            match match_kont(k, text, t, p, caps) {
                Some(e) => Some(e),
                None => {
                    let state = Cont::Repeat(&x.0, false, Some(p), k);
                    match_node(&x.0, text, t, p, caps, &state)
                },
            }
        },
        Regex::PlusMin(x) => {
            let state = Cont::Repeat(&x.0, false, None, k);
            match_node(&x.0, text, t, p, caps, &state)
        },
        Regex::Question(x) => {
            match match_node(&x.0, text, t, p, caps, k) {
                Some(e) => Some(e),
                None => match_kont(k, text, t, p, caps),
            }
        },
        Regex::CaptureRe(x) => {
            let index = caps.len();
            let post_capture = Cont::Close(index, k);
            caps.push(Capture { text, start: p, end: p });
            let res = match_node(&x.0, text, t, p, caps, &post_capture);
            if res.is_none() {
                caps.pop();
                assert(caps@ =~= old(caps)@);
            }
            res
        },
    }
}

/// Goes on with the rest `k` at byte `p` of `text`.
pub fn match_kont<'t>(k: &Cont, text: &'t str, t: &[u8], p: usize, caps: &mut Vec<Capture<'t>>) -> (res:
    Option<usize>)
    requires
        t@ == bytes_of(text),
        p <= t@.len(),
    ensures
        agrees(res, final(caps)@, old(caps)@, kont_run(k.model(), text, p as int, old(caps)@)),
    decreases t@.len() - p, kont_weight(k.model(), p as int),
{
    match k {
        Cont::Done => Some(p),
        Cont::Then(b, rest) => match_node(b, text, t, p, caps, rest),
        Cont::Close(index, rest) => {
            let i = *index;
            if i < caps.len() {
                let before = caps[i];
                caps.set(i, Capture { text: before.text, start: before.start, end: p });
                let res = match_kont(rest, text, t, p, caps);
                if res.is_none() {
                    caps.set(i, before);
                    assert(caps@ =~= old(caps)@);
                }
                res
            } else {
                None
            }
        },
        Cont::Repeat(a, greedy, last, rest) => {
            let go = match last {
                Some(l) => *l < p,
                None => true,
            };
            if !go {
                None
            } else if *greedy {
                let state = Cont::Repeat(a, true, Some(p), rest);
                match match_node(a, text, t, p, caps, &state) {
                    Some(e) => Some(e),
                    None => match_kont(rest, text, t, p, caps),
                }
            } else {
                match match_kont(rest, text, t, p, caps) {
                    Some(e) => Some(e),
                    None => {
                        let state = Cont::Repeat(a, false, Some(p), rest);
                        match_node(a, text, t, p, caps, &state)
                    },
                }
            }
        },
    }
}

} // verus!
