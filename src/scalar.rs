//! Reading one Unicode scalar value out of UTF-8 bytes.
use vstd::prelude::*;
use vstd::utf8::*;

verus! {

/// The scalar value whose UTF-8 encoding starts at byte `p` of `t`, with the length of that
/// encoding, or `None` when `p` is at or past the end or no well-formed encoding starts there.
pub open spec fn scalar_at(t: Seq<u8>, p: int) -> Option<(char, int)> {
    let rest = t.subrange(p, t.len() as int);
    if 0 <= p < t.len() && valid_first_scalar(rest) {
        Some((decode_first_scalar(rest) as char, length_of_first_scalar(rest)))
    } else {
        None
    }
}

/// A valid encoding that is a prefix of a valid encoding ends where a scalar value ends.
pub proof fn lemma_valid_prefix_ends_on_boundary(x: Seq<u8>, n: int)
    requires
        valid_utf8(x),
        0 <= n <= x.len(),
        valid_utf8(x.subrange(0, n)),
    ensures
        n == x.len() || !is_continuation_byte(x[n]),
    decreases n,
{
    if n < x.len() {
        if n > 0 {
            let y = x.subrange(0, n);
            assert(y[0] == x[0]);
            let l = length_of_first_scalar(x);
            assert(length_of_first_scalar(y) == l);
            let px = pop_first_scalar(x);
            assert(pop_first_scalar(y) =~= px.subrange(0, n - l));
            lemma_valid_prefix_ends_on_boundary(px, n - l);
            assert(px[n - l] == x[n]);
        }
    }
}

/// After the scalar value that starts at a boundary, the next boundary.
pub proof fn lemma_boundary_after_scalar(t: Seq<u8>, p: int)
    requires
        valid_utf8(t),
        is_char_boundary(t, p),
    ensures
        scalar_at(t, p) matches Some((_, w)) ==> p + w <= t.len() && is_char_boundary(t, p + w),
{
    broadcast use valid_utf8_split, is_char_boundary_iff_not_is_continuation_byte,
        is_char_boundary_start_end_of_seq;

    let x = t.subrange(p, t.len() as int);
    let w = length_of_first_scalar(x);
    assert(valid_utf8(x));
    let px = pop_first_scalar(x);
    if scalar_at(t, p) is Some {
        assert(valid_utf8(px));
        if p + w < t.len() {
            assert(px[0] == t[p + w]);
            assert(valid_first_scalar(px));
            assert(!is_continuation_byte(t[p + w]));
            is_char_boundary_iff_not_is_continuation_byte(t, p + w);
        } else {
            is_char_boundary_start_end_of_seq(t);
        }
    }
}

/// After bytes that are a valid encoding and stand in `t` at a boundary, the next boundary.
pub proof fn lemma_boundary_after_literal(t: Seq<u8>, p: int, lit: Seq<u8>)
    requires
        valid_utf8(t),
        is_char_boundary(t, p),
        valid_utf8(lit),
        p + lit.len() <= t.len(),
        t.subrange(p, p + lit.len()) == lit,
    ensures
        is_char_boundary(t, p + lit.len()),
{
    broadcast use valid_utf8_split, is_char_boundary_iff_not_is_continuation_byte,
        is_char_boundary_start_end_of_seq;

    let x = t.subrange(p, t.len() as int);
    assert(valid_utf8(x));
    assert(x.subrange(0, lit.len() as int) =~= lit);
    lemma_valid_prefix_ends_on_boundary(x, lit.len() as int);
    if p + lit.len() < t.len() {
        assert(x[lit.len() as int] == t[p + lit.len()]);
    }
}

/// Relies on `char::from_u32`: it gives the character exactly for Unicode scalar values.
#[verifier::external_body]
fn char_from_u32(v: u32) -> (r: Option<char>)
    ensures
        is_scalar(v) ==> r == Some(v as char),
        !is_scalar(v) ==> r is None,
{
    char::from_u32(v)
}

fn continuation(b: u8) -> (r: bool)
    ensures
        r == is_continuation_byte(b),
{
    0x80 <= b && b <= 0xbf
}

/// Decodes the scalar value that starts at byte `p` of `t`.
pub fn decode_at(t: &[u8], p: usize) -> (r: Option<(char, usize)>)
    ensures
        match (r, scalar_at(t@, p as int)) {
            (Some((c, w)), Some((sc, sw))) => c == sc && w as int == sw,
            (None, None) => true,
            _ => false,
        },
{
    let n = t.len();
    if p >= n {
        return None;
    }
    let ghost rest = t@.subrange(p as int, n as int);
    let b0 = t[p];
    assert(rest[0] == b0);
    let avail = n - p;
    let (cp, w): (u32, usize) = if b0 <= 0x7f {
        let v = (b0 & 0x7F) as u32;
        assert(v <= 0x7f) by (bit_vector)
            requires
                v == (b0 & 0x7F) as u32,
        ;
        (v, 1)
    } else if 0xc0 <= b0 && b0 <= 0xdf {
        if avail < 2 || !continuation(t[p + 1]) {
            return None;
        }
        assert(rest[1] == t@[p + 1]);
        let b1 = t[p + 1];
        let v = (((b0 & 0x1F) as u32) << 6) | ((b1 & 0x3f) as u32);
        assert(v <= 0x7ff) by (bit_vector)
            requires
                v == (((b0 & 0x1F) as u32) << 6) | ((b1 & 0x3f) as u32),
        ;
        if v < 0x80 {
            return None;
        }
        (v, 2)
    } else if 0xe0 <= b0 && b0 <= 0xef {
        if avail < 3 || !continuation(t[p + 1]) || !continuation(t[p + 2]) {
            return None;
        }
        assert(rest[1] == t@[p + 1] && rest[2] == t@[p + 2]);
        let b1 = t[p + 1];
        let b2 = t[p + 2];
        let v = (((b0 & 0x0F) as u32) << 12) | (((b1 & 0x3f) as u32) << 6) | ((b2 & 0x3f) as u32);
        assert(v <= 0xffff) by (bit_vector)
            requires
                v == (((b0 & 0x0F) as u32) << 12) | (((b1 & 0x3f) as u32) << 6) | ((b2 & 0x3f) as u32),
        ;
        if v < 0x800 || (0xD800 <= v && v <= 0xDFFF) {
            return None;
        }
        (v, 3)
    } else if 0xf0 <= b0 && b0 <= 0xf7 {
        if avail < 4 || !continuation(t[p + 1]) || !continuation(t[p + 2]) || !continuation(
            t[p + 3],
        ) {
            return None;
        }
        assert(rest[1] == t@[p + 1] && rest[2] == t@[p + 2] && rest[3] == t@[p + 3]);
        let b1 = t[p + 1];
        let b2 = t[p + 2];
        let b3 = t[p + 3];
        let v = (((b0 & 0x07) as u32) << 18) | (((b1 & 0x3f) as u32) << 12) | (((b2 & 0x3f) as u32)
            << 6) | ((b3 & 0x3f) as u32);
        if v < 0x10000 || v > 0x10ffff {
            return None;
        }
        (v, 4)
    } else {
        return None;
    };
    assert(valid_first_scalar(rest));
    assert(cp == decode_first_scalar(rest));
    match char_from_u32(cp) {
        Some(c) => Some((c, w)),
        None => None,
    }
}

} // verus!
