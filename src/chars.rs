//! Character classes: predicates over a single Unicode scalar value.
use vstd::prelude::*;

verus! {

/// Whether `c` is alphabetic, as the standard library's `char::is_alphabetic` decides
/// (the Unicode `Alphabetic` property).
pub uninterp spec fn alphabetic_scalar(c: char) -> bool;

/// Whether `c` is white space, as the standard library's `char::is_whitespace` decides
/// (the Unicode `White_Space` property).
pub uninterp spec fn whitespace_scalar(c: char) -> bool;

/// Relies on `char::is_alphabetic`: its answer depends on the character alone.
#[verifier::external_body]
fn is_alphabetic(c: char) -> (r: bool)
    ensures
        r == alphabetic_scalar(c),
{
    c.is_alphabetic()
}

/// Relies on `char::is_whitespace`: its answer depends on the character alone.
#[verifier::external_body]
fn is_whitespace(c: char) -> (r: bool)
    ensures
        r == whitespace_scalar(c),
{
    c.is_whitespace()
}

/// A test on one character.
pub trait CharRange {
    /// The set of characters the test admits, as a predicate.
    spec fn admits(&self, c: char) -> bool;

    fn test(&self, c: char) -> (r: bool)
        ensures
            r == self.admits(c),
    ;
}

/// Exactly one character.
#[derive(Clone, Copy, Debug)]
pub struct CharChoice(pub char);

/// Every character whose code point lies in the inclusive range `[lo, hi]`.
#[derive(Clone, Copy, Debug)]
pub struct RangeChoice(pub char, pub char);

/// Every character the inner class rejects.
#[derive(Debug)]
pub struct NotChoice(pub Box<CharClass>);

/// Every character either class admits.
#[derive(Debug)]
pub struct OrChoice(pub Box<CharClass>, pub Box<CharClass>);

/// No character at all.
#[derive(Clone, Copy, Debug)]
pub struct NoChoice;

/// Every character.
#[derive(Clone, Copy, Debug)]
pub struct YesChoice;

/// Alphabetic characters.
#[allow(non_camel_case_types)]
#[derive(Clone, Copy, Debug)]
pub struct alpha;

/// The ASCII digits `0` through `9`.
#[allow(non_camel_case_types)]
#[derive(Clone, Copy, Debug)]
pub struct digit;

/// White-space characters.
#[allow(non_camel_case_types)]
#[derive(Clone, Copy, Debug)]
pub struct space;

/// A character class built from the primitive tests.
#[derive(Debug)]
pub enum CharClass {
    Char(CharChoice),
    Range(RangeChoice),
    Not(NotChoice),
    Or(OrChoice),
    Nothing(NoChoice),
    Anything(YesChoice),
    Alpha(alpha),
    Digit(digit),
    Space(space),
}

pub open spec fn in_range(lo: char, hi: char, c: char) -> bool {
    (lo as u32) <= (c as u32) && (c as u32) <= (hi as u32)
}

pub open spec fn is_ascii_digit(c: char) -> bool {
    ('0' as u32) <= (c as u32) && (c as u32) <= ('9' as u32)
}

impl CharClass {
    /// Whether the class admits `c`.
    pub open spec fn holds(&self, c: char) -> bool
        decreases self,
    {
        match self {
            CharClass::Char(x) => x.0 == c,
            CharClass::Range(x) => in_range(x.0, x.1, c),
            CharClass::Not(x) => !x.0.holds(c),
            CharClass::Or(x) => x.0.holds(c) || x.1.holds(c),
            CharClass::Nothing(_) => false,
            CharClass::Anything(_) => true,
            CharClass::Alpha(_) => alphabetic_scalar(c),
            CharClass::Digit(_) => is_ascii_digit(c),
            CharClass::Space(_) => whitespace_scalar(c),
        }
    }

    pub fn test_char(&self, c: char) -> (r: bool)
        ensures
            r == self.holds(c),
        decreases self,
    {
        match self {
            CharClass::Char(x) => x.0 == c,
            CharClass::Range(x) => (x.0 as u32) <= (c as u32) && (c as u32) <= (x.1 as u32),
            CharClass::Not(x) => !x.0.test_char(c),
            CharClass::Or(x) => x.0.test_char(c) || x.1.test_char(c),
            CharClass::Nothing(_) => false,
            CharClass::Anything(_) => true,
            CharClass::Alpha(_) => is_alphabetic(c),
            CharClass::Digit(_) => ('0' as u32) <= (c as u32) && (c as u32) <= ('9' as u32),
            CharClass::Space(_) => is_whitespace(c),
        }
    }
}

impl CharRange for CharClass {
    open spec fn admits(&self, c: char) -> bool {
        self.holds(c)
    }

    fn test(&self, c: char) -> (r: bool) {
        self.test_char(c)
    }
}

impl CharRange for CharChoice {
    open spec fn admits(&self, c: char) -> bool {
        self.0 == c
    }

    fn test(&self, c: char) -> (r: bool) {
        self.0 == c
    }
}

impl CharRange for RangeChoice {
    open spec fn admits(&self, c: char) -> bool {
        in_range(self.0, self.1, c)
    }

    fn test(&self, c: char) -> (r: bool) {
        let lo = self.0 as u32;
        let hi = self.1 as u32;
        let c = c as u32;
        (lo <= c) && (c <= hi)
    }
}

impl CharRange for NotChoice {
    open spec fn admits(&self, c: char) -> bool {
        !self.0.holds(c)
    }

    fn test(&self, c: char) -> (r: bool) {
        !self.0.test_char(c)
    }
}

impl CharRange for OrChoice {
    open spec fn admits(&self, c: char) -> bool {
        self.0.holds(c) || self.1.holds(c)
    }

    fn test(&self, c: char) -> (r: bool) {
        self.0.test_char(c) || self.1.test_char(c)
    }
}

impl CharRange for NoChoice {
    open spec fn admits(&self, c: char) -> bool {
        false
    }

    fn test(&self, c: char) -> (r: bool) {
        false
    }
}

impl CharRange for YesChoice {
    open spec fn admits(&self, c: char) -> bool {
        true
    }

    fn test(&self, c: char) -> (r: bool) {
        true
    }
}

impl CharRange for alpha {
    open spec fn admits(&self, c: char) -> bool {
        alphabetic_scalar(c)
    }

    fn test(&self, c: char) -> (r: bool) {
        is_alphabetic(c)
    }
}

impl CharRange for digit {
    open spec fn admits(&self, c: char) -> bool {
        is_ascii_digit(c)
    }

    fn test(&self, c: char) -> (r: bool) {
        ('0' as u32) <= (c as u32) && (c as u32) <= ('9' as u32)
    }
}

impl CharRange for space {
    open spec fn admits(&self, c: char) -> bool {
        whitespace_scalar(c)
    }

    fn test(&self, c: char) -> (r: bool) {
        is_whitespace(c)
    }
}

} // verus!
