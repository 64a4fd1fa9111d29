//! A backtracking matcher for patterns built from literals, character classes,
//! quantifiers, an end anchor and capturing groups.
//!
//! A pattern is a tree (`Regex`). Matching is continuation-passing: each node tries its
//! ways of matching in a fixed order and hands each candidate end position to a
//! continuation (`Cont`), the rest of the pattern; the first way whose continuation
//! succeeds wins. One capture buffer is threaded through by `&mut`, and every path that
//! fails gives it back as it found it.
//!
//! `semantics` states what matching means as spec functions; `engine` is proved to agree
//! with it; `laws` proves properties of it.
pub mod chars;
pub mod engine;
pub mod laws;
pub mod matcher;
pub mod pattern;
pub mod scalar;
pub mod semantics;

pub use chars::{
    alpha, digit, space, CharChoice, CharClass, CharRange, NoChoice, NotChoice, OrChoice,
    RangeChoice, YesChoice,
};
pub use matcher::{compile, run, RegexContinuation, RegexThen};
pub use pattern::{
    Accept, Capture, CaptureRe, Choice, Cont, End, Kont, Literal, PlusMax, PlusMin, Question,
    Regex, StarMax, StarMin,
};
