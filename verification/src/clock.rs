//! The creation timestamp of a new task.
//!
//! The wall clock is the one thing here that no contract can pin down: two
//! readings differ. What is stated instead holds of every reading: the
//! formatted timestamp spends only digits and the three separators of the
//! `YYYY-MM-DD HH:MM:SS` shape (with a sign before years outside four
//! digits).
use vstd::prelude::*;

verus! {

/// A character the formatted local time can contain.
pub open spec fn timestamp_char(c: char) -> bool {
    ('0' <= c <= '9') || c == '-' || c == ' ' || c == ':' || c == '+'
}

/// Every character of `s` is one a formatted local time can contain.
pub open spec fn timestamp_chars(s: Seq<char>) -> bool {
    forall|i: int| 0 <= i < s.len() ==> timestamp_char(#[trigger] s[i])
}

/// A string the clock can hand out: timestamp characters only, and at least
/// the nineteen of the `YYYY-MM-DD HH:MM:SS` shape.
pub open spec fn clock_chars(s: Seq<char>) -> bool {
    timestamp_chars(s) && s.len() >= 19
}

/// Relies on `chrono::Local::now` and `DateTime::format` with the fixed
/// format `%Y-%m-%d %H:%M:%S`: each field is written in decimal digits
/// (the year with a sign when it has more than four), and the separators
/// are the literal `-`, space and `:` of the format string. The year takes
/// at least four characters and the five other fields two each, so the
/// result is never shorter than nineteen characters.
#[verifier::external_body]
pub(crate) fn now_string() -> (r: Vec<char>)
    ensures
        clock_chars(r@),
{
    let s = chrono::Local::now().format("%Y-%m-%d %H:%M:%S").to_string();
    s.chars().collect()
}

} // verus!
