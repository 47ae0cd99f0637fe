//! Thin interfaces to pieces of std and of outside crates that the
//! verifier has no specifications for.

use vstd::prelude::*;

verus! {

/// Relies on String::push: appends the given character to the end of
/// the string, leaving everything before it unchanged.
#[verifier::external_body]
pub(crate) fn push_char(s: &mut String, c: char)
    ensures
        final(s)@ == old(s)@ + seq![c],
{
    s.push(c)
}

#[verifier::external_type_specification]
#[verifier::external_body]
pub struct ExInstant(std::time::Instant);

/// Relies on std::time::Instant::now: an opaque reading of the
/// monotonic clock. Nothing is promised of its value.
#[verifier::external_body]
pub(crate) fn instant_now() -> std::time::Instant {
    std::time::Instant::now()
}

/// Relies on std::time::Instant::elapsed: the time since this reading
/// was taken. Nothing is promised of its value.
#[verifier::external_body]
pub(crate) fn instant_elapsed(t: &std::time::Instant) -> std::time::Duration {
    t.elapsed()
}

/// Relies on std::time::Duration::as_millis: the duration in whole
/// milliseconds.
#[verifier::external_body]
pub(crate) fn duration_millis(d: &std::time::Duration) -> u128 {
    d.as_millis()
}

/// Relies on chrono::Local::now and chrono::DateTime::to_rfc2822: the
/// current local wall-clock time, rendered in RFC 2822 textual form.
/// Nothing is promised of its value.
#[verifier::external_body]
pub(crate) fn now_rfc2822() -> String {
    chrono::Local::now().to_rfc2822()
}

/// The name of what str::to_uppercase returns for a given character
/// sequence: a function of its argument alone, left otherwise
/// unspecified.
pub uninterp spec fn upper_of(s: Seq<char>) -> Seq<char>;

/// Relies on str::to_uppercase: the uppercase conversion of a string,
/// a function of its characters alone.
#[verifier::external_body]
pub(crate) fn to_upper(s: &str) -> (r: String)
    ensures
        r@ == upper_of(s@),
{
    s.to_uppercase()
}

} // verus!
