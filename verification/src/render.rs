//! The formatting path: rendering a displayable value, or prepared format
//! arguments, into a fresh bounded buffer through the sink side of the
//! formatting protocol.

use core::fmt::Write;

use vstd::prelude::*;

verus! {

use crate::buffer::StaticString;
use crate::buffer::StaticStringError;

/// Prepared format arguments are consumed opaquely: one render call per
/// value, nothing read out of them directly.
#[verifier::external_type_specification]
#[verifier::external_body]
pub struct ExArguments<'a>(core::fmt::Arguments<'a>);

/// Relies on `core::fmt::write` with a `String` sink: it drives the
/// formatting machinery over `args` and collects the rendered text, which
/// cannot be described here because the arguments are opaque. The `String`
/// sink itself never fails, so `None` arises only when some formatting
/// implementation behind `args` reports an error of its own.
#[verifier::external_body]
fn render_args(args: core::fmt::Arguments<'_>) -> (r: Option<String>) {
    let mut out = String::new();
    match core::fmt::write(&mut out, args) {
        Ok(()) => Some(out),
        Err(_) => None,
    }
}

/// Relies on the `write!` macro with a `String` sink: it renders `value`
/// exactly as `ToString::to_string` would — the vstd relation
/// `to_string_from_display_ensures` names that result — but reports a
/// failure from the value's own `Display` code as `None` instead of
/// panicking.
#[verifier::external_body]
fn render_display<T: core::fmt::Display + ?Sized>(value: &T) -> (r: Option<String>)
    ensures
        r matches Some(s) ==> vstd::string::to_string_from_display_ensures::<T>(value, s),
{
    let mut out = String::new();
    match write!(out, "{}", value) {
        Ok(()) => Some(out),
        Err(_) => None,
    }
}

impl<const N: usize> StaticString<N> {
    /// Renders prepared format arguments into a fresh buffer. The one
    /// possible failure is `CapacityExceeded`: either the rendered text does
    /// not fit in `N` bytes, or the formatting protocol reported a failure —
    /// a signal that carries no cause, so this entry point re-derives the
    /// only cause the bounded sink can produce.
    pub fn format(args: core::fmt::Arguments<'_>) -> (r: Result<Self, StaticStringError>)
        ensures
            r matches Ok(s) ==> s.wf(),
            r matches Err(e) ==> e == StaticStringError::CapacityExceeded,
    {
        match render_args(args) {
            Some(text) => Self::from_text(text.as_str()),
            None => Err(StaticStringError::CapacityExceeded),
        }
    }
}

/// Rendering into a bounded buffer: every displayable type gains this
/// capability through the blanket implementation below.
pub trait ToStaticString {
    /// Renders `self` into a fresh buffer of capacity `N`, or fails with
    /// `CapacityExceeded`.
    fn to_static_string<const N: usize>(&self) -> (r: Result<StaticString<N>, StaticStringError>)
        ensures
            r matches Ok(s) ==> s.wf(),
            r matches Err(e) ==> e == StaticStringError::CapacityExceeded,
    ;
}

impl<T: core::fmt::Display + ?Sized> ToStaticString for T {
    fn to_static_string<const N: usize>(&self) -> (r: Result<StaticString<N>, StaticStringError>) {
        match render_display(self) {
            Some(text) => StaticString::from_text(text.as_str()),
            None => Err(StaticStringError::CapacityExceeded),
        }
    }
}

} // verus!
