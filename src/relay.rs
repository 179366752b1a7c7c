//! The log relay: what becomes of each line that a managed process writes.

use vstd::prelude::*;
use vstd::string::*;
use crate::text::{contains_str, has_infix, has_prefix, join2, opt_view, starts_with_str, trim, trim_str};

verus! {

/// A log event: one message published under a component's name.
pub struct ComponentLog {
    pub component: String,
    pub message: String,
}

impl ComponentLog {
    pub fn new(component: &str, message: String) -> (r: Self)
        ensures
            r.component@ == component@,
            r.message == message,
    {
        ComponentLog { component: String::from_str(component), message }
    }
}

/// The two output streams of a process.
#[derive(Clone, Copy, Debug, PartialEq, Eq, Structural)]
pub enum Stream {
    Stdout,
    Stderr,
}

/// Package-manager chatter that is dropped unless verbose output is asked for:
/// warnings and deprecation notices.
pub open spec fn is_noise(l: Seq<char>) -> bool {
    has_prefix(l, "npm WARN"@) || has_infix(l, "deprecated"@)
}

/// What the relay publishes for an installer output line: everything as it is
/// when `verbose`; otherwise the trimmed line, dropped when it is noise or
/// blank, and marked when it reports an error (before anything else), added
/// packages or an up-to-date state.
pub open spec fn log_filter(line: Seq<char>, verbose: bool) -> Option<Seq<char>> {
    if verbose {
        Some(line)
    } else {
        let l = trim(line);
        if is_noise(l) {
            None
        } else if has_infix(l, "ERR!"@) {
            Some("❌ "@ + l)
        } else if has_infix(l, "added "@) {
            Some("📦 "@ + l)
        } else if has_infix(l, "up to date"@) {
            Some("✅ "@ + l)
        } else if l.len() > 0 {
            Some(l)
        } else {
            None
        }
    }
}

/// The message to publish for an installer output line, or `None` to drop it.
pub fn filter_log_line(line: &str, verbose: bool) -> (r: Option<String>)
    ensures
        opt_view(r) == log_filter(line@, verbose),
        !verbose && is_noise(trim(line@)) ==> r is None,
        !verbose && !is_noise(trim(line@)) && has_infix(trim(line@), "ERR!"@) ==> r is Some && r->0@
            == "❌ "@ + trim(line@),
{
    if verbose {
        return Some(String::from_str(line));
    }
    let t = trim_str(line);
    let l = t.as_str();
    if starts_with_str(l, "npm WARN") || contains_str(l, "deprecated") {
        None
    } else if contains_str(l, "ERR!") {
        Some(join2("❌ ", l))
    } else if contains_str(l, "added ") {
        Some(join2("📦 ", l))
    } else if contains_str(l, "up to date") {
        Some(join2("✅ ", l))
    } else if l.unicode_len() > 0 {
        Some(t)
    } else {
        None
    }
}

/// What the relay publishes for a line of a service's output: standard output
/// as it is, standard error marked with a warning sign.
pub open spec fn service_line_text(stream: Stream, line: Seq<char>) -> Seq<char> {
    match stream {
        Stream::Stdout => line,
        Stream::Stderr => "⚠ "@ + line,
    }
}

/// The message to publish for a line of a service's output.
pub fn service_line(stream: Stream, line: &str) -> (r: String)
    ensures
        r@ == service_line_text(stream, line@),
{
    match stream {
        Stream::Stdout => String::from_str(line),
        Stream::Stderr => join2("⚠ ", line),
    }
}

} // verus!
