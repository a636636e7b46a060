//! What the host's daemon answers over HTTP.

use vstd::prelude::*;

use crate::text::same_text;

verus! {

/// What a path asks for.
#[derive(Clone, Copy, Debug, PartialEq, Eq, Structural)]
pub enum Route {
    /// Whether the daemon is alive.
    Health,
    /// The metrics.
    Metrics,
    /// Nothing that there is.
    Unknown,
}

/// An answer, as plain text.
#[derive(Debug, PartialEq, Eq)]
pub struct Answer {
    /// The HTTP status.
    pub status: u16,
    /// The body.
    pub body: String,
}

/// What a path asks for.
pub open spec fn asked(path: Seq<char>) -> Route {
    if path == "/healthz"@ {
        Route::Health
    } else if path == "/metrics"@ {
        Route::Metrics
    } else {
        Route::Unknown
    }
}

/// What the daemon answers to a request for `path`, where `metrics` are the metrics as text.
pub fn route(path: &str, metrics: String) -> (answer: Answer)
    ensures
        match asked(path@) {
            Route::Health => answer.status == 200 && answer.body@ == "ok\n"@,
            Route::Metrics => answer.status == 200 && answer.body@ == metrics@,
            Route::Unknown => answer.status == 404 && answer.body@ == "not found\n"@,
        },
{
    if same_text(path, "/healthz") {
        Answer { status: 200, body: "ok\n".to_owned() }
    } else if same_text(path, "/metrics") {
        Answer { status: 200, body: metrics }
    } else {
        Answer { status: 404, body: "not found\n".to_owned() }
    }
}

} // verus!
