//! Classification of a request path into the upstream it is meant for.

use vstd::prelude::*;
use crate::text::{is_prefix, starts_with};

verus! {

/// The upstream a request is headed for, with the raw request path.
#[derive(Debug)]
pub enum Route {
    Umami(String),
    Amplitude(String),
    AmplitudeCollect(String),
    Unexpected(String),
}

impl Route {
    /// The request path that was classified.
    pub open spec fn path_view(&self) -> Seq<char> {
        match self {
            Route::Umami(p) => p@,
            Route::Amplitude(p) => p@,
            Route::AmplitudeCollect(p) => p@,
            Route::Unexpected(p) => p@,
        }
    }
}

/// Maps a path to its route by prefix on the raw path: `/umami` to Umami,
/// `/collect` to the Amplitude collector, anything else to `Unexpected`.
/// Every path gets exactly one route.
pub fn match_route(path: String) -> (r: Route)
    ensures
        r.path_view() == path@,
        is_prefix("/umami"@, path@) <==> r is Umami,
        !is_prefix("/umami"@, path@) && is_prefix("/collect"@, path@) <==> r is AmplitudeCollect,
        !is_prefix("/umami"@, path@) && !is_prefix("/collect"@, path@) <==> r is Unexpected,
{
    if starts_with(path.as_str(), "/umami") {
        Route::Umami(path)
    } else if starts_with(path.as_str(), "/collect") {
        Route::AmplitudeCollect(path)
    } else {
        Route::Unexpected(path)
    }
}

} // verus!
