//! Cross-origin headers: what every response gets, and what the answer to a
//! preflight request gets besides.

use vstd::prelude::*;

verus! {

/// The status of an answer without a body.
pub const NO_CONTENT: u16 = 204;

/// What to change in a response: headers to set, in this order, and a status
/// to set where there is one.
pub struct Changes {
    pub headers: Vec<(&'static str, &'static str)>,
    pub status: Option<u16>,
}

/// Headers as values: name and value.
pub open spec fn header_views(headers: Seq<(&'static str, &'static str)>) -> Seq<
    (Seq<char>, Seq<char>),
> {
    Seq::new(headers.len(), |i: int| (headers[i].0@, headers[i].1@))
}

/// The headers that open a response to every origin.
pub open spec fn open_headers() -> Seq<(Seq<char>, Seq<char>)> {
    seq![
        ("Access-Control-Allow-Origin"@, "*"@),
        ("Access-Control-Allow-Methods"@, "POST, GET, PUT, DELETE, PATCH, OPTIONS"@),
        ("Access-Control-Allow-Headers"@, "Content-Type, Authorization"@),
        ("Access-Control-Allow-Credentials"@, "true"@),
    ]
}

/// The headers of a response: the open ones, and an empty length for the
/// answer to a preflight request.
pub open spec fn cors_headers(preflight: bool) -> Seq<(Seq<char>, Seq<char>)> {
    if preflight {
        open_headers().push(("Content-Length"@, "0"@))
    } else {
        open_headers()
    }
}

/// Adds the cross-origin headers to responses.
#[derive(Debug, Clone, Copy)]
pub struct CORS;

impl CORS {
    /// What this does, in words.
    pub fn info(&self) -> (name: &'static str)
        ensures
            name@ == "Add CORS headers to responses"@,
    {
        "Add CORS headers to responses"
    }

    /// The changes to a response. `preflight` says that the request was an
    /// `OPTIONS` request: its answer has no content.
    pub fn on_response(&self, preflight: bool) -> (changes: Changes)
        ensures
            header_views(changes.headers@) == cors_headers(preflight),
            changes.status == (if preflight {
                Some(NO_CONTENT)
            } else {
                None
            }),
    {
        let mut headers: Vec<(&'static str, &'static str)> = Vec::new();
        headers.push(("Access-Control-Allow-Origin", "*"));
        headers.push(("Access-Control-Allow-Methods", "POST, GET, PUT, DELETE, PATCH, OPTIONS"));
        headers.push(("Access-Control-Allow-Headers", "Content-Type, Authorization"));
        headers.push(("Access-Control-Allow-Credentials", "true"));
        assert(header_views(headers@) =~= open_headers());
        if preflight {
            headers.push(("Content-Length", "0"));
            assert(header_views(headers@) =~= cors_headers(true));
            Changes { headers, status: Some(NO_CONTENT) }
        } else {
            Changes { headers, status: None }
        }
    }
}

} // verus!
