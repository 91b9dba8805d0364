//! The request behind `search`: a TraceQL search.
use vstd::prelude::*;
use crate::client::{opt_ref_view, opt_string_view, search_spec, HttpRequest, TempoClient};
use crate::time::{resolve_window, resolves_window, TimeError};

verus! {

/// The request for a TraceQL search: resolves `start`, then `end`, and builds the
/// request with the resolved timestamps; the first refused time argument is
/// the error.
pub fn request(client: &TempoClient, query: &str, start: Option<&str>, end: Option<&str>, limit: Option<u32>) -> (r: Result<HttpRequest, TimeError>)
    ensures
        match r {
            Ok(req) => exists|s: Option<Seq<char>>, e: Option<Seq<char>>|
                #[trigger] resolves_window(opt_ref_view(start), opt_ref_view(end), Ok((s, e)))
                    && req@ == search_spec(client@, query@, s, e, limit),
            Err(err) => resolves_window(opt_ref_view(start), opt_ref_view(end), Err(err@)),
        },
{
    match resolve_window(start, end) {
        Err(e) => Err(e),
        Ok((s, e)) => {
            let s_ref = match &s {
                Some(x) => Some(x.as_str()),
                None => None,
            };
            let e_ref = match &e {
                Some(x) => Some(x.as_str()),
                None => None,
            };
            let req = client.search(query, s_ref, e_ref, limit);
            assert(opt_ref_view(s_ref) == opt_string_view(s));
            assert(opt_ref_view(e_ref) == opt_string_view(e));
            Ok(req)
        },
    }
}

} // verus!
