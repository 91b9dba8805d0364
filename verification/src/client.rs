//! The Tempo HTTP API: the responses it returns and the requests the client
//! sends.
use vstd::prelude::*;
use vstd::string::StringExecFns;
use crate::text::{decimal, u64_to_decimal};

verus! {

/// Answer to a TraceQL search.
#[derive(Debug)]
pub struct SearchResponse {
    pub traces: Vec<TraceSearchResult>,
}

/// One trace found by a search.
#[derive(Debug)]
pub struct TraceSearchResult {
    pub trace_id: String,
    pub root_service_name: String,
    pub root_trace_name: String,
    pub start_time_unix_nano: String,
    pub duration_ms: Option<u64>,
    pub duration_nanos: Option<String>,
}

/// Answer to a listing of tag names.
#[derive(Debug)]
pub struct TagsResponse {
    pub scopes: Vec<TagScope>,
}

/// The tag names of one scope (`resource`, `span`, ...).
#[derive(Debug)]
pub struct TagScope {
    pub name: String,
    pub tags: Vec<String>,
}

/// Answer to a listing of the values of a tag.
#[derive(Debug)]
pub struct TagValuesResponse {
    pub tag_values: Vec<TagValue>,
}

/// One value of a tag, with its type.
#[derive(Debug)]
pub struct TagValue {
    pub value_type: String,
    pub value: String,
}

/// Why a client could not be made.
#[derive(Debug)]
pub enum ClientError {
    /// No base URL was given (`TEMPO_URL` is not set).
    MissingBaseUrl,
}

impl ClientError {
    /// The message shown for this error.
    pub fn message(&self) -> (s: String)
        ensures
            s@ == "TEMPO_URL environment variable not set"@,
    {
        String::from_str("TEMPO_URL environment variable not set")
    }
}

/// One `name=value` pair of a query string.
#[derive(Debug)]
pub struct QueryParam {
    pub name: String,
    pub value: String,
}

/// User name and password for HTTP basic authentication.
#[derive(Debug)]
pub struct Credentials {
    pub user: String,
    pub password: String,
}

/// An HTTP GET request: the URL without query, the query pairs in order,
/// and the basic-authentication credentials if any.
#[derive(Debug)]
pub struct HttpRequest {
    pub url: String,
    pub query: Vec<QueryParam>,
    pub basic_auth: Option<Credentials>,
}

/// An `HttpRequest` as values.
pub struct RequestView {
    pub url: Seq<char>,
    pub query: Seq<(Seq<char>, Seq<char>)>,
    pub basic_auth: Option<(Seq<char>, Seq<char>)>,
}

impl View for HttpRequest {
    type V = RequestView;

    open spec fn view(&self) -> RequestView {
        RequestView {
            url: self.url@,
            query: self.query@.map_values(|p: QueryParam| (p.name@, p.value@)),
            basic_auth: match self.basic_auth {
                Some(c) => Some((c.user@, c.password@)),
                None => None,
            },
        }
    }
}

/// Where and as whom a client talks to Tempo.
pub struct TempoClient {
    base_url: String,
    user: Option<String>,
    password: Option<String>,
}

/// A `TempoClient` as values.
pub struct ClientView {
    pub base_url: Seq<char>,
    pub user: Option<Seq<char>>,
    pub password: Option<Seq<char>>,
}

pub open spec fn opt_string_view(o: Option<String>) -> Option<Seq<char>> {
    match o {
        Some(s) => Some(s@),
        None => None,
    }
}

pub open spec fn opt_ref_view(o: Option<&str>) -> Option<Seq<char>> {
    match o {
        Some(s) => Some(s@),
        None => None,
    }
}

impl View for TempoClient {
    type V = ClientView;

    closed spec fn view(&self) -> ClientView {
        ClientView {
            base_url: self.base_url@,
            user: opt_string_view(self.user),
            password: opt_string_view(self.password),
        }
    }
}

/// The credentials a client sends: user and password when both are set.
pub open spec fn credentials_of(c: ClientView) -> Option<(Seq<char>, Seq<char>)> {
    match (c.user, c.password) {
        (Some(u), Some(p)) => Some((u, p)),
        _ => None,
    }
}

/// A GET of `base_url + path` with the given query, as `c` sends it.
pub open spec fn request_spec(c: ClientView, path: Seq<char>, query: Seq<(Seq<char>, Seq<char>)>) -> RequestView {
    RequestView { url: c.base_url + path, query: query, basic_auth: credentials_of(c) }
}

/// The query pair `name=value` where a value is given.
pub open spec fn optional_param(name: Seq<char>, value: Option<Seq<char>>) -> Seq<(Seq<char>, Seq<char>)> {
    match value {
        Some(v) => seq![(name, v)],
        None => Seq::empty(),
    }
}

/// The `start` and `end` query pairs of a time window.
pub open spec fn window_params(start: Option<Seq<char>>, end: Option<Seq<char>>) -> Seq<(Seq<char>, Seq<char>)> {
    optional_param("start"@, start) + optional_param("end"@, end)
}

pub open spec fn get_trace_spec(c: ClientView, trace_id: Seq<char>, start: Option<Seq<char>>, end: Option<Seq<char>>) -> RequestView {
    request_spec(c, "/api/traces/"@ + trace_id, window_params(start, end))
}

pub open spec fn search_spec(
    c: ClientView,
    query: Seq<char>,
    start: Option<Seq<char>>,
    end: Option<Seq<char>>,
    limit: Option<u32>,
) -> RequestView {
    request_spec(
        c,
        "/api/search"@,
        seq![("q"@, query)] + window_params(start, end) + optional_param(
            "limit"@,
            match limit {
                Some(l) => Some(decimal(l as nat)),
                None => None,
            },
        ),
    )
}

pub open spec fn tags_spec(c: ClientView, start: Option<Seq<char>>, end: Option<Seq<char>>) -> RequestView {
    request_spec(c, "/api/v2/search/tags"@, window_params(start, end))
}

pub open spec fn tag_values_spec(c: ClientView, tag: Seq<char>, start: Option<Seq<char>>, end: Option<Seq<char>>) -> RequestView {
    request_spec(c, "/api/v2/search/tag/"@ + tag + "/values"@, window_params(start, end))
}

fn clone_opt(o: &Option<String>) -> (r: Option<String>)
    ensures
        opt_string_view(r) == opt_string_view(*o),
{
    match o {
        Some(s) => Some(s.clone()),
        None => None,
    }
}

fn push_param(query: &mut Vec<QueryParam>, name: &str, value: Option<&str>)
    ensures
        final(query)@.map_values(|p: QueryParam| (p.name@, p.value@)) == old(query)@.map_values(
            |p: QueryParam| (p.name@, p.value@),
        ) + optional_param(name@, opt_ref_view(value)),
{
    let ghost before = query@;
    if let Some(v) = value {
        query.push(QueryParam { name: String::from_str(name), value: String::from_str(v) });
    }
    assert(query@.map_values(|p: QueryParam| (p.name@, p.value@)) =~= before.map_values(
        |p: QueryParam| (p.name@, p.value@),
    ) + optional_param(name@, opt_ref_view(value)));
}

impl TempoClient {
    /// A client for the Tempo at `base_url` (the value of `TEMPO_URL`),
    /// authenticating as `user` with `password` when both are given.
    pub fn new(base_url: Option<String>, user: Option<String>, password: Option<String>) -> (r: Result<TempoClient, ClientError>)
        ensures
            base_url is None <==> r is Err,
            r matches Ok(c) ==> c@ == (ClientView {
                base_url: base_url->0@,
                user: opt_string_view(user),
                password: opt_string_view(password),
            }),
    {
        match base_url {
            Some(base_url) => Ok(TempoClient { base_url, user, password }),
            None => Err(ClientError::MissingBaseUrl),
        }
    }

    /// A GET of `base_url + path` without query.
    fn request(&self, path: &str) -> (r: HttpRequest)
        ensures
            r@ == request_spec(self@, path@, Seq::empty()),
    {
        let mut url = self.base_url.clone();
        url.append(path);
        let basic_auth = match (&self.user, &self.password) {
            (Some(user), Some(password)) => Some(Credentials { user: user.clone(), password: password.clone() }),
            _ => None,
        };
        let r = HttpRequest { url, query: Vec::new(), basic_auth };
        assert(r@.query =~= Seq::<(Seq<char>, Seq<char>)>::empty());
        r
    }

    /// The request for a trace by ID, optionally narrowed to a time window.
    pub fn get_trace(&self, trace_id: &str, start: Option<&str>, end: Option<&str>) -> (r: HttpRequest)
        ensures
            r@ == get_trace_spec(self@, trace_id@, opt_ref_view(start), opt_ref_view(end)),
    {
        let mut path = String::from_str("/api/traces/");
        path.append(trace_id);
        let mut r = self.request(path.as_str());
        push_param(&mut r.query, "start", start);
        push_param(&mut r.query, "end", end);
        assert(r@.query =~= window_params(opt_ref_view(start), opt_ref_view(end)));
        r
    }

    /// The request for a TraceQL search, optionally in a time window and
    /// with a limit on the number of traces.
    pub fn search(&self, query: &str, start: Option<&str>, end: Option<&str>, limit: Option<u32>) -> (r: HttpRequest)
        ensures
            r@ == search_spec(self@, query@, opt_ref_view(start), opt_ref_view(end), limit),
    {
        let mut r = self.request("/api/search");
        push_param(&mut r.query, "q", Some(query));
        push_param(&mut r.query, "start", start);
        push_param(&mut r.query, "end", end);
        match limit {
            Some(l) => {
                let text = u64_to_decimal(l as u64);
                push_param(&mut r.query, "limit", Some(text.as_str()));
            },
            None => {
                push_param(&mut r.query, "limit", None);
            },
        }
        assert(r@.query =~= search_spec(self@, query@, opt_ref_view(start), opt_ref_view(end), limit).query);
        r
    }

    /// The request for the tag names, optionally in a time window.
    pub fn tags(&self, start: Option<&str>, end: Option<&str>) -> (r: HttpRequest)
        ensures
            r@ == tags_spec(self@, opt_ref_view(start), opt_ref_view(end)),
    {
        let mut r = self.request("/api/v2/search/tags");
        push_param(&mut r.query, "start", start);
        push_param(&mut r.query, "end", end);
        assert(r@.query =~= window_params(opt_ref_view(start), opt_ref_view(end)));
        r
    }

    /// The request for the values of a tag, optionally in a time window.
    pub fn tag_values(&self, tag: &str, start: Option<&str>, end: Option<&str>) -> (r: HttpRequest)
        ensures
            r@ == tag_values_spec(self@, tag@, opt_ref_view(start), opt_ref_view(end)),
    {
        let mut path = String::from_str("/api/v2/search/tag/");
        path.append(tag);
        path.append("/values");
        let mut r = self.request(path.as_str());
        push_param(&mut r.query, "start", start);
        push_param(&mut r.query, "end", end);
        assert(r@.query =~= window_params(opt_ref_view(start), opt_ref_view(end)));
        r
    }
}

/// The query pairs of a time window, spelled out case by case: `start`
/// then `end`, each present exactly when given.
pub open spec fn window_pairs_given(
    q: Seq<(Seq<char>, Seq<char>)>,
    start: Option<Seq<char>>,
    end: Option<Seq<char>>,
) -> bool {
    match (start, end) {
        (None, None) => q.len() == 0,
        (Some(s), None) => q.len() == 1 && q[0] == ("start"@, s),
        (None, Some(e)) => q.len() == 1 && q[0] == ("end"@, e),
        (Some(s), Some(e)) => q.len() == 2 && q[0] == ("start"@, s) && q[1] == ("end"@, e),
    }
}

/// Every request goes to the base URL followed by its path, and carries the
/// client's user and password exactly when both are set.
pub proof fn requests_use_base_url_and_credentials(c: ClientView, path: Seq<char>, q: Seq<(Seq<char>, Seq<char>)>)
    ensures
        request_spec(c, path, q).url == c.base_url + path,
        request_spec(c, path, q).query == q,
        request_spec(c, path, q).basic_auth == if c.user is Some && c.password is Some {
            Some((c.user->0, c.password->0))
        } else {
            None
        },
{
}

/// A trace is fetched from `/api/traces/<id>` under the base URL, with the
/// given start and end bounds as query pairs, start first.
pub proof fn get_trace_request_shape(c: ClientView, id: Seq<char>, start: Option<Seq<char>>, end: Option<Seq<char>>)
    ensures
        get_trace_spec(c, id, start, end).url == c.base_url + "/api/traces/"@ + id,
        window_pairs_given(get_trace_spec(c, id, start, end).query, start, end),
        get_trace_spec(c, id, start, end).basic_auth == credentials_of(c),
{
    assert(c.base_url + ("/api/traces/"@ + id) =~= c.base_url + "/api/traces/"@ + id);
}

/// Tag names are listed from `/api/v2/search/tags` under the base URL, with
/// the given start and end bounds as query pairs, start first.
pub proof fn tags_request_shape(c: ClientView, start: Option<Seq<char>>, end: Option<Seq<char>>)
    ensures
        tags_spec(c, start, end).url == c.base_url + "/api/v2/search/tags"@,
        window_pairs_given(tags_spec(c, start, end).query, start, end),
        tags_spec(c, start, end).basic_auth == credentials_of(c),
{
}

/// The values of a tag are listed from `/api/v2/search/tag/<tag>/values`
/// under the base URL, with the given start and end bounds as query pairs,
/// start first.
pub proof fn tag_values_request_shape(c: ClientView, tag: Seq<char>, start: Option<Seq<char>>, end: Option<Seq<char>>)
    ensures
        tag_values_spec(c, tag, start, end).url == c.base_url + "/api/v2/search/tag/"@ + tag + "/values"@,
        window_pairs_given(tag_values_spec(c, tag, start, end).query, start, end),
        tag_values_spec(c, tag, start, end).basic_auth == credentials_of(c),
{
    assert(c.base_url + ("/api/v2/search/tag/"@ + tag + "/values"@) =~= c.base_url
        + "/api/v2/search/tag/"@ + tag + "/values"@);
}

/// A search goes to `/api/search` under the base URL; its query is `q` with
/// the TraceQL text first, then the given start and end bounds (start
/// first), then `limit` with the decimal limit when one is given.
pub proof fn search_request_shape(
    c: ClientView,
    query: Seq<char>,
    start: Option<Seq<char>>,
    end: Option<Seq<char>>,
    limit: Option<u32>,
)
    ensures
        search_spec(c, query, start, end, limit).url == c.base_url + "/api/search"@,
        search_spec(c, query, start, end, limit).basic_auth == credentials_of(c),
        ({
            let q = search_spec(c, query, start, end, limit).query;
            let w: int = (if start is Some { 1int } else { 0int }) + (if end is Some { 1int } else { 0int });
            &&& q.len() == 1 + w + (if limit is Some { 1int } else { 0int })
            &&& q[0] == ("q"@, query)
            &&& window_pairs_given(q.subrange(1, 1 + w), start, end)
            &&& (limit matches Some(l) ==> q[1 + w] == ("limit"@, decimal(l as nat)))
        }),
{
    let q = search_spec(c, query, start, end, limit).query;
    let w: int = (if start is Some { 1int } else { 0int }) + (if end is Some { 1int } else { 0int });
    assert(q.subrange(1, 1 + w) =~= window_params(start, end));
}

} // verus!
