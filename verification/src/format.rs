//! Human-readable rendering of traces, search results, tags and tag values.
//!
//! Each renderer returns the lines to print; a line is a list of segments,
//! each a piece of text with the style the terminal shows it in. Printed
//! without styles, a line is the concatenation of its segments' texts.
use vstd::prelude::*;
use crate::binary64::{
    nearest_tenths, one_decimal_is_nearest_tenth, one_decimal_of_small_quotient, one_decimal_text, u64_as_binary64,
    u64_to_binary64, write_one_decimal, excess_bits, round_half_even,
};
use crate::text::{decimal, digit_char, parse_u64, parse_u64_spec, push_char, write_decimal};
use crate::client::{opt_string_view, SearchResponse, TagScope, TagValue, TagValuesResponse, TraceSearchResult};
use vstd::string::StringExecFns;
use crate::json::{Json, JsonNumber, json_get, json_get_opt, json_as_array, json_as_str, json_as_u64, deref_opt, get_opt, as_array, as_str, as_u64};

verus! {

/// How a piece of a line is shown on a terminal.
#[derive(Debug, Clone, Copy, PartialEq, Eq, Structural)]
pub enum Style {
    Plain,
    Green,
    GreenBold,
    Cyan,
    Yellow,
    BrightWhite,
    Red,
    Dimmed,
}

/// A piece of a line in one style.
#[derive(Debug)]
pub struct Segment {
    pub text: String,
    pub style: Style,
}

/// A line of output: its segments, printed one after another.
#[derive(Debug)]
pub struct Line {
    pub segments: Vec<Segment>,
}

/// A line as the texts and styles of its segments.
pub type LineView = Seq<(Seq<char>, Style)>;

impl View for Line {
    type V = LineView;

    open spec fn view(&self) -> LineView {
        self.segments@.map_values(|s: Segment| (s.text@, s.style))
    }
}

/// What to print for a response.
#[derive(Debug)]
pub enum Rendering {
    /// The response itself, as pretty-printed JSON.
    Json,
    /// These lines.
    Lines(Vec<Line>),
}

/// A `Rendering` as values.
pub enum RenderingView {
    Json,
    Lines(Seq<LineView>),
}

pub open spec fn lines_view(lines: Seq<Line>) -> Seq<LineView> {
    lines.map_values(|l: Line| l@)
}

impl View for Rendering {
    type V = RenderingView;

    open spec fn view(&self) -> RenderingView {
        match self {
            Rendering::Json => RenderingView::Json,
            Rendering::Lines(lines) => RenderingView::Lines(lines_view(lines@)),
        }
    }
}

fn segment(text: String, style: Style) -> (s: Segment)
    ensures
        s.text@ == text@,
        s.style == style,
{
    Segment { text, style }
}

fn push_line(out: &mut Vec<Line>, line: Line)
    ensures
        lines_view(final(out)@) == lines_view(old(out)@).push(line@),
{
    let ghost before = out@;
    out.push(line);
    assert(lines_view(out@) =~= lines_view(before).push(line@));
}

/// A line of one segment.
fn single_line(text: String, style: Style) -> (l: Line)
    ensures
        l@ == seq![(text@, style)],
{
    let mut segments: Vec<Segment> = Vec::new();
    segments.push(segment(text, style));
    let l = Line { segments };
    assert(l@ =~= seq![(text@, style)]);
    l
}

/// Text of a duration given in milliseconds: whole milliseconds below one
/// second, else seconds below one minute, else minutes, the last two with
/// one decimal as `format!("{:.1}", x as f64 / unit)` prints them.
pub open spec fn duration_text(ms: nat) -> Seq<char> {
    if ms < 1000 {
        decimal(ms) + seq!['m', 's']
    } else if ms < 60000 {
        one_decimal_text(ms, 1000) + seq!['s']
    } else {
        one_decimal_text(u64_as_binary64(ms), 60000) + seq!['m']
    }
}

/// Formats a duration in milliseconds: `"250ms"`, `"1.5s"`, `"2.0m"`.
pub fn format_duration_ms(ms: u64) -> (s: String)
    ensures
        s@ == duration_text(ms as nat),
{
    let mut s = String::new();
    if ms < 1000 {
        write_decimal(&mut s, ms);
        push_char(&mut s, 'm');
        push_char(&mut s, 's');
        assert(s@ =~= duration_text(ms as nat));
    } else if ms < 60000 {
        proof {
            vstd::arithmetic::power2::lemma2_to64_rest();
        }
        write_one_decimal(&mut s, ms as u128, 1000);
        push_char(&mut s, 's');
        assert(s@ =~= duration_text(ms as nat));
    } else {
        proof {
            vstd::arithmetic::power2::lemma2_to64_rest();
        }
        let d = u64_to_binary64(ms);
        write_one_decimal(&mut s, d, 60000);
        push_char(&mut s, 'm');
        assert(s@ =~= duration_text(ms as nat));
    }
    s
}


/// The text of the scope header of `format_tags`.
pub open spec fn tag_scope_header(scope: TagScope) -> LineView {
    seq![("["@ + scope.name@ + "]"@, Style::GreenBold)]
}

/// The line of one tag name under its scope.
pub open spec fn tag_line(tag: String) -> LineView {
    seq![("  "@ + tag@, Style::Plain)]
}

/// The lines of one scope: its header, then one line per tag name.
pub open spec fn tag_scope_lines(scope: TagScope) -> Seq<LineView> {
    seq![tag_scope_header(scope)] + scope.tags@.map_values(|t: String| tag_line(t))
}

/// The lines of the scopes, one after another.
pub open spec fn tag_scopes_lines(scopes: Seq<TagScope>) -> Seq<LineView>
    decreases scopes.len(),
{
    if scopes.len() == 0 {
        Seq::empty()
    } else {
        tag_scopes_lines(scopes.drop_last()) + tag_scope_lines(scopes.last())
    }
}

/// What `format_tags` prints.
pub open spec fn tags_rendering(scopes: Seq<TagScope>, human_readable: bool) -> RenderingView {
    if !human_readable {
        RenderingView::Json
    } else {
        RenderingView::Lines(tag_scopes_lines(scopes))
    }
}

fn append_tag_scope(out: &mut Vec<Line>, scope: &TagScope)
    ensures
        lines_view(final(out)@) == lines_view(old(out)@) + tag_scope_lines(*scope),
{
    let mut header = String::from_str("[");
    header.append(scope.name.as_str());
    header.append("]");
    push_line(out, single_line(header, Style::GreenBold));
    let ghost start = lines_view(out@);
    let n = scope.tags.len();
    let mut i: usize = 0;
    while i < n
        invariant
            n == scope.tags@.len(),
            i <= n,
            lines_view(out@) == start + scope.tags@.take(i as int).map_values(|t: String| tag_line(t)),
        decreases n - i,
    {
        let mut text = String::from_str("  ");
        text.append(scope.tags[i].as_str());
        push_line(out, single_line(text, Style::Plain));
        assert(scope.tags@.take(i + 1).map_values(|t: String| tag_line(t)) =~= scope.tags@.take(
            i as int,
        ).map_values(|t: String| tag_line(t)).push(tag_line(scope.tags@[i as int])));
        i = i + 1;
    }
    assert(scope.tags@.take(n as int) =~= scope.tags@);
    assert(lines_view(out@) =~= lines_view(old(out)@) + tag_scope_lines(*scope));
}

/// Renders the tag names of each scope: `[scope]` in bold green, then each
/// tag name indented by two spaces; or the scopes as JSON when not
/// `human_readable`.
pub fn format_tags(scopes: &[TagScope], human_readable: bool) -> (r: Rendering)
    ensures
        r@ == tags_rendering(scopes@, human_readable),
{
    if !human_readable {
        return Rendering::Json;
    }
    let mut out: Vec<Line> = Vec::new();
    let n = scopes.len();
    let mut i: usize = 0;
    while i < n
        invariant
            n == scopes@.len(),
            i <= n,
            lines_view(out@) == tag_scopes_lines(scopes@.take(i as int)),
        decreases n - i,
    {
        append_tag_scope(&mut out, &scopes[i]);
        assert(scopes@.take(i + 1).drop_last() =~= scopes@.take(i as int));
        i = i + 1;
    }
    assert(scopes@.take(n as int) =~= scopes@);
    Rendering::Lines(out)
}

/// The line of one tag value: the value in bright white, then its type dimmed.
pub open spec fn tag_value_line(v: TagValue) -> LineView {
    seq![(v.value@, Style::BrightWhite), (" "@, Style::Plain), (v.value_type@, Style::Dimmed)]
}

/// What `format_tag_values` prints.
pub open spec fn tag_values_rendering(data: TagValuesResponse, human_readable: bool) -> RenderingView {
    if !human_readable {
        RenderingView::Json
    } else if data.tag_values@.len() == 0 {
        RenderingView::Lines(seq![seq![("No values found."@, Style::Dimmed)]])
    } else {
        RenderingView::Lines(data.tag_values@.map_values(|v: TagValue| tag_value_line(v)))
    }
}

/// Renders the values of a tag, one per line (`No values found.` when
/// there are none); or the response as JSON when not `human_readable`.
pub fn format_tag_values(data: &TagValuesResponse, human_readable: bool) -> (r: Rendering)
    ensures
        r@ == tag_values_rendering(*data, human_readable),
{
    if !human_readable {
        return Rendering::Json;
    }
    let mut out: Vec<Line> = Vec::new();
    let n = data.tag_values.len();
    if n == 0 {
        push_line(&mut out, single_line(String::from_str("No values found."), Style::Dimmed));
        assert(lines_view(out@) =~= seq![seq![("No values found."@, Style::Dimmed)]]);
        return Rendering::Lines(out);
    }
    let mut i: usize = 0;
    while i < n
        invariant
            n == data.tag_values@.len(),
            i <= n,
            lines_view(out@) == data.tag_values@.take(i as int).map_values(|v: TagValue| tag_value_line(v)),
        decreases n - i,
    {
        let v = &data.tag_values[i];
        let mut segments: Vec<Segment> = Vec::new();
        segments.push(segment(v.value.clone(), Style::BrightWhite));
        segments.push(segment(String::from_str(" "), Style::Plain));
        segments.push(segment(v.value_type.clone(), Style::Dimmed));
        let line = Line { segments };
        assert(line@ =~= tag_value_line(*v));
        push_line(&mut out, line);
        assert(data.tag_values@.take(i + 1).map_values(|v: TagValue| tag_value_line(v)) =~= data.tag_values@.take(
            i as int,
        ).map_values(|v: TagValue| tag_value_line(v)).push(tag_value_line(data.tag_values@[i as int])));
        i = i + 1;
    }
    assert(data.tag_values@.take(n as int) =~= data.tag_values@);
    Rendering::Lines(out)
}

/// What chrono prints for `DateTime::<Utc>::from_timestamp(secs, nanos)`
/// with the format `%Y-%m-%d %H:%M:%S`, or nothing where that instant is out
/// of chrono's range or the nanoseconds are not valid.
pub uninterp spec fn utc_datetime_text(secs: i64, nanos: u32) -> Option<Seq<char>>;

/// `DateTime::<Utc>::from_timestamp(secs, nanos)`, formatted as
/// `%Y-%m-%d %H:%M:%S`. The text is named, not stated: the calendar is
/// chrono's. Stated is that an instant from 1970 up to 2^35 seconds later
/// with valid nanoseconds is in range (chrono's dates reach year 262142).
#[verifier::external_body]
fn format_utc(secs: i64, nanos: u32) -> (r: Option<String>)
    ensures
        opt_string_view(r) == utc_datetime_text(secs, nanos),
        0 <= secs <= 0x8_0000_0000 && nanos < 1_000_000_000 ==> r is Some,
{
    match chrono::DateTime::<chrono::Utc>::from_timestamp(secs, nanos) {
        Some(dt) => Some(dt.format("%Y-%m-%d %H:%M:%S").to_string()),
        None => None,
    }
}

/// The UTC date and time of a Unix timestamp in nanoseconds, to the second;
/// empty when there is none.
pub open spec fn unix_nanos_text(ns: Option<u64>) -> Seq<char> {
    match ns {
        Some(n) => match utc_datetime_text((n / 1_000_000_000) as i64, (n % 1_000_000_000) as u32) {
            Some(t) => t,
            None => Seq::empty(),
        },
        None => Seq::empty(),
    }
}

/// The UTC date and time of a Unix timestamp in nanoseconds, to the second.
pub fn format_unix_nanos(ns: Option<u64>) -> (s: String)
    ensures
        s@ == unix_nanos_text(ns),
        ns is Some ==> utc_datetime_text(
            (ns->0 / 1_000_000_000) as i64,
            (ns->0 % 1_000_000_000) as u32,
        ) is Some,
{
    match ns {
        Some(n) => {
            let secs: i64 = (n / 1_000_000_000) as i64;
            let nanos: u32 = (n % 1_000_000_000) as u32;
            match format_utc(secs, nanos) {
                Some(t) => t,
                None => String::new(),
            }
        },
        None => String::new(),
    }
}

/// The duration shown for a search result: its milliseconds, taken as 0
/// when the server left them out.
pub open spec fn result_duration_ms(t: TraceSearchResult) -> nat {
    match t.duration_ms {
        Some(ms) => ms as nat,
        None => 0,
    }
}

/// The line of one search result: trace ID, root service, root span name,
/// duration and start time.
pub open spec fn search_result_line(t: TraceSearchResult) -> LineView {
    seq![
        (t.trace_id@, Style::GreenBold),
        (" "@, Style::Plain),
        (t.root_service_name@, Style::Cyan),
        (" "@, Style::Plain),
        (t.root_trace_name@, Style::Yellow),
        (" "@, Style::Plain),
        (duration_text(result_duration_ms(t)), Style::BrightWhite),
        (" "@, Style::Plain),
        (unix_nanos_text(parse_u64_spec(t.start_time_unix_nano@)), Style::Dimmed),
    ]
}

/// What `format_search_results` prints.
pub open spec fn search_rendering(data: SearchResponse, human_readable: bool) -> RenderingView {
    if !human_readable {
        RenderingView::Json
    } else if data.traces@.len() == 0 {
        RenderingView::Lines(seq![seq![("No traces found."@, Style::Dimmed)]])
    } else {
        RenderingView::Lines(data.traces@.map_values(|t: TraceSearchResult| search_result_line(t)))
    }
}

fn search_line(t: &TraceSearchResult) -> (l: Line)
    ensures
        l@ == search_result_line(*t),
{
    let ms: u64 = match t.duration_ms {
        Some(ms) => ms,
        None => 0,
    };
    let mut segments: Vec<Segment> = Vec::new();
    segments.push(segment(t.trace_id.clone(), Style::GreenBold));
    segments.push(segment(String::from_str(" "), Style::Plain));
    segments.push(segment(t.root_service_name.clone(), Style::Cyan));
    segments.push(segment(String::from_str(" "), Style::Plain));
    segments.push(segment(t.root_trace_name.clone(), Style::Yellow));
    segments.push(segment(String::from_str(" "), Style::Plain));
    segments.push(segment(format_duration_ms(ms), Style::BrightWhite));
    segments.push(segment(String::from_str(" "), Style::Plain));
    let ns = parse_u64(t.start_time_unix_nano.as_str());
    segments.push(segment(format_unix_nanos(ns), Style::Dimmed));
    let l = Line { segments };
    assert(l@ =~= search_result_line(*t));
    l
}

/// Renders search results, one line per trace (`No traces found.` when
/// there are none); or the response as JSON when not `human_readable`.
pub fn format_search_results(data: &SearchResponse, human_readable: bool) -> (r: Rendering)
    ensures
        r@ == search_rendering(*data, human_readable),
{
    if !human_readable {
        return Rendering::Json;
    }
    let mut out: Vec<Line> = Vec::new();
    let n = data.traces.len();
    if n == 0 {
        push_line(&mut out, single_line(String::from_str("No traces found."), Style::Dimmed));
        assert(lines_view(out@) =~= seq![seq![("No traces found."@, Style::Dimmed)]]);
        return Rendering::Lines(out);
    }
    let mut i: usize = 0;
    while i < n
        invariant
            n == data.traces@.len(),
            i <= n,
            lines_view(out@) == data.traces@.take(i as int).map_values(
                |t: TraceSearchResult| search_result_line(t),
            ),
        decreases n - i,
    {
        let line = search_line(&data.traces[i]);
        push_line(&mut out, line);
        assert(data.traces@.take(i + 1).map_values(|t: TraceSearchResult| search_result_line(t))
            =~= data.traces@.take(i as int).map_values(
            |t: TraceSearchResult| search_result_line(t),
        ).push(search_result_line(data.traces@[i as int])));
        i = i + 1;
    }
    assert(data.traces@.take(n as int) =~= data.traces@);
    Rendering::Lines(out)
}


/// The batches of a trace: its `batches`, or, where it has no such member,
/// its `resourceSpans`; when that is not an array, there are none.
pub open spec fn trace_batches(trace: Json) -> Option<Seq<Json>> {
    json_as_array(
        match json_get(trace, "batches"@) {
            Some(v) => Some(v),
            None => json_get(trace, "resourceSpans"@),
        },
    )
}

/// The first attribute whose `key` is the string `service.name`.
pub open spec fn service_attribute(attrs: Seq<Json>) -> Option<Json>
    decreases attrs.len(),
{
    if attrs.len() == 0 {
        None
    } else if json_as_str(json_get(attrs[0], "key"@)) == Some("service.name"@) {
        Some(attrs[0])
    } else {
        service_attribute(attrs.drop_first())
    }
}

/// The service of a batch: the `value.stringValue` of the first
/// `service.name` attribute of its `resource`, else `unknown`.
pub open spec fn batch_service_name(batch: Json) -> Seq<char> {
    match json_as_array(json_get_opt(json_get(batch, "resource"@), "attributes"@)) {
        Some(attrs) => match service_attribute(attrs) {
            Some(a) => match json_as_str(json_get_opt(json_get(a, "value"@), "stringValue"@)) {
                Some(name) => name,
                None => "unknown"@,
            },
            None => "unknown"@,
        },
        None => "unknown"@,
    }
}

/// The scopes of a batch: its `scopeSpans`, or, where it has no such member,
/// its `instrumentationLibrarySpans`, when that is an array.
pub open spec fn batch_scopes(batch: Json) -> Option<Seq<Json>> {
    json_as_array(
        match json_get(batch, "scopeSpans"@) {
            Some(v) => Some(v),
            None => json_get(batch, "instrumentationLibrarySpans"@),
        },
    )
}

/// A time in nanoseconds given either as a decimal string or as a number.
pub open spec fn nanos_field(v: Option<Json>) -> Option<u64> {
    match v {
        Some(Json::Str(s)) => parse_u64_spec(s@),
        Some(Json::Number(JsonNumber::PosInt(n))) => Some(n),
        _ => None,
    }
}

/// The name of an OpenTelemetry span kind number, `?` when there is none.
pub open spec fn span_kind_text(kind: Option<u64>) -> Seq<char> {
    match kind {
        Some(k) => if k == 1 {
            "INTERNAL"@
        } else if k == 2 {
            "SERVER"@
        } else if k == 3 {
            "CLIENT"@
        } else if k == 4 {
            "PRODUCER"@
        } else if k == 5 {
            "CONSUMER"@
        } else {
            "UNKNOWN"@
        },
        None => "?"@,
    }
}

/// The name of an OpenTelemetry status code, `UNSET` when there is none.
pub open spec fn span_status_text(code: Option<u64>) -> Seq<char> {
    match code {
        Some(c) => if c == 0 {
            "UNSET"@
        } else if c == 1 {
            "OK"@
        } else if c == 2 {
            "ERROR"@
        } else {
            "?"@
        },
        None => "UNSET"@,
    }
}

/// The style of a status: red for `ERROR`, green for `OK`, else dimmed.
pub open spec fn span_status_style(code: Option<u64>) -> Style {
    match code {
        Some(c) => if c == 2 {
            Style::Red
        } else if c == 1 {
            Style::Green
        } else {
            Style::Dimmed
        },
        None => Style::Dimmed,
    }
}

/// The duration of a span from its start and end in nanoseconds, in whole
/// milliseconds; `?` unless both are known and the end is after the start.
pub open spec fn span_duration_text(start: Option<u64>, end: Option<u64>) -> Seq<char> {
    match (start, end) {
        (Some(s), Some(e)) => if e > s {
            duration_text(((e - s) / 1_000_000) as nat)
        } else {
            "?"@
        },
        _ => "?"@,
    }
}

/// The line of a span: name, kind, duration, status and start time.
pub open spec fn span_line(span: Json) -> LineView {
    let start = nanos_field(json_get(span, "startTimeUnixNano"@));
    let end = nanos_field(json_get(span, "endTimeUnixNano"@));
    let code = json_as_u64(json_get_opt(json_get(span, "status"@), "code"@));
    let name = match json_as_str(json_get(span, "name"@)) {
        Some(n) => n,
        None => "?"@,
    };
    seq![
        ("  "@, Style::Plain),
        (name, Style::Cyan),
        (" "@, Style::Plain),
        (span_kind_text(json_as_u64(json_get(span, "kind"@))), Style::Yellow),
        (" "@, Style::Plain),
        (span_duration_text(start, end), Style::BrightWhite),
        (" "@, Style::Plain),
        (span_status_text(code), span_status_style(code)),
        (" "@, Style::Plain),
        (unix_nanos_text(start), Style::Dimmed),
    ]
}

/// The lines of spans, one per span.
pub open spec fn spans_lines(spans: Seq<Json>) -> Seq<LineView> {
    spans.map_values(|s: Json| span_line(s))
}

/// The lines of a scope: one per span of its `spans` array, none when it
/// has no such array.
pub open spec fn scope_lines(scope: Json) -> Seq<LineView> {
    match json_as_array(json_get(scope, "spans"@)) {
        Some(spans) => spans_lines(spans),
        None => Seq::empty(),
    }
}

/// The lines of scopes, one after another.
pub open spec fn scopes_lines(scopes: Seq<Json>) -> Seq<LineView>
    decreases scopes.len(),
{
    if scopes.len() == 0 {
        Seq::empty()
    } else {
        scopes_lines(scopes.drop_last()) + scope_lines(scopes.last())
    }
}

/// The lines of a batch: `Service: <name>` in bold green, then the lines of
/// its scopes.
pub open spec fn batch_lines(batch: Json) -> Seq<LineView> {
    seq![seq![("Service: "@ + batch_service_name(batch), Style::GreenBold)]] + match batch_scopes(
        batch,
    ) {
        Some(scopes) => scopes_lines(scopes),
        None => Seq::empty(),
    }
}

/// The lines of batches, one after another.
pub open spec fn batches_lines(batches: Seq<Json>) -> Seq<LineView>
    decreases batches.len(),
{
    if batches.len() == 0 {
        Seq::empty()
    } else {
        batches_lines(batches.drop_last()) + batch_lines(batches.last())
    }
}

/// What `format_trace` prints: the trace as JSON when not `human_readable`
/// or when it has no batches, else the lines of its batches.
pub open spec fn trace_rendering(trace: Json, human_readable: bool) -> RenderingView {
    if !human_readable {
        RenderingView::Json
    } else {
        match trace_batches(trace) {
            Some(batches) => RenderingView::Lines(batches_lines(batches)),
            None => RenderingView::Json,
        }
    }
}

fn member_or<'a>(v: &'a Json, key: &str, fallback: &str) -> (r: Option<&'a Json>)
    ensures
        deref_opt(r) == match json_get(*v, key@) {
            Some(x) => Some(x),
            None => json_get(*v, fallback@),
        },
{
    match v.get(key) {
        Some(x) => Some(x),
        None => v.get(fallback),
    }
}

fn service_name(batch: &Json) -> (s: String)
    ensures
        s@ == batch_service_name(*batch),
{
    let attrs = as_array(get_opt(batch.get("resource"), "attributes"));
    match attrs {
        None => String::from_str("unknown"),
        Some(attrs) => {
            let n = attrs.len();
            let mut i: usize = 0;
            assert(attrs@.skip(0) =~= attrs@);
            while i < n
                invariant
                    n == attrs@.len(),
                    i <= n,
                    json_as_array(json_get_opt(json_get(*batch, "resource"@), "attributes"@)) == Some(attrs@),
                    service_attribute(attrs@) == service_attribute(attrs@.skip(i as int)),
                decreases n - i,
            {
                let a = &attrs[i];
                assert(attrs@.skip(i as int)[0] == attrs@[i as int]);
                assert(attrs@.skip(i as int).drop_first() =~= attrs@.skip(i + 1));
                let is_service = match as_str(a.get("key")) {
                    Some(k) => crate::text::str_equals(k.as_str(), "service.name"),
                    None => false,
                };
                if is_service {
                    assert(service_attribute(attrs@) == Some(*a));
                    return match as_str(get_opt(a.get("value"), "stringValue")) {
                        Some(name) => name.clone(),
                        None => String::from_str("unknown"),
                    };
                }
                i = i + 1;
            }
            assert(attrs@.skip(n as int) =~= Seq::<Json>::empty());
            String::from_str("unknown")
        },
    }
}

fn nanos_of(v: Option<&Json>) -> (r: Option<u64>)
    ensures
        r == nanos_field(deref_opt(v)),
{
    match v {
        Some(Json::Str(s)) => parse_u64(s.as_str()),
        Some(Json::Number(JsonNumber::PosInt(n))) => Some(*n),
        _ => None,
    }
}

fn kind_text(kind: Option<u64>) -> (s: String)
    ensures
        s@ == span_kind_text(kind),
{
    match kind {
        Some(k) => if k == 1 {
            String::from_str("INTERNAL")
        } else if k == 2 {
            String::from_str("SERVER")
        } else if k == 3 {
            String::from_str("CLIENT")
        } else if k == 4 {
            String::from_str("PRODUCER")
        } else if k == 5 {
            String::from_str("CONSUMER")
        } else {
            String::from_str("UNKNOWN")
        },
        None => String::from_str("?"),
    }
}

fn status_text(code: Option<u64>) -> (r: (String, Style))
    ensures
        r.0@ == span_status_text(code),
        r.1 == span_status_style(code),
{
    match code {
        Some(c) => if c == 0 {
            (String::from_str("UNSET"), Style::Dimmed)
        } else if c == 1 {
            (String::from_str("OK"), Style::Green)
        } else if c == 2 {
            (String::from_str("ERROR"), Style::Red)
        } else {
            (String::from_str("?"), Style::Dimmed)
        },
        None => (String::from_str("UNSET"), Style::Dimmed),
    }
}

fn duration_between(start: Option<u64>, end: Option<u64>) -> (s: String)
    ensures
        s@ == span_duration_text(start, end),
{
    match (start, end) {
        (Some(s), Some(e)) => if e > s {
            format_duration_ms((e - s) / 1_000_000)
        } else {
            String::from_str("?")
        },
        _ => String::from_str("?"),
    }
}

fn span_to_line(span: &Json) -> (l: Line)
    ensures
        l@ == span_line(*span),
{
    let start = nanos_of(span.get("startTimeUnixNano"));
    let end = nanos_of(span.get("endTimeUnixNano"));
    let code = as_u64(get_opt(span.get("status"), "code"));
    let name = match as_str(span.get("name")) {
        Some(n) => n.clone(),
        None => String::from_str("?"),
    };
    let (status, status_style) = status_text(code);
    let mut segments: Vec<Segment> = Vec::new();
    segments.push(segment(String::from_str("  "), Style::Plain));
    segments.push(segment(name, Style::Cyan));
    segments.push(segment(String::from_str(" "), Style::Plain));
    segments.push(segment(kind_text(as_u64(span.get("kind"))), Style::Yellow));
    segments.push(segment(String::from_str(" "), Style::Plain));
    segments.push(segment(duration_between(start, end), Style::BrightWhite));
    segments.push(segment(String::from_str(" "), Style::Plain));
    segments.push(segment(status, status_style));
    segments.push(segment(String::from_str(" "), Style::Plain));
    segments.push(segment(format_unix_nanos(start), Style::Dimmed));
    let l = Line { segments };
    assert(l@ =~= span_line(*span));
    l
}

fn append_scope(out: &mut Vec<Line>, scope: &Json)
    ensures
        lines_view(final(out)@) == lines_view(old(out)@) + scope_lines(*scope),
{
    match as_array(scope.get("spans")) {
        None => {
            assert(lines_view(out@) =~= lines_view(old(out)@) + scope_lines(*scope));
        },
        Some(spans) => {
            let n = spans.len();
            let mut i: usize = 0;
            while i < n
                invariant
                    n == spans@.len(),
                    i <= n,
                    lines_view(out@) == lines_view(old(out)@) + spans_lines(spans@.take(i as int)),
                decreases n - i,
            {
                let line = span_to_line(&spans[i]);
                push_line(out, line);
                assert(spans_lines(spans@.take(i + 1)) =~= spans_lines(spans@.take(i as int)).push(
                    span_line(spans@[i as int]),
                ));
                i = i + 1;
            }
            assert(spans@.take(n as int) =~= spans@);
            assert(lines_view(out@) =~= lines_view(old(out)@) + scope_lines(*scope));
        },
    }
}

fn append_batch(out: &mut Vec<Line>, batch: &Json)
    ensures
        lines_view(final(out)@) == lines_view(old(out)@) + batch_lines(*batch),
{
    let mut header = String::from_str("Service: ");
    let name = service_name(batch);
    header.append(name.as_str());
    push_line(out, single_line(header, Style::GreenBold));
    let ghost after_header = lines_view(out@);
    match as_array(member_or(batch, "scopeSpans", "instrumentationLibrarySpans")) {
        None => {
            assert(lines_view(out@) =~= lines_view(old(out)@) + batch_lines(*batch));
        },
        Some(scopes) => {
            let n = scopes.len();
            let mut i: usize = 0;
            while i < n
                invariant
                    n == scopes@.len(),
                    i <= n,
                    lines_view(out@) == after_header + scopes_lines(scopes@.take(i as int)),
                decreases n - i,
            {
                append_scope(out, &scopes[i]);
                assert(scopes@.take(i + 1).drop_last() =~= scopes@.take(i as int));
                i = i + 1;
            }
            assert(scopes@.take(n as int) =~= scopes@);
            assert(lines_view(out@) =~= lines_view(old(out)@) + batch_lines(*batch));
        },
    }
}

/// Renders a trace: for each batch, `Service: <name>` and then one line per
/// span (name, kind, duration, status, start time); the trace as JSON when
/// not `human_readable` or when it has no batches.
pub fn format_trace(trace: &Json, human_readable: bool) -> (r: Rendering)
    ensures
        r@ == trace_rendering(*trace, human_readable),
{
    if !human_readable {
        return Rendering::Json;
    }
    match as_array(member_or(trace, "batches", "resourceSpans")) {
        None => Rendering::Json,
        Some(batches) => {
            let mut out: Vec<Line> = Vec::new();
            let n = batches.len();
            let mut i: usize = 0;
            while i < n
                invariant
                    n == batches@.len(),
                    i <= n,
                    lines_view(out@) == batches_lines(batches@.take(i as int)),
                decreases n - i,
            {
                append_batch(&mut out, &batches[i]);
                assert(batches@.take(i + 1).drop_last() =~= batches@.take(i as int));
                i = i + 1;
            }
            assert(batches@.take(n as int) =~= batches@);
            Rendering::Lines(out)
        },
    }
}

/// A span time given as a number and one given as that number's decimal
/// string are read alike.
pub proof fn numeric_and_decimal_times_agree(n: u64, text: String)
    requires
        text@ == decimal(n as nat),
    ensures
        nanos_field(Some(Json::Number(JsonNumber::PosInt(n)))) == nanos_field(Some(Json::Str(text))),
        nanos_field(Some(Json::Str(text))) == Some(n),
{
    crate::text::decimal_round_trip_u64(n);
}

/// A span whose start or end time is written as a number renders exactly
/// like the same span with that time written as the number's decimal string.
pub proof fn span_time_as_number_or_text(span: Json, span2: Json, key: Seq<char>, n: u64, text: String)
    requires
        key == "startTimeUnixNano"@ || key == "endTimeUnixNano"@,
        text@ == decimal(n as nat),
        json_get(span, key) == Some(Json::Str(text)),
        json_get(span2, key) == Some(Json::Number(JsonNumber::PosInt(n))),
        forall|k: Seq<char>| k != key ==> #[trigger] json_get(span2, k) == json_get(span, k),
    ensures
        span_line(span2) == span_line(span),
{
    numeric_and_decimal_times_agree(n, text);
    reveal_strlit("startTimeUnixNano");
    reveal_strlit("endTimeUnixNano");
    reveal_strlit("name");
    reveal_strlit("kind");
    reveal_strlit("status");
    assert("name"@ != key) by {
        assert("name"@.len() == 4);
        assert("startTimeUnixNano"@.len() == 17);
        assert("endTimeUnixNano"@.len() == 15);
    }
    assert("kind"@ != key) by {
        assert("kind"@.len() == 4);
        assert("startTimeUnixNano"@.len() == 17);
        assert("endTimeUnixNano"@.len() == 15);
    }
    assert("status"@ != key) by {
        assert("status"@.len() == 6);
        assert("startTimeUnixNano"@.len() == 17);
        assert("endTimeUnixNano"@.len() == 15);
    }
    assert("startTimeUnixNano"@ != "endTimeUnixNano"@) by {
        assert("startTimeUnixNano"@[0] != "endTimeUnixNano"@[0]);
    }
    assert(json_get(span2, "name"@) == json_get(span, "name"@));
    assert(json_get(span2, "kind"@) == json_get(span, "kind"@));
    assert(json_get(span2, "status"@) == json_get(span, "status"@));
    if key == "startTimeUnixNano"@ {
        assert(json_get(span2, "endTimeUnixNano"@) == json_get(span, "endTimeUnixNano"@));
    } else {
        assert(json_get(span2, "startTimeUnixNano"@) == json_get(span, "startTimeUnixNano"@));
    }
}

/// Spans paired index by index, each pair related by `rel`.
pub open spec fn spans_related(a: Seq<Json>, b: Seq<Json>, rel: spec_fn(Json, Json) -> bool) -> bool {
    a.len() == b.len() && forall|i: int| 0 <= i < a.len() ==> #[trigger] rel(a[i], b[i])
}

/// Two scopes with the same shape whose spans are related by `rel`.
pub open spec fn scope_related(a: Json, b: Json, rel: spec_fn(Json, Json) -> bool) -> bool {
    match (json_as_array(json_get(a, "spans"@)), json_as_array(json_get(b, "spans"@))) {
        (Some(x), Some(y)) => spans_related(x, y, rel),
        (None, None) => true,
        _ => false,
    }
}

pub open spec fn scopes_related(a: Seq<Json>, b: Seq<Json>, rel: spec_fn(Json, Json) -> bool) -> bool {
    a.len() == b.len() && forall|i: int| 0 <= i < a.len() ==> #[trigger] scope_related(a[i], b[i], rel)
}

/// Two batches with the same service and shape whose spans are related by `rel`.
pub open spec fn batch_related(a: Json, b: Json, rel: spec_fn(Json, Json) -> bool) -> bool {
    &&& batch_service_name(a) == batch_service_name(b)
    &&& match (batch_scopes(a), batch_scopes(b)) {
        (Some(x), Some(y)) => scopes_related(x, y, rel),
        (None, None) => true,
        _ => false,
    }
}

pub open spec fn batches_related(a: Seq<Json>, b: Seq<Json>, rel: spec_fn(Json, Json) -> bool) -> bool {
    a.len() == b.len() && forall|i: int| 0 <= i < a.len() ==> #[trigger] batch_related(a[i], b[i], rel)
}

/// Two traces with the same batches, services and scopes, whose spans are
/// related, one by one, by `rel`.
pub open spec fn traces_related(a: Json, b: Json, rel: spec_fn(Json, Json) -> bool) -> bool {
    match (trace_batches(a), trace_batches(b)) {
        (Some(x), Some(y)) => batches_related(x, y, rel),
        (None, None) => true,
        _ => false,
    }
}

proof fn lemma_scopes_lines_related(a: Seq<Json>, b: Seq<Json>, rel: spec_fn(Json, Json) -> bool)
    requires
        scopes_related(a, b, rel),
        forall|x: Json, y: Json| #[trigger] rel(x, y) ==> span_line(x) == span_line(y),
    ensures
        scopes_lines(a) == scopes_lines(b),
    decreases a.len(),
{
    if a.len() > 0 {
        let n = a.len() - 1;
        assert(scope_related(a[n], b[n], rel));
        assert(scopes_related(a.drop_last(), b.drop_last(), rel)) by {
            assert forall|i: int| 0 <= i < a.drop_last().len() implies #[trigger] scope_related(
                a.drop_last()[i],
                b.drop_last()[i],
                rel,
            ) by {
                assert(scope_related(a[i], b[i], rel));
            }
        }
        lemma_scopes_lines_related(a.drop_last(), b.drop_last(), rel);
        match (json_as_array(json_get(a[n], "spans"@)), json_as_array(json_get(b[n], "spans"@))) {
            (Some(x), Some(y)) => {
                assert(spans_lines(x) =~= spans_lines(y)) by {
                    assert forall|i: int| 0 <= i < x.len() implies span_line(x[i]) == span_line(y[i]) by {
                        assert(rel(x[i], y[i]));
                    }
                }
            },
            _ => {},
        }
    }
}

proof fn lemma_batches_lines_related(a: Seq<Json>, b: Seq<Json>, rel: spec_fn(Json, Json) -> bool)
    requires
        batches_related(a, b, rel),
        forall|x: Json, y: Json| #[trigger] rel(x, y) ==> span_line(x) == span_line(y),
    ensures
        batches_lines(a) == batches_lines(b),
    decreases a.len(),
{
    if a.len() > 0 {
        let n = a.len() - 1;
        assert(batch_related(a[n], b[n], rel));
        assert(batches_related(a.drop_last(), b.drop_last(), rel)) by {
            assert forall|i: int| 0 <= i < a.drop_last().len() implies #[trigger] batch_related(
                a.drop_last()[i],
                b.drop_last()[i],
                rel,
            ) by {
                assert(batch_related(a[i], b[i], rel));
            }
        }
        lemma_batches_lines_related(a.drop_last(), b.drop_last(), rel);
        match (batch_scopes(a[n]), batch_scopes(b[n])) {
            (Some(x), Some(y)) => {
                lemma_scopes_lines_related(x, y, rel);
            },
            _ => {},
        }
    }
}

/// A trace renders from its services, its shape and its span lines alone:
/// traces whose spans are related by a relation under which span lines are
/// equal render alike.
pub proof fn traces_with_alike_spans_render_alike(a: Json, b: Json, rel: spec_fn(Json, Json) -> bool, human_readable: bool)
    requires
        traces_related(a, b, rel),
        forall|x: Json, y: Json| #[trigger] rel(x, y) ==> span_line(x) == span_line(y),
    ensures
        trace_rendering(b, human_readable) == trace_rendering(a, human_readable),
{
    match (trace_batches(a), trace_batches(b)) {
        (Some(x), Some(y)) => {
            lemma_batches_lines_related(x, y, rel);
        },
        _ => {},
    }
}

/// `b` is the span `a`, or `a` with its start or end time, written there as
/// the decimal string of a `u64`, written as that number instead.
pub open spec fn time_written_as_number(a: Json, b: Json) -> bool {
    a == b || exists|key: Seq<char>, text: String|
        #![trigger json_get(a, key), text@]
        time_rewritten_at(a, b, key, text)
}

/// `b` is `a` with the member `key`, the decimal string `text` of a `u64`,
/// written as that number.
pub open spec fn time_rewritten_at(a: Json, b: Json, key: Seq<char>, text: String) -> bool {
    &&& (key == "startTimeUnixNano"@ || key == "endTimeUnixNano"@)
    &&& parse_u64_spec(text@) is Some
    &&& text@ == decimal(parse_u64_spec(text@)->0 as nat)
    &&& json_get(a, key) == Some(Json::Str(text))
    &&& json_get(b, key) == Some(Json::Number(JsonNumber::PosInt(parse_u64_spec(text@)->0)))
    &&& forall|k: Seq<char>| k != key ==> #[trigger] json_get(b, k) == json_get(a, k)
}

/// Writing span times as numbers instead of decimal strings does not change
/// how a trace renders.
pub proof fn trace_time_encoding_does_not_matter(a: Json, b: Json, human_readable: bool)
    requires
        traces_related(a, b, |x: Json, y: Json| time_written_as_number(x, y)),
    ensures
        trace_rendering(b, human_readable) == trace_rendering(a, human_readable),
{
    let rel = |x: Json, y: Json| time_written_as_number(x, y);
    assert forall|x: Json, y: Json| #[trigger] rel(x, y) implies span_line(x) == span_line(y) by {
        if x != y {
            let (key, text) = choose|key: Seq<char>, text: String|
                #![trigger json_get(x, key), text@]
                time_rewritten_at(x, y, key, text);
            span_time_as_number_or_text(x, y, key, parse_u64_spec(text@)->0, text);
        }
    }
    traces_with_alike_spans_render_alike(a, b, rel, human_readable);
}

/// Tag values render as one line per value, in the response's order: the
/// value in bright white, a space, and its type dimmed; with no values, the
/// one dimmed line `No values found.`; as JSON unless human-readable.
pub proof fn tag_values_lines_follow_the_response(data: TagValuesResponse, human_readable: bool)
    ensures
        !human_readable ==> tag_values_rendering(data, human_readable) == RenderingView::Json,
        human_readable && data.tag_values@.len() == 0 ==> tag_values_rendering(data, human_readable)
            == RenderingView::Lines(seq![seq![("No values found."@, Style::Dimmed)]]),
        human_readable && data.tag_values@.len() > 0 ==> (tag_values_rendering(data, human_readable) matches RenderingView::Lines(
            ls,
        ) && ls.len() == data.tag_values@.len() && forall|i: int|
            0 <= i < ls.len() ==> #[trigger] ls[i] == seq![
                (data.tag_values@[i].value@, Style::BrightWhite),
                (" "@, Style::Plain),
                (data.tag_values@[i].value_type@, Style::Dimmed),
            ]),
{
}

/// Search results render as one line per trace, in the response's order:
/// trace ID (bold green), root service (cyan), root span name (yellow),
/// duration (bright white, `0ms` when the server gave none) and start time
/// (dimmed), separated by spaces; with no traces, the one dimmed line
/// `No traces found.`; as JSON unless human-readable.
pub proof fn search_lines_follow_the_response(data: SearchResponse, human_readable: bool)
    ensures
        !human_readable ==> search_rendering(data, human_readable) == RenderingView::Json,
        human_readable && data.traces@.len() == 0 ==> search_rendering(data, human_readable)
            == RenderingView::Lines(seq![seq![("No traces found."@, Style::Dimmed)]]),
        human_readable && data.traces@.len() > 0 ==> (search_rendering(data, human_readable) matches RenderingView::Lines(
            ls,
        ) && ls.len() == data.traces@.len() && forall|i: int|
            0 <= i < ls.len() ==> #[trigger] ls[i] == seq![
                (data.traces@[i].trace_id@, Style::GreenBold),
                (" "@, Style::Plain),
                (data.traces@[i].root_service_name@, Style::Cyan),
                (" "@, Style::Plain),
                (data.traces@[i].root_trace_name@, Style::Yellow),
                (" "@, Style::Plain),
                (duration_text(
                    match data.traces@[i].duration_ms {
                        Some(ms) => ms as nat,
                        None => 0nat,
                    },
                ), Style::BrightWhite),
                (" "@, Style::Plain),
                (unix_nanos_text(parse_u64_spec(data.traces@[i].start_time_unix_nano@)), Style::Dimmed),
            ]),
{
}

/// The tag names of one scope render as its name in brackets (bold green),
/// then one line per tag name, indented by two spaces, in order.
pub proof fn one_tag_scope_renders_header_then_tags(scope: TagScope)
    ensures
        tags_rendering(seq![scope], true) matches RenderingView::Lines(ls) && ls.len() == 1
            + scope.tags@.len() && ls[0] == seq![("["@ + scope.name@ + "]"@, Style::GreenBold)] && forall|
            i: int,
        | 0 <= i < scope.tags@.len() ==> #[trigger] ls[i + 1] == seq![("  "@ + scope.tags@[i]@, Style::Plain)],
        tags_rendering(seq![scope], false) == RenderingView::Json,
{
    assert(seq![scope].drop_last() =~= Seq::<TagScope>::empty());
    let ls = tag_scopes_lines(seq![scope]);
    assert(tag_scopes_lines(Seq::<TagScope>::empty()) == Seq::<LineView>::empty());
    assert(ls == tag_scopes_lines(Seq::<TagScope>::empty()) + tag_scope_lines(scope));
    assert(ls =~= tag_scope_lines(scope));
}

/// The tag lines of several scopes are those of each scope, one after
/// another.
pub proof fn tag_scopes_render_in_order(a: Seq<TagScope>, b: Seq<TagScope>)
    ensures
        tag_scopes_lines(a + b) == tag_scopes_lines(a) + tag_scopes_lines(b),
    decreases b.len(),
{
    if b.len() == 0 {
        assert(a + b =~= a);
        assert(tag_scopes_lines(a) + tag_scopes_lines(b) =~= tag_scopes_lines(a));
    } else {
        tag_scopes_render_in_order(a, b.drop_last());
        assert((a + b).drop_last() =~= a + b.drop_last());
        assert((a + b).last() == b.last());
        assert(tag_scopes_lines(a) + tag_scopes_lines(b) =~= tag_scopes_lines(a) + tag_scopes_lines(
            b.drop_last(),
        ) + tag_scope_lines(b.last()));
    }
}

/// The line of a span has ten segments: two spaces, the name (cyan, `?`
/// when absent), the kind (yellow), the duration (bright white), the status
/// and the start time (dimmed), with single spaces between. The kind of
/// OpenTelemetry kind number 1 to 5 is INTERNAL, SERVER, CLIENT, PRODUCER,
/// CONSUMER; another number is UNKNOWN; no number is `?`. The status code 0,
/// 1, 2 is UNSET (dimmed), OK (green), ERROR (red); another code is `?`
/// (dimmed); no code is UNSET (dimmed). The duration is whole milliseconds
/// from start to end when the end is after the start, else `?`.
pub proof fn span_line_columns(span: Json)
    ensures
        span_line(span).len() == 10,
        span_line(span)[0] == ("  "@, Style::Plain),
        span_line(span)[2] == (" "@, Style::Plain),
        span_line(span)[4] == (" "@, Style::Plain),
        span_line(span)[6] == (" "@, Style::Plain),
        span_line(span)[8] == (" "@, Style::Plain),
        span_line(span)[1].1 == Style::Cyan,
        json_get(span, "name"@) matches Some(Json::Str(n)) ==> span_line(span)[1].0 == n@,
        !(json_get(span, "name"@) matches Some(Json::Str(_))) ==> span_line(span)[1].0 == "?"@,
        span_line(span)[3].1 == Style::Yellow,
        json_get(span, "kind"@) == Some(Json::Number(JsonNumber::PosInt(1))) ==> span_line(span)[3].0
            == "INTERNAL"@,
        json_get(span, "kind"@) == Some(Json::Number(JsonNumber::PosInt(2))) ==> span_line(span)[3].0
            == "SERVER"@,
        json_get(span, "kind"@) == Some(Json::Number(JsonNumber::PosInt(3))) ==> span_line(span)[3].0
            == "CLIENT"@,
        json_get(span, "kind"@) == Some(Json::Number(JsonNumber::PosInt(4))) ==> span_line(span)[3].0
            == "PRODUCER"@,
        json_get(span, "kind"@) == Some(Json::Number(JsonNumber::PosInt(5))) ==> span_line(span)[3].0
            == "CONSUMER"@,
        forall|k: u64|
            (k == 0 || k > 5) && #[trigger] json_get(span, "kind"@) == Some(
                Json::Number(JsonNumber::PosInt(k)),
            ) ==> span_line(span)[3].0 == "UNKNOWN"@,
        !(json_get(span, "kind"@) matches Some(Json::Number(JsonNumber::PosInt(_)))) ==> span_line(
            span,
        )[3].0 == "?"@,
        span_line(span)[5].1 == Style::BrightWhite,
        forall|s: u64, e: u64|
            nanos_field(json_get(span, "startTimeUnixNano"@)) == Some(s) && #[trigger] nanos_field(
                json_get(span, "endTimeUnixNano"@),
            ) == Some(e) ==> span_line(span)[5].0 == if e > s {
                duration_text(((e - s) / 1_000_000) as nat)
            } else {
                "?"@
            },
        nanos_field(json_get(span, "startTimeUnixNano"@)) is None || nanos_field(
            json_get(span, "endTimeUnixNano"@),
        ) is None ==> span_line(span)[5].0 == "?"@,
        json_as_u64(json_get_opt(json_get(span, "status"@), "code"@)) == Some(0u64) ==> span_line(span)[7]
            == ("UNSET"@, Style::Dimmed),
        json_as_u64(json_get_opt(json_get(span, "status"@), "code"@)) == Some(1u64) ==> span_line(span)[7]
            == ("OK"@, Style::Green),
        json_as_u64(json_get_opt(json_get(span, "status"@), "code"@)) == Some(2u64) ==> span_line(span)[7]
            == ("ERROR"@, Style::Red),
        forall|c: u64|
            c > 2 && #[trigger] json_as_u64(json_get_opt(json_get(span, "status"@), "code"@)) == Some(c)
                ==> span_line(span)[7] == ("?"@, Style::Dimmed),
        json_as_u64(json_get_opt(json_get(span, "status"@), "code"@)) is None ==> span_line(span)[7] == (
            "UNSET"@,
            Style::Dimmed,
        ),
        span_line(span)[9] == (unix_nanos_text(nanos_field(json_get(span, "startTimeUnixNano"@))), Style::Dimmed),
{
}

/// A scope renders as one line per span of its `spans` array, in order, and
/// as nothing without such an array.
pub proof fn scope_renders_its_spans(scope: Json)
    ensures
        json_as_array(json_get(scope, "spans"@)) matches Some(spans) ==> (scope_lines(scope).len()
            == spans.len() && forall|i: int|
            0 <= i < spans.len() ==> #[trigger] scope_lines(scope)[i] == span_line(spans[i])),
        json_as_array(json_get(scope, "spans"@)) is None ==> scope_lines(scope).len() == 0,
{
}

/// The lines of several scopes are those of each scope, one after another.
pub proof fn scopes_render_in_order(a: Seq<Json>, b: Seq<Json>)
    ensures
        scopes_lines(a + b) == scopes_lines(a) + scopes_lines(b),
    decreases b.len(),
{
    if b.len() == 0 {
        assert(a + b =~= a);
        assert(scopes_lines(a) + scopes_lines(b) =~= scopes_lines(a));
    } else {
        scopes_render_in_order(a, b.drop_last());
        assert((a + b).drop_last() =~= a + b.drop_last());
        assert((a + b).last() == b.last());
        assert(scopes_lines(a) + scopes_lines(b) =~= scopes_lines(a) + scopes_lines(b.drop_last())
            + scope_lines(b.last()));
    }
}

/// A batch renders as `Service: <name>` in bold green, then the lines of its
/// scopes (none when it has no scope array); its name is the `stringValue`
/// of the first `service.name` attribute of its resource, else `unknown`.
pub proof fn batch_renders_service_then_scopes(batch: Json)
    ensures
        batch_lines(batch).len() >= 1,
        batch_lines(batch)[0] == seq![("Service: "@ + batch_service_name(batch), Style::GreenBold)],
        batch_scopes(batch) matches Some(scopes) ==> batch_lines(batch).skip(1) == scopes_lines(scopes),
        batch_scopes(batch) is None ==> batch_lines(batch).len() == 1,
{
    match batch_scopes(batch) {
        Some(scopes) => {
            assert(batch_lines(batch).skip(1) =~= scopes_lines(scopes));
        },
        None => {},
    }
}

/// The service of a batch comes from the first attribute keyed
/// `service.name`: its `value.stringValue`, or `unknown` when that is not a
/// string; attributes before it do not count.
pub proof fn first_service_attribute_names_the_batch(batch: Json, attrs: Seq<Json>, j: int)
    requires
        json_as_array(json_get_opt(json_get(batch, "resource"@), "attributes"@)) == Some(attrs),
        0 <= j < attrs.len(),
        json_as_str(json_get(attrs[j], "key"@)) == Some("service.name"@),
        forall|i: int| 0 <= i < j ==> json_as_str(json_get(#[trigger] attrs[i], "key"@)) != Some(
            "service.name"@,
        ),
    ensures
        batch_service_name(batch) == match json_as_str(
            json_get_opt(json_get(attrs[j], "value"@), "stringValue"@),
        ) {
            Some(name) => name,
            None => "unknown"@,
        },
{
    lemma_service_attribute_first(attrs, j);
}

proof fn lemma_service_attribute_first(attrs: Seq<Json>, j: int)
    requires
        0 <= j < attrs.len(),
        json_as_str(json_get(attrs[j], "key"@)) == Some("service.name"@),
        forall|i: int| 0 <= i < j ==> json_as_str(json_get(#[trigger] attrs[i], "key"@)) != Some(
            "service.name"@,
        ),
    ensures
        service_attribute(attrs) == Some(attrs[j]),
    decreases j,
{
    if j > 0 {
        assert(json_as_str(json_get(attrs[0], "key"@)) != Some("service.name"@));
        let rest = attrs.drop_first();
        assert forall|i: int| 0 <= i < j - 1 implies json_as_str(json_get(#[trigger] rest[i], "key"@))
            != Some("service.name"@) by {
            assert(rest[i] == attrs[i + 1]);
        }
        lemma_service_attribute_first(rest, j - 1);
    }
}

/// The lines of several batches are those of each batch, one after another.
pub proof fn batches_render_in_order(a: Seq<Json>, b: Seq<Json>)
    ensures
        batches_lines(a + b) == batches_lines(a) + batches_lines(b),
    decreases b.len(),
{
    if b.len() == 0 {
        assert(a + b =~= a);
        assert(batches_lines(a) + batches_lines(b) =~= batches_lines(a));
    } else {
        batches_render_in_order(a, b.drop_last());
        assert((a + b).drop_last() =~= a + b.drop_last());
        assert((a + b).last() == b.last());
        assert(batches_lines(a) + batches_lines(b) =~= batches_lines(a) + batches_lines(b.drop_last())
            + batch_lines(b.last()));
    }
}

/// A trace renders human-readably as the lines of its batches (its
/// `batches`, else its `resourceSpans`), and as JSON when not
/// human-readable or when it has no batch array; one batch renders as that
/// batch's lines.
pub proof fn trace_renders_its_batches(trace: Json, human_readable: bool)
    ensures
        !human_readable ==> trace_rendering(trace, human_readable) == RenderingView::Json,
        trace_batches(trace) is None ==> trace_rendering(trace, human_readable) == RenderingView::Json,
        human_readable ==> (trace_batches(trace) matches Some(bs) ==> (bs.len() == 1
            ==> trace_rendering(trace, human_readable) == RenderingView::Lines(batch_lines(bs[0])))),
{
    match trace_batches(trace) {
        Some(bs) => {
            if bs.len() == 1 {
                assert(bs.drop_last() =~= Seq::<Json>::empty());
                assert(batches_lines(Seq::<Json>::empty()) == Seq::<LineView>::empty());
                assert(batches_lines(bs) == batches_lines(Seq::<Json>::empty()) + batch_lines(bs[0]));
                assert(batches_lines(bs) =~= batch_lines(bs[0]));
            }
        },
        None => {},
    }
}

/// Below one second a duration is its whole milliseconds followed by `ms`;
/// from one second it ends in `s`, and from one minute in `m`.
pub proof fn duration_units(ms: nat)
    ensures
        ms < 1000 ==> duration_text(ms) == decimal(ms) + "ms"@,
        1000 <= ms < 60000 ==> duration_text(ms).last() == 's',
        60000 <= ms ==> duration_text(ms).last() == 'm',
{
    reveal_strlit("ms");
    if ms < 1000 {
        assert(seq!['m', 's'] =~= "ms"@);
    }
}

/// From one second to a minute, a duration is the milliseconds as seconds
/// to the nearest tenth (`t` tenths with `|100 t - ms| <= 50`), then `s`;
/// from one minute to about 86 days, the minutes to the nearest tenth
/// (`|6000 t - ms| <= 3000`), then `m`.
pub proof fn duration_to_the_nearest_tenth(ms: nat)
    requires
        1000 <= ms < 7_500_000_000,
    ensures
        ms < 60000 ==> ({
            let t = nearest_tenths(ms, 1000);
            &&& duration_text(ms) == decimal(t / 10) + seq!['.', digit_char(t % 10), 's']
            &&& -50 <= 100 * t - ms <= 50
        }),
        60000 <= ms ==> ({
            let t = nearest_tenths(ms, 60000);
            &&& duration_text(ms) == decimal(t / 10) + seq!['.', digit_char(t % 10), 'm']
            &&& -3000 <= 6000 * t - ms <= 3000
        }),
{
    vstd::arithmetic::power2::lemma2_to64_rest();
    vstd::arithmetic::power2::lemma2_to64();
    if ms < 60000 {
        one_decimal_of_small_quotient(ms, 1000);
        let t = nearest_tenths(ms, 1000);
        assert(duration_text(ms) =~= decimal(t / 10) + seq!['.', digit_char(t % 10), 's']);
    } else {
        assert(excess_bits(ms, 0) == 0);
        assert(round_half_even(ms, 1) == ms);
        assert(u64_as_binary64(ms) == ms);
        one_decimal_of_small_quotient(ms, 60000);
        let t = nearest_tenths(ms, 60000);
        assert(duration_text(ms) =~= decimal(t / 10) + seq!['.', digit_char(t % 10), 'm']);
    }
}

/// A span time is read from a decimal string as `parse::<u64>` reads it,
/// or from a non-negative integer number as is; anything else gives none.
/// The start time column shows that instant (whole seconds of the
/// nanoseconds, in UTC) and is empty without one.
pub proof fn span_times_are_read_from_strings_or_numbers(v: Option<Json>, ns: u64)
    ensures
        forall|t: String| #[trigger] nanos_field(Some(Json::Str(t))) == parse_u64_spec(t@),
        nanos_field(Some(Json::Number(JsonNumber::PosInt(ns)))) == Some(ns),
        !(v matches Some(Json::Str(_))) && !(v matches Some(Json::Number(JsonNumber::PosInt(_))))
            ==> nanos_field(v) is None,
        unix_nanos_text(None) == Seq::<char>::empty(),
        unix_nanos_text(Some(ns)) == match utc_datetime_text(
            (ns / 1_000_000_000) as i64,
            (ns % 1_000_000_000) as u32,
        ) {
            Some(text) => text,
            None => Seq::<char>::empty(),
        },
{
}

/// A trace's batches are its `batches` member when it has one (even when
/// that is no array, which means no batches), else its `resourceSpans`; a
/// batch's scopes likewise come from `scopeSpans`, else
/// `instrumentationLibrarySpans`.
pub proof fn legacy_member_names_are_fallbacks(trace: Json, batch: Json)
    ensures
        json_get(trace, "batches"@) is Some ==> trace_batches(trace) == json_as_array(
            json_get(trace, "batches"@),
        ),
        json_get(trace, "batches"@) is None ==> trace_batches(trace) == json_as_array(
            json_get(trace, "resourceSpans"@),
        ),
        json_get(batch, "scopeSpans"@) is Some ==> batch_scopes(batch) == json_as_array(
            json_get(batch, "scopeSpans"@),
        ),
        json_get(batch, "scopeSpans"@) is None ==> batch_scopes(batch) == json_as_array(
            json_get(batch, "instrumentationLibrarySpans"@),
        ),
{
}

} // verus!
