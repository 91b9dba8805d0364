use tempo_cli::client::{SearchResponse, TagScope, TagValue, TagValuesResponse, TraceSearchResult};
use tempo_cli::format::{
    format_search_results, format_tag_values, format_tags, format_trace, format_unix_nanos, Line, Rendering, Style,
};
use tempo_cli::json::{Json, JsonMember, JsonNumber};

fn lines(r: Rendering) -> Vec<Vec<(String, Style)>> {
    match r {
        Rendering::Json => panic!("expected lines"),
        Rendering::Lines(ls) => ls.into_iter().map(|l: Line| l.segments.into_iter().map(|s| (s.text, s.style)).collect()).collect(),
    }
}

fn plain(r: Rendering) -> Vec<String> {
    lines(r).into_iter().map(|l| l.into_iter().map(|(t, _)| t).collect::<String>()).collect()
}

fn obj(members: Vec<(&str, Json)>) -> Json {
    Json::Object(members.into_iter().map(|(k, v)| JsonMember { key: k.to_string(), value: v }).collect())
}

fn s(t: &str) -> Json {
    Json::Str(t.to_string())
}

fn n(v: u64) -> Json {
    Json::Number(JsonNumber::PosInt(v))
}

#[test]
fn unix_nanos_as_utc_time() {
    assert_eq!(format_unix_nanos(Some(1_704_067_200_123_456_789)), "2024-01-01 00:00:00");
    assert_eq!(format_unix_nanos(Some(0)), "1970-01-01 00:00:00");
    assert_eq!(format_unix_nanos(None), "");
    assert_eq!(format_unix_nanos(Some(u64::MAX)), "2554-07-21 23:34:33");
}

#[test]
fn tags_render() {
    let scopes = vec![
        TagScope { name: "resource".to_string(), tags: vec!["service.name".to_string(), "host".to_string()] },
        TagScope { name: "span".to_string(), tags: vec![] },
    ];
    assert_eq!(plain(format_tags(&scopes, true)), vec!["[resource]", "  service.name", "  host", "[span]"]);
    assert!(matches!(format_tags(&scopes, false), Rendering::Json));
    let l = lines(format_tags(&scopes, true));
    assert_eq!(l[0], vec![("[resource]".to_string(), Style::GreenBold)]);
}

#[test]
fn tag_values_render() {
    let data = TagValuesResponse {
        tag_values: vec![TagValue { value_type: "string".to_string(), value: "frontend".to_string() }],
    };
    assert_eq!(plain(format_tag_values(&data, true)), vec!["frontend string"]);
    let empty = TagValuesResponse { tag_values: vec![] };
    assert_eq!(lines(format_tag_values(&empty, true)), vec![vec![("No values found.".to_string(), Style::Dimmed)]]);
    assert!(matches!(format_tag_values(&data, false), Rendering::Json));
}

#[test]
fn search_results_render() {
    let data = SearchResponse {
        traces: vec![
            TraceSearchResult {
                trace_id: "abc".to_string(),
                root_service_name: "frontend".to_string(),
                root_trace_name: "GET /".to_string(),
                start_time_unix_nano: "1704067200000000000".to_string(),
                duration_ms: Some(1500),
                duration_nanos: None,
            },
            TraceSearchResult {
                trace_id: "def".to_string(),
                root_service_name: String::new(),
                root_trace_name: String::new(),
                start_time_unix_nano: "not a number".to_string(),
                duration_ms: None,
                duration_nanos: None,
            },
        ],
    };
    assert_eq!(
        plain(format_search_results(&data, true)),
        vec!["abc frontend GET / 1.5s 2024-01-01 00:00:00", "def   0ms "]
    );
    let empty = SearchResponse { traces: vec![] };
    assert_eq!(plain(format_search_results(&empty, true)), vec!["No traces found."]);
    assert!(matches!(format_search_results(&data, false), Rendering::Json));
}

fn span(name: &str, kind: u64, start: Json, end: Json, code: Option<u64>) -> Json {
    let mut m = vec![("name", s(name)), ("kind", n(kind)), ("startTimeUnixNano", start), ("endTimeUnixNano", end)];
    if let Some(c) = code {
        m.push(("status", obj(vec![("code", n(c))])));
    }
    obj(m)
}

#[test]
fn trace_renders_batches_and_spans() {
    let batch = obj(vec![
        (
            "resource",
            obj(vec![(
                "attributes",
                Json::Array(vec![
                    obj(vec![("key", s("host")), ("value", obj(vec![("stringValue", s("h1"))]))]),
                    obj(vec![("key", s("service.name")), ("value", obj(vec![("stringValue", s("checkout"))]))]),
                ]),
            )]),
        ),
        (
            "scopeSpans",
            Json::Array(vec![obj(vec![(
                "spans",
                Json::Array(vec![
                    span("charge", 2, s("1704067200000000000"), s("1704067201500000000"), Some(2)),
                    span("db", 3, n(1_704_067_200_000_000_000), n(1_704_067_200_250_000_000), Some(1)),
                    span("odd", 9, s("5"), s("5"), None),
                ]),
            )])]),
        ),
    ]);
    let trace = obj(vec![("batches", Json::Array(vec![batch]))]);
    let out = lines(format_trace(&trace, true));
    let texts: Vec<String> = out.iter().map(|l| l.iter().map(|(t, _)| t.clone()).collect()).collect();
    assert_eq!(
        texts,
        vec![
            "Service: checkout",
            "  charge SERVER 1.5s ERROR 2024-01-01 00:00:00",
            "  db CLIENT 250ms OK 2024-01-01 00:00:00",
            "  odd UNKNOWN ? UNSET 1970-01-01 00:00:00",
        ]
    );
    assert_eq!(out[1][7], ("ERROR".to_string(), Style::Red));
    assert_eq!(out[2][7], ("OK".to_string(), Style::Green));
    assert_eq!(out[3][7], ("UNSET".to_string(), Style::Dimmed));
    assert_eq!(out[1][1], ("charge".to_string(), Style::Cyan));
}

#[test]
fn trace_uses_otlp_member_names() {
    let batch = obj(vec![
        ("resource", obj(vec![])),
        (
            "instrumentationLibrarySpans",
            Json::Array(vec![obj(vec![("spans", Json::Array(vec![obj(vec![])]))]), obj(vec![])]),
        ),
    ]);
    let trace = obj(vec![("resourceSpans", Json::Array(vec![batch]))]);
    assert_eq!(plain(format_trace(&trace, true)), vec!["Service: unknown", "  ? ? ? UNSET "]);
}

#[test]
fn trace_without_batches_is_json() {
    assert!(matches!(format_trace(&obj(vec![]), true), Rendering::Json));
    assert!(matches!(format_trace(&obj(vec![("batches", Json::Null)]), true), Rendering::Json));
    assert!(matches!(format_trace(&Json::Array(vec![]), true), Rendering::Json));
    let trace = obj(vec![("batches", Json::Array(vec![]))]);
    assert!(matches!(format_trace(&trace, false), Rendering::Json));
    assert!(plain(format_trace(&trace, true)).is_empty());
}

#[test]
fn first_service_attribute_decides() {
    let batch = obj(vec![(
        "resource",
        obj(vec![(
            "attributes",
            Json::Array(vec![
                obj(vec![("key", s("service.name")), ("value", obj(vec![("intValue", n(3))]))]),
                obj(vec![("key", s("service.name")), ("value", obj(vec![("stringValue", s("late"))]))]),
            ]),
        )]),
    )]);
    let trace = obj(vec![("batches", Json::Array(vec![batch]))]);
    assert_eq!(plain(format_trace(&trace, true)), vec!["Service: unknown"]);
}
