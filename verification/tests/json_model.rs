use tempo_cli::json::{as_array, as_str, as_u64, get_opt, Json, JsonMember, JsonNumber};

fn member(k: &str, v: Json) -> JsonMember {
    JsonMember { key: k.to_string(), value: v }
}

#[test]
fn object_members_and_kinds() {
    let doc = Json::Object(vec![
        member("a", Json::Number(JsonNumber::PosInt(1))),
        member("b", Json::Str("x".to_string())),
        member("a", Json::Null),
        member("c", Json::Array(vec![Json::Bool(true)])),
        member("d", Json::Number(JsonNumber::NegInt(-3))),
    ]);
    assert_eq!(as_u64(doc.get("a")), Some(1));
    assert_eq!(as_str(doc.get("b")).map(|s| s.as_str()), Some("x"));
    assert_eq!(as_array(doc.get("c")).map(|v| v.len()), Some(1));
    assert_eq!(as_u64(doc.get("d")), None);
    assert!(doc.get("missing").is_none());
    assert!(Json::Array(vec![]).get("a").is_none());
    assert!(get_opt(None, "a").is_none());
    assert_eq!(as_u64(get_opt(Some(&doc), "a")), Some(1));
}
