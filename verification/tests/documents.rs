use serde_json::Value;
use spotify_importer::json::Json;
use spotify_importer::reader::read_json;

const SAMPLE: &str = "{\"name\":\"A\",\"n\":3,\"neg\":-3,\"f\":2.5,\"big\":18446744073709551615,\
    \"huge\":18446744073709551616,\"t\":true,\"z\":null,\"list\":[{\"url\":\"u0\"},{\"url\":\"u1\"}],\
    \"o\":{\"0\":{\"url\":\"k\"}},\"deep\":[[1],[2,[3]]]}";

fn text(s: &str) -> Json {
    Json::Text(s.to_string())
}

#[test]
fn documents_read_like_the_parser_reads_them() {
    let json = read_json(SAMPLE).unwrap();
    let value: Value = serde_json::from_str(SAMPLE).unwrap();
    for key in ["name", "n", "neg", "f", "big", "huge", "t", "z", "list", "o", "deep", "absent"] {
        let mine = json.get(key);
        let theirs = value.get(key);
        assert_eq!(mine.is_some(), theirs.is_some());
        assert_eq!(mine.and_then(Json::as_str), theirs.and_then(Value::as_str));
        assert_eq!(mine.and_then(Json::as_u64), theirs.and_then(Value::as_u64));
        assert_eq!(mine.and_then(Json::as_bool), theirs.and_then(Value::as_bool));
        assert_eq!(
            mine.and_then(Json::as_array).map(|a| a.len()),
            theirs.and_then(Value::as_array).map(|a| a.len())
        );
        assert_eq!(mine.map(Json::is_null), theirs.map(Value::is_null));
    }
}

#[test]
fn paths_lead_where_pointers_lead() {
    let json = read_json(SAMPLE).unwrap();
    let value: Value = serde_json::from_str(SAMPLE).unwrap();
    for path in [
        vec!["list", "0", "url"],
        vec!["list", "1", "url"],
        vec!["list", "2", "url"],
        vec!["list", "00", "url"],
        vec!["list", "+0", "url"],
        vec!["list", "-", "url"],
        vec!["list", "", "url"],
        vec!["list", "99999999999999999999", "url"],
        vec!["o", "0", "url"],
        vec!["name", "0"],
        vec!["name"],
    ] {
        let pointer = format!("/{}", path.join("/"));
        assert_eq!(
            json.pointer(&path).and_then(Json::as_str),
            value.pointer(&pointer).and_then(Value::as_str),
            "{}",
            pointer
        );
        assert_eq!(json.text_at(&path), value.pointer(&pointer).and_then(Value::as_str));
    }
    assert_eq!(json.pointer(&[]), Some(&json));
    assert_eq!(json.u64_at(&["deep", "1", "1", "0"]), Some(3));
}

#[test]
fn reading_gives_the_tree() {
    assert_eq!(read_json("null"), Ok(Json::Null));
    assert_eq!(read_json(" true "), Ok(Json::Bool(true)));
    assert_eq!(read_json("7"), Ok(Json::Number(Some(7))));
    assert_eq!(read_json("-7"), Ok(Json::Number(None)));
    assert_eq!(read_json("7.0"), Ok(Json::Number(None)));
    assert_eq!(read_json("\"\\u00e9\""), Ok(text("é")));
    assert_eq!(read_json("[]"), Ok(Json::Array(vec![])));
    assert_eq!(
        read_json("{\"a\":[{\"b\":\"c\"}]}"),
        Ok(Json::Object(vec![(
            "a".to_string(),
            Json::Array(vec![Json::Object(vec![("b".to_string(), text("c"))])])
        )]))
    );
}

#[test]
fn keys_are_distinct() {
    let json = read_json("{\"a\":1,\"b\":2,\"a\":3}").unwrap();
    match &json {
        Json::Object(members) => assert_eq!(members.len(), 2),
        _ => panic!("an object was expected"),
    }
    assert_eq!(json.u64_member("a"), Some(3));
    assert_eq!(json.u64_member("b"), Some(2));
}

#[test]
fn what_is_no_document() {
    assert_eq!(
        read_json("{"),
        Err("EOF while parsing an object at line 1 column 1".to_string())
    );
    assert_eq!(
        read_json("").unwrap_err(),
        serde_json::from_str::<Value>("").unwrap_err().to_string()
    );
    assert_eq!(
        read_json("1 2").unwrap_err(),
        serde_json::from_str::<Value>("1 2").unwrap_err().to_string()
    );
}

#[test]
fn copies_are_equal() {
    let json = read_json(SAMPLE).unwrap();
    assert_eq!(json.clone(), json);
}

#[test]
fn members_by_type() {
    let json = read_json("{\"s\":\"x\",\"n\":1,\"b\":false,\"a\":[1]}").unwrap();
    assert_eq!(json.text_member("s"), Some("x"));
    assert_eq!(json.text_member("n"), None);
    assert_eq!(json.u64_member("n"), Some(1));
    assert_eq!(json.u64_member("s"), None);
    assert_eq!(json.bool_member("b"), Some(false));
    assert_eq!(json.bool_member("a"), None);
    assert_eq!(json.array_member("a"), Some(&vec![Json::Number(Some(1))]));
    assert_eq!(json.array_member("b"), None);
    assert_eq!(text("x").get("s"), None);
}
