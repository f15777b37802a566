use pipeshare::json::{graph_objects, keep_objects, update_objects};

#[test]
fn objects_are_kept_and_other_values_dropped() {
    let values = update_objects("[{\"id\": 1}, \"Audio/Sink\", 7, [], {\"id\": 2}, null]").unwrap();
    let ids: Vec<u64> = values.iter().map(|value| value["id"].as_u64().unwrap()).collect();
    assert_eq!(ids, [1, 2]);
}

#[test]
fn an_array_may_hold_no_object() {
    assert_eq!(update_objects("[]").unwrap().len(), 0);
    assert_eq!(update_objects("[1, \"x\"]").unwrap().len(), 0);
}

#[test]
fn a_text_that_is_no_array_is_refused() {
    for text in ["", "[", "{}", "7", "[1,]", "[] x"] {
        assert!(update_objects(text).is_none(), "{}", text);
    }
}

#[test]
fn values_are_told_apart_by_their_kind() {
    let values = vec![
        serde_json::Value::Null,
        serde_json::Value::Bool(true),
        serde_json::Value::Object(serde_json::Map::new()),
        serde_json::Value::String("{}".to_string()),
        serde_json::Value::Array(Vec::new()),
    ];
    let kept = keep_objects(values);
    assert_eq!(kept.len(), 1);
    assert!(kept[0].is_object());
}

#[test]
fn a_graph_is_read_from_bytes() {
    let values = graph_objects(b"[{\"id\": 1}, \"Audio/Sink\", {\"id\": 2}]").unwrap();
    let ids: Vec<u64> = values.iter().map(|value| value["id"].as_u64().unwrap()).collect();
    assert_eq!(ids, [1, 2]);
    for bytes in [&b""[..], &b"{}"[..], &b"[\"\xff\"]"[..]] {
        assert!(graph_objects(bytes).is_none());
    }
}
