use herdr_clip::herdr::{
    copied_text, event_copied_text, event_pane_id, find_focused_pane, no_params, on_message,
    request_line, send_text_params, subscribe_pane_focus_params, Reply, RequestIds,
};
use herdr_clip::json::Json;

fn json(text: &str) -> Json {
    Json::parse(text).unwrap()
}

#[test]
fn find_focused_pane_accepts_known_shapes() {
    let wrapped = json(
        r#"{"panes": [
            {"id": "w1:p1", "focused": false},
            {"id": "w1:p2", "focused": true}
        ]}"#,
    );
    assert_eq!(find_focused_pane(&wrapped), Some("w1:p2".into()));

    let bare = json(r#"[{"pane_id": "w1:p3", "is_focused": true}]"#);
    assert_eq!(find_focused_pane(&bare), Some("w1:p3".into()));

    let none = json(r#"{"panes": [{"id": "w1:p1", "focused": false}]}"#);
    assert_eq!(find_focused_pane(&none), None);
}

#[test]
fn focused_pane_edge_cases() {
    // The first focused pane counts, and its `id` even where that is no text.
    let two = json(r#"[{"id": "a", "focused": true}, {"id": "b", "focused": true}]"#);
    assert_eq!(find_focused_pane(&two), Some("a".into()));
    let number = json(r#"[{"id": 5, "pane_id": "x", "focused": true}]"#);
    assert_eq!(find_focused_pane(&number), None);
    let nameless = json(r#"[{"focused": true}, {"id": "b", "focused": true}]"#);
    assert_eq!(find_focused_pane(&nameless), None);
    let mistyped = json(r#"[{"id": "a", "focused": "true"}]"#);
    assert_eq!(find_focused_pane(&mistyped), None);
    assert_eq!(find_focused_pane(&json(r#"{"panes": 3}"#)), None);
    assert_eq!(find_focused_pane(&Json::Null), None);
}

#[test]
fn event_pane_id_accepts_known_shapes() {
    assert_eq!(event_pane_id(&json(r#"{"pane_id": "a"}"#)), Some("a".into()));
    assert_eq!(event_pane_id(&json(r#"{"pane": {"id": "b"}}"#)), Some("b".into()));
    assert_eq!(event_pane_id(&json(r#"{"event": {"pane_id": "c"}}"#)), Some("c".into()));
    assert_eq!(event_pane_id(&json(r#"{"type": "workspace.created"}"#)), None);
}

#[test]
fn event_pane_id_takes_the_first_text() {
    let mixed = json(r#"{"pane_id": 1, "pane": {"id": "b"}, "event": {"pane_id": "c"}}"#);
    assert_eq!(event_pane_id(&mixed), Some("b".into()));
}

#[test]
fn copied_text_is_found_in_known_shapes() {
    assert_eq!(event_copied_text(&json(r#"{"text": "a"}"#)), Some("a".into()));
    assert_eq!(copied_text(r#"{"event": {"text": "b\n"}}"#), Some("b\n".into()));
    assert_eq!(copied_text(r#"{"data": {"text": "c"}}"#), Some("c".into()));
    assert_eq!(copied_text(r#"{"type": "clipboard.copied"}"#), None);
    assert_eq!(copied_text("{broken"), None);
}

#[test]
fn request_matches_response_id_and_skips_interleaved_events() {
    let mut ids = RequestIds::new();
    let id = ids.next();
    let line = request_line(&id, "pane.send_text", send_text_params("w1:p1", "hi"));
    let req = json(&line);
    assert_eq!(req.get("method").unwrap().as_text().unwrap(), "pane.send_text");
    let params = req.get("params").unwrap();
    assert_eq!(params.get("pane_id").unwrap().as_text().unwrap(), "w1:p1");
    assert_eq!(params.get("text").unwrap().as_text().unwrap(), "hi");
    assert_eq!(req.get("id").unwrap().as_text(), Some(&id));

    let pushed = json(r#"{"type":"pane.focused","pane_id":"w1:p9"}"#);
    assert_eq!(on_message(&id, pushed), Reply::NotOurs);
    let reply = json(&format!(r#"{{"id":"{id}","result":{{"ok":true}}}}"#));
    match on_message(&id, reply) {
        Reply::Done(result) => assert_eq!(result.get("ok"), Some(&Json::Bool(true))),
        other => panic!("{other:?}"),
    }
}

#[test]
fn error_response_becomes_err() {
    let msg = r#"{"id":"req_1","error":{"code":"not_found","message":"pane not found"}}"#;
    match on_message("req_1", json(msg)) {
        Reply::Failed(err) => assert!(err.contains("not_found")),
        other => panic!("{other:?}"),
    }
}

#[test]
fn stale_replies_and_missing_results() {
    assert_eq!(on_message("req_2", json(r#"{"id":"req_1","result":1}"#)), Reply::NotOurs);
    assert_eq!(on_message("req_1", json(r#"{"id":1}"#)), Reply::NotOurs);
    assert_eq!(on_message("req_1", json(r#"{"id":"req_1"}"#)), Reply::Done(Json::Null));
    // An error counts even where it is null.
    assert_eq!(
        on_message("req_1", json(r#"{"id":"req_1","error":null,"result":2}"#)),
        Reply::Failed("null".into())
    );
}

#[test]
fn requests_are_one_line_of_json() {
    assert_eq!(
        request_line("req_7", "pane.list", no_params()),
        r#"{"id":"req_7","method":"pane.list","params":{}}"#
    );
    assert_eq!(
        request_line("req_8", "events.subscribe", subscribe_pane_focus_params()),
        r#"{"id":"req_8","method":"events.subscribe","params":{"subscriptions":[{"type":"pane.focused"}]}}"#
    );
    assert_eq!(
        request_line("req_9", "pane.send_text", send_text_params("p", "a\n\"b\"")),
        r#"{"id":"req_9","method":"pane.send_text","params":{"pane_id":"p","text":"a\n\"b\""}}"#
    );
}

#[test]
fn request_ids_count_up() {
    let mut ids = RequestIds::new();
    assert_eq!(ids.next(), "req_1");
    assert_eq!(ids.next(), "req_2");
    for _ in 0..8 {
        ids.next();
    }
    assert_eq!(ids.next(), "req_11");
}

#[test]
fn json_values_survive_printing() {
    let text = r#"{"a":[1,-2.5,true,null,"x"],"b":{"c":"é\t"}}"#;
    assert_eq!(json(text).print(), text);
    assert_eq!(json(&json(text).print()), json(text));
}

#[test]
fn object_keys_are_sorted_by_parsing() {
    assert_eq!(json(r#"{"b":1,"a":2,"B":3}"#).print(), r#"{"B":3,"a":2,"b":1}"#);
    assert!(Json::parse("[1,").is_err());
}
