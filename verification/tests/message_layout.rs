use fornax::message::{
    calls_json, content_json, content_of, decode_calls, decode_content, role_as_str, role_from_str,
    string_list_json, string_list_of, ContentPart, ImageUrl, Message, Role, ToolCall,
    ToolCallFunction,
};

fn text(t: &str) -> ContentPart {
    ContentPart::Text { text: t.to_string() }
}

fn image(url: &str, detail: Option<&str>) -> ContentPart {
    ContentPart::ImageUrl {
        image_url: ImageUrl { url: url.to_string(), detail: detail.map(|d| d.to_string()) },
    }
}

#[test]
fn role_names_round_trip() {
    for r in [Role::System, Role::User, Role::Assistant, Role::Tool] {
        assert_eq!(role_from_str(role_as_str(r)), r);
    }
    assert_eq!(role_as_str(Role::Tool), "tool");
    assert_eq!(role_from_str("narrator"), Role::Assistant);
    assert_eq!(role_from_str(""), Role::Assistant);
}

#[test]
fn content_is_stored_as_tagged_json() {
    let parts = vec![text("say \"hi\"\n"), image("data:x", None), image("u", Some("low"))];
    assert_eq!(
        content_json(&parts),
        r#"[{"type":"text","text":"say \"hi\"\n"},{"type":"image_url","image_url":{"url":"data:x"}},{"type":"image_url","image_url":{"url":"u","detail":"low"}}]"#
    );
    assert_eq!(content_json(&Vec::new()), "[]");
}

#[test]
fn stored_content_reads_back() {
    let parts = vec![text("a"), image("b", Some("high")), text("ü ✓")];
    assert_eq!(decode_content(&content_json(&parts)), Some(parts.clone()));
    // Key order, whitespace and a null detail do not matter.
    let loose = r#" [ {"text": "x", "type": "text"}, {"image_url": {"detail": null, "url": "y"}, "type": "image_url"} ] "#;
    assert_eq!(decode_content(loose), Some(vec![text("x"), image("y", None)]));
}

#[test]
fn content_that_is_not_a_part_list_is_raw_text() {
    assert_eq!(decode_content("hello from 0.6"), None);
    assert_eq!(content_of("hello from 0.6".to_string()), vec![text("hello from 0.6")]);
    // One bad part spoils the whole list.
    assert_eq!(decode_content(r#"[{"type":"text","text":"ok"},{"type":"video"}]"#), None);
    assert_eq!(decode_content(r#"[{"type":"text"}]"#), None);
    assert_eq!(decode_content(r#"{"type":"text","text":"x"}"#), None);
    assert_eq!(content_of("[1]".to_string()), vec![text("[1]")]);
}

#[test]
fn tool_calls_round_trip() {
    let calls = vec![ToolCall {
        id: "call_1".into(),
        call_type: "function".into(),
        function: ToolCallFunction { name: "read_file".into(), arguments: r#"{"path":"a.rs"}"#.into() },
    }];
    let stored = calls_json(&calls);
    assert_eq!(
        stored,
        r#"[{"id":"call_1","type":"function","function":{"name":"read_file","arguments":"{\"path\":\"a.rs\"}"}}]"#
    );
    assert_eq!(decode_calls(&stored), Some(calls));
    assert_eq!(decode_calls("not json"), None);
    assert_eq!(decode_calls(r#"[{"id":"x","type":"function"}]"#), None);
}

#[test]
fn string_lists_round_trip() {
    assert_eq!(string_list_json(&Vec::new()), None);
    let v = vec!["END".to_string(), "STOP".to_string()];
    let stored = string_list_json(&v);
    assert_eq!(stored.as_deref(), Some(r#"["END","STOP"]"#));
    assert_eq!(string_list_of(&stored), v);
    assert_eq!(string_list_of(&None), Vec::<String>::new());
    assert_eq!(string_list_of(&Some("nope".to_string())), Vec::<String>::new());
    assert_eq!(string_list_of(&Some(r#"["a",1]"#.to_string())), Vec::<String>::new());
}

#[test]
fn message_text_and_images() {
    let m = Message::from_parts(Role::User, vec![text("one"), image("i", None), text("two"), image("j", None)]);
    assert_eq!(m.text_str(), "one\ntwo");
    assert_eq!(m.image_count(), 2);
    let t = Message::text(Role::Assistant, "solo".into());
    assert_eq!(t.text_str(), "solo");
    assert_eq!(t.image_count(), 0);
    assert_eq!(t.id, None);
    assert_eq!(t.branch_index, 0);
    let r = Message::tool_result("c".into(), "out".into());
    assert_eq!(r.role, Role::Tool);
    assert_eq!(r.tool_call_id.as_deref(), Some("c"));
    assert_eq!(Message::from_parts(Role::User, vec![image("i", None)]).text_str(), "");
}
