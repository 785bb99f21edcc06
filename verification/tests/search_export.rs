use fornax::export::render_markdown;
use fornax::message::{ContentPart, ImageUrl, Message, Role};
use fornax::search::{filter_hits, like_pattern};

#[test]
fn like_pattern_escapes_metacharacters() {
    assert_eq!(like_pattern("50%_a\\b"), "%50\\%\\_a\\\\b%");
    assert_eq!(like_pattern(""), "%%");
    assert_eq!(like_pattern("plain"), "%plain%");
}

fn stored(t: &str) -> String {
    fornax::message::content_json(&vec![ContentPart::Text { text: t.to_string() }])
}

#[test]
fn post_filter_checks_text_parts_ignoring_ascii_case() {
    let cands = vec![
        (1, "a".to_string(), stored("Hello World")),
        (2, "b".to_string(), stored("nothing here")),
        (3, "c".to_string(), "legacy HELLO text".to_string()),
    ];
    let hits = filter_hits(cands, "hello");
    assert_eq!(hits.len(), 2);
    assert_eq!(hits[0], (1, "a".to_string(), "Hello World\n".to_string()));
    assert_eq!(hits[1], (3, "c".to_string(), "legacy HELLO text\n".to_string()));
}

#[test]
fn post_filter_keeps_at_most_fifty() {
    let cands: Vec<(i64, String, String)> = (0..80).map(|i| (i, format!("t{i}"), stored("x"))).collect();
    let hits = filter_hits(cands, "X");
    assert_eq!(hits.len(), 50);
    assert_eq!(hits[49].0, 49);
}

#[test]
fn markdown_has_title_sections_and_image_notes() {
    let mut msgs = vec![Message::text(Role::User, "hi".into())];
    msgs.push(Message::from_parts(
        Role::Assistant,
        vec![
            ContentPart::Text { text: "look".into() },
            ContentPart::ImageUrl { image_url: ImageUrl { url: "u".into(), detail: None } },
            ContentPart::ImageUrl { image_url: ImageUrl { url: "v".into(), detail: None } },
        ],
    ));
    msgs.push(Message::tool_result("c".into(), "done".into()));
    assert_eq!(
        render_markdown("Chat", &msgs),
        "# Chat\n\n**You**:\n\nhi\n\n---\n\n**AI**:\n\nlook\n\n_(2 image attachment(s))_\n\n---\n\n**Tool**:\n\ndone\n\n---\n\n"
    );
    assert_eq!(render_markdown("Empty", &Vec::new()), "# Empty\n\n");
}
