use fornax::conversation_storage::{v2_columns, ConversationStorage};
use fornax::message::{ContentPart, ImageUrl, Message, Role};
use fornax::preset_storage::PresetStorage;

fn mem() -> ConversationStorage {
    ConversationStorage::new_in_memory().unwrap()
}

#[test]
fn export_markdown_of_a_stored_conversation() {
    let mut s = mem();
    let id = s.create_conversation("Trip").unwrap();
    let mut msgs = vec![
        Message::text(Role::User, "where?".into()),
        Message::from_parts(
            Role::Assistant,
            vec![
                ContentPart::Text { text: "here".into() },
                ContentPart::ImageUrl { image_url: ImageUrl { url: "m".into(), detail: None } },
            ],
        ),
    ];
    s.save_messages(id, &mut msgs).unwrap();
    assert_eq!(
        s.export_markdown(id),
        "# Trip\n\n**You**:\n\nwhere?\n\n---\n\n**AI**:\n\nhere\n\n_(1 image attachment(s))_\n\n---\n\n"
    );
    assert_eq!(s.export_markdown(999), "# Conversation\n\n");
}

#[test]
fn titles_deletes_and_lookups() {
    let mut s = mem();
    let a = s.create_conversation("a").unwrap();
    let b = s.create_conversation("b").unwrap();
    s.update_conversation_title(a, "renamed");
    let titles: Vec<String> = s.list_conversations().into_iter().map(|c| c.title).collect();
    assert!(titles.contains(&"renamed".to_string()));
    let mut msgs = vec![Message::text(Role::User, "x".into())];
    s.save_messages(a, &mut msgs).unwrap();
    s.delete_conversation(a);
    assert_eq!(s.list_conversations().len(), 1);
    assert!(s.load_messages(a).is_empty());
    assert!(s.walk_from(msgs[0].id.unwrap()).is_empty());
    assert!(s.siblings_of(12345).is_empty());
    assert_eq!(s.load_draft(b), None);
    assert!(!s.needs_auto_title(999));
    s.delete_all_conversations().unwrap();
    assert!(s.list_conversations().is_empty());
}

#[test]
fn search_ignores_ascii_case_and_escapes_wildcards() {
    let mut s = mem();
    let id = s.create_conversation("c").unwrap();
    let mut msgs = vec![
        Message::text(Role::User, "Price is 50% off".into()),
        Message::text(Role::Assistant, "fine".into()),
    ];
    s.save_messages(id, &mut msgs).unwrap();
    assert_eq!(s.search("PRICE").len(), 1);
    assert_eq!(s.search("50%").len(), 1);
    assert!(s.search("5_%").is_empty());
    assert_eq!(s.search("fine")[0].2, "fine\n");
}

#[test]
fn branch_index_and_parents_at_the_root() {
    let mut s = mem();
    let conv = s.create_conversation("r").unwrap();
    assert_eq!(s.next_branch_index(conv, None), 0);
    let mut first = vec![Message::text(Role::User, "one".into())];
    s.save_messages(conv, &mut first).unwrap();
    assert_eq!(first[0].parent_id, None);
    assert_eq!(s.next_branch_index(conv, None), 1);
    // A later save without a parent continues from the last stored message.
    let mut next = vec![Message::text(Role::Assistant, "two".into())];
    s.save_messages(conv, &mut next).unwrap();
    assert_eq!(next[0].parent_id, first[0].id);
    let sibs = s.siblings_of(first[0].id.unwrap());
    assert_eq!(sibs.len(), 1);
    assert_eq!(sibs[0].id, first[0].id.unwrap());
}

#[test]
fn columns_are_added_once() {
    let mut s = mem();
    assert_eq!(v2_columns().len(), 36);
    assert!(!s.add_column_if_missing("conversations", "draft", "TEXT"));
    assert!(s.add_column_if_missing("conversations", "extra_col", "TEXT"));
    assert!(!s.add_column_if_missing("conversations", "extra_col", "TEXT"));
}

#[test]
fn presets_can_be_deleted() {
    let mut s = PresetStorage::new_in_memory().unwrap();
    s.connection().execute("INSERT INTO presets (name) VALUES ('p')", []).unwrap();
    let id = s.connection().last_insert_rowid();
    s.delete_preset(id);
    let left: i64 = s.connection().query_row("SELECT COUNT(*) FROM presets", [], |r| r.get(0)).unwrap();
    assert_eq!(left, 0);
}
