use fornax::conversation_storage::ConversationStorage;
use fornax::message::{ContentPart, ImageUrl, Message, Role, ToolCall, ToolCallFunction};

fn mem() -> ConversationStorage {
    ConversationStorage::new_in_memory().unwrap()
}

fn ts(base: i64, offset: i64) -> Option<i64> {
    Some(base + offset)
}

#[test]
fn init_tables_migrates_legacy_0_6_db_in_place() {
    let mut s = ConversationStorage::new_legacy_0_6_with_data().unwrap();
    s.init_tables().unwrap();
    let convs = s.list_conversations();
    assert_eq!(convs.len(), 1);
    assert_eq!(convs[0].title, "legacy chat");
    assert!(!convs[0].pinned);
    let msgs = s.load_messages(convs[0].id);
    assert_eq!(msgs.len(), 1);
    assert_eq!(msgs[0].text_str(), "hello from 0.6");
    assert_eq!(msgs[0].parent_id, None);
    assert_eq!(msgs[0].branch_index, 0);
    // Subsequent saves work into the migrated schema.
    let mut new_msgs = vec![Message::text(Role::Assistant, "hi from 0.8".into())];
    s.save_messages(convs[0].id, &mut new_msgs)
        .expect("save into migrated DB");
    assert!(new_msgs[0].id.is_some());
}

#[test]
fn init_tables_is_idempotent() {
    let mut s = ConversationStorage::new_legacy_0_6_with_data().unwrap();
    s.init_tables().unwrap();
    s.init_tables().unwrap();
    // Should not panic — running twice is a no-op.
}

#[test]
fn round_trips_text_messages() {
    let mut s = mem();
    let id = s.create_conversation("hello").unwrap();
    let mut msgs = vec![
        Message::text(Role::User, "hi".to_string()),
        Message::text(Role::Assistant, "hello!".to_string()),
    ];
    s.save_messages(id, &mut msgs).unwrap();
    let loaded = s.load_messages(id);
    assert_eq!(loaded.len(), 2);
    assert_eq!(loaded[0].text_str(), "hi");
    assert_eq!(loaded[1].text_str(), "hello!");
    assert_eq!(loaded[1].parent_id, loaded[0].id);
}

#[test]
fn round_trips_messages_with_images() {
    let mut s = mem();
    let id = s.create_conversation("vision").unwrap();
    let parts = vec![
        ContentPart::Text {
            text: "what's in this".to_string(),
        },
        ContentPart::ImageUrl {
            image_url: ImageUrl {
                url: "data:image/png;base64,AAAA".to_string(),
                detail: None,
            },
        },
    ];
    let mut msgs = vec![Message::from_parts(Role::User, parts.clone())];
    s.save_messages(id, &mut msgs).unwrap();
    let loaded = s.load_messages(id);
    assert_eq!(loaded.len(), 1);
    assert_eq!(loaded[0].content, parts);
}

#[test]
fn search_post_filters_json_keys() {
    let mut s = mem();
    let id = s.create_conversation("vision conv").unwrap();
    s.save_messages(
        id,
        &mut [Message::from_parts(
            Role::User,
            vec![
                ContentPart::Text {
                    text: "hello world".to_string(),
                },
                ContentPart::ImageUrl {
                    image_url: ImageUrl {
                        url: "data:image/png;base64,AAAA".to_string(),
                        detail: None,
                    },
                },
            ],
        )],
    )
    .unwrap();
    // "image_url" is a JSON key but not in any text part — must NOT match.
    assert!(s.search("image_url").is_empty());
    assert_eq!(s.search("hello world").len(), 1);
}

#[test]
fn round_trips_compaction_state() {
    let mut s = mem();
    let id = s.create_conversation("compaction test").unwrap();
    assert_eq!(s.load_compaction(id), (None, None));
    s.save_compaction(id, "earlier summary", 42);
    assert_eq!(
        s.load_compaction(id),
        (Some("earlier summary".to_string()), Some(42))
    );
}

#[test]
fn pinned_conversations_sort_to_top() {
    let mut s = mem();
    let a = s.create_conversation("first").unwrap();
    let b = s.create_conversation("second").unwrap();
    let c = s.create_conversation("third").unwrap();
    s.set_pinned(a, true);
    let listed = s.list_conversations();
    assert_eq!(listed.len(), 3);
    assert_eq!(listed[0].id, a);
    assert!(listed[0].pinned);
    let rest: Vec<i64> = listed[1..].iter().map(|c| c.id).collect();
    assert!(rest.contains(&b));
    assert!(rest.contains(&c));
}

#[test]
fn drafts_round_trip_and_clear() {
    let mut s = mem();
    let id = s.create_conversation("drafty").unwrap();
    s.save_draft(id, "in progress");
    assert_eq!(s.load_draft(id).as_deref(), Some("in progress"));
    s.save_draft(id, "");
    assert_eq!(s.load_draft(id), None);
}

#[test]
fn auto_title_flag_is_one_shot() {
    let mut s = mem();
    let id = s.create_conversation("t").unwrap();
    assert!(s.needs_auto_title(id));
    s.mark_auto_titled(id);
    assert!(!s.needs_auto_title(id));
}

#[test]
fn save_messages_assigns_ids_and_writes_them_back() {
    let mut s = mem();
    let conv = s.create_conversation("ids").unwrap();
    let mut msgs = vec![
        Message::text(Role::User, "u".into()),
        Message::text(Role::Assistant, "a".into()),
    ];
    s.save_messages(conv, &mut msgs).unwrap();
    assert!(msgs[0].id.is_some());
    assert!(msgs[1].id.is_some());
    assert_eq!(msgs[1].parent_id, msgs[0].id);
}

#[test]
fn save_messages_updates_existing_in_place() {
    let mut s = mem();
    let conv = s.create_conversation("update").unwrap();
    let mut msgs = vec![Message::text(Role::User, "before".into())];
    s.save_messages(conv, &mut msgs).unwrap();
    let id = msgs[0].id.unwrap();
    msgs[0].content = vec![ContentPart::Text {
        text: "after".into(),
    }];
    s.save_messages(conv, &mut msgs).unwrap();
    assert_eq!(msgs[0].id, Some(id));
    let loaded = s.load_messages(conv);
    assert_eq!(loaded.len(), 1);
    assert_eq!(loaded[0].text_str(), "after");
}

#[test]
fn legacy_load_falls_back_to_position_order() {
    let mut s = mem();
    let conv = s.create_conversation("legacy").unwrap();
    let mut msgs = vec![
        Message::text(Role::User, "u1".into()),
        Message::text(Role::Assistant, "a1".into()),
        Message::text(Role::User, "u2".into()),
        Message::text(Role::Assistant, "a2".into()),
    ];
    s.save_messages(conv, &mut msgs).unwrap();
    s.connection()
        .execute(
            "UPDATE messages SET parent_id = NULL WHERE conversation_id = ?1",
            [conv],
        )
        .unwrap();
    let loaded = s.load_messages(conv);
    assert_eq!(
        loaded.iter().map(|m| m.text_str()).collect::<Vec<_>>(),
        vec!["u1", "a1", "u2", "a2"]
    );
}

#[test]
fn backfill_parent_ids_chains_legacy_rows() {
    let mut s = mem();
    let conv = s.create_conversation("backfill").unwrap();
    let mut msgs = vec![
        Message::text(Role::User, "u1".into()),
        Message::text(Role::Assistant, "a1".into()),
        Message::text(Role::User, "u2".into()),
    ];
    s.save_messages(conv, &mut msgs).unwrap();
    s.connection()
        .execute(
            "UPDATE messages SET parent_id = NULL WHERE conversation_id = ?1",
            [conv],
        )
        .unwrap();
    s.backfill_parent_ids(conv).unwrap();
    let loaded = s.load_messages(conv);
    assert_eq!(loaded[0].parent_id, None);
    assert_eq!(loaded[1].parent_id, loaded[0].id);
    assert_eq!(loaded[2].parent_id, loaded[1].id);
}

#[test]
fn backfill_parent_ids_is_idempotent() {
    let mut s = mem();
    let conv = s.create_conversation("idempotent").unwrap();
    let mut msgs = vec![
        Message::text(Role::User, "u".into()),
        Message::text(Role::Assistant, "a".into()),
    ];
    s.save_messages(conv, &mut msgs).unwrap();
    let before = s.load_messages(conv);
    s.backfill_parent_ids(conv).unwrap();
    s.backfill_parent_ids(conv).unwrap();
    let after = s.load_messages(conv);
    assert_eq!(
        after.iter().map(|m| m.parent_id).collect::<Vec<_>>(),
        before.iter().map(|m| m.parent_id).collect::<Vec<_>>(),
    );
}

#[test]
fn branched_load_picks_newest_sibling_at_each_fork() {
    let mut s = mem();
    let conv = s.create_conversation("branched").unwrap();
    let base = 1_700_000_000_000i64;
    let mut user = Message::text(Role::User, "what".into());
    user.created_at = ts(base, 0);
    let mut a_old = Message::text(Role::Assistant, "old reply".into());
    a_old.created_at = ts(base, 1);
    let mut msgs = vec![user, a_old];
    s.save_messages(conv, &mut msgs).unwrap();
    let user_id = msgs[0].id.unwrap();
    let mut a_new = Message::text(Role::Assistant, "new reply".into());
    a_new.parent_id = Some(user_id);
    a_new.branch_index = 1;
    a_new.created_at = ts(base, 10);
    s.save_messages(conv, &mut [a_new]).unwrap();
    let loaded = s.load_messages(conv);
    assert_eq!(loaded.len(), 2);
    assert_eq!(loaded[0].text_str(), "what");
    assert_eq!(loaded[1].text_str(), "new reply");
    assert_eq!(loaded[1].branch_index, 1);
}

#[test]
fn siblings_of_returns_all_branches_at_a_point() {
    let mut s = mem();
    let conv = s.create_conversation("sibs").unwrap();
    let mut msgs = vec![
        Message::text(Role::User, "ask".into()),
        Message::text(Role::Assistant, "one".into()),
    ];
    s.save_messages(conv, &mut msgs).unwrap();
    let user_id = msgs[0].id.unwrap();
    let first_a_id = msgs[1].id.unwrap();
    let mut sib = Message::text(Role::Assistant, "two".into());
    sib.parent_id = Some(user_id);
    sib.branch_index = 1;
    s.save_messages(conv, &mut [sib]).unwrap();
    let sibs = s.siblings_of(first_a_id);
    assert_eq!(sibs.len(), 2);
    assert_eq!(sibs[0].branch_index, 0);
    assert_eq!(sibs[1].branch_index, 1);
}

#[test]
fn next_branch_index_grows_per_parent() {
    let mut s = mem();
    let conv = s.create_conversation("nbi").unwrap();
    let mut msgs = vec![Message::text(Role::User, "u".into())];
    s.save_messages(conv, &mut msgs).unwrap();
    let user_id = msgs[0].id.unwrap();
    assert_eq!(s.next_branch_index(conv, Some(user_id)), 0);
    let mut a = Message::text(Role::Assistant, "a".into());
    a.parent_id = Some(user_id);
    a.branch_index = 0;
    s.save_messages(conv, &mut [a]).unwrap();
    assert_eq!(s.next_branch_index(conv, Some(user_id)), 1);
}

#[test]
fn round_trips_assistant_tool_calls_and_tool_result() {
    let mut s = mem();
    let conv = s.create_conversation("toolchat").unwrap();
    let user = Message::text(Role::User, "what's in foo.rs?".into());
    let mut assistant = Message::text(Role::Assistant, "I'll read it.".into());
    assistant.tool_calls = Some(vec![ToolCall {
        id: "call_abc".into(),
        call_type: "function".into(),
        function: ToolCallFunction {
            name: "read_file".into(),
            arguments: r#"{"path":"foo.rs"}"#.into(),
        },
    }]);
    let tool_result = Message::tool_result("call_abc".into(), "<file contents>".into());
    let mut msgs = vec![user, assistant, tool_result];
    s.save_messages(conv, &mut msgs).unwrap();
    let loaded = s.load_messages(conv);
    assert_eq!(loaded.len(), 3);
    let calls = loaded[1].tool_calls.as_ref().expect("tool_calls preserved");
    assert_eq!(calls[0].id, "call_abc");
    assert_eq!(calls[0].function.name, "read_file");
    assert_eq!(loaded[2].role, Role::Tool);
    assert_eq!(loaded[2].tool_call_id.as_deref(), Some("call_abc"));
    assert!(loaded[2].text_str().contains("<file contents>"));
}

#[test]
fn walk_from_returns_subtree_active_path() {
    let mut s = mem();
    let conv = s.create_conversation("walk").unwrap();
    let base = 1_700_000_000_000i64;
    let mut u = Message::text(Role::User, "u".into());
    u.created_at = ts(base, 0);
    let mut a = Message::text(Role::Assistant, "a".into());
    a.created_at = ts(base, 1);
    let mut msgs = vec![u, a];
    s.save_messages(conv, &mut msgs).unwrap();
    let a_id = msgs[1].id.unwrap();

    // Branch A: user2_a -> assistant_a2
    let mut u2a = Message::text(Role::User, "u2a".into());
    u2a.parent_id = Some(a_id);
    u2a.created_at = ts(base, 10);
    let mut a2a = Message::text(Role::Assistant, "a2a".into());
    a2a.created_at = ts(base, 11);
    let mut branch_a = vec![u2a, a2a];
    s.save_messages(conv, &mut branch_a).unwrap();
    let u2a_id = branch_a[0].id;

    // Branch B: user2_b -> assistant_b2 (newer)
    let mut u2b = Message::text(Role::User, "u2b".into());
    u2b.parent_id = Some(a_id);
    u2b.branch_index = 1;
    u2b.created_at = ts(base, 20);
    let mut a2b = Message::text(Role::Assistant, "a2b".into());
    a2b.created_at = ts(base, 21);
    s.save_messages(conv, &mut [u2b, a2b]).unwrap();

    // walk_from(u2a) should return the A branch path
    let path = s.walk_from(u2a_id.unwrap());
    assert_eq!(path.len(), 2);
    assert_eq!(path[0].text_str(), "u2a");
    assert_eq!(path[1].text_str(), "a2a");
}
