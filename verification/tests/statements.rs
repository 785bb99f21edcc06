use fornax::settings::{conversation_settings, preset_settings};
use fornax::conversation_storage::{
    backfill_needed, insert_params, sibling_query, title_of, update_params, v2_columns,
};
use fornax::db::{DbError, SqlParam, SqlValue};
use fornax::message::{content_json, string_list_json, ContentPart, Message, Role};

fn row(v: Vec<SqlValue>) -> Result<Vec<SqlValue>, DbError> {
    Ok(v)
}

fn failed() -> Result<Vec<SqlValue>, DbError> {
    Err(DbError { message: "no such table".to_string() })
}

#[test]
fn backfill_runs_only_without_existing_parents() {
    assert!(backfill_needed(&row(vec![SqlValue::Integer(0)])));
    assert!(!backfill_needed(&row(vec![SqlValue::Integer(3)])));
    assert!(backfill_needed(&failed()));
    assert!(backfill_needed(&row(vec![SqlValue::Text("x".to_string())])));
}

#[test]
fn sibling_query_follows_the_parent_column() {
    assert_eq!(sibling_query(&row(vec![SqlValue::Null, SqlValue::Integer(7)])), Some((7, None)));
    assert_eq!(sibling_query(&row(vec![SqlValue::Integer(2), SqlValue::Integer(7)])), Some((7, Some(2))));
    assert_eq!(sibling_query(&row(vec![SqlValue::Other, SqlValue::Integer(7)])), None);
    assert_eq!(sibling_query(&row(vec![SqlValue::Null, SqlValue::Null])), None);
    assert_eq!(sibling_query(&failed()), None);
}

#[test]
fn title_falls_back_to_conversation() {
    assert_eq!(title_of(&row(vec![SqlValue::Text("Trip".to_string())])), "Trip");
    assert_eq!(title_of(&row(vec![SqlValue::Null])), "Conversation");
    assert_eq!(title_of(&failed()), "Conversation");
}

#[test]
fn insert_binds_position_parent_and_branch_in_order() {
    let mut m = Message::text(Role::Assistant, "two".into());
    m.branch_index = 1;
    m.created_at = Some(99);
    let p = insert_params(4, &m, 2, Some(1));
    assert_eq!(p.len(), 9);
    assert_eq!(p[0], SqlParam::Integer(4));
    assert_eq!(p[1], SqlParam::Text("assistant".to_string()));
    assert_eq!(p[2], SqlParam::Text(r#"[{"type":"text","text":"two"}]"#.to_string()));
    assert_eq!(p[3], SqlParam::Integer(2));
    assert_eq!(p[4], SqlParam::Integer(1));
    assert_eq!(p[5], SqlParam::Integer(1));
    assert_eq!(p[6], SqlParam::Integer(99));
    assert_eq!(p[7], SqlParam::Null);
    assert_eq!(p[8], SqlParam::Null);
}

#[test]
fn update_binds_content_and_id() {
    let m = Message::from_parts(Role::User, vec![ContentPart::Text { text: "after".into() }]);
    let p = update_params(&m, 5);
    assert_eq!(
        p,
        vec![
            SqlParam::Text(r#"[{"type":"text","text":"after"}]"#.to_string()),
            SqlParam::Null,
            SqlParam::Null,
            SqlParam::Null,
            SqlParam::Integer(5),
        ]
    );
}

#[test]
fn v2_columns_start_and_end_as_listed() {
    let c = v2_columns();
    assert_eq!(c.len(), 36);
    assert_eq!(c[0], ("conversations", "model", "TEXT"));
    assert_eq!(c[20], ("messages", "parent_id", "INTEGER REFERENCES messages(id) ON DELETE CASCADE"));
    assert_eq!(c[35], ("usage", "cost", "REAL"));
}

#[test]
fn string_lists_are_stored_as_compact_json() {
    let v = vec!["a".to_string(), "b\"c\n".to_string()];
    assert_eq!(string_list_json(&v), Some(r#"["a","b\"c\n"]"#.to_string()));
}

#[test]
fn quoting_escapes_controls_in_lower_hex() {
    let parts = vec![ContentPart::Text { text: "\u{1}\u{1f}\\/".into() }];
    assert_eq!(content_json(&parts), r#"[{"type":"text","text":"\u0001\u001f\\/"}]"#);
}

#[test]
fn opening_a_missing_directory_reports_the_open() {
    let r = fornax::conversation_storage::ConversationStorage::open("/nonexistent-fornax-dir/sub/fornax.db");
    match r {
        Ok(_) => panic!("opened a file in a missing directory"),
        Err(e) => assert_eq!(e.message(), "Failed to open database"),
    }
    match fornax::preset_storage::PresetStorage::open("/nonexistent-fornax-dir/sub/fornax.db") {
        Ok(_) => panic!("opened a file in a missing directory"),
        Err(e) => assert_eq!(e.message(), "Failed to open database"),
    }
}

#[test]
fn settings_columns_decode_by_position() {
    let row = vec![
        SqlValue::Text("gpt".to_string()),
        SqlValue::Null,
        SqlValue::Other,
        SqlValue::Integer(512),
        SqlValue::Integer(1),
        SqlValue::Other,
        SqlValue::Other,
        SqlValue::Other,
        SqlValue::Text(r#"["END"]"#.to_string()),
        SqlValue::Text("local".to_string()),
        SqlValue::Null,
        SqlValue::Integer(0),
        SqlValue::Other,
        SqlValue::Integer(6),
    ];
    let s = conversation_settings(&row);
    assert_eq!(s.model, Some("gpt".to_string()));
    assert_eq!(s.system_prompt, None);
    assert_eq!(s.max_tokens, Some(512));
    assert!(s.use_max_tokens);
    assert_eq!(s.stop_sequences, vec!["END".to_string()]);
    assert_eq!(s.endpoint, Some("local".to_string()));
    assert_eq!(s.working_dir, None);
    assert_eq!(s.auto_compact, Some(false));
    assert_eq!(s.compact_keep_recent, Some(6));

    let preset = vec![
        SqlValue::Integer(3),
        SqlValue::Text("p".to_string()),
        SqlValue::Null,
        SqlValue::Text("be brief".to_string()),
        SqlValue::Other,
        SqlValue::Null,
        SqlValue::Null,
    ];
    let p = preset_settings(&preset);
    assert_eq!(p.model, None);
    assert_eq!(p.system_prompt, Some("be brief".to_string()));
    assert_eq!(p.max_tokens, None);
    assert!(!p.use_max_tokens);
    assert_eq!(p.stop_sequences, Vec::<String>::new());
    assert_eq!(p.endpoint, None);
    assert_eq!(p.auto_compact, None);
}
