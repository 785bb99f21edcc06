use fornax::history::{backfill_plan, load_from_rows, walk_from_rows, MessageRow};
use fornax::db::SqlValue;
use fornax::message::{ContentPart, Role};

fn row(id: i64, parent: Option<i64>, created: Option<i64>, branch: i64, position: i64) -> MessageRow {
    MessageRow {
        id,
        role: Role::User,
        content: vec![ContentPart::Text { text: format!("m{id}") }],
        created_at: created,
        parent_id: parent,
        branch_index: branch,
        position,
        tool_calls: None,
        tool_call_id: None,
    }
}

fn ids(rows: Vec<MessageRow>) -> Vec<i64> {
    load_from_rows(rows).iter().map(|m| m.id.unwrap()).collect()
}

#[test]
fn no_rows_load_nothing() {
    assert!(load_from_rows(Vec::new()).is_empty());
}

#[test]
fn unlinked_rows_load_in_stable_position_order() {
    let rows = vec![
        row(1, None, None, 0, 3),
        row(2, None, None, 0, 1),
        row(3, None, None, 0, 3),
        row(4, None, None, 0, 0),
    ];
    assert_eq!(ids(rows), vec![4, 2, 1, 3]);
}

#[test]
fn newest_child_wins_at_each_fork() {
    let rows = vec![
        row(1, None, Some(10), 0, 0),
        row(2, Some(1), Some(11), 0, 1),
        row(3, Some(1), Some(20), 1, 2),
        row(4, Some(3), None, 0, 3),
        row(5, Some(3), Some(1), 0, 4),
        row(6, Some(2), Some(99), 0, 5),
    ];
    assert_eq!(ids(rows), vec![1, 3, 5]);
}

#[test]
fn ties_fall_to_branch_index_then_row_order() {
    let rows = vec![
        row(1, None, None, 0, 0),
        row(2, Some(1), Some(5), 0, 1),
        row(3, Some(1), Some(5), 2, 2),
        row(4, Some(1), Some(5), 2, 3),
    ];
    assert_eq!(ids(rows), vec![1, 3]);
    let rows = vec![row(1, None, None, 0, 0), row(2, Some(1), None, 1, 1), row(3, Some(1), None, 0, 2)];
    assert_eq!(ids(rows), vec![1, 2]);
}

#[test]
fn a_history_without_root_loads_nothing() {
    let rows = vec![row(1, Some(7), None, 0, 0), row(2, Some(1), None, 0, 1)];
    assert!(load_from_rows(rows).is_empty());
}

#[test]
fn loaded_message_carries_row_fields() {
    let mut r = row(9, None, Some(3), 4, 0);
    r.tool_call_id = Some("c".into());
    let m = load_from_rows(vec![r]).remove(0);
    assert_eq!(m.id, Some(9));
    assert_eq!(m.created_at, Some(3));
    assert_eq!(m.branch_index, 4);
    assert_eq!(m.tool_call_id.as_deref(), Some("c"));
    assert_eq!(m.text_str(), "m9");
}

#[test]
fn walk_starts_at_the_given_message() {
    let rows = vec![
        row(1, None, Some(1), 0, 0),
        row(2, Some(1), Some(2), 0, 1),
        row(3, Some(2), Some(3), 0, 2),
        row(4, Some(1), Some(9), 1, 3),
    ];
    let walked: Vec<i64> = walk_from_rows(&rows, 2).iter().map(|m| m.id.unwrap()).collect();
    assert_eq!(walked, vec![2, 3]);
    assert!(walk_from_rows(&rows, 42).is_empty());
}

#[test]
fn backfill_links_each_message_to_the_one_before() {
    assert_eq!(backfill_plan(&vec![5, 8, 2]), vec![(5, 8), (8, 2)]);
    assert!(backfill_plan(&vec![5]).is_empty());
    assert!(backfill_plan(&Vec::new()).is_empty());
}

#[test]
fn rows_decode_as_rusqlite_reads_them() {
    let good = vec![
        SqlValue::Integer(1),
        SqlValue::Text("tool".into()),
        SqlValue::Text("plain".into()),
        SqlValue::Null,
        SqlValue::Integer(7),
        SqlValue::Integer(2),
        SqlValue::Integer(3),
        SqlValue::Text("[]".into()),
        SqlValue::Null,
    ];
    let r = MessageRow::from_row(&good).unwrap();
    assert_eq!(r.role, Role::Tool);
    assert_eq!(r.content, vec![ContentPart::Text { text: "plain".into() }]);
    assert_eq!(r.created_at, None);
    assert_eq!(r.parent_id, Some(7));
    assert_eq!(r.tool_calls, Some(Vec::new()));
    let mut bad = good.clone();
    bad[5] = SqlValue::Null;
    assert!(MessageRow::from_row(&bad).is_none());
    let mut bad = good.clone();
    bad[1] = SqlValue::Integer(3);
    assert!(MessageRow::from_row(&bad).is_none());
    assert!(MessageRow::from_row(&good[..4].to_vec()).is_none());
}

#[test]
fn walking_a_cycle_stops() {
    // Corrupt links: 2 and 3 are each other's parent. The walk is bounded
    // by the number of rows instead of looping.
    let rows = vec![row(1, None, None, 0, 0), row(2, Some(3), None, 0, 1), row(3, Some(2), None, 0, 2)];
    let walked = walk_from_rows(&rows, 2);
    assert_eq!(walked.len(), 4);
    assert_eq!(ids(rows), vec![1]);
}

#[test]
fn a_linear_history_loads_completely() {
    let rows: Vec<MessageRow> = (1..=6)
        .map(|i| row(i, if i == 1 { None } else { Some(i - 1) }, Some(i), 0, i))
        .rev()
        .collect();
    assert_eq!(ids(rows), vec![1, 2, 3, 4, 5, 6]);
}
