use fornax::project_storage::ProjectStorage;

fn mem() -> ProjectStorage {
    ProjectStorage::new_in_memory().unwrap()
}

fn project_of(s: &ProjectStorage, cid: i64) -> Option<i64> {
    s.connection()
        .query_row("SELECT project_id FROM conversations WHERE id = ?1", [cid], |r| r.get(0))
        .unwrap()
}

#[test]
fn projects_crud_and_membership() {
    let mut s = mem();
    assert!(s.list_projects().is_empty());
    let pid = s.create_project("Spark").unwrap();
    // Create a conversation (via the conversations table directly).
    s.connection()
        .execute("INSERT INTO conversations (title) VALUES ('chat 1')", [])
        .unwrap();
    let cid = s.connection().last_insert_rowid();
    // Verify the conversation has no project.
    assert_eq!(project_of(&s, cid), None);
    s.set_conversation_project(cid, Some(pid));
    assert_eq!(project_of(&s, cid), Some(pid));
    s.set_project_pinned(pid, true);
    s.rename_project(pid, "Spark2");
    let projects = s.list_projects();
    assert_eq!(projects.len(), 1);
    assert_eq!(projects[0].name, "Spark2");
    assert!(projects[0].pinned);
    s.delete_project(pid);
    assert!(s.list_projects().is_empty());
    // Conversation still exists, just detached.
    assert_eq!(project_of(&s, cid), None);
}
