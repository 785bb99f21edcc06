//! Projects, which group conversations in the sidebar.

use vstd::prelude::*;
use crate::db::{
    as_i64, as_text, batch_ok, col, db_busy_timeout, db_execute, db_execute_batch, db_open,
    db_open_in_memory, db_query, db_rowid, db_transaction, execute_ok, extends, is_begin,
    is_commit, is_execute, is_query, opened_file, opened_memory, params_view, prefixed, rowid_of,
    rows_reply, since, begin_ok, spec_as_i64, spec_as_text, spec_col, tx_commit,
    DbError, Log, OpenError, ParamView, Sent, SqlParam, SqlValue, FILE_PRAGMAS, MEMORY_PRAGMAS,
};

verus! {

/// A project groups conversations in the sidebar.
#[derive(Debug)]
pub struct Project {
    pub id: i64,
    pub name: String,
    pub pinned: bool,
}

pub struct ProjectView {
    pub id: i64,
    pub name: Seq<char>,
    pub pinned: bool,
}

impl View for Project {
    type V = ProjectView;

    open spec fn view(&self) -> ProjectView {
        ProjectView { id: self.id, name: self.name@, pinned: self.pinned }
    }
}

pub open spec fn projects_view(v: Seq<Project>) -> Seq<ProjectView> {
    v.map_values(|p: Project| p@)
}

/// A project row decoded: every column must read as its type or the row
/// is dropped; `pinned` is any non-zero integer.
pub open spec fn spec_project_of(row: Seq<SqlValue>) -> Option<ProjectView> {
    match (spec_as_i64(spec_col(row, 0)), spec_as_text(spec_col(row, 1)), spec_as_i64(spec_col(row, 2))) {
        (Some(id), Some(name), Some(pinned)) => Some(ProjectView { id, name, pinned: pinned != 0 }),
        _ => None,
    }
}

pub open spec fn spec_projects(raw: Seq<Result<Vec<SqlValue>, DbError>>) -> Seq<ProjectView>
    decreases raw.len(),
{
    if raw.len() == 0 {
        Seq::empty()
    } else {
        let front = spec_projects(raw.drop_last());
        match raw.last() {
            Ok(row) => match spec_project_of(row@) {
                Some(p) => front.push(p),
                None => front,
            },
            Err(_) => front,
        }
    }
}

/// Listing projects reads each row by its columns: a row whose id
/// (column 0) and pinned flag (column 2) are integers and whose name
/// (column 1) is text lists, after the rows before it, as that project,
/// pinned exactly when the stored flag is non-zero.
pub proof fn law_projects_read_columns(raw: Seq<Result<Vec<SqlValue>, DbError>>, row: Vec<SqlValue>, id: i64, name: Seq<char>, pinned: i64)
    requires
        spec_as_i64(spec_col(row@, 0)) == Some(id),
        spec_as_text(spec_col(row@, 1)) == Some(name),
        spec_as_i64(spec_col(row@, 2)) == Some(pinned),
    ensures
        spec_projects(raw.push(Ok(row))) == spec_projects(raw).push(ProjectView { id, name, pinned: pinned != 0 }),
        spec_projects(raw.push(Ok(row))).last().pinned <==> pinned != 0,
{
    assert(raw.push(Ok(row)).drop_last() =~= raw);
}

pub fn decode_projects(raw: &Vec<Result<Vec<SqlValue>, DbError>>) -> (r: Vec<Project>)
    ensures
        projects_view(r@) == spec_projects(raw@),
{
    let mut out: Vec<Project> = Vec::new();
    let mut i: usize = 0;
    while i < raw.len()
        invariant
            i <= raw.len(),
            projects_view(out@) == spec_projects(raw@.take(i as int)),
        decreases raw.len() - i,
    {
        let ghost before = projects_view(out@);
        assert(raw@.take(i as int + 1).drop_last() =~= raw@.take(i as int));
        match &raw[i] {
            Ok(row) => match (as_i64(&col(row, 0)), as_text(&col(row, 1)), as_i64(&col(row, 2))) {
                (Some(id), Some(name), Some(pinned)) => {
                    let p = Project { id, name, pinned: pinned != 0 };
                    out.push(p);
                    assert(projects_view(out@) =~= before.push(p@));
                },
                _ => {},
            },
            Err(_) => {},
        }
        i = i + 1;
    }
    assert(raw@.take(raw.len() as int) =~= raw@);
    out
}

/// The tables that project queries touch, as the in-memory test database
/// has them.
pub const PROJECT_TEST_SCHEMA: &'static str = "CREATE TABLE conversations (
        id INTEGER PRIMARY KEY AUTOINCREMENT,
        title TEXT NOT NULL,
        project_id INTEGER
    );
    CREATE TABLE projects (
        id INTEGER PRIMARY KEY AUTOINCREMENT,
        name TEXT NOT NULL,
        pinned INTEGER NOT NULL DEFAULT 0
    );";

pub const RENAME_PROJECT_SQL: &'static str = "UPDATE projects SET name = ?1 WHERE id = ?2";
pub const PIN_PROJECT_SQL: &'static str = "UPDATE projects SET pinned = ?1 WHERE id = ?2";
pub const DETACH_PROJECT_SQL: &'static str = "UPDATE conversations SET project_id = NULL WHERE project_id = ?1";
pub const DELETE_PROJECT_SQL: &'static str = "DELETE FROM projects WHERE id = ?1";
pub const ASSIGN_PROJECT_SQL: &'static str = "UPDATE conversations SET project_id = ?1 WHERE id = ?2";
pub const CREATE_PROJECT_SQL: &'static str = "INSERT INTO projects (name) VALUES (?1)";
pub const LIST_PROJECTS_SQL: &'static str = "SELECT id, name, pinned FROM projects ORDER BY pinned DESC, name COLLATE NOCASE";

/// The parameter a pin flag is stored as.
pub open spec fn flag_param(b: bool) -> ParamView {
    ParamView::Integer(if b { 1i64 } else { 0i64 })
}

/// What deleting project `id` sends: in one transaction, detach its
/// conversations, delete it, and commit; nothing after a transaction
/// that did not begin.
pub open spec fn deleted_project(seg: Seq<Sent>, id: i64) -> bool {
    let p = seq![ParamView::Integer(id)];
    &&& seg.len() >= 1
    &&& is_begin(seg[0])
    &&& if begin_ok(seg[0]) {
        &&& seg.len() == 4
        &&& is_execute(seg[1], DETACH_PROJECT_SQL@, p)
        &&& is_execute(seg[2], DELETE_PROJECT_SQL@, p)
        &&& is_commit(seg[3])
    } else {
        seg.len() == 1
    }
}

pub struct ProjectStorage {
    conn: rusqlite::Connection,
    log: Log,
}

impl ProjectStorage {
    /// Everything this storage has exchanged with the database, in order.
    pub closed spec fn sent(&self) -> Seq<Sent> {
        self.log.sent()
    }

    /// The log is this storage's connection's own.
    pub closed spec fn wf(&self) -> bool {
        self.log.conn() == self.conn
    }

    /// Opens the database file at `path` with write-ahead logging, foreign
    /// keys and a five-second busy timeout.
    pub fn open(path: &str) -> (r: Result<ProjectStorage, OpenError>)
        ensures
            r matches Err(e) ==> e.sent() == seq![Sent::Open(path@, false)] && e.text() == "Failed to open database"@,
            r matches Ok(s) ==> s.wf(),
            r matches Ok(s) ==> opened_file(s.sent(), path@),
    {
        let (conn, mut log) = match db_open(path) {
            Ok(p) => p,
            Err(e) => return Err(e.with_message("Failed to open database".to_owned())),
        };
        let _ = db_execute_batch(&conn, &mut log, FILE_PRAGMAS);
        let _ = db_busy_timeout(&conn, &mut log, 5);
        Ok(ProjectStorage { conn, log })
    }

    /// A fresh in-memory database with the tables projects use.
    pub fn new_in_memory() -> (r: Result<ProjectStorage, String>)
        ensures
            r matches Err(e) ==> e@ == "open :memory:"@ || e@ == "create tables"@,
            r matches Ok(s) ==> s.wf(),
            r matches Ok(s) ==> opened_memory(s.sent(), PROJECT_TEST_SCHEMA@) && batch_ok(s.sent()[2]),
    {
        let (conn, mut log) = match db_open_in_memory() {
            Ok(p) => p,
            Err(_) => return Err("open :memory:".to_owned()),
        };
        let _ = db_execute_batch(&conn, &mut log, MEMORY_PRAGMAS);
        if db_execute_batch(&conn, &mut log, PROJECT_TEST_SCHEMA).is_err() {
            return Err("create tables".to_owned());
        }
        Ok(ProjectStorage { conn, log })
    }

    /// The connection this storage runs its statements on.
    pub closed spec fn db(&self) -> rusqlite::Connection {
        self.conn
    }

    /// The connection, for callers that run their own statements (which
    /// the log does not record).
    pub fn connection(&self) -> (r: &rusqlite::Connection)
        ensures
            *r == self.db(),
    {
        &self.conn
    }

    /// Inserts a project named `name`; its id is the rowid the database
    /// reports for the insert.
    pub fn create_project(&mut self, name: &str) -> (r: Result<i64, String>)
        requires
            old(self).wf(),
        ensures
            final(self).wf(),
            extends(old(self).sent(), final(self).sent()),
            ({
                let seg = since(old(self).sent(), final(self).sent());
                &&& seg.len() >= 1
                &&& is_execute(seg[0], CREATE_PROJECT_SQL@, seq![ParamView::Text(name@)])
                &&& if execute_ok(seg[0]) {
                    seg.len() == 2 && r == Ok::<i64, String>(rowid_of(seg[1])) && seg[1] is RowId
                } else {
                    seg.len() == 1 && r is Err
                }
            }),
            r matches Err(e) ==> exists|d: DbError| e@ == "Failed to create project: "@ + d.message@,
    {
        let ghost start = self.log.sent();
        let params = vec![SqlParam::Text(name.to_owned())];
        assert(params_view(params@) =~= seq![ParamView::Text(name@)]);
        let r = match db_execute(&self.conn, &mut self.log, CREATE_PROJECT_SQL, &params) {
            Ok(_) => Ok(db_rowid(&self.conn, &mut self.log)),
            Err(e) => Err(prefixed("Failed to create project: ", e)),
        };
        proof {
            assert(self.log.sent().subrange(0, start.len() as int) =~= start);
        }
        r
    }

    /// Every project, pinned ones first, then by name ignoring case (the
    /// order the query asks SQLite for).
    pub fn list_projects(&mut self) -> (r: Vec<Project>)
        requires
            old(self).wf(),
        ensures
            final(self).wf(),
            final(self).sent().len() == old(self).sent().len() + 1,
            final(self).sent().drop_last() == old(self).sent(),
            is_query(final(self).sent().last(), LIST_PROJECTS_SQL@, seq![]),
            projects_view(r@) == spec_projects(rows_reply(final(self).sent().last())),
    {
        let none: Vec<SqlParam> = Vec::new();
        assert(params_view(none@) =~= seq![]);
        match db_query(&self.conn, &mut self.log, LIST_PROJECTS_SQL, &none) {
            Ok(raw) => {
                let r = decode_projects(&raw);
                assert(projects_view(r@) == spec_projects(raw@));
                r
            },
            Err(_) => {
                let r: Vec<Project> = Vec::new();
                assert(projects_view(r@) =~= spec_projects(Seq::empty()));
                r
            },
        }
    }

    pub fn rename_project(&mut self, id: i64, name: &str)
        requires
            old(self).wf(),
        ensures
            final(self).wf(),
            final(self).sent().len() == old(self).sent().len() + 1,
            final(self).sent().drop_last() == old(self).sent(),
            is_execute(final(self).sent().last(), RENAME_PROJECT_SQL@, seq![ParamView::Text(name@), ParamView::Integer(id)]),
    {
        let params = vec![SqlParam::Text(name.to_owned()), SqlParam::Integer(id)];
        assert(params_view(params@) =~= seq![ParamView::Text(name@), ParamView::Integer(id)]);
        let _ = db_execute(&self.conn, &mut self.log, RENAME_PROJECT_SQL, &params);
    }

    pub fn set_project_pinned(&mut self, id: i64, pinned: bool)
        requires
            old(self).wf(),
        ensures
            final(self).wf(),
            final(self).sent().len() == old(self).sent().len() + 1,
            final(self).sent().drop_last() == old(self).sent(),
            is_execute(final(self).sent().last(), PIN_PROJECT_SQL@, seq![flag_param(pinned), ParamView::Integer(id)]),
    {
        let params = vec![SqlParam::Integer(if pinned { 1 } else { 0 }), SqlParam::Integer(id)];
        assert(params_view(params@) =~= seq![flag_param(pinned), ParamView::Integer(id)]);
        let _ = db_execute(&self.conn, &mut self.log, PIN_PROJECT_SQL, &params);
    }

    /// Deletes a project; its conversations are detached (their project
    /// becomes NULL), not deleted. Both happen in one transaction.
    pub fn delete_project(&mut self, id: i64)
        requires
            old(self).wf(),
        ensures
            final(self).wf(),
            extends(old(self).sent(), final(self).sent()),
            deleted_project(since(old(self).sent(), final(self).sent()), id),
    {
        let ghost start = self.log.sent();
        if let Ok(tx) = db_transaction(&self.conn, &mut self.log) {
            let params = vec![SqlParam::Integer(id)];
            assert(params_view(params@) =~= seq![ParamView::Integer(id)]);
            let _ = db_execute(&self.conn, &mut self.log, DETACH_PROJECT_SQL, &params);
            let _ = db_execute(&self.conn, &mut self.log, DELETE_PROJECT_SQL, &params);
            let _ = tx_commit(tx, &mut self.log);
        }
        proof {
            assert(self.log.sent().subrange(0, start.len() as int) =~= start);
        }
    }

    /// Assigns a conversation to a project, or clears it with `None`.
    pub fn set_conversation_project(&mut self, conversation_id: i64, project_id: Option<i64>)
        requires
            old(self).wf(),
        ensures
            final(self).wf(),
            final(self).sent().len() == old(self).sent().len() + 1,
            final(self).sent().drop_last() == old(self).sent(),
            is_execute(
                final(self).sent().last(),
                ASSIGN_PROJECT_SQL@,
                seq![
                    match project_id {
                        Some(p) => ParamView::Integer(p),
                        None => ParamView::Null,
                    },
                    ParamView::Integer(conversation_id),
                ],
            ),
    {
        let project = match project_id {
            Some(p) => SqlParam::Integer(p),
            None => SqlParam::Null,
        };
        let params = vec![project, SqlParam::Integer(conversation_id)];
        assert(params_view(params@) =~= seq![
            match project_id {
                Some(p) => ParamView::Integer(p),
                None => ParamView::Null,
            },
            ParamView::Integer(conversation_id),
        ]);
        let _ = db_execute(&self.conn, &mut self.log, ASSIGN_PROJECT_SQL, &params);
    }
}

} // verus!
