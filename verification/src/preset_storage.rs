//! Presets: named sets of conversation settings.

use vstd::prelude::*;
use crate::db::{
    batch_ok, db_busy_timeout, db_execute, db_execute_batch, db_open, db_open_in_memory, is_execute,
    opened_file, opened_memory, params_view, Log, OpenError, ParamView, Sent, SqlParam, FILE_PRAGMAS, MEMORY_PRAGMAS,
};

verus! {

/// The presets table as the in-memory test database has it.
pub const PRESET_TEST_SCHEMA: &'static str = "CREATE TABLE presets (
        id INTEGER PRIMARY KEY AUTOINCREMENT,
        name TEXT NOT NULL,
        model TEXT,
        system_prompt TEXT,
        temperature REAL,
        max_tokens INTEGER,
        use_max_tokens INTEGER NOT NULL DEFAULT 0,
        top_p REAL,
        frequency_penalty REAL,
        presence_penalty REAL,
        stop_sequences TEXT,
        endpoint TEXT
    );";

pub const DELETE_PRESET_SQL: &'static str = "DELETE FROM presets WHERE id = ?1";

pub struct PresetStorage {
    conn: rusqlite::Connection,
    log: Log,
}

impl PresetStorage {
    /// Everything this storage has exchanged with the database, in order.
    pub closed spec fn sent(&self) -> Seq<Sent> {
        self.log.sent()
    }

    /// The log is this storage's connection's own.
    pub closed spec fn wf(&self) -> bool {
        self.log.conn() == self.conn
    }

    /// Opens the database file at `path` with write-ahead logging, foreign
    /// keys and a five-second busy timeout.
    pub fn open(path: &str) -> (r: Result<PresetStorage, OpenError>)
        ensures
            r matches Err(e) ==> e.sent() == seq![Sent::Open(path@, false)] && e.text() == "Failed to open database"@,
            r matches Ok(s) ==> s.wf(),
            r matches Ok(s) ==> opened_file(s.sent(), path@),
    {
        let (conn, mut log) = match db_open(path) {
            Ok(p) => p,
            Err(e) => return Err(e.with_message("Failed to open database".to_owned())),
        };
        let _ = db_execute_batch(&conn, &mut log, FILE_PRAGMAS);
        let _ = db_busy_timeout(&conn, &mut log, 5);
        Ok(PresetStorage { conn, log })
    }

    /// A fresh in-memory database with the presets table.
    pub fn new_in_memory() -> (r: Result<PresetStorage, String>)
        ensures
            r matches Err(e) ==> e@ == "open :memory:"@ || e@ == "create presets table"@,
            r matches Ok(s) ==> s.wf(),
            r matches Ok(s) ==> opened_memory(s.sent(), PRESET_TEST_SCHEMA@) && batch_ok(s.sent()[2]),
    {
        let (conn, mut log) = match db_open_in_memory() {
            Ok(p) => p,
            Err(_) => return Err("open :memory:".to_owned()),
        };
        let _ = db_execute_batch(&conn, &mut log, MEMORY_PRAGMAS);
        if db_execute_batch(&conn, &mut log, PRESET_TEST_SCHEMA).is_err() {
            return Err("create presets table".to_owned());
        }
        Ok(PresetStorage { conn, log })
    }

    /// The connection this storage runs its statements on.
    pub closed spec fn db(&self) -> rusqlite::Connection {
        self.conn
    }

    /// The connection, for callers that run their own statements (which
    /// the log does not record).
    pub fn connection(&self) -> (r: &rusqlite::Connection)
        ensures
            *r == self.db(),
    {
        &self.conn
    }

    pub fn delete_preset(&mut self, id: i64)
        requires
            old(self).wf(),
        ensures
            final(self).wf(),
            final(self).sent().len() == old(self).sent().len() + 1,
            final(self).sent().drop_last() == old(self).sent(),
            is_execute(final(self).sent().last(), DELETE_PRESET_SQL@, seq![ParamView::Integer(id)]),
    {
        let params = vec![SqlParam::Integer(id)];
        assert(params_view(params@) =~= seq![ParamView::Integer(id)]);
        let _ = db_execute(&self.conn, &mut self.log, DELETE_PRESET_SQL, &params);
    }
}

} // verus!
