//! Conversations and their message histories, stored in SQLite.

use vstd::prelude::*;
use crate::db::{
    as_i64, as_text, batch_ok, begin_ok, col, commit_ok, db_busy_timeout, db_execute,
    db_execute_batch, db_open, db_open_in_memory, db_query, db_query_row, db_rowid,
    db_transaction, execute_ok, extends, is_batch, is_begin, is_commit, is_execute, is_query,
    is_query_row, lemma_extends_push, lemma_extends_refl, lemma_extends_trans, lemma_one_more, lemma_prefix,
    lemma_uncommitted, opened_file, params_view, prefixed, query_ok, reply_i64, row_reply, rowid_of,
    rows_reply, since, spec_as_i64, spec_as_text, spec_col, spec_reply_i64, tx_commit,
    uncommitted, DbError, Log, OpenError, ParamView, Sent, SqlParam, SqlValue, FILE_PRAGMAS,
    MEMORY_PRAGMAS,
};
use crate::export::{render_markdown, spec_markdown};
use crate::history::{
    backfill_plan, decode_rows, load_from_rows, messages_view, spec_decode_rows, spec_load,
    spec_walk, walk_from_rows, MessageRow,
};
use crate::message::{calls_json, content_json, role_as_str, Message, MessageView};
use crate::search::{
    candidates, candidates_view, filter_hits, like_pattern, spec_candidates, spec_like_pattern,
    spec_search_results, Candidate,
};
use crate::text::push_str;

verus! {

/// Returned by `list_conversations`: enough to render the sidebar (pinned
/// first, with the pin marker) without a second query per row.
#[derive(Debug)]
pub struct Conversation {
    pub id: i64,
    pub title: String,
    pub pinned: bool,
    pub project_id: Option<i64>,
    pub endpoint: Option<String>,
}

pub struct ConversationView {
    pub id: i64,
    pub title: Seq<char>,
    pub pinned: bool,
    pub project_id: Option<i64>,
    pub endpoint: Option<Seq<char>>,
}

impl View for Conversation {
    type V = ConversationView;

    open spec fn view(&self) -> ConversationView {
        ConversationView {
            id: self.id,
            title: self.title@,
            pinned: self.pinned,
            project_id: self.project_id,
            endpoint: crate::message::opt_view(self.endpoint),
        }
    }
}

/// One message among its siblings: its id, branch index and timestamp.
#[derive(Debug, Clone, Copy, PartialEq, Eq)]
pub struct MessageHeader {
    pub id: i64,
    pub branch_index: i64,
    pub created_at: Option<i64>,
}

/// The connection that all conversation queries run on.
pub struct ConversationStorage {
    conn: rusqlite::Connection,
    log: Log,
}

/// The tables of the current schema, as a fresh database gets them.
pub const BASELINE_SCHEMA: &'static str = "CREATE TABLE IF NOT EXISTS schema_version (
        version INTEGER PRIMARY KEY,
        applied_at TEXT NOT NULL DEFAULT (datetime('now'))
    );
    CREATE TABLE IF NOT EXISTS conversations (
        id INTEGER PRIMARY KEY AUTOINCREMENT,
        title TEXT NOT NULL,
        created_at TEXT NOT NULL DEFAULT (datetime('now')),
        updated_at TEXT NOT NULL DEFAULT (datetime('now'))
    );
    CREATE TABLE IF NOT EXISTS messages (
        id INTEGER PRIMARY KEY AUTOINCREMENT,
        conversation_id INTEGER NOT NULL,
        role TEXT NOT NULL,
        content TEXT NOT NULL,
        position INTEGER NOT NULL,
        FOREIGN KEY (conversation_id) REFERENCES conversations(id) ON DELETE CASCADE
    );
    CREATE TABLE IF NOT EXISTS presets (
        id INTEGER PRIMARY KEY AUTOINCREMENT,
        name TEXT NOT NULL,
        created_at TEXT NOT NULL DEFAULT (datetime('now'))
    );
    CREATE TABLE IF NOT EXISTS projects (
        id INTEGER PRIMARY KEY AUTOINCREMENT,
        name TEXT NOT NULL,
        pinned INTEGER NOT NULL DEFAULT 0,
        created_at TEXT NOT NULL DEFAULT (datetime('now'))
    );
    CREATE TABLE IF NOT EXISTS usage (
        id INTEGER PRIMARY KEY AUTOINCREMENT,
        ts TEXT NOT NULL DEFAULT (datetime('now')),
        endpoint TEXT NOT NULL DEFAULT '',
        model TEXT NOT NULL DEFAULT '',
        prompt_tokens INTEGER NOT NULL DEFAULT 0,
        completion_tokens INTEGER NOT NULL DEFAULT 0,
        ttft_ms REAL,
        decode_tok_s REAL,
        cost REAL,
        ok INTEGER NOT NULL DEFAULT 1
    );";

/// The indexes, created once every column is in place.
pub const INDEXES: &'static str = "CREATE INDEX IF NOT EXISTS idx_messages_conv_position ON messages(conversation_id, position);
     CREATE INDEX IF NOT EXISTS idx_messages_parent ON messages(parent_id);
     CREATE INDEX IF NOT EXISTS idx_conversations_pinned_updated ON conversations(pinned DESC, updated_at DESC);
     CREATE INDEX IF NOT EXISTS idx_usage_ts ON usage(ts);
     INSERT OR IGNORE INTO schema_version (version) VALUES (2);";

/// The schema of databases written by version 0.6, before branching and
/// per-conversation settings.
pub const LEGACY_0_6_SCHEMA: &'static str = "CREATE TABLE conversations (
        id INTEGER PRIMARY KEY AUTOINCREMENT,
        title TEXT NOT NULL,
        created_at TEXT NOT NULL DEFAULT (datetime('now')),
        updated_at TEXT NOT NULL DEFAULT (datetime('now'))
    );
    CREATE TABLE messages (
        id INTEGER PRIMARY KEY AUTOINCREMENT,
        conversation_id INTEGER NOT NULL,
        role TEXT NOT NULL,
        content TEXT NOT NULL,
        position INTEGER NOT NULL,
        FOREIGN KEY (conversation_id) REFERENCES conversations(id) ON DELETE CASCADE
    );";

/// The column triples as text.
pub open spec fn columns_view(v: Seq<(&'static str, &'static str, &'static str)>) -> Seq<(Seq<char>, Seq<char>, Seq<char>)> {
    v.map_values(|t: (&'static str, &'static str, &'static str)| (t.0@, t.1@, t.2@))
}

/// The columns that later versions added to each table: `(table, column,
/// type)`, in the order they are brought in.
pub open spec fn spec_v2_columns() -> Seq<(Seq<char>, Seq<char>, Seq<char>)> {
    seq![
        ("conversations"@, "model"@, "TEXT"@),
        ("conversations"@, "system_prompt"@, "TEXT"@),
        ("conversations"@, "temperature"@, "REAL"@),
        ("conversations"@, "max_tokens"@, "INTEGER"@),
        ("conversations"@, "use_max_tokens"@, "INTEGER NOT NULL DEFAULT 0"@),
        ("conversations"@, "top_p"@, "REAL"@),
        ("conversations"@, "frequency_penalty"@, "REAL"@),
        ("conversations"@, "presence_penalty"@, "REAL"@),
        ("conversations"@, "stop_sequences"@, "TEXT"@),
        ("conversations"@, "endpoint"@, "TEXT"@),
        ("conversations"@, "pinned"@, "INTEGER NOT NULL DEFAULT 0"@),
        ("conversations"@, "draft"@, "TEXT"@),
        ("conversations"@, "auto_titled"@, "INTEGER NOT NULL DEFAULT 0"@),
        ("conversations"@, "working_dir"@, "TEXT"@),
        ("conversations"@, "project_id"@, "INTEGER"@),
        ("conversations"@, "auto_compact"@, "INTEGER"@),
        ("conversations"@, "compact_threshold_pct"@, "REAL"@),
        ("conversations"@, "compact_keep_recent"@, "INTEGER"@),
        ("conversations"@, "summary"@, "TEXT"@),
        ("conversations"@, "summary_through"@, "INTEGER"@),
        ("messages"@, "parent_id"@, "INTEGER REFERENCES messages(id) ON DELETE CASCADE"@),
        ("messages"@, "branch_index"@, "INTEGER NOT NULL DEFAULT 0"@),
        ("messages"@, "created_at"@, "INTEGER"@),
        ("messages"@, "tool_calls"@, "TEXT"@),
        ("messages"@, "tool_call_id"@, "TEXT"@),
        ("presets"@, "model"@, "TEXT"@),
        ("presets"@, "system_prompt"@, "TEXT"@),
        ("presets"@, "temperature"@, "REAL"@),
        ("presets"@, "max_tokens"@, "INTEGER"@),
        ("presets"@, "use_max_tokens"@, "INTEGER NOT NULL DEFAULT 0"@),
        ("presets"@, "top_p"@, "REAL"@),
        ("presets"@, "frequency_penalty"@, "REAL"@),
        ("presets"@, "presence_penalty"@, "REAL"@),
        ("presets"@, "stop_sequences"@, "TEXT"@),
        ("presets"@, "endpoint"@, "TEXT"@),
        ("usage"@, "cost"@, "REAL"@),
    ]
}

#[verifier::rlimit(50)]
pub fn v2_columns() -> (r: Vec<(&'static str, &'static str, &'static str)>)
    ensures
        columns_view(r@) == spec_v2_columns(),
{
    let r = vec![
        ("conversations", "model", "TEXT"),
        ("conversations", "system_prompt", "TEXT"),
        ("conversations", "temperature", "REAL"),
        ("conversations", "max_tokens", "INTEGER"),
        ("conversations", "use_max_tokens", "INTEGER NOT NULL DEFAULT 0"),
        ("conversations", "top_p", "REAL"),
        ("conversations", "frequency_penalty", "REAL"),
        ("conversations", "presence_penalty", "REAL"),
        ("conversations", "stop_sequences", "TEXT"),
        ("conversations", "endpoint", "TEXT"),
        ("conversations", "pinned", "INTEGER NOT NULL DEFAULT 0"),
        ("conversations", "draft", "TEXT"),
        ("conversations", "auto_titled", "INTEGER NOT NULL DEFAULT 0"),
        ("conversations", "working_dir", "TEXT"),
        ("conversations", "project_id", "INTEGER"),
        ("conversations", "auto_compact", "INTEGER"),
        ("conversations", "compact_threshold_pct", "REAL"),
        ("conversations", "compact_keep_recent", "INTEGER"),
        ("conversations", "summary", "TEXT"),
        ("conversations", "summary_through", "INTEGER"),
        ("messages", "parent_id", "INTEGER REFERENCES messages(id) ON DELETE CASCADE"),
        ("messages", "branch_index", "INTEGER NOT NULL DEFAULT 0"),
        ("messages", "created_at", "INTEGER"),
        ("messages", "tool_calls", "TEXT"),
        ("messages", "tool_call_id", "TEXT"),
        ("presets", "model", "TEXT"),
        ("presets", "system_prompt", "TEXT"),
        ("presets", "temperature", "REAL"),
        ("presets", "max_tokens", "INTEGER"),
        ("presets", "use_max_tokens", "INTEGER NOT NULL DEFAULT 0"),
        ("presets", "top_p", "REAL"),
        ("presets", "frequency_penalty", "REAL"),
        ("presets", "presence_penalty", "REAL"),
        ("presets", "stop_sequences", "TEXT"),
        ("presets", "endpoint", "TEXT"),
        ("usage", "cost", "REAL"),
    ];
    assert(columns_view(r@) =~= spec_v2_columns());
    r
}

/// The statement that adds a missing column.
pub open spec fn spec_alter_sql(table: Seq<char>, column: Seq<char>, type_def: Seq<char>) -> Seq<char> {
    "ALTER TABLE "@ + table + " ADD COLUMN "@ + column + seq![' '] + type_def
}

pub fn alter_sql(table: &str, column: &str, type_def: &str) -> (r: String)
    ensures
        r@ == spec_alter_sql(table@, column@, type_def@),
{
    let mut out = String::new();
    push_str(&mut out, "ALTER TABLE ");
    push_str(&mut out, table);
    push_str(&mut out, " ADD COLUMN ");
    push_str(&mut out, column);
    crate::text::push_char(&mut out, ' ');
    push_str(&mut out, type_def);
    assert(out@ =~= spec_alter_sql(table@, column@, type_def@));
    out
}

/// Whether a column counts as missing, given the reply to the count of
/// columns by that name: a failed count counts as zero.
pub open spec fn spec_column_missing(reply: Result<Vec<SqlValue>, DbError>) -> bool {
    match spec_reply_i64(reply) {
        Some(n) => n == 0,
        None => true,
    }
}

/// A conversation row of `list_conversations` decoded: `id`, `title` and
/// `pinned` must read as their types or the row is dropped.
pub open spec fn spec_conversation_of(row: Seq<SqlValue>) -> Option<ConversationView> {
    match (spec_as_i64(spec_col(row, 0)), spec_as_text(spec_col(row, 1)), spec_as_i64(spec_col(row, 2))) {
        (Some(id), Some(title), Some(pinned)) => Some(ConversationView {
            id,
            title,
            pinned: pinned != 0,
            project_id: spec_as_i64(spec_col(row, 3)),
            endpoint: spec_as_text(spec_col(row, 4)),
        }),
        _ => None,
    }
}

pub open spec fn spec_conversations(raw: Seq<Result<Vec<SqlValue>, DbError>>) -> Seq<ConversationView>
    decreases raw.len(),
{
    if raw.len() == 0 {
        Seq::empty()
    } else {
        let front = spec_conversations(raw.drop_last());
        match raw.last() {
            Ok(row) => match spec_conversation_of(row@) {
                Some(c) => front.push(c),
                None => front,
            },
            Err(_) => front,
        }
    }
}

pub open spec fn conversations_view(v: Seq<Conversation>) -> Seq<ConversationView> {
    v.map_values(|c: Conversation| c@)
}

pub fn decode_conversations(raw: &Vec<Result<Vec<SqlValue>, DbError>>) -> (r: Vec<Conversation>)
    ensures
        conversations_view(r@) == spec_conversations(raw@),
{
    let mut out: Vec<Conversation> = Vec::new();
    let mut i: usize = 0;
    while i < raw.len()
        invariant
            i <= raw.len(),
            conversations_view(out@) == spec_conversations(raw@.take(i as int)),
        decreases raw.len() - i,
    {
        let ghost before = conversations_view(out@);
        assert(raw@.take(i as int + 1).drop_last() =~= raw@.take(i as int));
        match &raw[i] {
            Ok(row) => match (as_i64(&col(row, 0)), as_text(&col(row, 1)), as_i64(&col(row, 2))) {
                (Some(id), Some(title), Some(pinned)) => {
                    let c = Conversation {
                        id,
                        title,
                        pinned: pinned != 0,
                        project_id: as_i64(&col(row, 3)),
                        endpoint: as_text(&col(row, 4)),
                    };
                    out.push(c);
                    assert(conversations_view(out@) =~= before.push(c@));
                },
                _ => {},
            },
            Err(_) => {},
        }
        i = i + 1;
    }
    assert(raw@.take(raw.len() as int) =~= raw@);
    out
}

/// Listing reads each row by its columns: a row whose id (column 0) and
/// pinned flag (column 2) are integers and whose title (column 1) is text
/// lists, after the rows before it, as the conversation with that id and
/// title, pinned exactly when the flag is non-zero, in the project of
/// column 3 (none unless it is an integer) and with the endpoint of
/// column 4 (none unless it is text).
pub proof fn law_listing_reads_columns(raw: Seq<Result<Vec<SqlValue>, DbError>>, row: Vec<SqlValue>, id: i64, title: Seq<char>, pinned: i64)
    requires
        spec_as_i64(spec_col(row@, 0)) == Some(id),
        spec_as_text(spec_col(row@, 1)) == Some(title),
        spec_as_i64(spec_col(row@, 2)) == Some(pinned),
    ensures
        spec_conversations(raw.push(Ok(row))) == spec_conversations(raw).push(ConversationView {
            id,
            title,
            pinned: pinned != 0,
            project_id: spec_as_i64(spec_col(row@, 3)),
            endpoint: spec_as_text(spec_col(row@, 4)),
        }),
{
    assert(raw.push(Ok(row)).drop_last() =~= raw);
}

/// A row whose step failed, or whose id, title or pinned flag does not read
/// as its type, lists nothing; with no rows nothing is listed.
pub proof fn law_listing_skips_unreadable_rows(raw: Seq<Result<Vec<SqlValue>, DbError>>, bad: Result<Vec<SqlValue>, DbError>)
    requires
        match bad {
            Ok(row) => spec_as_i64(spec_col(row@, 0)) is None || spec_as_text(spec_col(row@, 1)) is None
                || spec_as_i64(spec_col(row@, 2)) is None,
            Err(_) => true,
        },
    ensures
        spec_conversations(raw.push(bad)) == spec_conversations(raw),
        spec_conversations(Seq::empty()) == Seq::<ConversationView>::empty(),
{
    assert(raw.push(bad).drop_last() =~= raw);
}

/// A sibling row decoded: `id` and `branch_index` must be integers.
pub open spec fn spec_header_of(row: Seq<SqlValue>) -> Option<MessageHeader> {
    match (spec_as_i64(spec_col(row, 0)), spec_as_i64(spec_col(row, 1))) {
        (Some(id), Some(branch_index)) => Some(MessageHeader {
            id,
            branch_index,
            created_at: spec_as_i64(spec_col(row, 2)),
        }),
        _ => None,
    }
}

pub open spec fn spec_headers(raw: Seq<Result<Vec<SqlValue>, DbError>>) -> Seq<MessageHeader>
    decreases raw.len(),
{
    if raw.len() == 0 {
        Seq::empty()
    } else {
        let front = spec_headers(raw.drop_last());
        match raw.last() {
            Ok(row) => match spec_header_of(row@) {
                Some(h) => front.push(h),
                None => front,
            },
            Err(_) => front,
        }
    }
}

/// The siblings read each row by its columns: a row whose id (column 0)
/// and branch index (column 1) are integers adds, after the rows before
/// it, that sibling, with the timestamp of column 2 (none unless it is an
/// integer).
pub proof fn law_siblings_read_columns(raw: Seq<Result<Vec<SqlValue>, DbError>>, row: Vec<SqlValue>, id: i64, branch_index: i64)
    requires
        spec_as_i64(spec_col(row@, 0)) == Some(id),
        spec_as_i64(spec_col(row@, 1)) == Some(branch_index),
    ensures
        spec_headers(raw.push(Ok(row))) == spec_headers(raw).push(MessageHeader {
            id,
            branch_index,
            created_at: spec_as_i64(spec_col(row@, 2)),
        }),
{
    assert(raw.push(Ok(row)).drop_last() =~= raw);
}

pub fn decode_headers(raw: &Vec<Result<Vec<SqlValue>, DbError>>) -> (r: Vec<MessageHeader>)
    ensures
        r@ == spec_headers(raw@),
{
    let mut out: Vec<MessageHeader> = Vec::new();
    let mut i: usize = 0;
    while i < raw.len()
        invariant
            i <= raw.len(),
            out@ == spec_headers(raw@.take(i as int)),
        decreases raw.len() - i,
    {
        assert(raw@.take(i as int + 1).drop_last() =~= raw@.take(i as int));
        match &raw[i] {
            Ok(row) => match (as_i64(&col(row, 0)), as_i64(&col(row, 1))) {
                (Some(id), Some(branch_index)) => {
                    out.push(MessageHeader { id, branch_index, created_at: as_i64(&col(row, 2)) });
                },
                _ => {},
            },
            Err(_) => {},
        }
        i = i + 1;
    }
    assert(raw@.take(raw.len() as int) =~= raw@);
    out
}

/// The branch index after the highest one in use (`None` where there is
/// none, or the query failed): the next sibling's index. It wraps at the
/// top of the `i64` range, as the release build of `+ 1` does.
pub open spec fn spec_next_index(max: Option<i64>) -> i64 {
    match max {
        Some(m) => if m == i64::MAX { i64::MIN } else { (m + 1) as i64 },
        None => 0,
    }
}

pub fn next_index(max: Option<i64>) -> (r: i64)
    ensures
        r == spec_next_index(max),
{
    match max {
        Some(m) => m.wrapping_add(1),
        None => 0,
    }
}

/// The compaction state a reply stands for: the summary and the message
/// id it covers, each `None` where NULL; `(None, None)` where the query
/// failed or a column held another type.
pub open spec fn spec_compaction(reply: Result<Vec<SqlValue>, DbError>) -> (Option<Seq<char>>, Option<i64>) {
    match reply {
        Ok(row) => {
            let s = spec_col(row@, 0);
            let t = spec_col(row@, 1);
            let s_ok = s is Null || s is Text;
            let t_ok = t is Null || t is Integer;
            if s_ok && t_ok {
                (spec_as_text(s), spec_as_i64(t))
            } else {
                (None, None)
            }
        },
        Err(_) => (None, None),
    }
}

/// The draft a reply stands for: a non-empty text, or nothing.
pub open spec fn spec_draft(reply: Result<Vec<SqlValue>, DbError>) -> Option<Seq<char>> {
    match reply {
        Ok(row) => match spec_as_text(spec_col(row@, 0)) {
            Some(s) => if s.len() > 0 { Some(s) } else { None },
            None => None,
        },
        Err(_) => None,
    }
}

/// What saving leaves unchanged in a message: everything but its id and
/// parent, an id it already had, and a parent it already had.
pub open spec fn kept_on_save(o: MessageView, n: MessageView) -> bool {
    &&& n.role == o.role
    &&& n.content == o.content
    &&& n.tool_calls == o.tool_calls
    &&& n.tool_call_id == o.tool_call_id
    &&& n.created_at == o.created_at
    &&& n.branch_index == o.branch_index
    &&& (o.id is Some ==> n.id == o.id && n.parent_id == o.parent_id)
    &&& (o.parent_id is Some ==> n.parent_id == o.parent_id)
}

pub fn opt_text_param(o: Option<String>) -> (r: SqlParam)
    ensures
        r == (match o {
            Some(s) => SqlParam::Text(s),
            None => SqlParam::Null,
        }),
{
    match o {
        Some(s) => SqlParam::Text(s),
        None => SqlParam::Null,
    }
}

pub fn opt_int_param(o: Option<i64>) -> (r: SqlParam)
    ensures
        r == (match o {
            Some(i) => SqlParam::Integer(i),
            None => SqlParam::Null,
        }),
{
    match o {
        Some(i) => SqlParam::Integer(i),
        None => SqlParam::Null,
    }
}

pub fn clone_text(o: &Option<String>) -> (r: Option<String>)
    ensures
        r == *o,
{
    crate::message::clone_opt_string(o)
}

/// How a message's tool calls are stored: their JSON, or NULL where there
/// are none.
pub fn stored_calls(m: &Message) -> (r: Option<String>)
    ensures
        crate::message::opt_view(r) == spec_stored_calls(m@),
{
    match &m.tool_calls {
        Some(tcs) => if tcs.len() > 0 {
            Some(calls_json(tcs))
        } else {
            None
        },
        None => None,
    }
}

/// The ids of the `(id, position)` rows a query yielded, in order; rows
/// where either column is not an integer, or whose step failed, are dropped.
pub open spec fn spec_ids(raw: Seq<Result<Vec<SqlValue>, DbError>>) -> Seq<i64>
    decreases raw.len(),
{
    if raw.len() == 0 {
        Seq::empty()
    } else {
        let front = spec_ids(raw.drop_last());
        match raw.last() {
            Ok(row) => match (spec_as_i64(spec_col(row@, 0)), spec_as_i64(spec_col(row@, 1))) {
                (Some(id), Some(_)) => front.push(id),
                _ => front,
            },
            Err(_) => front,
        }
    }
}

pub fn decode_ids(raw: &Vec<Result<Vec<SqlValue>, DbError>>) -> (r: Vec<i64>)
    ensures
        r@ == spec_ids(raw@),
{
    let mut out: Vec<i64> = Vec::new();
    let mut i: usize = 0;
    while i < raw.len()
        invariant
            i <= raw.len(),
            out@ == spec_ids(raw@.take(i as int)),
        decreases raw.len() - i,
    {
        assert(raw@.take(i as int + 1).drop_last() =~= raw@.take(i as int));
        match &raw[i] {
            Ok(row) => match (as_i64(&col(row, 0)), as_i64(&col(row, 1))) {
                (Some(id), Some(_)) => {
                    out.push(id);
                },
                _ => {},
            },
            Err(_) => {},
        }
        i = i + 1;
    }
    assert(raw@.take(raw.len() as int) =~= raw@);
    out
}

pub const COLUMN_COUNT_SQL: &'static str = "SELECT COUNT(*) FROM pragma_table_info(?1) WHERE name = ?2";
pub const CREATE_CONVERSATION_SQL: &'static str = "INSERT INTO conversations (title) VALUES (?1)";
pub const RENAME_CONVERSATION_SQL: &'static str = "UPDATE conversations SET title = ?1, updated_at = datetime('now') WHERE id = ?2";
pub const LIST_CONVERSATIONS_SQL: &'static str = "SELECT id, title, pinned, project_id, endpoint FROM conversations ORDER BY pinned DESC, updated_at DESC";
pub const DELETE_CONVERSATION_MESSAGES_SQL: &'static str = "DELETE FROM messages WHERE conversation_id = ?1";
pub const DELETE_CONVERSATION_SQL: &'static str = "DELETE FROM conversations WHERE id = ?1";
pub const DELETE_ALL_MESSAGES_SQL: &'static str = "DELETE FROM messages";
pub const DELETE_ALL_CONVERSATIONS_SQL: &'static str = "DELETE FROM conversations";
pub const MAX_POSITION_SQL: &'static str = "SELECT COALESCE(MAX(position), -1) FROM messages WHERE conversation_id = ?1";
pub const UPDATE_MESSAGE_SQL: &'static str = "UPDATE messages SET content = ?1, created_at = ?2, tool_calls = ?3, tool_call_id = ?4 WHERE id = ?5";
pub const LAST_ROW_SQL: &'static str = "SELECT id FROM messages WHERE conversation_id = ?1 ORDER BY position DESC LIMIT 1";
pub const INSERT_MESSAGE_SQL: &'static str = "INSERT INTO messages (conversation_id, role, content, position, parent_id, branch_index, created_at, tool_calls, tool_call_id) VALUES (?1, ?2, ?3, ?4, ?5, ?6, ?7, ?8, ?9)";
pub const TOUCH_CONVERSATION_SQL: &'static str = "UPDATE conversations SET updated_at = datetime('now') WHERE id = ?1";
pub const MESSAGE_ROWS_SQL: &'static str = "SELECT id, role, content, created_at, parent_id, branch_index, position, tool_calls, tool_call_id FROM messages WHERE conversation_id = ?1";
pub const PARENTED_COUNT_SQL: &'static str = "SELECT COUNT(*) FROM messages WHERE conversation_id = ?1 AND parent_id IS NOT NULL";
pub const BACKFILL_IDS_SQL: &'static str = "SELECT id, position FROM messages WHERE conversation_id = ?1 ORDER BY position";
pub const SET_PARENT_SQL: &'static str = "UPDATE messages SET parent_id = ?1 WHERE id = ?2";
pub const PARENT_OF_SQL: &'static str = "SELECT parent_id, conversation_id FROM messages WHERE id = ?1";
pub const ROOT_SIBLINGS_SQL: &'static str = "SELECT id, branch_index, created_at FROM messages WHERE conversation_id = ?1 AND parent_id IS NULL ORDER BY branch_index";
pub const CHILD_SIBLINGS_SQL: &'static str = "SELECT id, branch_index, created_at FROM messages WHERE conversation_id = ?1 AND parent_id = ?2 ORDER BY branch_index";
pub const CONVERSATION_OF_SQL: &'static str = "SELECT conversation_id FROM messages WHERE id = ?1";
pub const SEARCH_SQL: &'static str = "SELECT c.id, c.title, m.content FROM messages m JOIN conversations c ON c.id = m.conversation_id WHERE m.content LIKE ?1 ESCAPE '\\' ORDER BY c.updated_at DESC LIMIT 200";
pub const TITLE_SQL: &'static str = "SELECT title FROM conversations WHERE id = ?1";
pub const COMPACTION_SQL: &'static str = "SELECT summary, summary_through FROM conversations WHERE id = ?1";
pub const SAVE_COMPACTION_SQL: &'static str = "UPDATE conversations SET summary = ?1, summary_through = ?2 WHERE id = ?3";
pub const SAVE_DRAFT_SQL: &'static str = "UPDATE conversations SET draft = ?1 WHERE id = ?2";
pub const DRAFT_SQL: &'static str = "SELECT draft FROM conversations WHERE id = ?1";
pub const AUTO_TITLED_SQL: &'static str = "SELECT auto_titled FROM conversations WHERE id = ?1";
pub const MARK_AUTO_TITLED_SQL: &'static str = "UPDATE conversations SET auto_titled = 1 WHERE id = ?1";
pub const CHILD_BRANCH_MAX_SQL: &'static str = "SELECT COALESCE(MAX(branch_index), -1) FROM messages WHERE conversation_id = ?1 AND parent_id = ?2";
pub const ROOT_BRANCH_MAX_SQL: &'static str = "SELECT COALESCE(MAX(branch_index), -1) FROM messages WHERE conversation_id = ?1 AND parent_id IS NULL";
pub const SET_PINNED_SQL: &'static str = "UPDATE conversations SET pinned = ?1 WHERE id = ?2";
pub const LEGACY_CONVERSATION_SQL: &'static str = "INSERT INTO conversations (title) VALUES ('legacy chat')";
pub const LEGACY_MESSAGE_SQL: &'static str = "INSERT INTO messages (conversation_id, role, content, position) VALUES (1, 'user', 'hello from 0.6', 0)";

pub open spec fn int_param(i: i64) -> Seq<ParamView> {
    seq![ParamView::Integer(i)]
}

pub open spec fn opt_int_view(o: Option<i64>) -> ParamView {
    match o {
        Some(i) => ParamView::Integer(i),
        None => ParamView::Null,
    }
}

pub open spec fn opt_text_view(o: Option<Seq<char>>) -> ParamView {
    match o {
        Some(s) => ParamView::Text(s),
        None => ParamView::Null,
    }
}

/// How a message's tool calls are stored: their JSON, or NULL where there
/// are none.
pub open spec fn spec_stored_calls(m: MessageView) -> Option<Seq<char>> {
    match m.tool_calls {
        Some(v) => if v.len() > 0 { Some(crate::message::spec_calls_json(v)) } else { None },
        None => None,
    }
}

/// What updating stored message `id` to `m` binds: the content, the
/// timestamp, the tool calls and the tool call id.
pub open spec fn spec_update_params(m: MessageView, id: i64) -> Seq<ParamView> {
    seq![
        ParamView::Text(crate::message::spec_content_json(m.content)),
        opt_int_view(m.created_at),
        opt_text_view(spec_stored_calls(m)),
        opt_text_view(m.tool_call_id),
        ParamView::Integer(id),
    ]
}

/// What inserting `m` into conversation `conv` at `position` under
/// `parent` binds.
pub open spec fn spec_insert_params(conv: i64, m: MessageView, position: i64, parent: Option<i64>) -> Seq<ParamView> {
    seq![
        ParamView::Integer(conv),
        ParamView::Text(crate::message::spec_role_str(m.role)),
        ParamView::Text(crate::message::spec_content_json(m.content)),
        ParamView::Integer(position),
        opt_int_view(parent),
        ParamView::Integer(m.branch_index),
        opt_int_view(m.created_at),
        opt_text_view(spec_stored_calls(m)),
        opt_text_view(m.tool_call_id),
    ]
}

pub fn update_params(m: &Message, id: i64) -> (r: Vec<SqlParam>)
    ensures
        params_view(r@) == spec_update_params(m@, id),
{
    let r = vec![
        SqlParam::Text(content_json(&m.content)),
        opt_int_param(m.created_at),
        opt_text_param(stored_calls(m)),
        opt_text_param(clone_text(&m.tool_call_id)),
        SqlParam::Integer(id),
    ];
    assert(params_view(r@) =~= spec_update_params(m@, id));
    r
}

pub fn insert_params(conv: i64, m: &Message, position: i64, parent: Option<i64>) -> (r: Vec<SqlParam>)
    ensures
        params_view(r@) == spec_insert_params(conv, m@, position, parent),
{
    let r = vec![
        SqlParam::Integer(conv),
        SqlParam::Text(role_as_str(m.role).to_owned()),
        SqlParam::Text(content_json(&m.content)),
        SqlParam::Integer(position),
        opt_int_param(parent),
        SqlParam::Integer(m.branch_index),
        opt_int_param(m.created_at),
        opt_text_param(stored_calls(m)),
        opt_text_param(clone_text(&m.tool_call_id)),
    ];
    assert(params_view(r@) =~= spec_insert_params(conv, m@, position, parent));
    r
}

/// Updating a stored message binds its content, its own timestamp, its
/// tool calls, its tool call id and then its id, in that order; nothing
/// else about the message (role, parent, branch) changes what is bound.
pub proof fn law_update_binds_own_fields(m: MessageView, n: MessageView, id: i64)
    requires
        n.content == m.content,
        n.created_at == m.created_at,
        n.tool_calls == m.tool_calls,
        n.tool_call_id == m.tool_call_id,
    ensures
        spec_update_params(m, id) == spec_update_params(n, id),
        spec_update_params(m, id).len() == 5,
        spec_update_params(m, id)[0] == ParamView::Text(crate::message::spec_content_json(m.content)),
        spec_update_params(m, id)[1] == (match m.created_at {
            Some(t) => ParamView::Integer(t),
            None => ParamView::Null,
        }),
        spec_update_params(m, id)[3] == (match m.tool_call_id {
            Some(c) => ParamView::Text(c),
            None => ParamView::Null,
        }),
        spec_update_params(m, id)[4] == ParamView::Integer(id),
        m.tool_calls is None ==> spec_update_params(m, id)[2] == ParamView::Null,
{
}

/// Inserting a message binds its conversation, role, content, the
/// position and parent it is given, its own branch index, timestamp, tool
/// calls and tool call id, in that order; the id and parent the message
/// carries itself change nothing that is bound.
pub proof fn law_insert_binds_own_fields(conv: i64, m: MessageView, n: MessageView, position: i64, parent: Option<i64>)
    requires
        n.role == m.role,
        n.content == m.content,
        n.branch_index == m.branch_index,
        n.created_at == m.created_at,
        n.tool_calls == m.tool_calls,
        n.tool_call_id == m.tool_call_id,
    ensures
        spec_insert_params(conv, m, position, parent) == spec_insert_params(conv, n, position, parent),
        spec_insert_params(conv, m, position, parent).len() == 9,
        spec_insert_params(conv, m, position, parent)[0] == ParamView::Integer(conv),
        spec_insert_params(conv, m, position, parent)[1] == ParamView::Text(crate::message::spec_role_str(m.role)),
        spec_insert_params(conv, m, position, parent)[2] == ParamView::Text(crate::message::spec_content_json(m.content)),
        spec_insert_params(conv, m, position, parent)[3] == ParamView::Integer(position),
        spec_insert_params(conv, m, position, parent)[4] == (match parent {
            Some(p) => ParamView::Integer(p),
            None => ParamView::Null,
        }),
        spec_insert_params(conv, m, position, parent)[5] == ParamView::Integer(m.branch_index),
        spec_insert_params(conv, m, position, parent)[6] == (match m.created_at {
            Some(t) => ParamView::Integer(t),
            None => ParamView::Null,
        }),
        spec_insert_params(conv, m, position, parent)[8] == (match m.tool_call_id {
            Some(c) => ParamView::Text(c),
            None => ParamView::Null,
        }),
{
}

/// `p` advanced `n` times by the wrapping `+ 1` that positions use.
pub open spec fn bump_n(p: i64, n: nat) -> i64
    decreases n,
{
    if n == 0 {
        p
    } else {
        spec_next_index(Some(bump_n(p, (n - 1) as nat)))
    }
}

/// How many of the first `k` messages have no id yet, i.e. get inserted.
pub open spec fn inserts_before(ms: Seq<MessageView>, k: int) -> nat
    decreases k,
{
    if k <= 0 || k > ms.len() {
        0
    } else {
        inserts_before(ms, k - 1) + if ms[k - 1].id is None { 1nat } else { 0nat }
    }
}

/// What saving one message sent, where it went through: an UPDATE of a
/// stored message (which keeps it as it was), or the INSERT of a new one
/// at `position` -- preceded, for a first new message without a parent of
/// its own, by the query for the conversation's last stored row, whose id
/// becomes its parent -- followed by reading back its rowid, which
/// becomes its id.
pub open spec fn save_part_done(part: Seq<Sent>, conv: i64, o: MessageView, n: MessageView, prev: Option<i64>, position: i64) -> bool {
    match o.id {
        Some(id) => {
            &&& part.len() == 1
            &&& is_execute(part[0], UPDATE_MESSAGE_SQL@, spec_update_params(o, id))
            &&& execute_ok(part[0])
            &&& n == o
        },
        None => {
            let asks = o.parent_id is None && prev is None;
            let k: int = if asks { 1 } else { 0 };
            let parent = if o.parent_id is Some {
                o.parent_id
            } else if asks {
                spec_reply_i64(row_reply(part[0]))
            } else {
                prev
            };
            &&& part.len() == k + 2
            &&& (asks ==> is_query_row(part[0], LAST_ROW_SQL@, int_param(conv)))
            &&& is_execute(part[k], INSERT_MESSAGE_SQL@, spec_insert_params(conv, o, position, parent))
            &&& execute_ok(part[k])
            &&& part[k + 1] is RowId
            &&& n == MessageView { id: Some(rowid_of(part[k + 1])), parent_id: parent, ..o }
        },
    }
}

/// What a save that went through sent: a transaction, the query for the
/// highest stored position `P`, one part per message (the j-th inserted
/// one at position `P + 1 + j`, wrapping), the conversation's timestamp
/// update, and the commit.
pub open spec fn saved(seg: Seq<Sent>, conv: i64, orig: Seq<MessageView>, fin: Seq<MessageView>) -> bool {
    let start = spec_next_index(spec_reply_i64(row_reply(seg[1])));
    &&& seg.len() >= 4
    &&& begin_ok(seg[0])
    &&& is_query_row(seg[1], MAX_POSITION_SQL@, int_param(conv))
    &&& is_execute(seg[seg.len() - 2], TOUCH_CONVERSATION_SQL@, int_param(conv))
    &&& execute_ok(seg[seg.len() - 2])
    &&& commit_ok(seg.last())
    &&& exists|parts: Seq<Seq<Sent>>| #![trigger parts.flatten()]
        {
            &&& parts.len() == orig.len()
            &&& seg.subrange(2, seg.len() - 2) == parts.flatten()
            &&& forall|k: int| 0 <= k < orig.len() ==> save_part_done(
                #[trigger] parts[k],
                conv,
                orig[k],
                fin[k],
                if k == 0 { None } else { fin[k - 1].id },
                bump_n(start, inserts_before(orig, k)),
            )
        }
}

/// What saving one message sent where it failed there: the UPDATE, or
/// the INSERT (after the parent query where one is asked), and its reply
/// was an error.
pub open spec fn save_part_failed(part: Seq<Sent>, conv: i64, o: MessageView, prev: Option<i64>, position: i64) -> bool {
    match o.id {
        Some(id) => {
            &&& part.len() == 1
            &&& is_execute(part[0], UPDATE_MESSAGE_SQL@, spec_update_params(o, id))
            &&& !execute_ok(part[0])
        },
        None => {
            let asks = o.parent_id is None && prev is None;
            let k: int = if asks { 1 } else { 0 };
            let parent = if o.parent_id is Some {
                o.parent_id
            } else if asks {
                spec_reply_i64(row_reply(part[0]))
            } else {
                prev
            };
            &&& part.len() == k + 1
            &&& (asks ==> is_query_row(part[0], LAST_ROW_SQL@, int_param(conv)))
            &&& is_execute(part[k], INSERT_MESSAGE_SQL@, spec_insert_params(conv, o, position, parent))
            &&& !execute_ok(part[k])
        },
    }
}

/// Each of `parts` is the completed save of the message at its index.
pub open spec fn parts_done(parts: Seq<Seq<Sent>>, conv: i64, orig: Seq<MessageView>, fin: Seq<MessageView>, start: i64) -> bool {
    forall|k: int| 0 <= k < parts.len() ==> save_part_done(
        #[trigger] parts[k],
        conv,
        orig[k],
        fin[k],
        if k == 0 { None } else { fin[k - 1].id },
        bump_n(start, inserts_before(orig, k)),
    )
}

/// An exchange whose reply was a failure: a begin, a statement or a commit.
pub open spec fn failed_entry(e: Sent) -> bool {
    ||| e == Sent::Begin(false)
    ||| e matches Sent::Execute(_, _, Err(_))
    ||| e == Sent::Commit(false)
}

/// Where a save failed after the completed saves of the first `n`
/// messages: the next message's failed part, or, after all of them, a
/// failed timestamp update, or that update and a failed commit.
pub open spec fn save_failed_tail(tail: Seq<Sent>, conv: i64, orig: Seq<MessageView>, fin: Seq<MessageView>, start: i64, n: int) -> bool {
    if n < orig.len() {
        save_part_failed(
            tail,
            conv,
            orig[n],
            if n == 0 { None } else { fin[n - 1].id },
            bump_n(start, inserts_before(orig, n)),
        )
    } else {
        ||| (tail.len() == 1 && is_execute(tail[0], TOUCH_CONVERSATION_SQL@, int_param(conv))
            && !execute_ok(tail[0]))
        ||| (tail.len() == 2 && is_execute(tail[0], TOUCH_CONVERSATION_SQL@, int_param(conv))
            && execute_ok(tail[0]) && tail[1] == Sent::Commit(false))
    }
}

/// A failed tail ends in the failed exchange.
pub proof fn lemma_failed_tail_last(tail: Seq<Sent>, conv: i64, orig: Seq<MessageView>, fin: Seq<MessageView>, start: i64, n: int)
    requires
        0 <= n <= orig.len(),
        save_failed_tail(tail, conv, orig, fin, start, n),
    ensures
        tail.len() >= 1,
        failed_entry(tail.last()),
{
}

/// The log of a save that failed after `parts` completed, in the shape
/// `save_failed` describes.
pub proof fn lemma_save_failed_at(
    start: Seq<Sent>,
    head: Seq<Sent>,
    part_start: Seq<Sent>,
    log: Seq<Sent>,
    parts: Seq<Seq<Sent>>,
    conv: i64,
    ov: Seq<MessageView>,
    fin: Seq<MessageView>,
    start_pos: i64,
)
    requires
        head.len() == start.len() + 2,
        forall|k: int| 0 <= k < start.len() ==> #[trigger] head[k] == start[k],
        head[start.len() as int] == Sent::Begin(true),
        is_query_row(head[start.len() as int + 1], MAX_POSITION_SQL@, int_param(conv)),
        start_pos == spec_next_index(spec_reply_i64(row_reply(head[start.len() as int + 1]))),
        extends(head, part_start),
        since(head, part_start) == parts.flatten(),
        extends(part_start, log),
        parts.len() <= ov.len(),
        parts_done(parts, conv, ov, fin, start_pos),
        save_failed_tail(since(part_start, log), conv, ov, fin, start_pos, parts.len() as int),
    ensures
        extends(start, log),
        save_failed(since(start, log), conv, ov, fin),
        failed_entry(since(start, log)[since(start, log).len() - 1]),
{
    lemma_extends_trans(head, part_start, log);
    let seg = since(start, log);
    let done: int = parts.flatten().len() as int;
    assert(log.subrange(0, head.len() as int) == head);
    assert forall|k: int| 0 <= k < head.len() implies #[trigger] log[k] == head[k] by {
        assert(log.subrange(0, head.len() as int)[k] == log[k]);
    }
    assert(log.subrange(0, start.len() as int) =~= start);
    assert(since(head, part_start).len() == done);
    assert(seg[0] == head[start.len() as int]);
    assert(seg[1] == head[start.len() as int + 1]);
    assert(seg.subrange(2, 2 + done) =~= since(head, log).subrange(0, done));
    assert(since(head, log).subrange(0, done) =~= since(head, part_start));
    assert(seg.subrange(2 + done, seg.len() as int) =~= since(part_start, log));
    lemma_failed_tail_last(since(part_start, log), conv, ov, fin, start_pos, parts.len() as int);
    assert(seg.last() == since(part_start, log).last());
    assert(seg.subrange(2, 2 + done) == parts.flatten());
    assert(save_failed(seg, conv, ov, fin));
}

/// What a save that failed sent: a begin that failed; or, after the begin
/// and the position query, the completed saves of the messages before the
/// failing one and then its failed UPDATE or INSERT; or every message
/// saved and then a failed timestamp update; or that update and a failed
/// commit. Nothing else: a save fails only where the database did.
pub open spec fn save_failed(seg: Seq<Sent>, conv: i64, orig: Seq<MessageView>, fin: Seq<MessageView>) -> bool {
    ||| (seg.len() == 1 && seg[0] == Sent::Begin(false))
    ||| {
        let start = spec_next_index(spec_reply_i64(row_reply(seg[1])));
        &&& seg.len() >= 3
        &&& begin_ok(seg[0])
        &&& is_query_row(seg[1], MAX_POSITION_SQL@, int_param(conv))
        &&& exists|parts: Seq<Seq<Sent>>| #![trigger parts.flatten()]
            {
                let n = parts.len();
                let done: int = parts.flatten().len() as int;
                let tail = seg.subrange(2 + done, seg.len() as int);
                &&& n <= orig.len()
                &&& 2 + done <= seg.len()
                &&& seg.subrange(2, 2 + done) == parts.flatten()
                &&& parts_done(parts, conv, orig, fin, start)
                &&& save_failed_tail(tail, conv, orig, fin, start, n as int)
            }
    }
}

/// Whether a segment of the log holds a commit that went through.
pub open spec fn committed(seg: Seq<Sent>) -> bool {
    exists|k: int| 0 <= k < seg.len() && commit_ok(#[trigger] seg[k])
}

/// What asking whether a column is missing and adding it sent.
pub open spec fn added_column(seg: Seq<Sent>, table: Seq<char>, column: Seq<char>, type_def: Seq<char>) -> bool {
    &&& seg.len() >= 1
    &&& is_query_row(seg[0], COLUMN_COUNT_SQL@, seq![ParamView::Text(table), ParamView::Text(column)])
    &&& if spec_column_missing(row_reply(seg[0])) {
        seg.len() == 2 && is_execute(seg[1], spec_alter_sql(table, column, type_def), seq![])
    } else {
        seg.len() == 1
    }
}

/// What bringing the schema up to the v2 column set sent: one
/// `added_column` run per column of `spec_v2_columns`, in order.
pub open spec fn columns_added(seg: Seq<Sent>) -> bool {
    exists|parts: Seq<Seq<Sent>>| #![trigger parts.flatten()]
    {
        &&& parts.len() == spec_v2_columns().len()
        &&& seg == parts.flatten()
        &&& forall|k: int| 0 <= k < parts.len() ==> added_column(
            #[trigger] parts[k],
            spec_v2_columns()[k].0,
            spec_v2_columns()[k].1,
            spec_v2_columns()[k].2,
        )
    }
}

/// What `init_tables` sent, and whether it succeeded: the baseline
/// tables; where they were created, the missing columns, then the indexes.
pub open spec fn initialized(seg: Seq<Sent>, ok: bool) -> bool {
    &&& seg.len() >= 1
    &&& is_batch(seg[0], BASELINE_SCHEMA@)
    &&& if batch_ok(seg[0]) {
        &&& seg.len() >= 2
        &&& columns_added(seg.subrange(1, seg.len() - 1))
        &&& is_batch(seg.last(), INDEXES@)
        &&& ok == batch_ok(seg.last())
    } else {
        seg.len() == 1 && !ok
    }
}

/// What deleting conversation `id` sent: in one transaction, its messages
/// and then the conversation; the commit only where both went through.
pub open spec fn deleted_conversation(seg: Seq<Sent>, id: i64) -> bool {
    &&& seg.len() >= 1
    &&& is_begin(seg[0])
    &&& if begin_ok(seg[0]) {
        &&& seg.len() >= 3
        &&& is_execute(seg[1], DELETE_CONVERSATION_MESSAGES_SQL@, int_param(id))
        &&& is_execute(seg[2], DELETE_CONVERSATION_SQL@, int_param(id))
        &&& if execute_ok(seg[1]) && execute_ok(seg[2]) {
            seg.len() == 4 && is_commit(seg[3])
        } else {
            seg.len() == 3
        }
    } else {
        seg.len() == 1
    }
}

/// What deleting everything sent, and whether it succeeded: in one
/// transaction, all messages, then all conversations, then the commit;
/// each step only after the one before went through.
pub open spec fn deleted_all(seg: Seq<Sent>, ok: bool) -> bool {
    &&& seg.len() >= 1
    &&& is_begin(seg[0])
    &&& (!begin_ok(seg[0]) ==> seg.len() == 1 && !ok)
    &&& (begin_ok(seg[0]) ==> {
        &&& seg.len() >= 2
        &&& is_execute(seg[1], DELETE_ALL_MESSAGES_SQL@, seq![])
        &&& (!execute_ok(seg[1]) ==> seg.len() == 2 && !ok)
        &&& (execute_ok(seg[1]) ==> {
            &&& seg.len() >= 3
            &&& is_execute(seg[2], DELETE_ALL_CONVERSATIONS_SQL@, seq![])
            &&& (!execute_ok(seg[2]) ==> seg.len() == 3 && !ok)
            &&& (execute_ok(seg[2]) ==> seg.len() == 4 && is_commit(seg[3]) && ok == commit_ok(seg[3]))
        })
    })
}

/// Whether the backfill has work to do, given the count of messages that
/// already have a parent: not where that count reads as positive.
pub open spec fn spec_backfill_needed(reply: Result<Vec<SqlValue>, DbError>) -> bool {
    !(spec_reply_i64(reply) matches Some(n) && n > 0)
}

pub fn backfill_needed(reply: &Result<Vec<SqlValue>, DbError>) -> (r: bool)
    ensures
        r == spec_backfill_needed(*reply),
{
    match reply_i64(reply) {
        Some(n) => n <= 0,
        None => true,
    }
}

pub open spec fn link_params(link: (i64, i64)) -> Seq<ParamView> {
    seq![ParamView::Integer(link.0), ParamView::Integer(link.1)]
}

/// The first `n` entries of `w` set the parents of the first `n` links,
/// and each went through.
pub open spec fn links_ok(w: Seq<Sent>, links: Seq<(i64, i64)>, n: int) -> bool {
    forall|k: int| 0 <= k < n ==> is_execute(#[trigger] w[k], SET_PARENT_SQL@, link_params(links[k])) && execute_ok(w[k])
}

/// What writing the backfill links sent, and whether it succeeded: each
/// link in order, stopping at the first that failed; the commit after all
/// of them went through.
pub open spec fn links_written(w: Seq<Sent>, links: Seq<(i64, i64)>, ok: bool) -> bool {
    ||| {
        &&& w.len() == links.len() + 1
        &&& links_ok(w, links, links.len() as int)
        &&& is_commit(w.last())
        &&& ok == commit_ok(w.last())
    }
    ||| {
        &&& 1 <= w.len() <= links.len()
        &&& links_ok(w, links, w.len() - 1)
        &&& is_execute(w.last(), SET_PARENT_SQL@, link_params(links[w.len() - 1]))
        &&& !execute_ok(w.last())
        &&& !ok
    }
}

/// What the backfill sent, and whether it succeeded.
pub open spec fn backfilled(seg: Seq<Sent>, conv: i64, ok: bool) -> bool {
    &&& seg.len() >= 1
    &&& is_query_row(seg[0], PARENTED_COUNT_SQL@, int_param(conv))
    &&& if !spec_backfill_needed(row_reply(seg[0])) {
        seg.len() == 1 && ok
    } else {
        &&& seg.len() >= 2
        &&& is_begin(seg[1])
        &&& if !begin_ok(seg[1]) {
            seg.len() == 2 && !ok
        } else {
            &&& seg.len() >= 3
            &&& is_query(seg[2], BACKFILL_IDS_SQL@, int_param(conv))
            &&& if !query_ok(seg[2]) {
                seg.len() == 3 && !ok
            } else {
                links_written(
                    seg.subrange(3, seg.len() as int),
                    crate::history::backfill_links(spec_ids(rows_reply(seg[2]))),
                    ok,
                )
            }
        }
    }
}

/// Which siblings to ask for, given the reply about a message: its
/// conversation and its parent (`None`: a root message); nothing where
/// the message is not found or a column reads as another type.
pub open spec fn spec_sibling_query(reply: Result<Vec<SqlValue>, DbError>) -> Option<(i64, Option<i64>)> {
    match reply {
        Ok(row) => match spec_as_i64(spec_col(row@, 1)) {
            Some(c) => match spec_col(row@, 0) {
                SqlValue::Null => Some((c, None)),
                SqlValue::Integer(p) => Some((c, Some(p))),
                _ => None,
            },
            None => None,
        },
        Err(_) => None,
    }
}

pub fn sibling_query(reply: &Result<Vec<SqlValue>, DbError>) -> (r: Option<(i64, Option<i64>)>)
    ensures
        r == spec_sibling_query(*reply),
{
    match reply {
        Ok(row) => match as_i64(&col(row, 1)) {
            Some(c) => match col(row, 0) {
                SqlValue::Null => Some((c, None)),
                SqlValue::Integer(p) => Some((c, Some(p))),
                _ => None,
            },
            None => None,
        },
        Err(_) => None,
    }
}

/// The title a reply stands for, "Conversation" where it cannot be read.
pub open spec fn spec_title(reply: Result<Vec<SqlValue>, DbError>) -> Seq<char> {
    match reply {
        Ok(row) => match spec_as_text(spec_col(row@, 0)) {
            Some(t) => t,
            None => "Conversation"@,
        },
        Err(_) => "Conversation"@,
    }
}

pub fn title_of(reply: &Result<Vec<SqlValue>, DbError>) -> (r: String)
    ensures
        r@ == spec_title(*reply),
{
    match reply {
        Ok(row) => match as_text(&col(row, 0)) {
            Some(t) => t,
            None => "Conversation".to_owned(),
        },
        Err(_) => "Conversation".to_owned(),
    }
}

/// What the legacy test database was built with.
pub open spec fn built_legacy(log: Seq<Sent>) -> bool {
    &&& log.len() == 4
    &&& log[0] == Sent::OpenMemory
    &&& is_batch(log[1], LEGACY_0_6_SCHEMA@) && batch_ok(log[1])
    &&& is_execute(log[2], LEGACY_CONVERSATION_SQL@, seq![]) && execute_ok(log[2])
    &&& is_execute(log[3], LEGACY_MESSAGE_SQL@, seq![]) && execute_ok(log[3])
}

/// The message of a failed `init_tables`, by the step that failed.
pub open spec fn init_error(seg: Seq<Sent>) -> Seq<char> {
    if batch_ok(seg[0]) {
        "Failed to create indexes"@
    } else {
        "Failed to create baseline tables"@
    }
}

impl ConversationStorage {
    /// Everything this storage has exchanged with the database, in order.
    pub closed spec fn sent(&self) -> Seq<Sent> {
        self.log.sent()
    }

    /// The log is this storage's connection's own.
    pub closed spec fn wf(&self) -> bool {
        self.log.conn() == self.conn
    }

    /// Opens the database file at `path` with write-ahead logging, foreign
    /// keys and a five-second busy timeout, and brings its schema up to
    /// date. An error names the step that failed and carries what was
    /// exchanged up to it: it comes only where the open of the file or a
    /// schema step failed.
    pub fn open(path: &str) -> (r: Result<ConversationStorage, OpenError>)
        ensures
            r matches Ok(s) ==> s.wf(),
            r matches Ok(s) ==> s.sent().len() >= 3 && opened_file(s.sent().subrange(0, 3), path@)
                && initialized(s.sent().subrange(3, s.sent().len() as int), true),
            r matches Err(e) ==> {
                ||| (e.sent() == seq![Sent::Open(path@, false)] && e.text() == "Failed to open database"@)
                ||| {
                    &&& e.sent().len() >= 3
                    &&& opened_file(e.sent().subrange(0, 3), path@)
                    &&& initialized(e.sent().subrange(3, e.sent().len() as int), false)
                    &&& e.text() == init_error(e.sent().subrange(3, e.sent().len() as int))
                }
            },
    {
        let (conn, mut log) = match db_open(path) {
            Ok(p) => p,
            Err(e) => return Err(e.with_message("Failed to open database".to_owned())),
        };
        let _ = db_execute_batch(&conn, &mut log, FILE_PRAGMAS);
        let _ = db_busy_timeout(&conn, &mut log, 5);
        let mut storage = ConversationStorage { conn, log };
        let ghost before = storage.log.sent();
        assert(before.subrange(0, 3) =~= before);
        let r = storage.init_tables();
        proof {
            assert(storage.log.sent().subrange(0, 3) =~= before);
            assert(storage.log.sent().subrange(3, storage.log.sent().len() as int) =~= since(before, storage.log.sent()));
        }
        match r {
            Ok(()) => Ok(storage),
            Err(m) => {
                let ConversationStorage { conn, log } = storage;
                Err(log.fail(m))
            },
        }
    }

    /// A fresh in-memory database with the current schema.
    pub fn new_in_memory() -> (r: Result<ConversationStorage, String>)
        ensures
            r matches Err(e) ==> e@ == "open :memory:"@ || e@ == "Failed to create baseline tables"@
                || e@ == "Failed to create indexes"@,
            r matches Ok(s) ==> s.wf(),
            r matches Ok(s) ==> s.sent().len() >= 2 && s.sent()[0] == Sent::OpenMemory
                && is_batch(s.sent()[1], MEMORY_PRAGMAS@)
                && initialized(s.sent().subrange(2, s.sent().len() as int), true),
    {
        let (conn, mut log) = match db_open_in_memory() {
            Ok(p) => p,
            Err(_) => return Err("open :memory:".to_owned()),
        };
        let _ = db_execute_batch(&conn, &mut log, MEMORY_PRAGMAS);
        let mut storage = ConversationStorage { conn, log };
        let ghost before = storage.log.sent();
        match storage.init_tables() {
            Ok(()) => {
                assert(storage.log.sent().subrange(0, 2) =~= before);
                assert(storage.log.sent()[0] == before[0]);
                assert(storage.log.sent()[1] == before[1]);
                assert(storage.log.sent().subrange(2, storage.log.sent().len() as int) =~= since(before, storage.log.sent()));
                Ok(storage)
            },
            Err(e) => Err(e),
        }
    }

    /// An in-memory database as version 0.6 left it: the old schema, one
    /// conversation titled "legacy chat" and one user message.
    pub fn new_legacy_0_6_with_data() -> (r: Result<ConversationStorage, String>)
        ensures
            r matches Err(e) ==> e@ == "open :memory:"@ || e@ == "create legacy schema"@
                || e@ == "insert legacy conversation"@ || e@ == "insert legacy message"@,
            r matches Ok(s) ==> s.wf(),
            r matches Ok(s) ==> built_legacy(s.sent()),
    {
        let (conn, mut log) = match db_open_in_memory() {
            Ok(p) => p,
            Err(_) => return Err("open :memory:".to_owned()),
        };
        if db_execute_batch(&conn, &mut log, LEGACY_0_6_SCHEMA).is_err() {
            return Err("create legacy schema".to_owned());
        }
        let none: Vec<SqlParam> = Vec::new();
        assert(params_view(none@) =~= seq![]);
        if db_execute(&conn, &mut log, LEGACY_CONVERSATION_SQL, &none).is_err() {
            return Err("insert legacy conversation".to_owned());
        }
        if db_execute(&conn, &mut log, LEGACY_MESSAGE_SQL, &none).is_err() {
            return Err("insert legacy message".to_owned());
        }
        Ok(ConversationStorage { conn, log })
    }

    /// The connection this storage runs its statements on.
    pub closed spec fn db(&self) -> rusqlite::Connection {
        self.conn
    }

    /// The connection, for callers that run their own statements (which
    /// the log does not record).
    pub fn connection(&self) -> (r: &rusqlite::Connection)
        ensures
            *r == self.db(),
    {
        &self.conn
    }

    /// Creates any missing table, adds any missing column, then the
    /// indexes. Running it again changes nothing.
    pub fn init_tables(&mut self) -> (r: Result<(), String>)
        requires
            old(self).wf(),
        ensures
            final(self).wf(),
            extends(old(self).sent(), final(self).sent()),
            initialized(since(old(self).sent(), final(self).sent()), r is Ok),
            r matches Err(e) ==> e@ == "Failed to create baseline tables"@ || e@ == "Failed to create indexes"@,
            r matches Err(e) ==> e@ == init_error(since(old(self).sent(), final(self).sent())),
    {
        let ghost start = self.log.sent();
        if db_execute_batch(&self.conn, &mut self.log, BASELINE_SCHEMA).is_err() {
            proof { lemma_extends_push(start, self.log.sent().last()); assert(self.log.sent() == start.push(self.log.sent().last())); }
            return Err("Failed to create baseline tables".to_owned());
        }
        let ghost after_base = self.log.sent();
        proof { lemma_extends_push(start, self.log.sent().last()); assert(self.log.sent() =~= start.push(self.log.sent().last())); }
        self.ensure_v2_columns();
        let ghost after_cols = self.log.sent();
        let r = db_execute_batch(&self.conn, &mut self.log, INDEXES);
        proof {
            lemma_extends_trans(start, after_base, after_cols);
            lemma_extends_push(after_cols, self.log.sent().last());
            assert(self.log.sent() =~= after_cols.push(self.log.sent().last()));
            lemma_extends_trans(start, after_cols, self.log.sent());
            let seg = since(start, self.log.sent());
            assert(seg.subrange(1, seg.len() - 1) =~= since(after_base, after_cols));
        }
        if r.is_err() {
            return Err("Failed to create indexes".to_owned());
        }
        Ok(())
    }

    /// Brings every table up to the v2 column set by adding any column
    /// that is missing.
    pub fn ensure_v2_columns(&mut self)
        requires
            old(self).wf(),
        ensures
            final(self).wf(),
            extends(old(self).sent(), final(self).sent()),
            columns_added(since(old(self).sent(), final(self).sent())),
    {
        let ghost start = self.log.sent();
        let cols = v2_columns();
        let ghost mut parts: Seq<Seq<Sent>> = Seq::empty();
        proof { lemma_extends_refl(start); }
        let mut i: usize = 0;
        while i < cols.len()
            invariant
                self.wf(),
                i <= cols.len(),
                columns_view(cols@) == spec_v2_columns(),
                extends(start, self.log.sent()),
                parts.len() == i,
                since(start, self.log.sent()) == parts.flatten(),
                forall|k: int| 0 <= k < i ==> added_column(
                    #[trigger] parts[k],
                    spec_v2_columns()[k].0,
                    spec_v2_columns()[k].1,
                    spec_v2_columns()[k].2,
                ),
            decreases cols.len() - i,
        {
            let (table, column, type_def) = cols[i];
            assert(columns_view(cols@)[i as int] == (table@, column@, type_def@));
            let ghost before = self.log.sent();
            self.add_column_if_missing(table, column, type_def);
            proof {
                lemma_extends_trans(start, before, self.log.sent());
                let seg = since(before, self.log.sent());
                let old_parts = parts;
                old_parts.lemma_flatten_push(seg);
                parts = old_parts.push(seg);
                assert forall|k: int| 0 <= k < i + 1 implies added_column(
                    #[trigger] parts[k],
                    spec_v2_columns()[k].0,
                    spec_v2_columns()[k].1,
                    spec_v2_columns()[k].2,
                ) by {
                    if k < i {
                        assert(parts[k] == old_parts[k]);
                    }
                }
            }
            i = i + 1;
        }
        proof {
            assert(columns_added(since(start, self.log.sent())));
        }
    }

    /// Adds `column` to `table` unless a column of that name exists. A
    /// failure to add it is left for the next start to retry. Returns
    /// whether the column counted as missing.
    pub fn add_column_if_missing(&mut self, table: &str, column: &str, type_def: &str) -> (r: bool)
        requires
            old(self).wf(),
        ensures
            final(self).wf(),
            extends(old(self).sent(), final(self).sent()),
            added_column(since(old(self).sent(), final(self).sent()), table@, column@, type_def@),
            r == spec_column_missing(row_reply(since(old(self).sent(), final(self).sent())[0])),
    {
        let ghost start = self.log.sent();
        let params = vec![SqlParam::Text(table.to_owned()), SqlParam::Text(column.to_owned())];
        assert(params_view(params@) =~= seq![ParamView::Text(table@), ParamView::Text(column@)]);
        let reply = db_query_row(&self.conn, &mut self.log, COLUMN_COUNT_SQL, &params);
        let ghost mid = self.log.sent();
        proof { lemma_extends_push(start, mid.last()); assert(mid =~= start.push(mid.last())); }
        let missing = match reply_i64(&reply) {
            Some(n) => n == 0,
            None => true,
        };
        assert(missing == spec_column_missing(reply));
        if missing {
            let sql = alter_sql(table, column, type_def);
            let none: Vec<SqlParam> = Vec::new();
            assert(params_view(none@) =~= seq![]);
            let _ = db_execute(&self.conn, &mut self.log, sql.as_str(), &none);
            proof {
                lemma_extends_push(mid, self.log.sent().last());
                assert(self.log.sent() =~= mid.push(self.log.sent().last()));
                lemma_extends_trans(start, mid, self.log.sent());
            }
        }
        missing
    }

    pub fn create_conversation(&mut self, title: &str) -> (r: Result<i64, String>)
        requires
            old(self).wf(),
        ensures
            final(self).wf(),
            extends(old(self).sent(), final(self).sent()),
            ({
                let seg = since(old(self).sent(), final(self).sent());
                &&& seg.len() >= 1
                &&& is_execute(seg[0], CREATE_CONVERSATION_SQL@, seq![ParamView::Text(title@)])
                &&& if execute_ok(seg[0]) {
                    seg.len() == 2 && seg[1] is RowId && r == Ok::<i64, String>(rowid_of(seg[1]))
                } else {
                    seg.len() == 1 && r is Err
                }
            }),
            r matches Err(e) ==> exists|d: DbError| e@ == "Failed to create conversation: "@ + d.message@,
    {
        let ghost start = self.log.sent();
        let params = vec![SqlParam::Text(title.to_owned())];
        assert(params_view(params@) =~= seq![ParamView::Text(title@)]);
        let r = match db_execute(&self.conn, &mut self.log, CREATE_CONVERSATION_SQL, &params) {
            Ok(_) => Ok(db_rowid(&self.conn, &mut self.log)),
            Err(e) => Err(prefixed("Failed to create conversation: ", e)),
        };
        proof { assert(self.log.sent().subrange(0, start.len() as int) =~= start); }
        r
    }

    pub fn update_conversation_title(&mut self, id: i64, title: &str)
        requires
            old(self).wf(),
        ensures
            final(self).wf(),
            final(self).sent().len() == old(self).sent().len() + 1,
            final(self).sent().drop_last() == old(self).sent(),
            is_execute(final(self).sent().last(), RENAME_CONVERSATION_SQL@, seq![ParamView::Text(title@), ParamView::Integer(id)]),
    {
        let params = vec![SqlParam::Text(title.to_owned()), SqlParam::Integer(id)];
        assert(params_view(params@) =~= seq![ParamView::Text(title@), ParamView::Integer(id)]);
        let _ = db_execute(&self.conn, &mut self.log, RENAME_CONVERSATION_SQL, &params);
    }

    /// Every conversation, pinned ones first, most recently updated first
    /// within each group (the order the query asks SQLite for).
    pub fn list_conversations(&mut self) -> (r: Vec<Conversation>)
        requires
            old(self).wf(),
        ensures
            final(self).wf(),
            final(self).sent().len() == old(self).sent().len() + 1,
            final(self).sent().drop_last() == old(self).sent(),
            is_query(final(self).sent().last(), LIST_CONVERSATIONS_SQL@, seq![]),
            conversations_view(r@) == spec_conversations(rows_reply(final(self).sent().last())),
    {
        let none: Vec<SqlParam> = Vec::new();
        assert(params_view(none@) =~= seq![]);
        match db_query(&self.conn, &mut self.log, LIST_CONVERSATIONS_SQL, &none) {
            Ok(raw) => {
                let r = decode_conversations(&raw);
                assert(conversations_view(r@) == spec_conversations(raw@));
                r
            },
            Err(_) => {
                let r: Vec<Conversation> = Vec::new();
                assert(conversations_view(r@) =~= spec_conversations(Seq::empty()));
                r
            },
        }
    }

    /// Deletes a conversation and its messages together; where either
    /// delete fails, nothing is committed.
    pub fn delete_conversation(&mut self, id: i64)
        requires
            old(self).wf(),
        ensures
            final(self).wf(),
            extends(old(self).sent(), final(self).sent()),
            deleted_conversation(since(old(self).sent(), final(self).sent()), id),
    {
        let ghost start = self.log.sent();
        if let Ok(tx) = db_transaction(&self.conn, &mut self.log) {
            let params = vec![SqlParam::Integer(id)];
            assert(params_view(params@) =~= int_param(id));
            let r1 = db_execute(&self.conn, &mut self.log, DELETE_CONVERSATION_MESSAGES_SQL, &params);
            let r2 = db_execute(&self.conn, &mut self.log, DELETE_CONVERSATION_SQL, &params);
            if r1.is_ok() && r2.is_ok() {
                let _ = tx_commit(tx, &mut self.log);
            }
        }
        proof { assert(self.log.sent().subrange(0, start.len() as int) =~= start); }
    }

    pub fn delete_all_conversations(&mut self) -> (r: Result<(), String>)
        requires
            old(self).wf(),
        ensures
            final(self).wf(),
            extends(old(self).sent(), final(self).sent()),
            deleted_all(since(old(self).sent(), final(self).sent()), r is Ok),
            r matches Err(e) ==> exists|d: DbError| {
                ||| e@ == "Failed to start transaction: "@ + d.message@
                ||| e@ == "Failed to delete messages: "@ + d.message@
                ||| e@ == "Failed to delete conversations: "@ + d.message@
                ||| e@ == "Failed to commit: "@ + d.message@
            },
    {
        let ghost start = self.log.sent();
        let tx = match db_transaction(&self.conn, &mut self.log) {
            Ok(tx) => tx,
            Err(e) => {
                proof { assert(self.log.sent().subrange(0, start.len() as int) =~= start); }
                return Err(prefixed("Failed to start transaction: ", e));
            },
        };
        let none: Vec<SqlParam> = Vec::new();
        assert(params_view(none@) =~= seq![]);
        if let Err(e) = db_execute(&self.conn, &mut self.log, DELETE_ALL_MESSAGES_SQL, &none) {
            proof { assert(self.log.sent().subrange(0, start.len() as int) =~= start); }
            return Err(prefixed("Failed to delete messages: ", e));
        }
        if let Err(e) = db_execute(&self.conn, &mut self.log, DELETE_ALL_CONVERSATIONS_SQL, &none) {
            proof { assert(self.log.sent().subrange(0, start.len() as int) =~= start); }
            return Err(prefixed("Failed to delete conversations: ", e));
        }
        let r = match tx_commit(tx, &mut self.log) {
            Ok(()) => Ok(()),
            Err(e) => Err(prefixed("Failed to commit: ", e)),
        };
        proof { assert(self.log.sent().subrange(0, start.len() as int) =~= start); }
        r
    }

    /// Saves messages incrementally: those with an id are updated in place
    /// (content, timestamp, tool calls); those without are inserted after
    /// the conversation's last position and get their new id written back.
    /// An inserted message without a parent gets the message before it in
    /// `messages` as parent, or, for the first one, the conversation's last
    /// stored message. All of it commits together or not at all.
    #[verifier::rlimit(80)]
    pub fn save_messages(&mut self, conversation_id: i64, messages: &mut [Message]) -> (r: Result<(), String>)
        requires
            old(self).wf(),
        ensures
            final(self).wf(),
            final(messages)@.len() == old(messages)@.len(),
            forall|i: int| 0 <= i < old(messages)@.len() ==> kept_on_save(old(messages)@[i]@, #[trigger] final(messages)@[i]@),
            r is Ok ==> forall|i: int| 0 <= i < final(messages)@.len() ==> (#[trigger] final(messages)@[i]).id is Some,
            r is Ok ==> forall|i: int| 0 < i < final(messages)@.len() && (#[trigger] old(messages)@[i]).id is None
                && old(messages)@[i].parent_id is None ==> final(messages)@[i].parent_id == final(messages)@[i - 1].id,
            extends(old(self).sent(), final(self).sent()),
            r is Ok ==> saved(
                since(old(self).sent(), final(self).sent()),
                conversation_id,
                messages_view(old(messages)@),
                messages_view(final(messages)@),
            ),
            r is Err ==> uncommitted(since(old(self).sent(), final(self).sent())),
            r is Err ==> save_failed(
                since(old(self).sent(), final(self).sent()),
                conversation_id,
                messages_view(old(messages)@),
                messages_view(final(messages)@),
            ),
            r is Err ==> failed_entry(final(self).sent().last()),
            (forall|k: int| 0 <= k < since(old(self).sent(), final(self).sent()).len()
                ==> !failed_entry(#[trigger] since(old(self).sent(), final(self).sent())[k])) ==> r is Ok,
            r matches Err(e) ==> exists|d: DbError| {
                ||| e@ == "Failed to start transaction: "@ + d.message@
                ||| e@ == "Failed to update message: "@ + d.message@
                ||| e@ == "Failed to insert message: "@ + d.message@
                ||| e@ == "Failed to update timestamp: "@ + d.message@
                ||| e@ == "Failed to commit: "@ + d.message@
            },
    {
        let ghost orig = messages@;
        let ghost ov = messages_view(orig);
        let ghost start = self.log.sent();
        let tx = match db_transaction(&self.conn, &mut self.log) {
            Ok(tx) => tx,
            Err(e) => {
                assert forall|i: int| 0 <= i < orig.len() implies kept_on_save(orig[i]@, messages@[i]@) by {}
                proof {
                    lemma_uncommitted(start, self.log.sent());
                    assert(since(start, self.log.sent()) =~= seq![Sent::Begin(false)]);
                    assert(failed_entry(since(start, self.log.sent())[0]));
                }
                return Err(prefixed("Failed to start transaction: ", e));
            },
        };
        let conv_param = vec![SqlParam::Integer(conversation_id)];
        assert(params_view(conv_param@) =~= int_param(conversation_id));
        let max_reply = db_query_row(&self.conn, &mut self.log, MAX_POSITION_SQL, &conv_param);
        let max_position = reply_i64(&max_reply);
        let ghost head = self.log.sent();
        let mut next_position: i64 = next_index(max_position);
        let ghost start_pos = next_position;
        let ghost mut parts: Seq<Seq<Sent>> = Seq::empty();
        proof {
            lemma_extends_refl(head);
            assert(since(head, self.log.sent()) =~= parts.flatten());
        }
        let mut prev_id: Option<i64> = None;
        let mut i: usize = 0;
        while i < messages.len()
            invariant
                self.wf(),
                tx.conn() == self.conn,
                i <= messages@.len(),
                orig == old(messages)@,
                ov == messages_view(orig),
                messages@.len() == orig.len(),
                forall|j: int| 0 <= j < orig.len() ==> kept_on_save(orig[j]@, #[trigger] messages@[j]@),
                forall|j: int| i <= j < orig.len() ==> (#[trigger] messages@[j])@ == orig[j]@,
                forall|j: int| 0 <= j < i ==> (#[trigger] messages@[j]).id is Some,
                forall|j: int| 0 < j < i && (#[trigger] orig[j]).id is None && orig[j].parent_id is None
                    ==> messages@[j].parent_id == messages@[j - 1].id,
                prev_id == (if i == 0 { None } else { messages@[i - 1].id }),
                head.len() == start.len() + 2,
                forall|k: int| 0 <= k < start.len() ==> head[k] == start[k],
                head[start.len() as int] == Sent::Begin(true),
                head[start.len() as int + 1] == Sent::QueryRow(MAX_POSITION_SQL@, int_param(conversation_id), max_reply),
                start_pos == spec_next_index(spec_reply_i64(max_reply)),
                extends(head, self.log.sent()),
                since(head, self.log.sent()) == parts.flatten(),
                parts.len() == i,
                forall|k: int| 0 <= k < i ==> save_part_done(
                    #[trigger] parts[k],
                    conversation_id,
                    ov[k],
                    messages@[k]@,
                    if k == 0 { None } else { messages@[k - 1].id },
                    bump_n(start_pos, inserts_before(ov, k)),
                ),
                next_position == bump_n(start_pos, inserts_before(ov, i as int)),
                forall|k: int| start.len() <= k < self.log.sent().len() ==> !commit_ok(#[trigger] self.log.sent()[k]),
                start.len() <= self.log.sent().len(),
                forall|k: int| 0 <= k < start.len() ==> #[trigger] self.log.sent()[k] == start[k],
                start == old(self).log.sent(),
                params_view(conv_param@) == int_param(conversation_id),
            decreases orig.len() - i,
        {
            let ghost part_start = self.log.sent();
            let ghost before = messages@;
            let ghost pos = next_position;
            let ghost prev = prev_id;
            match messages[i].id {
                Some(id) => {
                    let params = update_params(&messages[i], id);
                    if let Err(e) = db_execute(&self.conn, &mut self.log, UPDATE_MESSAGE_SQL, &params) {
                        proof {
                            lemma_uncommitted(start, self.log.sent());
                            assert(since(part_start, self.log.sent()) =~= seq![self.log.sent().last()]);
                            assert(save_part_failed(since(part_start, self.log.sent()), conversation_id, ov[i as int], prev, pos));
                            assert(parts_done(parts, conversation_id, ov, messages_view(messages@), start_pos));
                            lemma_extends_push(part_start, self.log.sent().last());
                            lemma_save_failed_at(start, head, part_start, self.log.sent(), parts, conversation_id, ov,
                                messages_view(messages@), start_pos);
                            assert(start == old(self).sent());
                            assert(failed_entry(since(old(self).sent(), self.sent())[since(old(self).sent(), self.sent()).len() - 1]));
                        }
                        return Err(prefixed("Failed to update message: ", e));
                    }
                    prev_id = Some(id);
                    proof {
                        let part = since(part_start, self.log.sent());
                        assert(part =~= seq![self.log.sent().last()]);
                        assert(save_part_done(part, conversation_id, ov[i as int], messages@[i as int]@, prev, pos));
                    }
                },
                None => {
                    if messages[i].parent_id.is_none() {
                        let parent = match prev_id {
                            Some(p) => Some(p),
                            None => reply_i64(&db_query_row(&self.conn, &mut self.log, LAST_ROW_SQL, &conv_param)),
                        };
                        messages[i].parent_id = parent;
                    }
                    let ghost asked = self.log.sent();
                    assert forall|j: int| 0 <= j < orig.len() implies kept_on_save(orig[j]@, #[trigger] messages@[j]@) by {
                        if j != i {
                            assert(messages@[j] == before[j]);
                        }
                    }
                    let params = insert_params(conversation_id, &messages[i], next_position, messages[i].parent_id);
                    if let Err(e) = db_execute(&self.conn, &mut self.log, INSERT_MESSAGE_SQL, &params) {
                        proof {
                            lemma_uncommitted(start, self.log.sent());
                            let part = since(part_start, self.log.sent());
                            let o = ov[i as int];
                            if o.parent_id is None && prev is None {
                                assert(part =~= seq![asked.last(), self.log.sent().last()]);
                            } else {
                                assert(asked == part_start);
                                assert(part =~= seq![self.log.sent().last()]);
                            }
                            assert(save_part_failed(part, conversation_id, o, prev, pos));
                            assert forall|k: int| 0 <= k < i implies messages@[k] == before[k] by {}
                            assert(parts_done(parts, conversation_id, ov, messages_view(messages@), start_pos));
                            assert(self.log.sent().subrange(0, part_start.len() as int) =~= part_start);
                            lemma_save_failed_at(start, head, part_start, self.log.sent(), parts, conversation_id, ov,
                                messages_view(messages@), start_pos);
                            assert(start == old(self).sent());
                            assert(failed_entry(since(old(self).sent(), self.sent())[since(old(self).sent(), self.sent()).len() - 1]));
                        }
                        return Err(prefixed("Failed to insert message: ", e));
                    }
                    let new_id = db_rowid(&self.conn, &mut self.log);
                    let ghost mid = messages@;
                    messages[i].id = Some(new_id);
                    assert forall|j: int| 0 <= j < orig.len() implies kept_on_save(orig[j]@, #[trigger] messages@[j]@) by {
                        if j != i {
                            assert(messages@[j] == mid[j]);
                        }
                    }
                    prev_id = Some(new_id);
                    next_position = next_index(Some(next_position));
                    proof {
                        let part = since(part_start, self.log.sent());
                        let o = ov[i as int];
                        assert(o == orig[i as int]@);
                        if o.parent_id is None && prev is None {
                            assert(asked.len() == part_start.len() + 1);
                            assert(part =~= seq![asked.last(), self.log.sent()[self.log.sent().len() - 2], self.log.sent().last()]);
                        } else {
                            assert(asked == part_start);
                            assert(part =~= seq![self.log.sent()[self.log.sent().len() - 2], self.log.sent().last()]);
                        }
                        assert(messages@[i as int]@ == MessageView { id: Some(new_id), parent_id: mid[i as int].parent_id, ..o });
                        assert(save_part_done(part, conversation_id, o, messages@[i as int]@, prev, pos));
                    }
                },
            }
            proof {
                let part = since(part_start, self.log.sent());
                assert(self.log.sent().subrange(0, part_start.len() as int) =~= part_start);
                lemma_extends_trans(head, part_start, self.log.sent());
                let old_parts = parts;
                old_parts.lemma_flatten_push(part);
                parts = old_parts.push(part);
                assert forall|k: int| 0 <= k < i + 1 implies save_part_done(
                    #[trigger] parts[k],
                    conversation_id,
                    ov[k],
                    messages@[k]@,
                    if k == 0 { None } else { messages@[k - 1].id },
                    bump_n(start_pos, inserts_before(ov, k)),
                ) by {
                    if k < i {
                        assert(parts[k] == old_parts[k]);
                        assert(messages@[k] == before[k]);
                        if k > 0 {
                            assert(messages@[k - 1] == before[k - 1]);
                        }
                    } else if k > 0 {
                        assert(messages@[k - 1] == before[k - 1]);
                    }
                }
                assert(inserts_before(ov, i + 1) == inserts_before(ov, i as int) + if ov[i as int].id is None { 1nat } else { 0nat });
            }
            assert forall|j: int| i + 1 <= j < orig.len() implies (#[trigger] messages@[j])@ == orig[j]@ by {
                assert(messages@[j] == before[j]);
            }
            assert forall|j: int| 0 <= j < i + 1 implies (#[trigger] messages@[j]).id is Some by {
                if j < i {
                    assert(messages@[j] == before[j]);
                }
            }
            assert forall|j: int| 0 < j < i + 1 && (#[trigger] orig[j]).id is None && orig[j].parent_id is None
                implies messages@[j].parent_id == messages@[j - 1].id by {
                if j < i {
                    assert(messages@[j] == before[j]);
                    assert(messages@[j - 1] == before[j - 1]);
                } else {
                    assert(messages@[j - 1] == before[j - 1]);
                }
            }
            i = i + 1;
        }
        let ghost body_end = self.log.sent();
        proof {
            assert forall|k: int| 0 <= k < ov.len() implies save_part_done(
                #[trigger] parts[k],
                conversation_id,
                ov[k],
                messages_view(messages@)[k],
                if k == 0 { None } else { messages_view(messages@)[k - 1].id },
                bump_n(start_pos, inserts_before(ov, k)),
            ) by {}
            assert(parts_done(parts, conversation_id, ov, messages_view(messages@), start_pos));
        }
        if let Err(e) = db_execute(&self.conn, &mut self.log, TOUCH_CONVERSATION_SQL, &conv_param) {
            proof {
                lemma_uncommitted(start, self.log.sent());
                lemma_extends_push(body_end, self.log.sent().last());
                assert(self.log.sent() =~= body_end.push(self.log.sent().last()));
                lemma_save_failed_at(start, head, body_end, self.log.sent(), parts, conversation_id, ov,
                    messages_view(messages@), start_pos);
                assert(start == old(self).sent());
                assert(failed_entry(since(old(self).sent(), self.sent())[since(old(self).sent(), self.sent()).len() - 1]));
            }
            return Err(prefixed("Failed to update timestamp: ", e));
        }
        let ghost touched = self.log.sent();
        match tx_commit(tx, &mut self.log) {
            Ok(()) => {
                proof {
                    lemma_prefix(start, self.log.sent());
                    let seg = since(start, self.log.sent());
                    assert(seg[0] == Sent::Begin(true));
                    assert(seg[1] == head[start.len() as int + 1]);
                    assert(seg.subrange(2, seg.len() - 2) =~= since(head, body_end));
                    assert(messages_view(messages@).len() == ov.len());
                    assert forall|k: int| 0 <= k < ov.len() implies save_part_done(
                        #[trigger] parts[k],
                        conversation_id,
                        ov[k],
                        messages_view(messages@)[k],
                        if k == 0 { None } else { messages_view(messages@)[k - 1].id },
                        bump_n(start_pos, inserts_before(ov, k)),
                    ) by {}
                    assert(saved(seg, conversation_id, ov, messages_view(messages@)));
                }
                Ok(())
            },
            Err(e) => {
                proof {
                    lemma_uncommitted(start, self.log.sent());
                    assert(self.log.sent().subrange(0, body_end.len() as int) =~= body_end);
                    assert(since(body_end, self.log.sent()) =~= seq![touched.last(), self.log.sent().last()]);
                    lemma_save_failed_at(start, head, body_end, self.log.sent(), parts, conversation_id, ov,
                        messages_view(messages@), start_pos);
                    assert(start == old(self).sent());
                    assert(failed_entry(since(old(self).sent(), self.sent())[since(old(self).sent(), self.sent()).len() - 1]));
                }
                Err(prefixed("Failed to commit: ", e))
            },
        }
    }

    /// The decoded rows of a conversation, in the order SQLite returns
    /// them; `None` where the query could not run.
    pub fn fetch_all_message_rows(&mut self, conversation_id: i64) -> (r: Option<Vec<MessageRow>>)
        requires
            old(self).wf(),
        ensures
            final(self).wf(),
            final(self).sent().len() == old(self).sent().len() + 1,
            final(self).sent().drop_last() == old(self).sent(),
            is_query(final(self).sent().last(), MESSAGE_ROWS_SQL@, int_param(conversation_id)),
            r is Some <==> query_ok(final(self).sent().last()),
            r matches Some(v) ==> crate::history::rows_view(v@) == spec_decode_rows(rows_reply(final(self).sent().last())),
    {
        let params = vec![SqlParam::Integer(conversation_id)];
        assert(params_view(params@) =~= int_param(conversation_id));
        match db_query(&self.conn, &mut self.log, MESSAGE_ROWS_SQL, &params) {
            Ok(raw) => {
                let rows = decode_rows(&raw);
                assert(crate::history::rows_view(rows@) == spec_decode_rows(raw@));
                Some(rows)
            },
            Err(_) => None,
        }
    }

    /// The messages of a conversation as shown: the active branch, or, for
    /// a history without parent links, every message in position order.
    pub fn load_messages(&mut self, conversation_id: i64) -> (r: Vec<Message>)
        requires
            old(self).wf(),
        ensures
            final(self).wf(),
            final(self).sent().len() == old(self).sent().len() + 1,
            final(self).sent().drop_last() == old(self).sent(),
            is_query(final(self).sent().last(), MESSAGE_ROWS_SQL@, int_param(conversation_id)),
            messages_view(r@) == spec_load(spec_decode_rows(rows_reply(final(self).sent().last()))),
    {
        match self.fetch_all_message_rows(conversation_id) {
            Some(rows) => load_from_rows(rows),
            None => {
                let r: Vec<Message> = Vec::new();
                assert(messages_view(r@) =~= spec_load(spec_decode_rows(Seq::empty())));
                r
            },
        }
    }

    /// One-time backfill for histories written before branching: where no
    /// message of the conversation has a parent yet, each one's parent
    /// becomes the message before it in position order.
    pub fn backfill_parent_ids(&mut self, conversation_id: i64) -> (r: Result<(), String>)
        requires
            old(self).wf(),
        ensures
            final(self).wf(),
            extends(old(self).sent(), final(self).sent()),
            backfilled(since(old(self).sent(), final(self).sent()), conversation_id, r is Ok),
            r matches Err(e) ==> exists|d: DbError| {
                ||| e@ == "Failed to start backfill tx: "@ + d.message@
                ||| e@ == "Failed to prepare backfill query: "@ + d.message@
                ||| e@ == "Failed to query backfill rows: "@ + d.message@
                ||| e@ == "Failed backfill update: "@ + d.message@
                ||| e@ == "Failed to commit backfill: "@ + d.message@
            },
    {
        let ghost start = self.log.sent();
        let conv_param = vec![SqlParam::Integer(conversation_id)];
        assert(params_view(conv_param@) =~= int_param(conversation_id));
        let count = db_query_row(&self.conn, &mut self.log, PARENTED_COUNT_SQL, &conv_param);
        if !backfill_needed(&count) {
            proof { lemma_prefix(start, self.log.sent()); assert(since(start, self.log.sent()) =~= seq![self.log.sent().last()]); }
            return Ok(());
        }
        let tx = match db_transaction(&self.conn, &mut self.log) {
            Ok(tx) => tx,
            Err(e) => {
                proof { lemma_prefix(start, self.log.sent()); assert(since(start, self.log.sent()).len() == 2); }
                return Err(prefixed("Failed to start backfill tx: ", e));
            },
        };
        let raw = match db_query(&self.conn, &mut self.log, BACKFILL_IDS_SQL, &conv_param) {
            Ok(raw) => raw,
            Err(crate::db::QueryFailure::Prepare(e)) => {
                proof { lemma_prefix(start, self.log.sent()); }
                return Err(prefixed("Failed to prepare backfill query: ", e));
            },
            Err(crate::db::QueryFailure::Run(e)) => {
                proof { lemma_prefix(start, self.log.sent()); }
                return Err(prefixed("Failed to query backfill rows: ", e));
            },
        };
        let ghost head = self.log.sent();
        let links = backfill_plan(&decode_ids(&raw));
        assert(links@ == crate::history::backfill_links(spec_ids(rows_reply(head.last()))));
        let mut i: usize = 0;
        while i < links.len()
            invariant
                self.wf(),
                tx.conn() == self.conn,
                i <= links.len(),
                head.len() <= self.log.sent().len(),
                self.log.sent().len() == head.len() + i,
                forall|k: int| 0 <= k < head.len() ==> #[trigger] self.log.sent()[k] == head[k],
                head.len() == start.len() + 3,
                forall|k: int| 0 <= k < start.len() ==> #[trigger] head[k] == start[k],
                is_query_row(head[start.len() as int], PARENTED_COUNT_SQL@, int_param(conversation_id)),
                spec_backfill_needed(row_reply(head[start.len() as int])),
                head[start.len() as int + 1] == Sent::Begin(true),
                is_query(head[start.len() as int + 2], BACKFILL_IDS_SQL@, int_param(conversation_id)),
                query_ok(head[start.len() as int + 2]),
                links@ == crate::history::backfill_links(spec_ids(rows_reply(head[start.len() as int + 2]))),
                links_ok(self.log.sent().subrange(head.len() as int, self.log.sent().len() as int), links@, i as int),
                start == old(self).log.sent(),
            decreases links.len() - i,
        {
            let (parent, child) = links[i];
            let params = vec![SqlParam::Integer(parent), SqlParam::Integer(child)];
            assert(params_view(params@) =~= link_params(links@[i as int]));
            let ghost before = self.log.sent();
            let res = db_execute(&self.conn, &mut self.log, SET_PARENT_SQL, &params);
            proof {
                let w0 = before.subrange(head.len() as int, before.len() as int);
                let w1 = self.log.sent().subrange(head.len() as int, self.log.sent().len() as int);
                assert forall|k: int| 0 <= k < i implies #[trigger] w1[k] == w0[k] by {}
            }
            if let Err(e) = res {
                proof {
                    lemma_prefix(start, self.log.sent());
                    let w = since(start, self.log.sent()).subrange(3, since(start, self.log.sent()).len() as int);
                    assert(w =~= self.log.sent().subrange(head.len() as int, self.log.sent().len() as int));
                }
                return Err(prefixed("Failed backfill update: ", e));
            }
            proof {
                let w1 = self.log.sent().subrange(head.len() as int, self.log.sent().len() as int);
                assert(w1[i as int] == self.log.sent().last());
                assert(links_ok(w1, links@, i + 1));
            }
            i = i + 1;
        }
        let ghost pre_log = self.log.sent();
        let r = match tx_commit(tx, &mut self.log) {
            Ok(()) => Ok(()),
            Err(e) => Err(prefixed("Failed to commit backfill: ", e)),
        };
        proof {
            lemma_prefix(start, self.log.sent());
            let w = since(start, self.log.sent()).subrange(3, since(start, self.log.sent()).len() as int);
            assert(w =~= self.log.sent().subrange(head.len() as int, self.log.sent().len() as int));
            let pre = pre_log.subrange(head.len() as int, pre_log.len() as int);
            assert forall|k: int| 0 <= k < links@.len() implies #[trigger] w[k] == pre[k] by {}
            assert(links_ok(w, links@, links@.len() as int));
        }
        r
    }

    /// The messages that share a parent with `message_id` (itself
    /// included), in branch order; empty where it is not found.
    pub fn siblings_of(&mut self, message_id: i64) -> (r: Vec<MessageHeader>)
        requires
            old(self).wf(),
        ensures
            final(self).wf(),
            extends(old(self).sent(), final(self).sent()),
            ({
                let seg = since(old(self).sent(), final(self).sent());
                &&& seg.len() >= 1
                &&& is_query_row(seg[0], PARENT_OF_SQL@, int_param(message_id))
                &&& match spec_sibling_query(row_reply(seg[0])) {
                    None => seg.len() == 1 && r@.len() == 0,
                    Some((c, None)) => seg.len() == 2 && is_query(seg[1], ROOT_SIBLINGS_SQL@, int_param(c))
                        && r@ == spec_headers(rows_reply(seg[1])),
                    Some((c, Some(p))) => seg.len() == 2
                        && is_query(seg[1], CHILD_SIBLINGS_SQL@, seq![ParamView::Integer(c), ParamView::Integer(p)])
                        && r@ == spec_headers(rows_reply(seg[1])),
                }
            }),
    {
        let ghost start = self.log.sent();
        let id_param = vec![SqlParam::Integer(message_id)];
        assert(params_view(id_param@) =~= int_param(message_id));
        let reply = db_query_row(&self.conn, &mut self.log, PARENT_OF_SQL, &id_param);
        let empty: Vec<MessageHeader> = Vec::new();
        assert(empty@ =~= spec_headers(Seq::empty()));
        let raw = match sibling_query(&reply) {
            None => {
                proof { lemma_prefix(start, self.log.sent()); assert(since(start, self.log.sent()) =~= seq![self.log.sent().last()]); }
                return empty;
            },
            Some((conv_id, None)) => {
                let params = vec![SqlParam::Integer(conv_id)];
                assert(params_view(params@) =~= int_param(conv_id));
                db_query(&self.conn, &mut self.log, ROOT_SIBLINGS_SQL, &params)
            },
            Some((conv_id, Some(pid))) => {
                let params = vec![SqlParam::Integer(conv_id), SqlParam::Integer(pid)];
                assert(params_view(params@) =~= seq![ParamView::Integer(conv_id), ParamView::Integer(pid)]);
                db_query(&self.conn, &mut self.log, CHILD_SIBLINGS_SQL, &params)
            },
        };
        proof {
            lemma_prefix(start, self.log.sent());
            assert(since(start, self.log.sent()) =~= seq![self.log.sent()[self.log.sent().len() - 2], self.log.sent().last()]);
        }
        match raw {
            Ok(raw) => decode_headers(&raw),
            Err(_) => empty,
        }
    }

    /// The message `start_id` followed by the active branch below it;
    /// empty where the message is not found.
    pub fn walk_from(&mut self, start_id: i64) -> (r: Vec<Message>)
        requires
            old(self).wf(),
        ensures
            final(self).wf(),
            extends(old(self).sent(), final(self).sent()),
            ({
                let seg = since(old(self).sent(), final(self).sent());
                &&& seg.len() >= 1
                &&& is_query_row(seg[0], CONVERSATION_OF_SQL@, int_param(start_id))
                &&& match spec_reply_i64(row_reply(seg[0])) {
                    None => seg.len() == 1 && r@.len() == 0,
                    Some(c) => seg.len() == 2 && is_query(seg[1], MESSAGE_ROWS_SQL@, int_param(c))
                        && messages_view(r@) == spec_walk(spec_decode_rows(rows_reply(seg[1])), start_id),
                }
            }),
    {
        let ghost start = self.log.sent();
        let empty: Vec<Message> = Vec::new();
        assert(messages_view(empty@) =~= spec_walk(spec_decode_rows(Seq::empty()), start_id));
        let id_param = vec![SqlParam::Integer(start_id)];
        assert(params_view(id_param@) =~= int_param(start_id));
        let conv_id = match reply_i64(&db_query_row(&self.conn, &mut self.log, CONVERSATION_OF_SQL, &id_param)) {
            Some(c) => c,
            None => {
                proof { lemma_prefix(start, self.log.sent()); assert(since(start, self.log.sent()) =~= seq![self.log.sent().last()]); }
                return empty;
            },
        };
        let ghost mid = self.log.sent();
        let rows = self.fetch_all_message_rows(conv_id);
        proof {
            lemma_one_more(mid, self.log.sent());
            lemma_prefix(start, self.log.sent());
            assert(since(start, self.log.sent()) =~= seq![self.log.sent()[self.log.sent().len() - 2], self.log.sent().last()]);
        }
        match rows {
            Some(rows) => walk_from_rows(&rows, start_id),
            None => empty,
        }
    }

    /// Conversations whose messages contain `query` in their text, ASCII
    /// case ignored: `(conversation id, title, message text)`, at most 50,
    /// most recently updated conversations first. SQLite narrows the
    /// candidates (at most 200) with an escaped LIKE pattern; the text
    /// parts are then checked, so matches inside JSON keys do not count.
    pub fn search(&mut self, query: &str) -> (r: Vec<Candidate>)
        requires
            old(self).wf(),
        ensures
            final(self).wf(),
            final(self).sent().len() == old(self).sent().len() + 1,
            final(self).sent().drop_last() == old(self).sent(),
            is_query(final(self).sent().last(), SEARCH_SQL@, seq![ParamView::Text(spec_like_pattern(query@))]),
            candidates_view(r@) == spec_search_results(spec_candidates(rows_reply(final(self).sent().last())), query@),
    {
        let pattern = like_pattern(query);
        let params = vec![SqlParam::Text(pattern)];
        assert(params_view(params@) =~= seq![ParamView::Text(spec_like_pattern(query@))]);
        let raw = match db_query(&self.conn, &mut self.log, SEARCH_SQL, &params) {
            Ok(raw) => raw,
            Err(_) => Vec::new(),
        };
        assert(raw@ == rows_reply(self.log.sent().last()));
        let cands = candidates(&raw);
        filter_hits(cands, query)
    }

    /// The conversation as Markdown: its title (or "Conversation" where it
    /// cannot be read) and the messages `load_messages` shows.
    pub fn export_markdown(&mut self, conversation_id: i64) -> (r: String)
        requires
            old(self).wf(),
        ensures
            final(self).wf(),
            extends(old(self).sent(), final(self).sent()),
            ({
                let seg = since(old(self).sent(), final(self).sent());
                &&& seg.len() == 2
                &&& is_query(seg[0], MESSAGE_ROWS_SQL@, int_param(conversation_id))
                &&& is_query_row(seg[1], TITLE_SQL@, int_param(conversation_id))
                &&& r@ == spec_markdown(spec_title(row_reply(seg[1])), spec_load(spec_decode_rows(rows_reply(seg[0]))))
            }),
    {
        let ghost start = self.log.sent();
        let messages = self.load_messages(conversation_id);
        proof { lemma_one_more(start, self.log.sent()); }
        let params = vec![SqlParam::Integer(conversation_id)];
        assert(params_view(params@) =~= int_param(conversation_id));
        let reply = db_query_row(&self.conn, &mut self.log, TITLE_SQL, &params);
        let title = title_of(&reply);
        let r = render_markdown(title.as_str(), &messages);
        proof {
            lemma_prefix(start, self.log.sent());
            assert(since(start, self.log.sent()) =~= seq![self.log.sent()[self.log.sent().len() - 2], self.log.sent().last()]);
            assert(messages@.map_values(|m: Message| m@) == messages_view(messages@));
        }
        r
    }

    /// The compaction summary and the message id it covers (inclusive);
    /// `(None, None)` for a conversation never compacted.
    pub fn load_compaction(&mut self, id: i64) -> (r: (Option<String>, Option<i64>))
        requires
            old(self).wf(),
        ensures
            final(self).wf(),
            final(self).sent().len() == old(self).sent().len() + 1,
            final(self).sent().drop_last() == old(self).sent(),
            is_query_row(final(self).sent().last(), COMPACTION_SQL@, int_param(id)),
            (crate::message::opt_view(r.0), r.1) == spec_compaction(row_reply(final(self).sent().last())),
    {
        let params = vec![SqlParam::Integer(id)];
        assert(params_view(params@) =~= int_param(id));
        let reply = db_query_row(&self.conn, &mut self.log, COMPACTION_SQL, &params);
        let r = match &reply {
            Ok(row) => {
                let s = col(row, 0);
                let t = col(row, 1);
                let s_ok = match s { SqlValue::Null => true, SqlValue::Text(_) => true, _ => false };
                let t_ok = match t { SqlValue::Null => true, SqlValue::Integer(_) => true, _ => false };
                if s_ok && t_ok {
                    (as_text(&s), as_i64(&t))
                } else {
                    (None, None)
                }
            },
            Err(_) => (None, None),
        };
        assert((crate::message::opt_view(r.0), r.1) == spec_compaction(reply));
        r
    }

    pub fn save_compaction(&mut self, id: i64, summary: &str, through: i64)
        requires
            old(self).wf(),
        ensures
            final(self).wf(),
            final(self).sent().len() == old(self).sent().len() + 1,
            final(self).sent().drop_last() == old(self).sent(),
            is_execute(
                final(self).sent().last(),
                SAVE_COMPACTION_SQL@,
                seq![ParamView::Text(summary@), ParamView::Integer(through), ParamView::Integer(id)],
            ),
    {
        let params = vec![SqlParam::Text(summary.to_owned()), SqlParam::Integer(through), SqlParam::Integer(id)];
        assert(params_view(params@) =~= seq![ParamView::Text(summary@), ParamView::Integer(through), ParamView::Integer(id)]);
        let _ = db_execute(&self.conn, &mut self.log, SAVE_COMPACTION_SQL, &params);
    }

    pub fn save_draft(&mut self, id: i64, draft: &str)
        requires
            old(self).wf(),
        ensures
            final(self).wf(),
            final(self).sent().len() == old(self).sent().len() + 1,
            final(self).sent().drop_last() == old(self).sent(),
            is_execute(final(self).sent().last(), SAVE_DRAFT_SQL@, seq![ParamView::Text(draft@), ParamView::Integer(id)]),
    {
        let params = vec![SqlParam::Text(draft.to_owned()), SqlParam::Integer(id)];
        assert(params_view(params@) =~= seq![ParamView::Text(draft@), ParamView::Integer(id)]);
        let _ = db_execute(&self.conn, &mut self.log, SAVE_DRAFT_SQL, &params);
    }

    /// The saved draft; an empty draft reads as none.
    pub fn load_draft(&mut self, id: i64) -> (r: Option<String>)
        requires
            old(self).wf(),
        ensures
            final(self).wf(),
            final(self).sent().len() == old(self).sent().len() + 1,
            final(self).sent().drop_last() == old(self).sent(),
            is_query_row(final(self).sent().last(), DRAFT_SQL@, int_param(id)),
            crate::message::opt_view(r) == spec_draft(row_reply(final(self).sent().last())),
            r matches Some(s) ==> s@.len() > 0,
    {
        let params = vec![SqlParam::Integer(id)];
        assert(params_view(params@) =~= int_param(id));
        let reply = db_query_row(&self.conn, &mut self.log, DRAFT_SQL, &params);
        let r = match &reply {
            Ok(row) => match as_text(&col(row, 0)) {
                Some(s) => if !s.as_str().is_empty() {
                    Some(s)
                } else {
                    None
                },
                None => None,
            },
            Err(_) => None,
        };
        assert(crate::message::opt_view(r) == spec_draft(reply));
        r
    }

    /// Whether the conversation still needs an automatic title: its flag
    /// reads as unset; a conversation that cannot be read does not.
    pub fn needs_auto_title(&mut self, id: i64) -> (r: bool)
        requires
            old(self).wf(),
        ensures
            final(self).wf(),
            final(self).sent().len() == old(self).sent().len() + 1,
            final(self).sent().drop_last() == old(self).sent(),
            is_query_row(final(self).sent().last(), AUTO_TITLED_SQL@, int_param(id)),
            r == (spec_reply_i64(row_reply(final(self).sent().last())) == Some(0i64)),
    {
        let params = vec![SqlParam::Integer(id)];
        assert(params_view(params@) =~= int_param(id));
        let reply = db_query_row(&self.conn, &mut self.log, AUTO_TITLED_SQL, &params);
        match reply_i64(&reply) {
            Some(v) => v == 0,
            None => false,
        }
    }

    pub fn mark_auto_titled(&mut self, id: i64)
        requires
            old(self).wf(),
        ensures
            final(self).wf(),
            final(self).sent().len() == old(self).sent().len() + 1,
            final(self).sent().drop_last() == old(self).sent(),
            is_execute(final(self).sent().last(), MARK_AUTO_TITLED_SQL@, int_param(id)),
    {
        let params = vec![SqlParam::Integer(id)];
        assert(params_view(params@) =~= int_param(id));
        let _ = db_execute(&self.conn, &mut self.log, MARK_AUTO_TITLED_SQL, &params);
    }

    /// The branch index for a new child of `parent_id` (`None`: a root
    /// message): one past the highest index in use there, 0 for the first.
    pub fn next_branch_index(&mut self, conversation_id: i64, parent_id: Option<i64>) -> (r: i64)
        requires
            old(self).wf(),
        ensures
            final(self).wf(),
            final(self).sent().len() == old(self).sent().len() + 1,
            final(self).sent().drop_last() == old(self).sent(),
            match parent_id {
                Some(p) => is_query_row(
                    final(self).sent().last(),
                    CHILD_BRANCH_MAX_SQL@,
                    seq![ParamView::Integer(conversation_id), ParamView::Integer(p)],
                ),
                None => is_query_row(final(self).sent().last(), ROOT_BRANCH_MAX_SQL@, int_param(conversation_id)),
            },
            r == spec_next_index(spec_reply_i64(row_reply(final(self).sent().last()))),
    {
        let reply = match parent_id {
            Some(pid) => {
                let params = vec![SqlParam::Integer(conversation_id), SqlParam::Integer(pid)];
                assert(params_view(params@) =~= seq![ParamView::Integer(conversation_id), ParamView::Integer(pid)]);
                db_query_row(&self.conn, &mut self.log, CHILD_BRANCH_MAX_SQL, &params)
            },
            None => {
                let params = vec![SqlParam::Integer(conversation_id)];
                assert(params_view(params@) =~= int_param(conversation_id));
                db_query_row(&self.conn, &mut self.log, ROOT_BRANCH_MAX_SQL, &params)
            },
        };
        next_index(reply_i64(&reply))
    }

    pub fn set_pinned(&mut self, id: i64, pinned: bool)
        requires
            old(self).wf(),
        ensures
            final(self).wf(),
            final(self).sent().len() == old(self).sent().len() + 1,
            final(self).sent().drop_last() == old(self).sent(),
            is_execute(
                final(self).sent().last(),
                SET_PINNED_SQL@,
                seq![ParamView::Integer(if pinned { 1i64 } else { 0i64 }), ParamView::Integer(id)],
            ),
    {
        let params = vec![SqlParam::Integer(if pinned { 1 } else { 0 }), SqlParam::Integer(id)];
        assert(params_view(params@) =~= seq![ParamView::Integer(if pinned { 1i64 } else { 0i64 }), ParamView::Integer(id)]);
        let _ = db_execute(&self.conn, &mut self.log, SET_PINNED_SQL, &params);
    }
}

} // verus!
