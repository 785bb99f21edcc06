//! Usage records: one row per completed stream turn. The integer side of
//! the aggregates (counts, token totals, the daily series, percentile
//! ranks) and retention live here.

use vstd::prelude::*;
use crate::db::{
    as_i64, as_text, batch_ok, col, db_busy_timeout, db_execute, db_execute_batch, db_open,
    db_open_in_memory, db_query, db_query_row, execute_count, is_execute, is_query, is_query_row,
    opened_file, opened_memory, params_view, row_reply, rows_reply, spec_as_i64, spec_as_text,
    spec_col, DbError, Log, OpenError, ParamView, Sent, SqlParam, SqlValue, FILE_PRAGMAS, MEMORY_PRAGMAS,
};
use crate::text::{decimal, push_decimal, push_str};

verus! {

/// Tokens used on one day.
#[derive(Debug)]
pub struct UsageDaily {
    pub date: String,
    pub total_tokens: i64,
}

/// The counts of the usage table: requests, successful requests, and
/// token totals.
#[derive(Debug, Clone, Copy, PartialEq, Eq, Default)]
pub struct UsageCounts {
    pub total_requests: i64,
    pub ok_requests: i64,
    pub prompt_tokens: i64,
    pub completion_tokens: i64,
    pub total_tokens: i64,
}

/// `a + b` as the release build computes it: wrapping at the ends of the
/// `i64` range.
pub open spec fn wrapping_sum(a: i64, b: i64) -> i64 {
    if a + b > i64::MAX {
        (a + b - 0x1_0000_0000_0000_0000) as i64
    } else if a + b < i64::MIN {
        (a + b + 0x1_0000_0000_0000_0000) as i64
    } else {
        (a + b) as i64
    }
}

/// The counts a reply stands for: all zero where the query failed or a
/// column is not an integer; the total is prompt plus completion tokens.
pub open spec fn spec_counts(reply: Result<Vec<SqlValue>, DbError>) -> UsageCounts {
    match reply {
        Ok(row) => match (
            spec_as_i64(spec_col(row@, 0)),
            spec_as_i64(spec_col(row@, 1)),
            spec_as_i64(spec_col(row@, 2)),
            spec_as_i64(spec_col(row@, 3)),
        ) {
            (Some(n), Some(ok), Some(p), Some(c)) => UsageCounts {
                total_requests: n,
                ok_requests: ok,
                prompt_tokens: p,
                completion_tokens: c,
                total_tokens: wrapping_sum(p, c),
            },
            _ => UsageCounts { total_requests: 0, ok_requests: 0, prompt_tokens: 0, completion_tokens: 0, total_tokens: 0 },
        },
        Err(_) => UsageCounts { total_requests: 0, ok_requests: 0, prompt_tokens: 0, completion_tokens: 0, total_tokens: 0 },
    }
}

/// The totals read the reply's columns in order: requests (column 0),
/// successful requests (column 1), prompt tokens (column 2) and
/// completion tokens (column 3), the total being their sum (wrapping at
/// the ends of the `i64` range); a failed query reads as all zero.
pub proof fn law_totals_read_columns(row: Vec<SqlValue>, n: i64, ok: i64, p: i64, c: i64, e: DbError)
    requires
        spec_as_i64(spec_col(row@, 0)) == Some(n),
        spec_as_i64(spec_col(row@, 1)) == Some(ok),
        spec_as_i64(spec_col(row@, 2)) == Some(p),
        spec_as_i64(spec_col(row@, 3)) == Some(c),
    ensures
        spec_counts(Ok(row)).total_requests == n,
        spec_counts(Ok(row)).ok_requests == ok,
        spec_counts(Ok(row)).prompt_tokens == p,
        spec_counts(Ok(row)).completion_tokens == c,
        spec_counts(Ok(row)).total_tokens as int == (if p + c > i64::MAX {
            p + c - 0x1_0000_0000_0000_0000
        } else if p + c < i64::MIN {
            p + c + 0x1_0000_0000_0000_0000
        } else {
            p + c
        }),
        spec_counts(Err(e)) == (UsageCounts { total_requests: 0, ok_requests: 0, prompt_tokens: 0, completion_tokens: 0, total_tokens: 0 }),
{
}

pub fn counts_of(reply: &Result<Vec<SqlValue>, DbError>) -> (r: UsageCounts)
    ensures
        r == spec_counts(*reply),
{
    let zero = UsageCounts { total_requests: 0, ok_requests: 0, prompt_tokens: 0, completion_tokens: 0, total_tokens: 0 };
    match reply {
        Ok(row) => match (as_i64(&col(row, 0)), as_i64(&col(row, 1)), as_i64(&col(row, 2)), as_i64(&col(row, 3))) {
            (Some(n), Some(ok), Some(p), Some(c)) => UsageCounts {
                total_requests: n,
                ok_requests: ok,
                prompt_tokens: p,
                completion_tokens: c,
                total_tokens: p.wrapping_add(c),
            },
            _ => zero,
        },
        Err(_) => zero,
    }
}

pub struct DailyView {
    pub date: Seq<char>,
    pub total_tokens: i64,
}

impl View for UsageDaily {
    type V = DailyView;

    open spec fn view(&self) -> DailyView {
        DailyView { date: self.date@, total_tokens: self.total_tokens }
    }
}

pub open spec fn daily_view(v: Seq<UsageDaily>) -> Seq<DailyView> {
    v.map_values(|d: UsageDaily| d@)
}

pub open spec fn spec_daily(raw: Seq<Result<Vec<SqlValue>, DbError>>) -> Seq<DailyView>
    decreases raw.len(),
{
    if raw.len() == 0 {
        Seq::empty()
    } else {
        let front = spec_daily(raw.drop_last());
        match raw.last() {
            Ok(row) => match (spec_as_text(spec_col(row@, 0)), spec_as_i64(spec_col(row@, 1))) {
                (Some(date), Some(t)) => front.push(DailyView { date, total_tokens: t }),
                _ => front,
            },
            Err(_) => front,
        }
    }
}

/// The daily series reads each row by its columns: a row whose date
/// (column 0) is text and whose token total (column 1) is an integer adds,
/// after the rows before it, that day with that total.
pub proof fn law_daily_reads_columns(raw: Seq<Result<Vec<SqlValue>, DbError>>, row: Vec<SqlValue>, date: Seq<char>, total: i64)
    requires
        spec_as_text(spec_col(row@, 0)) == Some(date),
        spec_as_i64(spec_col(row@, 1)) == Some(total),
    ensures
        spec_daily(raw.push(Ok(row))) == spec_daily(raw).push(DailyView { date, total_tokens: total }),
{
    assert(raw.push(Ok(row)).drop_last() =~= raw);
}

pub fn decode_daily(raw: &Vec<Result<Vec<SqlValue>, DbError>>) -> (r: Vec<UsageDaily>)
    ensures
        daily_view(r@) == spec_daily(raw@),
{
    let mut out: Vec<UsageDaily> = Vec::new();
    let mut i: usize = 0;
    while i < raw.len()
        invariant
            i <= raw.len(),
            daily_view(out@) == spec_daily(raw@.take(i as int)),
        decreases raw.len() - i,
    {
        let ghost before = daily_view(out@);
        assert(raw@.take(i as int + 1).drop_last() =~= raw@.take(i as int));
        match &raw[i] {
            Ok(row) => match (as_text(&col(row, 0)), as_i64(&col(row, 1))) {
                (Some(date), Some(t)) => {
                    let d = UsageDaily { date, total_tokens: t };
                    out.push(d);
                    assert(daily_view(out@) =~= before.push(d@));
                },
                _ => {},
            },
            Err(_) => {},
        }
        i = i + 1;
    }
    assert(raw@.take(raw.len() as int) =~= raw@);
    out
}

/// The integer side of one model's usage: its model and endpoint, how
/// many turns it served, and their token totals.
#[derive(Debug)]
pub struct ModelCounts {
    pub model: String,
    pub endpoint: String,
    pub requests: i64,
    pub prompt_tokens: i64,
    pub completion_tokens: i64,
    pub total_tokens: i64,
}

pub struct ModelCountsView {
    pub model: Seq<char>,
    pub endpoint: Seq<char>,
    pub requests: i64,
    pub prompt_tokens: i64,
    pub completion_tokens: i64,
    pub total_tokens: i64,
}

impl View for ModelCounts {
    type V = ModelCountsView;

    open spec fn view(&self) -> ModelCountsView {
        ModelCountsView {
            model: self.model@,
            endpoint: self.endpoint@,
            requests: self.requests,
            prompt_tokens: self.prompt_tokens,
            completion_tokens: self.completion_tokens,
            total_tokens: self.total_tokens,
        }
    }
}

pub open spec fn model_counts_view(v: Seq<ModelCounts>) -> Seq<ModelCountsView> {
    v.map_values(|m: ModelCounts| m@)
}

/// A per-model row decoded: every column must read as its type or the row
/// is dropped; the total is prompt plus completion tokens.
pub open spec fn spec_model_counts_of(row: Seq<SqlValue>) -> Option<ModelCountsView> {
    match (
        spec_as_text(spec_col(row, 0)),
        spec_as_text(spec_col(row, 1)),
        spec_as_i64(spec_col(row, 2)),
        spec_as_i64(spec_col(row, 3)),
        spec_as_i64(spec_col(row, 4)),
    ) {
        (Some(model), Some(endpoint), Some(requests), Some(p), Some(c)) => Some(ModelCountsView {
            model,
            endpoint,
            requests,
            prompt_tokens: p,
            completion_tokens: c,
            total_tokens: wrapping_sum(p, c),
        }),
        _ => None,
    }
}

pub open spec fn spec_model_counts(raw: Seq<Result<Vec<SqlValue>, DbError>>) -> Seq<ModelCountsView>
    decreases raw.len(),
{
    if raw.len() == 0 {
        Seq::empty()
    } else {
        let front = spec_model_counts(raw.drop_last());
        match raw.last() {
            Ok(row) => match spec_model_counts_of(row@) {
                Some(m) => front.push(m),
                None => front,
            },
            Err(_) => front,
        }
    }
}

/// The per-model breakdown reads each row by its columns: a row whose
/// model (column 0) and endpoint (column 1) are text and whose request
/// count, prompt-token sum and completion-token sum (columns 2, 3 and 4)
/// are integers adds, after the rows before it, that model's entry with
/// exactly those counts, prompt tokens from column 3 and completion tokens
/// from column 4, totalling their (wrapping) sum.
pub proof fn law_breakdown_reads_columns(
    raw: Seq<Result<Vec<SqlValue>, DbError>>,
    row: Vec<SqlValue>,
    model: Seq<char>,
    endpoint: Seq<char>,
    requests: i64,
    prompt: i64,
    completion: i64,
)
    requires
        spec_as_text(spec_col(row@, 0)) == Some(model),
        spec_as_text(spec_col(row@, 1)) == Some(endpoint),
        spec_as_i64(spec_col(row@, 2)) == Some(requests),
        spec_as_i64(spec_col(row@, 3)) == Some(prompt),
        spec_as_i64(spec_col(row@, 4)) == Some(completion),
    ensures
        spec_model_counts(raw.push(Ok(row))) == spec_model_counts(raw).push(ModelCountsView {
            model,
            endpoint,
            requests,
            prompt_tokens: prompt,
            completion_tokens: completion,
            total_tokens: (if prompt + completion > i64::MAX {
                prompt + completion - 0x1_0000_0000_0000_0000
            } else if prompt + completion < i64::MIN {
                prompt + completion + 0x1_0000_0000_0000_0000
            } else {
                prompt + completion
            }) as i64,
        }),
{
    assert(raw.push(Ok(row)).drop_last() =~= raw);
}

pub fn decode_model_counts(raw: &Vec<Result<Vec<SqlValue>, DbError>>) -> (r: Vec<ModelCounts>)
    ensures
        model_counts_view(r@) == spec_model_counts(raw@),
{
    let mut out: Vec<ModelCounts> = Vec::new();
    let mut i: usize = 0;
    while i < raw.len()
        invariant
            i <= raw.len(),
            model_counts_view(out@) == spec_model_counts(raw@.take(i as int)),
        decreases raw.len() - i,
    {
        let ghost before = model_counts_view(out@);
        assert(raw@.take(i as int + 1).drop_last() =~= raw@.take(i as int));
        match &raw[i] {
            Ok(row) => match (
                as_text(&col(row, 0)),
                as_text(&col(row, 1)),
                as_i64(&col(row, 2)),
                as_i64(&col(row, 3)),
                as_i64(&col(row, 4)),
            ) {
                (Some(model), Some(endpoint), Some(requests), Some(p), Some(c)) => {
                    let m = ModelCounts {
                        model,
                        endpoint,
                        requests,
                        prompt_tokens: p,
                        completion_tokens: c,
                        total_tokens: p.wrapping_add(c),
                    };
                    out.push(m);
                    assert(model_counts_view(out@) =~= before.push(m@));
                },
                _ => {},
            },
            Err(_) => {},
        }
        i = i + 1;
    }
    assert(raw@.take(raw.len() as int) =~= raw@);
    out
}

/// The index of the nearest-rank `percent` percentile among `len` sorted
/// samples: rank `ceil(percent * len / 100)`, counted from one, kept
/// within the samples; `None` where there are no samples.
pub open spec fn spec_rank_index(len: nat, percent: nat) -> Option<nat> {
    if len == 0 {
        None
    } else {
        let rank = (percent * len + 99) / 100;
        let idx = if rank == 0 { 0 } else { (rank - 1) as nat };
        Some(if idx > len - 1 { (len - 1) as nat } else { idx })
    }
}

pub fn nearest_rank_index(len: usize, percent: u32) -> (r: Option<usize>)
    ensures
        r matches Some(i) ==> spec_rank_index(len as nat, percent as nat) == Some(i as nat) && i < len,
        r is None ==> spec_rank_index(len as nat, percent as nat) is None,
{
    if len == 0 {
        return None;
    }
    let p: u128 = percent as u128;
    let n: u128 = len as u128;
    assert(p * n <= 0xffff_ffffu128 * 0xffff_ffff_ffff_ffffu128) by (nonlinear_arith)
        requires
            p <= 0xffff_ffffu128,
            n <= 0xffff_ffff_ffff_ffffu128,
    ;
    let product: u128 = p * n;
    let rank: u128 = (product + 99) / 100;
    let idx: u128 = if rank == 0 { 0 } else { rank - 1 };
    let last: u128 = (len - 1) as u128;
    let i: u128 = if idx > last { last } else { idx };
    Some(i as usize)
}

/// The modifier that `datetime('now', ?)` takes for "`days` days ago".
pub open spec fn spec_cutoff(days: nat) -> Seq<char> {
    seq!['-'] + decimal(days) + " days"@
}

pub fn retention_cutoff(days: u32) -> (r: String)
    ensures
        r@ == spec_cutoff(days as nat),
{
    let mut out = String::new();
    crate::text::push_char(&mut out, '-');
    push_decimal(&mut out, days as u64);
    push_str(&mut out, " days");
    assert(out@ =~= spec_cutoff(days as nat));
    out
}

/// The usage table as the in-memory test database has it.
pub const USAGE_TEST_SCHEMA: &'static str = "CREATE TABLE usage (
        id INTEGER PRIMARY KEY AUTOINCREMENT,
        ts TEXT NOT NULL DEFAULT (datetime('now')),
        endpoint TEXT NOT NULL DEFAULT '',
        model TEXT NOT NULL DEFAULT '',
        prompt_tokens INTEGER NOT NULL DEFAULT 0,
        completion_tokens INTEGER NOT NULL DEFAULT 0,
        ttft_ms REAL,
        decode_tok_s REAL,
        cost REAL,
        ok INTEGER NOT NULL DEFAULT 1
    );";

pub const COUNTS_SQL: &'static str = "SELECT COUNT(*), COALESCE(SUM(ok), 0), COALESCE(SUM(prompt_tokens), 0), COALESCE(SUM(completion_tokens), 0) FROM usage";
pub const BY_MODEL_SQL: &'static str = "SELECT model, endpoint, COUNT(*), COALESCE(SUM(prompt_tokens), 0), COALESCE(SUM(completion_tokens), 0) FROM usage GROUP BY model, endpoint ORDER BY COUNT(*) DESC";
pub const DAILY_SQL: &'static str = "SELECT date(ts), COALESCE(SUM(prompt_tokens + completion_tokens), 0) FROM usage GROUP BY date(ts) ORDER BY date(ts)";
pub const CLEAR_USAGE_SQL: &'static str = "DELETE FROM usage";
pub const PRUNE_SQL: &'static str = "DELETE FROM usage WHERE ts < datetime('now', ?1)";

pub struct UsageStorage {
    conn: rusqlite::Connection,
    log: Log,
}

impl UsageStorage {
    /// Everything this storage has exchanged with the database, in order.
    pub closed spec fn sent(&self) -> Seq<Sent> {
        self.log.sent()
    }

    /// The log is this storage's connection's own.
    pub closed spec fn wf(&self) -> bool {
        self.log.conn() == self.conn
    }

    /// Opens the database file at `path` with write-ahead logging, foreign
    /// keys and a five-second busy timeout.
    pub fn open(path: &str) -> (r: Result<UsageStorage, OpenError>)
        ensures
            r matches Err(e) ==> e.sent() == seq![Sent::Open(path@, false)] && e.text() == "Failed to open database"@,
            r matches Ok(s) ==> s.wf(),
            r matches Ok(s) ==> opened_file(s.sent(), path@),
    {
        let (conn, mut log) = match db_open(path) {
            Ok(p) => p,
            Err(e) => return Err(e.with_message("Failed to open database".to_owned())),
        };
        let _ = db_execute_batch(&conn, &mut log, FILE_PRAGMAS);
        let _ = db_busy_timeout(&conn, &mut log, 5);
        Ok(UsageStorage { conn, log })
    }

    /// A fresh in-memory database with the usage table.
    pub fn new_in_memory() -> (r: Result<UsageStorage, String>)
        ensures
            r matches Err(e) ==> e@ == "open :memory:"@ || e@ == "create usage table"@,
            r matches Ok(s) ==> s.wf(),
            r matches Ok(s) ==> opened_memory(s.sent(), USAGE_TEST_SCHEMA@) && batch_ok(s.sent()[2]),
    {
        let (conn, mut log) = match db_open_in_memory() {
            Ok(p) => p,
            Err(_) => return Err("open :memory:".to_owned()),
        };
        let _ = db_execute_batch(&conn, &mut log, MEMORY_PRAGMAS);
        if db_execute_batch(&conn, &mut log, USAGE_TEST_SCHEMA).is_err() {
            return Err("create usage table".to_owned());
        }
        Ok(UsageStorage { conn, log })
    }

    /// The connection this storage runs its statements on.
    pub closed spec fn db(&self) -> rusqlite::Connection {
        self.conn
    }

    /// The connection, for callers that run their own statements (which
    /// the log does not record).
    pub fn connection(&self) -> (r: &rusqlite::Connection)
        ensures
            *r == self.db(),
    {
        &self.conn
    }

    /// The request and token counts over every recorded turn.
    pub fn usage_counts(&mut self) -> (r: UsageCounts)
        requires
            old(self).wf(),
        ensures
            final(self).wf(),
            final(self).sent().len() == old(self).sent().len() + 1,
            final(self).sent().drop_last() == old(self).sent(),
            is_query_row(final(self).sent().last(), COUNTS_SQL@, seq![]),
            r == spec_counts(row_reply(final(self).sent().last())),
    {
        let none: Vec<SqlParam> = Vec::new();
        assert(params_view(none@) =~= seq![]);
        let reply = db_query_row(&self.conn, &mut self.log, COUNTS_SQL, &none);
        let r = counts_of(&reply);
        assert(r == spec_counts(reply));
        r
    }

    /// The per-model breakdown, models with the most turns first (the
    /// order the query asks SQLite for).
    pub fn usage_by_model_counts(&mut self) -> (r: Vec<ModelCounts>)
        requires
            old(self).wf(),
        ensures
            final(self).wf(),
            final(self).sent().len() == old(self).sent().len() + 1,
            final(self).sent().drop_last() == old(self).sent(),
            is_query(final(self).sent().last(), BY_MODEL_SQL@, seq![]),
            model_counts_view(r@) == spec_model_counts(rows_reply(final(self).sent().last())),
    {
        let none: Vec<SqlParam> = Vec::new();
        assert(params_view(none@) =~= seq![]);
        match db_query(&self.conn, &mut self.log, BY_MODEL_SQL, &none) {
            Ok(raw) => {
                let r = decode_model_counts(&raw);
                assert(model_counts_view(r@) == spec_model_counts(raw@));
                r
            },
            Err(_) => {
                let r: Vec<ModelCounts> = Vec::new();
                assert(model_counts_view(r@) =~= spec_model_counts(Seq::empty()));
                r
            },
        }
    }

    /// Tokens per day, oldest day first.
    pub fn usage_daily(&mut self) -> (r: Vec<UsageDaily>)
        requires
            old(self).wf(),
        ensures
            final(self).wf(),
            final(self).sent().len() == old(self).sent().len() + 1,
            final(self).sent().drop_last() == old(self).sent(),
            is_query(final(self).sent().last(), DAILY_SQL@, seq![]),
            daily_view(r@) == spec_daily(rows_reply(final(self).sent().last())),
    {
        let none: Vec<SqlParam> = Vec::new();
        assert(params_view(none@) =~= seq![]);
        match db_query(&self.conn, &mut self.log, DAILY_SQL, &none) {
            Ok(raw) => {
                let r = decode_daily(&raw);
                assert(daily_view(r@) == spec_daily(raw@));
                r
            },
            Err(_) => {
                let r: Vec<UsageDaily> = Vec::new();
                assert(daily_view(r@) =~= spec_daily(Seq::empty()));
                r
            },
        }
    }

    /// Wipes all recorded usage.
    pub fn clear_usage(&mut self)
        requires
            old(self).wf(),
        ensures
            final(self).wf(),
            final(self).sent().len() == old(self).sent().len() + 1,
            final(self).sent().drop_last() == old(self).sent(),
            is_execute(final(self).sent().last(), CLEAR_USAGE_SQL@, seq![]),
    {
        let none: Vec<SqlParam> = Vec::new();
        assert(params_view(none@) =~= seq![]);
        let _ = db_execute(&self.conn, &mut self.log, CLEAR_USAGE_SQL, &none);
    }

    /// Enforces the retention window: deletes rows older than `days` days
    /// and returns how many went (0 where the delete failed). `days == 0`
    /// keeps everything and sends nothing.
    pub fn prune_usage(&mut self, days: u32) -> (r: usize)
        requires
            old(self).wf(),
        ensures
            final(self).wf(),
            days == 0 ==> r == 0 && final(self).sent() == old(self).sent(),
            days > 0 ==> {
                &&& final(self).sent().len() == old(self).sent().len() + 1
                &&& final(self).sent().drop_last() == old(self).sent()
                &&& is_execute(final(self).sent().last(), PRUNE_SQL@, seq![ParamView::Text(spec_cutoff(days as nat))])
                &&& r == execute_count(final(self).sent().last())
            },
    {
        if days == 0 {
            return 0;
        }
        let cutoff = retention_cutoff(days);
        let params = vec![SqlParam::Text(cutoff)];
        assert(params_view(params@) =~= seq![ParamView::Text(spec_cutoff(days as nat))]);
        match db_execute(&self.conn, &mut self.log, PRUNE_SQL, &params) {
            Ok(n) => n,
            Err(_) => 0,
        }
    }
}

} // verus!
