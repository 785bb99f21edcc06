//! The message history of a conversation: stored rows, and how the active
//! branch is picked out of the tree that `parent_id` links form.

use vstd::prelude::*;
use crate::db::{as_i64, as_text, col, spec_as_i64, spec_as_text, spec_col, DbError, SqlValue};
use crate::message::{
    clone_opt_calls, clone_opt_string, clone_parts, content_of, decode_calls, opt_calls_view,
    opt_view, parts_view, role_from_str, spec_content_of, spec_decode_calls, spec_role_from_str,
    CallView, ContentPart, Message, MessageView, PartView, Role, ToolCall, lemma_role_round_trip,
    spec_calls_json, spec_content_json, spec_decode_content, spec_role_str,
};

verus! {

/// One row of the `messages` table, decoded.
#[derive(Debug)]
pub struct MessageRow {
    pub id: i64,
    pub role: Role,
    pub content: Vec<ContentPart>,
    pub created_at: Option<i64>,
    pub parent_id: Option<i64>,
    pub branch_index: i64,
    pub position: i64,
    pub tool_calls: Option<Vec<ToolCall>>,
    pub tool_call_id: Option<String>,
}

pub struct RowView {
    pub id: i64,
    pub role: Role,
    pub content: Seq<PartView>,
    pub created_at: Option<i64>,
    pub parent_id: Option<i64>,
    pub branch_index: i64,
    pub position: i64,
    pub tool_calls: Option<Seq<CallView>>,
    pub tool_call_id: Option<Seq<char>>,
}

impl View for MessageRow {
    type V = RowView;

    open spec fn view(&self) -> RowView {
        RowView {
            id: self.id,
            role: self.role,
            content: parts_view(self.content@),
            created_at: self.created_at,
            parent_id: self.parent_id,
            branch_index: self.branch_index,
            position: self.position,
            tool_calls: opt_calls_view(self.tool_calls),
            tool_call_id: opt_view(self.tool_call_id),
        }
    }
}

pub open spec fn rows_view(rows: Seq<MessageRow>) -> Seq<RowView> {
    rows.map_values(|r: MessageRow| r@)
}

impl Clone for MessageRow {
    fn clone(&self) -> (r: Self)
        ensures
            r@ == self@,
    {
        MessageRow {
            id: self.id,
            role: self.role,
            content: clone_parts(&self.content),
            created_at: self.created_at,
            parent_id: self.parent_id,
            branch_index: self.branch_index,
            position: self.position,
            tool_calls: clone_opt_calls(&self.tool_calls),
            tool_call_id: clone_opt_string(&self.tool_call_id),
        }
    }
}

/// A stored row decoded: `id`, `role`, `content`, `branch_index` and
/// `position` must read as their types or the row is dropped; the other
/// columns read as `None` where they do not. The role name and the content
/// are read back as `role_from_str` and `content_of` say; tool calls are
/// kept where the column holds a list of calls.
pub open spec fn spec_from_row(row: Seq<SqlValue>) -> Option<RowView> {
    match (
        spec_as_i64(spec_col(row, 0)),
        spec_as_text(spec_col(row, 1)),
        spec_as_text(spec_col(row, 2)),
        spec_as_i64(spec_col(row, 5)),
        spec_as_i64(spec_col(row, 6)),
    ) {
        (Some(id), Some(role), Some(content), Some(branch_index), Some(position)) => Some(RowView {
            id,
            role: spec_role_from_str(role),
            content: spec_content_of(content),
            created_at: spec_as_i64(spec_col(row, 3)),
            parent_id: spec_as_i64(spec_col(row, 4)),
            branch_index,
            position,
            tool_calls: match spec_as_text(spec_col(row, 7)) {
                Some(t) => spec_decode_calls(t),
                None => None,
            },
            tool_call_id: spec_as_text(spec_col(row, 8)),
        }),
        _ => None,
    }
}

impl MessageRow {
    pub fn from_row(row: &Vec<SqlValue>) -> (r: Option<MessageRow>)
        ensures
            r matches Some(m) ==> spec_from_row(row@) == Some(m@),
            r is None ==> spec_from_row(row@) is None,
    {
        let role_str = match as_text(&col(row, 1)) {
            Some(s) => s,
            None => return None,
        };
        let content_raw = match as_text(&col(row, 2)) {
            Some(s) => s,
            None => return None,
        };
        let id = match as_i64(&col(row, 0)) {
            Some(i) => i,
            None => return None,
        };
        let branch_index = match as_i64(&col(row, 5)) {
            Some(i) => i,
            None => return None,
        };
        let position = match as_i64(&col(row, 6)) {
            Some(i) => i,
            None => return None,
        };
        let role = role_from_str(role_str.as_str());
        let content = content_of(content_raw);
        let tool_calls = match as_text(&col(row, 7)) {
            Some(t) => decode_calls(t.as_str()),
            None => None,
        };
        Some(MessageRow {
            id,
            role,
            content,
            created_at: as_i64(&col(row, 3)),
            parent_id: as_i64(&col(row, 4)),
            branch_index,
            position,
            tool_calls,
            tool_call_id: as_text(&col(row, 8)),
        })
    }

    /// The message a stored row holds.
    pub fn into_message(self) -> (m: Message)
        ensures
            m@ == spec_message_of(self@),
    {
        Message {
            role: self.role,
            content: self.content,
            tool_calls: self.tool_calls,
            tool_call_id: self.tool_call_id,
            created_at: self.created_at,
            id: Some(self.id),
            parent_id: self.parent_id,
            branch_index: self.branch_index,
        }
    }
}

/// The message a stored row holds.
pub open spec fn spec_message_of(r: RowView) -> MessageView {
    MessageView {
        role: r.role,
        content: r.content,
        tool_calls: r.tool_calls,
        tool_call_id: r.tool_call_id,
        created_at: r.created_at,
        id: Some(r.id),
        parent_id: r.parent_id,
        branch_index: r.branch_index,
    }
}

/// The rows that a query yielded, decoded; rows whose step failed or that
/// do not decode are dropped.
pub open spec fn spec_decode_rows(raw: Seq<Result<Vec<SqlValue>, DbError>>) -> Seq<RowView>
    decreases raw.len(),
{
    if raw.len() == 0 {
        Seq::empty()
    } else {
        let front = spec_decode_rows(raw.drop_last());
        match raw.last() {
            Ok(row) => match spec_from_row(row@) {
                Some(r) => front.push(r),
                None => front,
            },
            Err(_) => front,
        }
    }
}

pub fn decode_rows(raw: &Vec<Result<Vec<SqlValue>, DbError>>) -> (r: Vec<MessageRow>)
    ensures
        rows_view(r@) == spec_decode_rows(raw@),
{
    let mut out: Vec<MessageRow> = Vec::new();
    let mut i: usize = 0;
    while i < raw.len()
        invariant
            i <= raw.len(),
            rows_view(out@) == spec_decode_rows(raw@.take(i as int)),
        decreases raw.len() - i,
    {
        let ghost before = out@;
        assert(raw@.take(i as int + 1).drop_last() =~= raw@.take(i as int));
        match &raw[i] {
            Ok(row) => match MessageRow::from_row(row) {
                Some(m) => {
                    out.push(m);
                    assert(rows_view(out@) =~= rows_view(before).push(m@));
                },
                None => {},
            },
            Err(_) => {},
        }
        i = i + 1;
    }
    assert(raw@.take(raw.len() as int) =~= raw@);
    out
}

/// How a message's tool calls come back from storage: a non-empty list as
/// itself, an empty list or none as none.
pub open spec fn spec_calls_after_save(c: Option<Seq<CallView>>) -> Option<Seq<CallView>> {
    match c {
        Some(v) => if v.len() > 0 { Some(v) } else { None },
        None => None,
    }
}

/// A message reads back as it was saved. Where the row holds what saving
/// a message binds (its id, role name, content JSON, timestamp, parent,
/// branch index, position, tool-call JSON or NULL, tool-call id) and
/// those JSON texts parse back to what was written, the row decodes to the
/// same message with that id; a message saved with an empty list of tool
/// calls comes back with none.
pub proof fn lemma_saved_row_reads_back(row: Seq<SqlValue>, m: MessageView, id: i64, position: i64)
    requires
        spec_as_i64(spec_col(row, 0)) == Some(id),
        spec_as_text(spec_col(row, 1)) == Some(spec_role_str(m.role)),
        spec_as_text(spec_col(row, 2)) == Some(spec_content_json(m.content)),
        spec_as_i64(spec_col(row, 3)) == m.created_at,
        spec_as_i64(spec_col(row, 4)) == m.parent_id,
        spec_as_i64(spec_col(row, 5)) == Some(m.branch_index),
        spec_as_i64(spec_col(row, 6)) == Some(position),
        spec_as_text(spec_col(row, 7)) == (match spec_calls_after_save(m.tool_calls) {
            Some(v) => Some(spec_calls_json(v)),
            None => None::<Seq<char>>,
        }),
        spec_as_text(spec_col(row, 8)) == m.tool_call_id,
        spec_decode_content(spec_content_json(m.content)) == Some(m.content),
        spec_calls_after_save(m.tool_calls) matches Some(v) ==> spec_decode_calls(spec_calls_json(v)) == Some(v),
    ensures
        spec_from_row(row) matches Some(r) && spec_message_of(r) == (MessageView {
            id: Some(id),
            tool_calls: spec_calls_after_save(m.tool_calls),
            ..m
        }),
{
    lemma_role_round_trip(m.role);
}

// ---------------------------------------------------------------- active branch

/// `a` is newer than `b`: a later `created_at` (a missing one is the
/// oldest), or the same `created_at` and a higher `branch_index`.
pub open spec fn newer(a: RowView, b: RowView) -> bool {
    match (a.created_at, b.created_at) {
        (Some(x), Some(y)) => x > y || (x == y && a.branch_index > b.branch_index),
        (Some(_), None) => true,
        (None, Some(_)) => false,
        (None, None) => a.branch_index > b.branch_index,
    }
}

/// The child of `parent` that the active branch follows: among the rows
/// whose `parent_id` is `parent`, the newest, and of equally new ones the
/// first in `rows`.
pub open spec fn best_child(rows: Seq<RowView>, parent: Option<i64>) -> Option<int>
    decreases rows.len(),
{
    if rows.len() == 0 {
        None
    } else {
        let prev = best_child(rows.drop_last(), parent);
        let i = rows.len() - 1;
        if rows[i].parent_id == parent {
            match prev {
                None => Some(i),
                Some(j) => if newer(rows[i], rows[j]) { Some(i) } else { Some(j) },
            }
        } else {
            prev
        }
    }
}

/// The active branch below `parent`, as indices into `rows`, followed for
/// at most `fuel` steps.
pub open spec fn chain(rows: Seq<RowView>, parent: Option<i64>, fuel: nat) -> Seq<int>
    decreases fuel,
{
    if fuel == 0 {
        Seq::empty()
    } else {
        match best_child(rows, parent) {
            None => Seq::empty(),
            Some(i) => seq![i] + chain(rows, Some(rows[i].id), (fuel - 1) as nat),
        }
    }
}

pub open spec fn messages_at(rows: Seq<RowView>, idx: Seq<int>) -> Seq<MessageView> {
    idx.map_values(|i: int| spec_message_of(rows[i]))
}

proof fn lemma_best_child_facts(rows: Seq<RowView>, parent: Option<i64>)
    ensures
        best_child(rows, parent) matches Some(i) ==> 0 <= i < rows.len() && rows[i].parent_id == parent,
        best_child(rows, parent) is None ==> forall|k: int| 0 <= k < rows.len() ==> rows[k].parent_id != parent,
    decreases rows.len(),
{
    if rows.len() > 0 {
        lemma_best_child_facts(rows.drop_last(), parent);
        assert forall|k: int| 0 <= k < rows.len() - 1 implies rows.drop_last()[k] == rows[k] by {}
    }
}

fn pick_child(rows: &Vec<MessageRow>, parent: Option<i64>) -> (r: Option<usize>)
    ensures
        r matches Some(i) ==> best_child(rows_view(rows@), parent) == Some(i as int),
        r is None ==> best_child(rows_view(rows@), parent) is None,
{
    let ghost rv = rows_view(rows@);
    let mut best: Option<usize> = None;
    let mut i: usize = 0;
    while i < rows.len()
        invariant
            i <= rows.len(),
            rv == rows_view(rows@),
            best matches Some(b) ==> best_child(rv.take(i as int), parent) == Some(b as int),
            best is None ==> best_child(rv.take(i as int), parent) is None,
            best matches Some(b) ==> b < i,
        decreases rows.len() - i,
    {
        let ghost t = rv.take(i as int + 1);
        assert(t.drop_last() =~= rv.take(i as int));
        assert(t[i as int] == rows@[i as int]@);
        if rows[i].parent_id == parent {
            match best {
                None => {
                    best = Some(i);
                },
                Some(b) => {
                    assert(t[b as int] == rows@[b as int]@);
                    let r = &rows[i];
                    let s = &rows[b];
                    let is_newer = match (r.created_at, s.created_at) {
                        (Some(x), Some(y)) => x > y || (x == y && r.branch_index > s.branch_index),
                        (Some(_), None) => true,
                        (None, Some(_)) => false,
                        (None, None) => r.branch_index > s.branch_index,
                    };
                    if is_newer {
                        best = Some(i);
                    }
                },
            }
        }
        i = i + 1;
    }
    assert(rv.take(rows.len() as int) =~= rv);
    best
}

/// Appends to `out` the active branch below `parent`, following at most
/// `fuel` steps.
fn push_chain(rows: &Vec<MessageRow>, parent: Option<i64>, fuel: usize, out: &mut Vec<Message>)
    ensures
        final(out)@.map_values(|m: Message| m@) == old(out)@.map_values(|m: Message| m@)
            + messages_at(rows_view(rows@), chain(rows_view(rows@), parent, fuel as nat)),
{
    let ghost rv = rows_view(rows@);
    let ghost start = old(out)@.map_values(|m: Message| m@);
    let mut current = parent;
    let mut left = fuel;
    loop
        invariant
            rv == rows_view(rows@),
            left <= fuel,
            out@.map_values(|m: Message| m@) + messages_at(rv, chain(rv, current, left as nat))
                == start + messages_at(rv, chain(rv, parent, fuel as nat)),
        ensures
            out@.map_values(|m: Message| m@) == start + messages_at(rv, chain(rv, parent, fuel as nat)),
        decreases left,
    {
        if left == 0 {
            let ghost o = out@.map_values(|m: Message| m@);
            assert(messages_at(rv, chain(rv, current, 0)) =~= Seq::<MessageView>::empty());
            assert(o + Seq::<MessageView>::empty() =~= o);
            break;
        }
        match pick_child(rows, current) {
            None => {
                assert(chain(rv, current, left as nat) =~= Seq::<int>::empty());
                assert(messages_at(rv, chain(rv, current, left as nat)) =~= Seq::<MessageView>::empty());
                assert(out@.map_values(|m: Message| m@) =~= out@.map_values(|m: Message| m@) + Seq::<MessageView>::empty());
                break;
            },
            Some(i) => {
                proof { lemma_best_child_facts(rv, current); }
                let ghost before = out@.map_values(|m: Message| m@);
                let ghost rest = chain(rv, Some(rv[i as int].id), (left - 1) as nat);
                assert(chain(rv, current, left as nat) == seq![i as int] + rest);
                let m = rows[i].clone().into_message();
                out.push(m);
                assert(out@.map_values(|m: Message| m@) =~= before.push(spec_message_of(rv[i as int])));
                assert(messages_at(rv, seq![i as int] + rest) =~= seq![spec_message_of(rv[i as int])] + messages_at(rv, rest));
                current = Some(rows[i].id);
                left = left - 1;
            },
        }
    }
}

/// The child picked at a fork is the newest there: no sibling is newer,
/// and an equally new sibling comes later in the rows.
pub proof fn lemma_best_child_is_newest(rows: Seq<RowView>, parent: Option<i64>)
    ensures
        best_child(rows, parent) matches Some(i) ==> forall|k: int|
            0 <= k < rows.len() && (#[trigger] rows[k]).parent_id == parent ==> !newer(rows[k], rows[i])
                && (k < i ==> newer(rows[i], rows[k])),
    decreases rows.len(),
{
    if rows.len() > 0 {
        let d = rows.drop_last();
        lemma_best_child_is_newest(d, parent);
        lemma_best_child_facts(d, parent);
        assert forall|k: int| 0 <= k < rows.len() - 1 implies d[k] == rows[k] by {}
    }
}

/// No sibling of row `i` (a row with the same parent) is newer than it.
#[verifier::opaque]
pub open spec fn newest_among_siblings(rows: Seq<RowView>, i: int) -> bool {
    forall|k: int| 0 <= k < rows.len() && (#[trigger] rows[k]).parent_id == rows[i].parent_id ==> !newer(rows[k], rows[i])
}

/// One step of the active branch: its first index is the picked child
/// and the rest is the branch below that child.
proof fn lemma_chain_step(rows: Seq<RowView>, parent: Option<i64>, fuel: nat)
    requires
        fuel > 0,
        best_child(rows, parent) is Some,
    ensures
        chain(rows, parent, fuel) == seq![best_child(rows, parent)->0]
            + chain(rows, Some(rows[best_child(rows, parent)->0].id), (fuel - 1) as nat),
{
}

/// The active branch is a path down the tree: it starts at a child of
/// `parent`, each message after it is a child of the one before, and at
/// every step the newest child was taken.
pub proof fn lemma_active_branch_is_newest_path(rows: Seq<RowView>, parent: Option<i64>, fuel: nat)
    ensures
        ({
            let idx = chain(rows, parent, fuel);
            &&& forall|j: int| 0 <= j < idx.len() ==> 0 <= #[trigger] idx[j] < rows.len()
                && newest_among_siblings(rows, idx[j])
            &&& idx.len() > 0 ==> rows[idx[0]].parent_id == parent
            &&& forall|j: int| #![trigger rows[idx[j]].parent_id] 0 < j < idx.len() ==> rows[idx[j]].parent_id == Some(rows[idx[j - 1]].id)
        }),
    decreases fuel,
{
    let idx = chain(rows, parent, fuel);
    if fuel > 0 && best_child(rows, parent) is Some {
        let i = best_child(rows, parent)->0;
        lemma_best_child_facts(rows, parent);
        lemma_best_child_is_newest(rows, parent);
        assert(newest_among_siblings(rows, i)) by {
            reveal(newest_among_siblings);
        }
        let rest = chain(rows, Some(rows[i].id), (fuel - 1) as nat);
        lemma_active_branch_is_newest_path(rows, Some(rows[i].id), (fuel - 1) as nat);
        lemma_chain_step(rows, parent, fuel);
        assert(idx == seq![i] + rest);
        assert forall|j: int| 0 <= j < idx.len() implies 0 <= #[trigger] idx[j] < rows.len()
            && newest_among_siblings(rows, idx[j]) by {
            if j > 0 {
                assert(idx[j] == rest[j - 1]);
            }
        }
        assert forall|j: int| #![trigger rows[idx[j]].parent_id] 0 < j < idx.len() implies rows[idx[j]].parent_id == Some(rows[idx[j - 1]].id) by {
            assert(idx[j] == rest[j - 1]);
            if j > 1 {
                assert(idx[j - 1] == rest[j - 2]);
            }
        }
    } else {
        assert(idx.len() == 0);
    }
}

// ---------------------------------------------------------------- position order

/// `r` placed after the last element of `s` whose position is not above
/// its own (at the front if there is none): one step of a stable insertion
/// sort.
pub open spec fn insert_by_position(s: Seq<RowView>, r: RowView) -> Seq<RowView>
    decreases s.len(),
{
    if s.len() == 0 {
        seq![r]
    } else if s.last().position <= r.position {
        s.push(r)
    } else {
        insert_by_position(s.drop_last(), r).push(s.last())
    }
}

/// `rows` stably sorted by position, as `sort_by_key(|r| r.position)`.
pub open spec fn sort_by_position(rows: Seq<RowView>) -> Seq<RowView>
    decreases rows.len(),
{
    if rows.len() == 0 {
        Seq::empty()
    } else {
        insert_by_position(sort_by_position(rows.drop_last()), rows.last())
    }
}

/// Inserting at index `k`, where everything from `k` on is above `r` and
/// the element before `k` is not, is `insert_by_position`.
proof fn lemma_insert_at(s: Seq<RowView>, r: RowView, k: int)
    requires
        0 <= k <= s.len(),
        forall|j: int| k <= j < s.len() ==> s[j].position > r.position,
        k > 0 ==> s[k - 1].position <= r.position,
    ensures
        insert_by_position(s, r) == s.take(k).push(r) + s.skip(k),
    decreases s.len(),
{
    if s.len() == 0 {
        assert(s.take(k).push(r) + s.skip(k) =~= seq![r]);
    } else if s.last().position <= r.position {
        assert(k == s.len());
        assert(s.take(k).push(r) + s.skip(k) =~= s.push(r));
    } else {
        lemma_insert_at(s.drop_last(), r, k);
        assert(s.drop_last().take(k).push(r) + s.drop_last().skip(k) + seq![s.last()]
            =~= s.take(k).push(r) + s.skip(k));
    }
}

fn insert_row(out: &mut Vec<MessageRow>, r: MessageRow)
    ensures
        rows_view(final(out)@) == insert_by_position(rows_view(old(out)@), r@),
{
    let ghost s = rows_view(out@);
    let mut k: usize = out.len();
    while k > 0 && out[k - 1].position > r.position
        invariant
            k <= out.len(),
            s == rows_view(out@),
            forall|j: int| k <= j < out.len() ==> s[j].position > r.position,
        decreases k,
    {
        k = k - 1;
    }
    proof { lemma_insert_at(s, r@, k as int); }
    let ghost rv = r@;
    out.insert(k, r);
    assert(rows_view(out@) =~= s.take(k as int).push(rv) + s.skip(k as int));
}

pub fn sort_rows_by_position(rows: Vec<MessageRow>) -> (r: Vec<MessageRow>)
    ensures
        rows_view(r@) == sort_by_position(rows_view(rows@)),
{
    let ghost rv = rows_view(rows@);
    let mut out: Vec<MessageRow> = Vec::new();
    assert(rows_view(rows@) =~= rv.skip(0));
    let n = rows.len();
    let mut rest = rows;
    let mut i: usize = 0;
    while rest.len() > 0
        invariant
            i + rest.len() == n,
            n == rv.len(),
            rows_view(rest@) == rv.skip(i as int),
            rows_view(out@) == sort_by_position(rv.take(i as int)),
        decreases rest.len(),
    {
        let ghost before = rest@;
        let r = rest.remove(0);
        assert(r == before[0]);
        assert(rows_view(before)[0] == rv.skip(i as int)[0]);
        assert(r@ == rv[i as int]);
        assert(rv.take(i as int + 1).drop_last() =~= rv.take(i as int));
        insert_row(&mut out, r);
        assert forall|k: int| 0 <= k < rest@.len() implies rows_view(rest@)[k] == rv.skip(i as int + 1)[k] by {
            assert(rest@[k] == before[k + 1]);
            assert(rows_view(before)[k + 1] == rv.skip(i as int)[k + 1]);
        }
        i = i + 1;
        assert(rows_view(rest@) =~= rv.skip(i as int));
    }
    assert(rv.take(rv.len() as int) =~= rv);
    out
}

// ---------------------------------------------------------------- loading

pub open spec fn messages_view(v: Seq<Message>) -> Seq<MessageView> {
    v.map_values(|m: Message| m@)
}

pub open spec fn any_parent_set(rows: Seq<RowView>) -> bool {
    exists|k: int| 0 <= k < rows.len() && (#[trigger] rows[k]).parent_id is Some
}

/// The messages that loading a conversation shows, given its rows in the
/// order they were read: nothing for no rows; where no row has a parent
/// (history written before branching), every row in position order;
/// otherwise the active branch from the root, newest child at each fork.
pub open spec fn spec_load(rows: Seq<RowView>) -> Seq<MessageView> {
    if rows.len() == 0 {
        Seq::empty()
    } else if !any_parent_set(rows) {
        sort_by_position(rows).map_values(|r: RowView| spec_message_of(r))
    } else {
        messages_at(rows, chain(rows, None, rows.len()))
    }
}

pub fn load_from_rows(rows: Vec<MessageRow>) -> (r: Vec<Message>)
    ensures
        messages_view(r@) == spec_load(rows_view(rows@)),
{
    let ghost rv = rows_view(rows@);
    if rows.len() == 0 {
        let out: Vec<Message> = Vec::new();
        assert(messages_view(out@) =~= Seq::<MessageView>::empty());
        return out;
    }
    let mut any = false;
    let mut i: usize = 0;
    while i < rows.len()
        invariant
            i <= rows.len(),
            rv == rows_view(rows@),
            any ==> any_parent_set(rv),
            !any ==> forall|k: int| 0 <= k < i ==> rv[k].parent_id is None,
        decreases rows.len() - i,
    {
        if rows[i].parent_id.is_some() {
            assert(rv[i as int] == rows@[i as int]@);
            any = true;
        }
        i = i + 1;
    }
    let mut out: Vec<Message> = Vec::new();
    if !any {
        let sorted = sort_rows_by_position(rows);
        let ghost sv = rows_view(sorted@);
        let mut rest = sorted;
        let mut j: usize = 0;
        let n = rest.len();
        assert(rows_view(rest@) =~= sv.skip(0));
        while rest.len() > 0
            invariant
                j + rest.len() == n,
                n == sv.len(),
                rows_view(rest@) == sv.skip(j as int),
                messages_view(out@) == sv.take(j as int).map_values(|r: RowView| spec_message_of(r)),
            decreases rest.len(),
        {
            let ghost before = rest@;
            let ghost msgs = messages_view(out@);
            let r = rest.remove(0);
            assert(r == before[0]);
            assert(rows_view(before)[0] == sv.skip(j as int)[0]);
            let m = r.into_message();
            out.push(m);
            assert forall|k: int| 0 <= k < rest@.len() implies rows_view(rest@)[k] == sv.skip(j as int + 1)[k] by {
                assert(rest@[k] == before[k + 1]);
                assert(rows_view(before)[k + 1] == sv.skip(j as int)[k + 1]);
            }
            assert(messages_view(out@) =~= msgs.push(spec_message_of(sv[j as int])));
            j = j + 1;
            assert(rows_view(rest@) =~= sv.skip(j as int));
            assert(messages_view(out@) =~= sv.take(j as int).map_values(|r: RowView| spec_message_of(r)));
        }
        assert(sv.take(n as int) =~= sv);
        return out;
    }
    push_chain(&rows, None, rows.len(), &mut out);
    assert(messages_view(out@) =~= messages_at(rv, chain(rv, None, rv.len())));
    out
}

/// The first row with the given id.
pub open spec fn find_id(rows: Seq<RowView>, id: i64) -> Option<int>
    decreases rows.len(),
{
    if rows.len() == 0 {
        None
    } else {
        match find_id(rows.drop_last(), id) {
            Some(k) => Some(k),
            None => if rows.last().id == id { Some(rows.len() - 1) } else { None },
        }
    }
}

/// What walking from message `start_id` shows, given the rows of its
/// conversation: that message, then the active branch below it; nothing
/// where no row has that id.
pub open spec fn spec_walk(rows: Seq<RowView>, start_id: i64) -> Seq<MessageView> {
    match find_id(rows, start_id) {
        None => Seq::empty(),
        Some(k) => seq![spec_message_of(rows[k])] + messages_at(rows, chain(rows, Some(rows[k].id), rows.len())),
    }
}

proof fn lemma_find_id(rows: Seq<RowView>, id: i64, i: int)
    requires
        0 <= i <= rows.len(),
        forall|k: int| 0 <= k < i ==> rows[k].id != id,
    ensures
        find_id(rows.take(i), id) is None,
    decreases i,
{
    if i > 0 {
        assert(rows.take(i).drop_last() =~= rows.take(i - 1));
        lemma_find_id(rows, id, i - 1);
    }
}

proof fn lemma_find_id_extend(rows: Seq<RowView>, id: i64, i: int)
    requires
        0 <= i < rows.len(),
        find_id(rows.take(i + 1), id) == Some(i),
    ensures
        find_id(rows, id) == Some(i),
    decreases rows.len() - i,
{
    let n = rows.len();
    if i + 1 < n {
        let t = rows.take(n - 1);
        assert(t.take(i + 1) =~= rows.take(i + 1));
        lemma_find_id_extend(t, id, i);
        assert(rows.drop_last() =~= t);
    } else {
        assert(rows.take(i + 1) =~= rows);
    }
}

pub fn walk_from_rows(rows: &Vec<MessageRow>, start_id: i64) -> (r: Vec<Message>)
    ensures
        messages_view(r@) == spec_walk(rows_view(rows@), start_id),
{
    let ghost rv = rows_view(rows@);
    let mut i: usize = 0;
    while i < rows.len()
        invariant
            i <= rows.len(),
            rv == rows_view(rows@),
            forall|k: int| 0 <= k < i ==> rv[k].id != start_id,
        ensures
            i <= rows.len(),
            forall|k: int| 0 <= k < i ==> rv[k].id != start_id,
            i < rows.len() ==> rv[i as int].id == start_id,
        decreases rows.len() - i,
    {
        if rows[i].id == start_id {
            assert(rv[i as int] == rows@[i as int]@);
            break;
        }
        assert(rv[i as int] == rows@[i as int]@);
        i = i + 1;
    }
    proof { lemma_find_id(rv, start_id, i as int); }
    let mut out: Vec<Message> = Vec::new();
    if i == rows.len() {
        assert(rv.take(i as int) =~= rv);
        assert(messages_view(out@) =~= Seq::<MessageView>::empty());
        return out;
    }
    proof {
        assert(rv.take(i as int + 1).drop_last() =~= rv.take(i as int));
        assert(rv[i as int] == rows@[i as int]@);
        lemma_find_id_extend(rv, start_id, i as int);
    }
    let start = rows[i].clone();
    let start_key = start.id;
    out.push(start.into_message());
    assert(messages_view(out@) =~= seq![spec_message_of(rv[i as int])]);
    push_chain(rows, Some(start_key), rows.len(), &mut out);
    out
}

/// What loading shows of a branched history is a chain: the first message
/// has no parent, and each later one is a child of the message before it,
/// chosen as the newest among its siblings.
pub proof fn lemma_loaded_branch_is_chain(rows: Seq<RowView>)
    requires
        any_parent_set(rows),
    ensures
        spec_load(rows).len() > 0 ==> spec_load(rows)[0].parent_id is None,
        forall|j: int| 0 < j < spec_load(rows).len() ==> (#[trigger] spec_load(rows)[j]).parent_id == spec_load(rows)[j - 1].id,
        forall|j: int| 0 <= j < spec_load(rows).len() ==> exists|k: int| 0 <= k < rows.len()
            && newest_among_siblings(rows, k) && #[trigger] spec_load(rows)[j] == spec_message_of(rows[k]),
{
    let idx = chain(rows, None, rows.len());
    lemma_active_branch_is_newest_path(rows, None, rows.len());
    let out = spec_load(rows);
    assert(out == messages_at(rows, idx));
    assert forall|j: int| 0 < j < out.len() implies (#[trigger] out[j]).parent_id == out[j - 1].id by {
        assert(out[j] == spec_message_of(rows[idx[j]]));
        assert(out[j - 1] == spec_message_of(rows[idx[j - 1]]));
    }
    assert forall|j: int| 0 <= j < out.len() implies exists|k: int| 0 <= k < rows.len()
        && newest_among_siblings(rows, k) && #[trigger] out[j] == spec_message_of(rows[k]) by {
        assert(out[j] == spec_message_of(rows[idx[j]]));
        assert(0 <= idx[j] < rows.len() && newest_among_siblings(rows, idx[j]));
    }
}

/// No two rows share an id (the table's primary key makes it so).
#[verifier::opaque]
pub open spec fn unique_ids(rows: Seq<RowView>) -> bool {
    forall|a: int, b: int| 0 <= a < rows.len() && 0 <= b < rows.len() && a != b ==> (#[trigger] rows[a]).id != (#[trigger] rows[b]).id
}

proof fn lemma_no_repeat(rows: Seq<RowView>, idx: Seq<int>, a: int, b: int)
    requires
        unique_ids(rows),
        forall|j: int| 0 <= j < idx.len() ==> 0 <= #[trigger] idx[j] < rows.len(),
        idx.len() > 0 ==> rows[idx[0]].parent_id is None,
        forall|j: int| #![trigger rows[idx[j]].parent_id] 0 < j < idx.len() ==> rows[idx[j]].parent_id == Some(rows[idx[j - 1]].id),
        0 <= a < b < idx.len(),
    ensures
        idx[a] != idx[b],
    decreases a,
{
    if a > 0 {
        lemma_no_repeat(rows, idx, a - 1, b - 1);
        let x = idx[a - 1];
        let y = idx[b - 1];
        assert(0 <= x < rows.len() && 0 <= y < rows.len());
        assert(rows[x].id != rows[y].id) by {
            reveal(unique_ids);
        }
        assert(rows[idx[a]].parent_id == Some(rows[x].id));
        assert(rows[idx[b]].parent_id == Some(rows[y].id));
    } else {
        assert(rows[idx[b]].parent_id == Some(rows[idx[b - 1]].id));
    }
}

/// Extra fuel changes nothing once the branch has stopped short of it.
proof fn lemma_chain_settled(rows: Seq<RowView>, parent: Option<i64>, fuel: nat)
    requires
        chain(rows, parent, fuel + 1).len() <= fuel,
    ensures
        chain(rows, parent, fuel + 1) == chain(rows, parent, fuel),
    decreases fuel,
{
    if fuel > 0 {
        match best_child(rows, parent) {
            None => {},
            Some(i) => {
                lemma_chain_step(rows, parent, fuel + 1);
                lemma_chain_step(rows, parent, fuel);
                lemma_chain_settled(rows, Some(rows[i].id), (fuel - 1) as nat);
            },
        }
    }
}

/// With unique ids, the active branch from the root never visits a row
/// twice, so it is never longer than the history.
proof fn lemma_chain_bounded(rows: Seq<RowView>, fuel: nat)
    requires
        unique_ids(rows),
    ensures
        chain(rows, None, fuel).len() <= rows.len(),
{
    let idx = chain(rows, None, fuel);
    lemma_active_branch_is_newest_path(rows, None, fuel);
    assert(forall|j: int| 0 <= j < idx.len() ==> 0 <= #[trigger] idx[j] < rows.len());
    assert forall|a: int, b: int| 0 <= a < idx.len() && 0 <= b < idx.len() && a != b implies idx[a] != idx[b] by {
        if a < b {
            lemma_no_repeat(rows, idx, a, b);
        } else {
            lemma_no_repeat(rows, idx, b, a);
        }
    }
    assert(idx.no_duplicates());
    idx.unique_seq_to_set();
    vstd::set_lib::lemma_int_range(0, rows.len() as int);
    assert(idx.to_set().subset_of(vstd::set_lib::set_int_range(0, rows.len() as int))) by {
        assert forall|x: int| idx.to_set().contains(x) implies vstd::set_lib::set_int_range(0, rows.len() as int).contains(x) by {
            let j = choose|j: int| 0 <= j < idx.len() && idx[j] == x;
        }
    }
    vstd::set_lib::lemma_len_subset(idx.to_set(), vstd::set_lib::set_int_range(0, rows.len() as int));
}

/// With unique ids, the active branch from the root stops by itself
/// within as many steps as there are rows: following it further adds
/// nothing, so the step bound that loading uses never cuts it short.
pub proof fn lemma_active_branch_stops(rows: Seq<RowView>, extra: nat)
    requires
        unique_ids(rows),
    ensures
        chain(rows, None, rows.len() + extra) == chain(rows, None, rows.len()),
    decreases extra,
{
    if extra > 0 {
        lemma_active_branch_stops(rows, (extra - 1) as nat);
        let f = (rows.len() + extra - 1) as nat;
        lemma_chain_bounded(rows, f + 1);
        lemma_chain_settled(rows, None, f);
    }
}

// ---------------------------------------------------------------- sortedness

/// Positions never decrease along `s`.
pub open spec fn sorted_by_position(s: Seq<RowView>) -> bool {
    forall|a: int, b: int| 0 <= a < b < s.len() ==> (#[trigger] s[a]).position <= (#[trigger] s[b]).position
}

proof fn lemma_insert_sorted(s: Seq<RowView>, r: RowView)
    requires
        sorted_by_position(s),
    ensures
        sorted_by_position(insert_by_position(s, r)),
        insert_by_position(s, r).to_multiset() == s.to_multiset().insert(r),
    decreases s.len(),
{
    broadcast use vstd::seq_lib::group_to_multiset_ensures;
    if s.len() == 0 {
        assert(insert_by_position(s, r) =~= seq![r]);
        assert(seq![r] =~= Seq::<RowView>::empty().push(r));
    } else if s.last().position <= r.position {
    } else {
        let d = s.drop_last();
        assert(sorted_by_position(d)) by {
            assert forall|a: int, b: int| 0 <= a < b < d.len() implies (#[trigger] d[a]).position <= (#[trigger] d[b]).position by {
                assert(d[a] == s[a] && d[b] == s[b]);
            }
        }
        lemma_insert_sorted(d, r);
        let t = insert_by_position(d, r);
        // Every element of `t` is `r` or an element of `d`, all at or below
        // the last element of `s`.
        assert forall|a: int| 0 <= a < t.len() implies (#[trigger] t[a]).position <= s.last().position by {
            assert(t.to_multiset().count(t[a]) > 0);
            if t[a] != r {
                assert(d.to_multiset().count(t[a]) > 0);
                assert(d.contains(t[a]));
                let k = choose|k: int| 0 <= k < d.len() && d[k] == t[a];
                assert(s[k] == d[k]);
            }
        }
        assert(s == d.push(s.last()));
    }
}

/// Loading a history without parent links shows it in position order, and
/// shows every row exactly once.
pub proof fn lemma_position_order_is_sorted_permutation(rows: Seq<RowView>)
    ensures
        sorted_by_position(sort_by_position(rows)),
        sort_by_position(rows).to_multiset() == rows.to_multiset(),
    decreases rows.len(),
{
    broadcast use vstd::seq_lib::group_to_multiset_ensures;
    if rows.len() > 0 {
        lemma_position_order_is_sorted_permutation(rows.drop_last());
        lemma_insert_sorted(sort_by_position(rows.drop_last()), rows.last());
        assert(rows == rows.drop_last().push(rows.last()));
    }
}

// ---------------------------------------------------------------- backfill

/// The parent links that backfilling writes for a conversation whose
/// messages, in position order, have the ids `ids`: each message's parent
/// is the one before it, as `(parent, child)` pairs.
pub open spec fn backfill_links(ids: Seq<i64>) -> Seq<(i64, i64)> {
    Seq::new((if ids.len() == 0 { 0 } else { ids.len() - 1 }) as nat, |k: int| (ids[k], ids[k + 1]))
}

/// The rows after the backfill links are written: each row's parent is
/// the row before it (the first keeps its own).
pub open spec fn backfilled(rows: Seq<RowView>) -> Seq<RowView> {
    Seq::new(rows.len(), |k: int| if k == 0 { rows[0] } else { RowView { parent_id: Some(rows[k - 1].id), ..rows[k] } })
}

/// The ids of the rows, in order.
pub open spec fn ids_of(rows: Seq<RowView>) -> Seq<i64> {
    rows.map_values(|r: RowView| r.id)
}

/// `backfilled` is what writing `backfill_links` gives: link `k` makes row
/// `k` the parent of row `k + 1`.
pub proof fn lemma_backfill_links_set_parents(rows: Seq<RowView>)
    ensures
        backfill_links(ids_of(rows)).len() == (if rows.len() == 0 { 0 } else { rows.len() - 1 }),
        forall|k: int| 0 <= k < backfill_links(ids_of(rows)).len() ==>
            (#[trigger] backfill_links(ids_of(rows))[k]).0 == rows[k].id
            && backfill_links(ids_of(rows))[k].1 == rows[k + 1].id
            && backfilled(rows)[k + 1].parent_id == Some(backfill_links(ids_of(rows))[k].0),
{
}

proof fn lemma_best_child_only(rows: Seq<RowView>, parent: Option<i64>, k: int)
    requires
        0 <= k < rows.len(),
        rows[k].parent_id == parent,
        forall|j: int| 0 <= j < rows.len() && j != k ==> (#[trigger] rows[j]).parent_id != parent,
    ensures
        best_child(rows, parent) == Some(k),
    decreases rows.len(),
{
    let d = rows.drop_last();
    if k == rows.len() - 1 {
        lemma_best_child_facts(d, parent);
        if best_child(d, parent) is Some {
            let i = best_child(d, parent)->0;
            assert(d[i] == rows[i]);
        }
    } else {
        assert forall|j: int| 0 <= j < d.len() && j != k implies (#[trigger] d[j]).parent_id != parent by {
            assert(d[j] == rows[j]);
        }
        lemma_best_child_only(d, parent, k);
    }
}

proof fn lemma_best_child_none(rows: Seq<RowView>, parent: Option<i64>)
    requires
        forall|j: int| 0 <= j < rows.len() ==> (#[trigger] rows[j]).parent_id != parent,
    ensures
        best_child(rows, parent) is None,
{
    lemma_best_child_facts(rows, parent);
}

proof fn lemma_backfilled_chain(rows: Seq<RowView>, j: int, fuel: nat)
    requires
        unique_ids(rows),
        rows.len() > 0 && rows[0].parent_id is None,
        0 <= j < rows.len(),
        fuel >= rows.len() - 1 - j,
    ensures
        chain(backfilled(rows), Some(rows[j].id), fuel) == Seq::new((rows.len() - 1 - j) as nat, |m: int| m + j + 1),
    decreases rows.len() - j,
{
    let b = backfilled(rows);
    let n = rows.len();
    assert(b.len() == n);
    if j == n - 1 {
        assert forall|m: int| 0 <= m < b.len() implies (#[trigger] b[m]).parent_id != Some(rows[j].id) by {
            if m > 0 {
                assert(b[m].parent_id == Some(rows[m - 1].id));
                assert(rows[m - 1].id != rows[j].id) by { reveal(unique_ids); }
            }
        }
        lemma_best_child_none(b, Some(rows[j].id));
        assert(chain(b, Some(rows[j].id), fuel) =~= Seq::<int>::empty());
        assert(Seq::new(0, |m: int| m + j + 1) =~= Seq::<int>::empty());
    } else {
        assert(b[j + 1].parent_id == Some(rows[j].id));
        assert forall|m: int| 0 <= m < b.len() && m != j + 1 implies (#[trigger] b[m]).parent_id != Some(rows[j].id) by {
            if m > 0 {
                assert(b[m].parent_id == Some(rows[m - 1].id));
                assert(rows[m - 1].id != rows[j].id) by { reveal(unique_ids); }
            }
        }
        lemma_best_child_only(b, Some(rows[j].id), j + 1);
        assert(b[j + 1].id == rows[j + 1].id);
        lemma_chain_step(b, Some(rows[j].id), fuel);
        lemma_backfilled_chain(rows, j + 1, (fuel - 1) as nat);
        assert(chain(b, Some(rows[j].id), fuel) =~= Seq::new((n - 1 - j) as nat, |m: int| m + j + 1));
    }
}

/// After the backfill links are written to a history whose rows are in
/// position order (the order backfilling reads them in), loading shows
/// every message, in that order.
pub proof fn lemma_load_after_backfill(rows: Seq<RowView>)
    requires
        unique_ids(rows),
        forall|k: int| 0 <= k < rows.len() ==> (#[trigger] rows[k]).parent_id is None,
    ensures
        spec_load(backfilled(rows)) == backfilled(rows).map_values(|r: RowView| spec_message_of(r)),
{
    let b = backfilled(rows);
    let n = rows.len();
    if n == 0 {
        assert(b.map_values(|r: RowView| spec_message_of(r)) =~= Seq::<MessageView>::empty());
    } else if n == 1 {
        assert(!any_parent_set(b));
        assert(b.drop_last() =~= Seq::<RowView>::empty());
        assert(sort_by_position(b.drop_last()) =~= Seq::<RowView>::empty());
        assert(insert_by_position(Seq::<RowView>::empty(), b.last()) == seq![b.last()]);
        assert(sort_by_position(b) =~= b);
    } else {
        assert(b[1].parent_id is Some);
        assert(any_parent_set(b));
        assert forall|m: int| 0 <= m < b.len() && m != 0 implies (#[trigger] b[m]).parent_id != None::<i64> by {}
        lemma_best_child_only(b, None, 0);
        lemma_chain_step(b, None, n);
        lemma_backfilled_chain(rows, 0, (n - 1) as nat);
        let idx = chain(b, None, n);
        assert(idx =~= Seq::new(n, |m: int| m));
        assert(messages_at(b, idx) =~= b.map_values(|r: RowView| spec_message_of(r)));
    }
}

/// Backfilling is idempotent: once it has run, a history of two or more
/// messages has parents, so it is left as it is; with fewer there is
/// nothing to link.
pub proof fn lemma_backfill_idempotent(rows: Seq<RowView>)
    ensures
        rows.len() >= 2 ==> any_parent_set(backfilled(rows)),
        rows.len() < 2 ==> backfilled(rows) == rows,
{
    if rows.len() >= 2 {
        assert(backfilled(rows)[1].parent_id is Some);
    } else {
        assert(backfilled(rows) =~= rows);
    }
}

pub fn backfill_plan(ids: &Vec<i64>) -> (r: Vec<(i64, i64)>)
    ensures
        r@ == backfill_links(ids@),
{
    let mut out: Vec<(i64, i64)> = Vec::new();
    let mut i: usize = 1;
    while i < ids.len()
        invariant
            1 <= i,
            i <= ids.len() || i == 1,
            out@ == Seq::new((i - 1) as nat, |k: int| (ids@[k], ids@[k + 1])),
        decreases ids.len() - i,
    {
        out.push((ids[i - 1], ids[i]));
        assert(out@ =~= Seq::new(i as nat, |k: int| (ids@[k], ids@[k + 1])));
        i = i + 1;
    }
    if ids.len() > 0 {
        assert(i == ids.len());
        assert(backfill_links(ids@).len() == ids.len() - 1);
        assert forall|k: int| 0 <= k < out@.len() implies out@[k] == backfill_links(ids@)[k] by {}
        assert(out@ =~= backfill_links(ids@));
    } else {
        assert(backfill_links(ids@).len() == 0);
        assert(out@.len() == 0);
        assert(out@ =~= backfill_links(ids@));
    }
    out
}

} // verus!
