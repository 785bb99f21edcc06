//! Full-text search over message content: the LIKE pattern sent to SQLite,
//! and the post-filter that keeps only hits in the text parts.

use vstd::prelude::*;
use crate::db::{as_i64, as_text, col, spec_as_i64, spec_as_text, spec_col, DbError, SqlValue};
use crate::message::{content_of, spec_content_of, ContentPart, PartView, parts_view};
use crate::text::{
    chars_of, contains, contains_seq, lower_ascii, push_char, push_str,
    to_ascii_lowercase,
};

verus! {

/// The most results a search returns.
pub const MAX_RESULTS: usize = 50;

/// One character of a LIKE pattern that must match itself: `\`, `%` and
/// `_` are escaped with a backslash.
pub open spec fn escape_char(c: char) -> Seq<char> {
    if c == '\\' || c == '%' || c == '_' {
        seq!['\\', c]
    } else {
        seq![c]
    }
}

/// `s` with every LIKE metacharacter escaped.
pub open spec fn escape_like(s: Seq<char>) -> Seq<char>
    decreases s.len(),
{
    if s.len() == 0 {
        Seq::empty()
    } else {
        escape_like(s.drop_last()) + escape_char(s.last())
    }
}

/// The LIKE pattern for "contains `q`" (with `ESCAPE '\'`).
pub open spec fn spec_like_pattern(q: Seq<char>) -> Seq<char> {
    seq!['%'] + escape_like(q) + seq!['%']
}

/// Reads an escaped pattern back: a backslash makes the character after it
/// stand for itself.
pub open spec fn unescape_like(s: Seq<char>) -> Seq<char>
    decreases s.len(),
{
    if s.len() == 0 {
        Seq::empty()
    } else if s[0] == '\\' && s.len() >= 2 {
        seq![s[1]] + unescape_like(s.skip(2))
    } else {
        seq![s[0]] + unescape_like(s.skip(1))
    }
}

proof fn lemma_escape_append(a: Seq<char>, b: Seq<char>)
    ensures
        escape_like(a + b) == escape_like(a) + escape_like(b),
    decreases b.len(),
{
    if b.len() == 0 {
        assert(a + b =~= a);
        assert(escape_like(a) + escape_like(b) =~= escape_like(a));
    } else {
        lemma_escape_append(a, b.drop_last());
        assert((a + b).drop_last() =~= a + b.drop_last());
        assert((a + b).last() == b.last());
    }
}

proof fn lemma_escape_front(q: Seq<char>)
    requires
        q.len() > 0,
    ensures
        escape_like(q) == escape_char(q[0]) + escape_like(q.skip(1)),
{
    lemma_escape_append(seq![q[0]], q.skip(1));
    assert(seq![q[0]] + q.skip(1) =~= q);
    let one = seq![q[0]];
    assert(one.drop_last() =~= Seq::<char>::empty());
    assert(one.last() == q[0]);
    assert(escape_like(one.drop_last()) =~= Seq::<char>::empty());
    assert(escape_like(one) == escape_like(one.drop_last()) + escape_char(q[0]));
    assert(escape_like(one) =~= escape_char(q[0]));
}

/// Escaping loses nothing: reading the escaped query back gives the
/// query, so the pattern's wildcards are exactly the two added around it.
pub proof fn lemma_unescape_escape(q: Seq<char>)
    ensures
        unescape_like(escape_like(q)) == q,
    decreases q.len(),
{
    if q.len() > 0 {
        lemma_escape_front(q);
        lemma_unescape_escape(q.skip(1));
        let e = escape_like(q);
        let rest = escape_like(q.skip(1));
        let c = q[0];
        if c == '\\' || c == '%' || c == '_' {
            assert(e.skip(2) =~= rest);
        } else {
            assert(e.skip(1) =~= rest);
        }
        assert(seq![c] + q.skip(1) =~= q);
    } else {
        assert(escape_like(q) =~= Seq::<char>::empty());
    }
}

pub fn like_pattern(q: &str) -> (r: String)
    ensures
        r@ == spec_like_pattern(q@),
{
    let cs = chars_of(q);
    let mut out = String::new();
    push_char(&mut out, '%');
    let mut i: usize = 0;
    while i < cs.len()
        invariant
            i <= cs.len(),
            cs@ == q@,
            out@ == seq!['%'] + escape_like(q@.take(i as int)),
        decreases cs.len() - i,
    {
        let c = cs[i];
        if c == '\\' || c == '%' || c == '_' {
            push_char(&mut out, '\\');
        }
        push_char(&mut out, c);
        assert(q@.take(i as int + 1).drop_last() =~= q@.take(i as int));
        i = i + 1;
        assert(out@ =~= seq!['%'] + escape_like(q@.take(i as int)));
    }
    push_char(&mut out, '%');
    assert(q@.take(cs.len() as int) =~= q@);
    assert(out@ =~= spec_like_pattern(q@));
    out
}

/// The text a message's content is searched by: each text part followed by
/// a newline.
pub open spec fn spec_search_text(parts: Seq<PartView>) -> Seq<char>
    decreases parts.len(),
{
    if parts.len() == 0 {
        Seq::empty()
    } else {
        match parts.last() {
            PartView::Text(t) => spec_search_text(parts.drop_last()) + t + seq!['\n'],
            PartView::Image(_, _) => spec_search_text(parts.drop_last()),
        }
    }
}

pub fn search_text(parts: &Vec<ContentPart>) -> (r: String)
    ensures
        r@ == spec_search_text(parts_view(parts@)),
{
    let ghost pv = parts_view(parts@);
    let mut out = String::new();
    let mut i: usize = 0;
    while i < parts.len()
        invariant
            i <= parts.len(),
            pv == parts_view(parts@),
            out@ == spec_search_text(pv.take(i as int)),
        decreases parts.len() - i,
    {
        assert(pv.take(i as int + 1).drop_last() =~= pv.take(i as int));
        match &parts[i] {
            ContentPart::Text { text } => {
                push_str(&mut out, text.as_str());
                push_char(&mut out, '\n');
            },
            ContentPart::ImageUrl { .. } => {},
        }
        i = i + 1;
        assert(out@ =~= spec_search_text(pv.take(i as int)));
    }
    assert(pv.take(parts.len() as int) =~= pv);
    out
}

/// Searching a content splits over its parts: the searched text of two
/// runs of parts one after the other is the searched text of the first
/// followed by that of the second.
pub proof fn law_search_text_concat(a: Seq<PartView>, b: Seq<PartView>)
    ensures
        spec_search_text(a + b) == spec_search_text(a) + spec_search_text(b),
    decreases b.len(),
{
    if b.len() == 0 {
        assert(a + b =~= a);
        assert(spec_search_text(a) + spec_search_text(b) =~= spec_search_text(a));
    } else {
        law_search_text_concat(a, b.drop_last());
        assert((a + b).drop_last() =~= a + b.drop_last());
        assert((a + b).last() == b.last());
        match b.last() {
            PartView::Text(t) => {
                assert(spec_search_text(a + b) =~= spec_search_text(a) + spec_search_text(b));
            },
            PartView::Image(_, _) => {},
        }
    }
}

/// A text part is searched as its text followed by a newline; an image
/// part (its URL and detail included) is not searched at all.
pub proof fn law_search_text_of_one_part(t: Seq<char>, url: Seq<char>, detail: Option<Seq<char>>)
    ensures
        spec_search_text(seq![PartView::Text(t)]) == t.push('\n'),
        spec_search_text(seq![PartView::Image(url, detail)]) == Seq::<char>::empty(),
        spec_search_text(Seq::<PartView>::empty()) == Seq::<char>::empty(),
{
    let e = Seq::<PartView>::empty();
    assert(spec_search_text(e) == Seq::<char>::empty());
    let s1 = seq![PartView::Text(t)];
    assert(s1.drop_last() =~= e);
    assert(s1.last() == PartView::Text(t));
    assert(spec_search_text(s1) == spec_search_text(e) + t + seq!['\n']);
    assert(Seq::<char>::empty() + t + seq!['\n'] =~= t.push('\n'));
    let s2 = seq![PartView::Image(url, detail)];
    assert(s2.drop_last() =~= e);
    assert(s2.last() == PartView::Image(url, detail));
}

/// An image anywhere in a content changes nothing that is searched: a
/// query that occurs only in an image URL is no hit, and a hit's text
/// never holds an image URL.
pub proof fn law_images_are_not_searched(a: Seq<PartView>, b: Seq<PartView>, url: Seq<char>, detail: Option<Seq<char>>)
    ensures
        spec_search_text(a + seq![PartView::Image(url, detail)] + b) == spec_search_text(a + b),
{
    law_search_text_concat(a + seq![PartView::Image(url, detail)], b);
    law_search_text_concat(a, seq![PartView::Image(url, detail)]);
    law_search_text_concat(a, b);
    law_search_text_of_one_part(Seq::empty(), url, detail);
    assert(spec_search_text(a) + Seq::<char>::empty() =~= spec_search_text(a));
}

/// A candidate row `(conversation id, title, stored content)`.
pub type Candidate = (i64, String, String);

pub open spec fn spec_candidate_of(row: Seq<SqlValue>) -> Option<(i64, Seq<char>, Seq<char>)> {
    match (spec_as_i64(spec_col(row, 0)), spec_as_text(spec_col(row, 1)), spec_as_text(spec_col(row, 2))) {
        (Some(id), Some(title), Some(raw)) => Some((id, title, raw)),
        _ => None,
    }
}

/// The candidates a query yielded; failed or undecodable rows are dropped.
pub open spec fn spec_candidates(raw: Seq<Result<Vec<SqlValue>, DbError>>) -> Seq<(i64, Seq<char>, Seq<char>)>
    decreases raw.len(),
{
    if raw.len() == 0 {
        Seq::empty()
    } else {
        let front = spec_candidates(raw.drop_last());
        match raw.last() {
            Ok(row) => match spec_candidate_of(row@) {
                Some(c) => front.push(c),
                None => front,
            },
            Err(_) => front,
        }
    }
}

pub open spec fn candidates_view(v: Seq<Candidate>) -> Seq<(i64, Seq<char>, Seq<char>)> {
    v.map_values(|c: Candidate| (c.0, c.1@, c.2@))
}

/// The candidates read each row by its columns: a row whose conversation
/// id (column 0) is an integer and whose title (column 1) and stored
/// content (column 2) are text adds, after the rows before it, exactly
/// that candidate.
pub proof fn law_candidates_read_columns(raw: Seq<Result<Vec<SqlValue>, DbError>>, row: Vec<SqlValue>, id: i64, title: Seq<char>, content: Seq<char>)
    requires
        spec_as_i64(spec_col(row@, 0)) == Some(id),
        spec_as_text(spec_col(row@, 1)) == Some(title),
        spec_as_text(spec_col(row@, 2)) == Some(content),
    ensures
        spec_candidates(raw.push(Ok(row))) == spec_candidates(raw).push((id, title, content)),
{
    assert(raw.push(Ok(row)).drop_last() =~= raw);
}

pub fn candidates(raw: &Vec<Result<Vec<SqlValue>, DbError>>) -> (r: Vec<Candidate>)
    ensures
        candidates_view(r@) == spec_candidates(raw@),
{
    let mut out: Vec<Candidate> = Vec::new();
    let mut i: usize = 0;
    while i < raw.len()
        invariant
            i <= raw.len(),
            candidates_view(out@) == spec_candidates(raw@.take(i as int)),
        decreases raw.len() - i,
    {
        let ghost before = candidates_view(out@);
        assert(raw@.take(i as int + 1).drop_last() =~= raw@.take(i as int));
        match &raw[i] {
            Ok(row) => {
                let id = as_i64(&col(row, 0));
                let title = as_text(&col(row, 1));
                let content = as_text(&col(row, 2));
                match (id, title, content) {
                    (Some(id), Some(title), Some(content)) => {
                        let ghost c = (id, title@, content@);
                        out.push((id, title, content));
                        assert(candidates_view(out@) =~= before.push(c));
                    },
                    _ => {},
                }
            },
            Err(_) => {},
        }
        i = i + 1;
    }
    assert(raw@.take(raw.len() as int) =~= raw@);
    out
}

/// Whether a stored content column is a hit for `q`: its searchable text
/// contains `q`, ASCII case ignored.
pub open spec fn spec_is_hit(q: Seq<char>, raw: Seq<char>) -> bool {
    contains_seq(lower_ascii(spec_search_text(spec_content_of(raw))), lower_ascii(q))
}

/// Every hit among the candidates, in order, with its searchable text in
/// place of the stored content.
pub open spec fn spec_hits(cands: Seq<(i64, Seq<char>, Seq<char>)>, q: Seq<char>) -> Seq<(i64, Seq<char>, Seq<char>)>
    decreases cands.len(),
{
    if cands.len() == 0 {
        Seq::empty()
    } else {
        let front = spec_hits(cands.drop_last(), q);
        let c = cands.last();
        if spec_is_hit(q, c.2) {
            front.push((c.0, c.1, spec_search_text(spec_content_of(c.2))))
        } else {
            front
        }
    }
}

/// What a search returns: the first `MAX_RESULTS` hits.
pub open spec fn spec_search_results(cands: Seq<(i64, Seq<char>, Seq<char>)>, q: Seq<char>) -> Seq<(i64, Seq<char>, Seq<char>)> {
    let all = spec_hits(cands, q);
    if all.len() > MAX_RESULTS { all.take(MAX_RESULTS as int) } else { all }
}

proof fn lemma_hits_prefix(cands: Seq<(i64, Seq<char>, Seq<char>)>, q: Seq<char>, i: int)
    requires
        0 <= i <= cands.len(),
    ensures
        spec_hits(cands.take(i), q).len() <= spec_hits(cands, q).len(),
        spec_hits(cands.take(i), q) == spec_hits(cands, q).take(spec_hits(cands.take(i), q).len() as int),
    decreases cands.len() - i,
{
    if i < cands.len() {
        lemma_hits_prefix(cands.drop_last(), q, i);
        assert(cands.drop_last().take(i) =~= cands.take(i));
        let a = spec_hits(cands.take(i), q);
        let b = spec_hits(cands.drop_last(), q);
        assert(b.take(a.len() as int) == a);
        assert(spec_hits(cands, q).take(b.len() as int) =~= b);
        assert(spec_hits(cands, q).take(a.len() as int) =~= a);
    } else {
        assert(cands.take(i) =~= cands);
        assert(spec_hits(cands, q).take(spec_hits(cands, q).len() as int) =~= spec_hits(cands, q));
    }
}

/// Every search result's text contains the query, ASCII case ignored, and
/// there are at most `MAX_RESULTS` of them.
pub proof fn lemma_search_results_match(cands: Seq<(i64, Seq<char>, Seq<char>)>, q: Seq<char>)
    ensures
        spec_search_results(cands, q).len() <= MAX_RESULTS,
        forall|k: int| 0 <= k < spec_search_results(cands, q).len() ==>
            contains_seq(lower_ascii(#[trigger] spec_search_results(cands, q)[k].2), lower_ascii(q)),
{
    lemma_hits_match(cands, q);
}

proof fn lemma_hits_match(cands: Seq<(i64, Seq<char>, Seq<char>)>, q: Seq<char>)
    ensures
        forall|k: int| 0 <= k < spec_hits(cands, q).len() ==>
            contains_seq(lower_ascii(#[trigger] spec_hits(cands, q)[k].2), lower_ascii(q)),
    decreases cands.len(),
{
    if cands.len() > 0 {
        let front = spec_hits(cands.drop_last(), q);
        lemma_hits_match(cands.drop_last(), q);
        let all = spec_hits(cands, q);
        assert forall|k: int| 0 <= k < all.len() implies
            contains_seq(lower_ascii(#[trigger] all[k].2), lower_ascii(q)) by {
            if k < front.len() {
                assert(all[k] == front[k]);
            }
        }
    }
}

/// Keeps the candidates whose text parts contain `q` (ASCII case
/// ignored), at most `MAX_RESULTS` of them.
pub fn filter_hits(cands: Vec<Candidate>, q: &str) -> (r: Vec<Candidate>)
    ensures
        candidates_view(r@) == spec_search_results(candidates_view(cands@), q@),
{
    let ghost cv = candidates_view(cands@);
    let q_lower = to_ascii_lowercase(&chars_of(q));
    let mut out: Vec<Candidate> = Vec::new();
    let mut rest = cands;
    let n = rest.len();
    let mut i: usize = 0;
    assert(candidates_view(rest@) =~= cv.skip(0));
    while rest.len() > 0 && out.len() < MAX_RESULTS
        invariant
            i + rest.len() == n,
            n == cv.len(),
            candidates_view(rest@) == cv.skip(i as int),
            q_lower@ == lower_ascii(q@),
            candidates_view(out@) == spec_hits(cv.take(i as int), q@),
            out.len() <= MAX_RESULTS,
        decreases rest.len(),
    {
        let ghost before = rest@;
        let ghost hits = candidates_view(out@);
        let c = rest.remove(0);
        assert(c == before[0]);
        assert(candidates_view(before)[0] == cv.skip(i as int)[0]);
        assert(cv.take(i as int + 1).drop_last() =~= cv.take(i as int));
        let (id, title, raw) = c;
        let ghost raw_view = raw@;
        let parts = content_of(raw);
        let text = search_text(&parts);
        let hay = to_ascii_lowercase(&chars_of(text.as_str()));
        if contains(&hay, &q_lower) {
            let ghost h = (id, title@, text@);
            out.push((id, title, text));
            assert(candidates_view(out@) =~= hits.push(h));
        }
        assert forall|k: int| 0 <= k < rest@.len() implies candidates_view(rest@)[k] == cv.skip(i as int + 1)[k] by {
            assert(rest@[k] == before[k + 1]);
            assert(candidates_view(before)[k + 1] == cv.skip(i as int)[k + 1]);
        }
        i = i + 1;
        assert(candidates_view(rest@) =~= cv.skip(i as int));
    }
    proof {
        lemma_hits_prefix(cv, q@, i as int);
        let a = spec_hits(cv.take(i as int), q@);
        let all = spec_hits(cv, q@);
        if rest.len() == 0 {
            assert(cv.take(i as int) =~= cv);
        } else {
            assert(a.len() == MAX_RESULTS);
            assert(all.take(MAX_RESULTS as int) == a);
        }
    }
    out
}

} // verus!
