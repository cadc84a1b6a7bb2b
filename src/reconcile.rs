//! Comment reconciliation: keeps exactly one up-to-date status report
//! comment on a merge request.

use vstd::prelude::*;
use crate::report::CommentKind;
use crate::text::{contains, contains_text, occurs_at};
use crate::types::Note;

verus! {

/// What reconciliation sees of a note: its id, its author's id and its body.
pub struct NoteModel {
    pub id: u64,
    pub author: Option<u64>,
    pub body: Seq<char>,
}

pub open spec fn note_model(n: Note) -> NoteModel {
    NoteModel {
        id: n.id,
        author: match n.author {
            Some(a) => Some(a.id),
            None => None,
        },
        body: n.body@,
    }
}

pub open spec fn notes_model(s: Seq<Note>) -> Seq<NoteModel> {
    s.map_values(|n: Note| note_model(n))
}

/// A change to the notes of a merge request, as a value.
pub enum WriteModel {
    Create(Seq<char>),
    Update(u64, Seq<char>),
    Delete(u64),
}

/// A change to the notes of a merge request.
#[derive(Debug)]
pub enum CommentWrite {
    Create { body: String },
    Update { note_id: u64, body: String },
    Delete { note_id: u64 },
}

impl View for CommentWrite {
    type V = WriteModel;

    open spec fn view(&self) -> WriteModel {
        match self {
            CommentWrite::Create { body } => WriteModel::Create(body@),
            CommentWrite::Update { note_id, body } => WriteModel::Update(*note_id, body@),
            CommentWrite::Delete { note_id } => WriteModel::Delete(*note_id),
        }
    }
}

/// The marker that identifies a status report.
pub open spec fn report_marker() -> Seq<char> {
    CommentKind::Report.marker_text()
}

/// A status report written by the bot `bot`.
pub open spec fn is_bot_report(n: NoteModel, bot: u64) -> bool {
    n.author == Some(bot) && contains_text(n.body, report_marker())
}

/// Position `i` holds the newest status report of the bot.
pub open spec fn is_newest_report(s: Seq<NoteModel>, bot: u64, i: int) -> bool {
    &&& 0 <= i < s.len()
    &&& is_bot_report(s[i], bot)
    &&& forall|j: int| 0 <= j < i ==> !is_bot_report(#[trigger] s[j], bot)
}

/// The newest status report of the bot already reads `report`.
pub open spec fn report_unchanged(report: Seq<char>, s: Seq<NoteModel>, bot: u64) -> bool {
    exists|i: int| is_newest_report(s, bot, i) && s[i].body == report
}

/// Deletion of every status report of the bot in `s`, oldest position last.
pub open spec fn report_deletions(s: Seq<NoteModel>, bot: u64) -> Seq<WriteModel>
    decreases s.len(),
{
    if s.len() == 0 {
        Seq::empty()
    } else {
        let rest = report_deletions(s.drop_last(), bot);
        if is_bot_report(s.last(), bot) {
            rest.push(WriteModel::Delete(s.last().id))
        } else {
            rest
        }
    }
}

/// The changes that bring the notes `s` (newest first) in line with
/// `report`: nothing when the report is empty or already the newest report
/// of the bot; else an update of the newest note when it is a report of the
/// bot, or a new note, followed by the deletion of every other report of
/// the bot.
pub open spec fn planned_writes(report: Seq<char>, s: Seq<NoteModel>, bot: u64) -> Seq<WriteModel> {
    if report.len() == 0 || report_unchanged(report, s, bot) {
        Seq::empty()
    } else if s.len() > 0 && is_bot_report(s[0], bot) {
        seq![WriteModel::Update(s[0].id, report)] + report_deletions(s.drop_first(), bot)
    } else {
        seq![WriteModel::Create(report)] + report_deletions(s, bot)
    }
}

fn is_report_of(n: &Note, bot_id: u64) -> (r: bool)
    ensures
        r == is_bot_report(note_model(*n), bot_id),
{
    n.is_authored_by(bot_id) && contains(n.body.as_str(), CommentKind::Report.marker())
}

/// The position of the newest status report of the bot, if there is one.
fn newest_report_index(comments: &Vec<Note>, bot_id: u64) -> (r: Option<usize>)
    ensures
        r matches Some(i) ==> is_newest_report(notes_model(comments@), bot_id, i as int),
        r is None ==> forall|j: int| 0 <= j < comments@.len() ==> !is_bot_report(#[trigger] notes_model(comments@)[j], bot_id),
{
    let ghost s = notes_model(comments@);
    let mut i: usize = 0;
    while i < comments.len()
        invariant
            i <= comments@.len(),
            s == notes_model(comments@),
            forall|j: int| 0 <= j < i ==> !is_bot_report(#[trigger] s[j], bot_id),
        decreases comments@.len() - i,
    {
        if is_report_of(&comments[i], bot_id) {
            return Some(i);
        }
        i = i + 1;
    }
    None
}

/// The changes that bring `comments` (newest first) in line with `report`,
/// in the order in which they must be made.
pub fn plan_report_writes(report: &String, comments: &Vec<Note>, bot_id: u64) -> (r: Vec<CommentWrite>)
    ensures
        r@.map_values(|w: CommentWrite| w@) == planned_writes(report@, notes_model(comments@), bot_id),
{
    let ghost s = notes_model(comments@);
    let mut out: Vec<CommentWrite> = Vec::new();
    if report.as_str().is_empty() {
        assert(out@.map_values(|w: CommentWrite| w@) =~= Seq::<WriteModel>::empty());
        return out;
    }
    match newest_report_index(comments, bot_id) {
        Some(i) => {
            if comments[i].body == *report {
                assert(out@.map_values(|w: CommentWrite| w@) =~= Seq::<WriteModel>::empty());
                return out;
            }
            assert forall|k: int| is_newest_report(s, bot_id, k) implies k == i by {
                if k > i {
                    assert(!is_bot_report(s[i as int], bot_id));
                } else if k < i {
                    assert(!is_bot_report(s[k], bot_id));
                }
            }
        },
        None => {},
    }
    assert(!report_unchanged(report@, s, bot_id));
    let start: usize;
    if comments.len() > 0 && is_report_of(&comments[0], bot_id) {
        out.push(CommentWrite::Update { note_id: comments[0].id, body: report.clone() });
        start = 1;
    } else {
        out.push(CommentWrite::Create { body: report.clone() });
        start = 0;
    }
    let ghost first = out@.map_values(|w: CommentWrite| w@);
    let mut k: usize = start;
    while k < comments.len()
        invariant
            start <= k <= comments@.len(),
            s == notes_model(comments@),
            first.len() == 1,
            out@.map_values(|w: CommentWrite| w@) == first + report_deletions(s.subrange(start as int, k as int), bot_id),
        decreases comments@.len() - k,
    {
        let ghost sub = s.subrange(start as int, k + 1);
        assert(sub.drop_last() =~= s.subrange(start as int, k as int));
        assert(sub.last() == s[k as int]);
        let ghost before = out@;
        if is_report_of(&comments[k], bot_id) {
            out.push(CommentWrite::Delete { note_id: comments[k].id });
            assert(report_deletions(sub, bot_id) == report_deletions(s.subrange(start as int, k as int), bot_id).push(
                WriteModel::Delete(s[k as int].id)));
            assert(out@ =~= before.push(CommentWrite::Delete { note_id: comments[k as int].id }));
            assert(out@.map_values(|w: CommentWrite| w@) =~= before.map_values(|w: CommentWrite| w@).push(
                WriteModel::Delete(s[k as int].id)));
            assert(out@.map_values(|w: CommentWrite| w@) =~= first + report_deletions(sub, bot_id));
        } else {
            assert(report_deletions(sub, bot_id) == report_deletions(s.subrange(start as int, k as int), bot_id));
        }
        k = k + 1;
    }
    if start == 1 {
        assert(s.subrange(1, s.len() as int) =~= s.drop_first());
    } else {
        assert(s.subrange(0, s.len() as int) =~= s);
    }
    out
}

// The effect of the changes on the notes of a merge request.

/// `s` without the notes whose id is `id`.
pub open spec fn without_id(s: Seq<NoteModel>, id: u64) -> Seq<NoteModel>
    decreases s.len(),
{
    if s.len() == 0 {
        s
    } else if s[0].id == id {
        without_id(s.drop_first(), id)
    } else {
        seq![s[0]] + without_id(s.drop_first(), id)
    }
}

/// `s` with the body of the notes whose id is `id` replaced by `body`.
pub open spec fn with_body(s: Seq<NoteModel>, id: u64, body: Seq<char>) -> Seq<NoteModel> {
    s.map_values(|n: NoteModel| if n.id == id { NoteModel { id: n.id, author: n.author, body } } else { n })
}

/// The notes after one change; a created note gets the id `fresh_id` and
/// becomes the newest.
pub open spec fn apply_write(s: Seq<NoteModel>, w: WriteModel, fresh_id: u64, bot: u64) -> Seq<NoteModel> {
    match w {
        WriteModel::Create(b) => seq![NoteModel { id: fresh_id, author: Some(bot), body: b }] + s,
        WriteModel::Update(id, b) => with_body(s, id, b),
        WriteModel::Delete(id) => without_id(s, id),
    }
}

/// The notes after the changes `ws`, made in order.
pub open spec fn apply_writes(s: Seq<NoteModel>, ws: Seq<WriteModel>, fresh_id: u64, bot: u64) -> Seq<NoteModel>
    decreases ws.len(),
{
    if ws.len() == 0 {
        s
    } else {
        apply_writes(apply_write(s, ws[0], fresh_id, bot), ws.drop_first(), fresh_id, bot)
    }
}

/// No two notes share an id.
pub open spec fn unique_ids(s: Seq<NoteModel>) -> bool {
    forall|i: int, j: int| 0 <= i < s.len() && 0 <= j < s.len() && i != j ==> s[i].id != s[j].id
}

/// At most one note is a status report of the bot.
pub open spec fn at_most_one_report(s: Seq<NoteModel>, bot: u64) -> bool {
    forall|i: int, j: int|
        0 <= i < s.len() && 0 <= j < s.len() && is_bot_report(#[trigger] s[i], bot) && is_bot_report(#[trigger] s[j], bot)
            ==> i == j
}

/// Exactly one note is a status report of the bot.
pub open spec fn exactly_one_report(s: Seq<NoteModel>, bot: u64) -> bool {
    &&& exists|i: int| 0 <= i < s.len() && is_bot_report(#[trigger] s[i], bot)
    &&& at_most_one_report(s, bot)
}

/// Every change of `ws` is a deletion.
pub open spec fn all_deletions(ws: Seq<WriteModel>) -> bool {
    forall|j: int| 0 <= j < ws.len() ==> (#[trigger] ws[j]) is Delete
}

/// Some change of `ws` deletes the notes with id `id`.
pub open spec fn deletes(ws: Seq<WriteModel>, id: u64) -> bool {
    exists|j: int| 0 <= j < ws.len() && #[trigger] ws[j] == WriteModel::Delete(id)
}

proof fn lemma_deletions_shape(s: Seq<NoteModel>, bot: u64)
    ensures
        all_deletions(report_deletions(s, bot)),
        forall|id: u64| deletes(report_deletions(s, bot), id) ==> exists|k: int| 0 <= k < s.len() && (#[trigger] s[k]).id == id
            && is_bot_report(s[k], bot),
        forall|k: int| 0 <= k < s.len() && is_bot_report(#[trigger] s[k], bot) ==> deletes(report_deletions(s, bot), s[k].id),
    decreases s.len(),
{
    if s.len() > 0 {
        let t = s.drop_last();
        lemma_deletions_shape(t, bot);
        let rest = report_deletions(t, bot);
        assert forall|id: u64| deletes(report_deletions(s, bot), id) implies exists|k: int| 0 <= k < s.len() && (#[trigger] s[k]).id == id
            && is_bot_report(s[k], bot) by {
            let j = choose|j: int| 0 <= j < report_deletions(s, bot).len() && #[trigger] report_deletions(s, bot)[j] == WriteModel::Delete(id);
            if j < rest.len() {
                assert(rest[j] == WriteModel::Delete(id));
                assert(deletes(rest, id));
                let k = choose|k: int| 0 <= k < t.len() && (#[trigger] t[k]).id == id && is_bot_report(t[k], bot);
                assert(s[k] == t[k]);
            } else {
                assert(s[s.len() - 1].id == id);
            }
        }
        assert forall|k: int| 0 <= k < s.len() && is_bot_report(#[trigger] s[k], bot) implies deletes(report_deletions(s, bot), s[k].id) by {
            if k < s.len() - 1 {
                assert(t[k] == s[k]);
                let j = choose|j: int| 0 <= j < rest.len() && #[trigger] rest[j] == WriteModel::Delete(t[k].id);
                assert(report_deletions(s, bot)[j] == rest[j]);
            } else {
                assert(report_deletions(s, bot)[rest.len() as int] == WriteModel::Delete(s[k].id));
            }
        }
    }
}

proof fn lemma_without_id_members(s: Seq<NoteModel>, id: u64)
    ensures
        forall|x: NoteModel| #[trigger] without_id(s, id).contains(x) <==> (s.contains(x) && x.id != id),
    decreases s.len(),
{
    if s.len() > 0 {
        let t = s.drop_first();
        lemma_without_id_members(t, id);
        let w = without_id(s, id);
        let wt = without_id(t, id);
        assert forall|x: NoteModel| t.contains(x) implies s.contains(x) by {
            let k = choose|k: int| 0 <= k < t.len() && t[k] == x;
            assert(s[k + 1] == x);
        }
        assert forall|x: NoteModel| s.contains(x) && x != s[0] implies t.contains(x) by {
            let k = choose|k: int| 0 <= k < s.len() && s[k] == x;
            assert(t[k - 1] == x);
        }
        if s[0].id == id {
            assert(w == wt);
        } else {
            assert(w == seq![s[0]] + wt);
            assert(w[0] == s[0]);
            assert forall|x: NoteModel| wt.contains(x) implies w.contains(x) by {
                let k = choose|k: int| 0 <= k < wt.len() && wt[k] == x;
                assert(w[k + 1] == x);
            }
            assert forall|x: NoteModel| w.contains(x) && x != s[0] implies wt.contains(x) by {
                let k = choose|k: int| 0 <= k < w.len() && w[k] == x;
                assert(wt[k - 1] == x);
            }
        }
    }
}

proof fn lemma_deletions_members(s: Seq<NoteModel>, ws: Seq<WriteModel>, fresh_id: u64, bot: u64)
    requires
        all_deletions(ws),
    ensures
        forall|x: NoteModel| apply_writes(s, ws, fresh_id, bot).contains(x) ==> (s.contains(x) && !deletes(ws, x.id)),
    decreases ws.len(),
{
    if ws.len() > 0 {
        let id = ws[0]->Delete_0;
        assert(ws[0] == WriteModel::Delete(id));
        let s1 = without_id(s, id);
        let rest = ws.drop_first();
        assert(apply_write(s, ws[0], fresh_id, bot) == s1);
        assert(all_deletions(rest)) by {
            assert forall|j: int| 0 <= j < rest.len() implies (#[trigger] rest[j]) is Delete by {
                assert(rest[j] == ws[j + 1]);
            }
        }
        lemma_without_id_members(s, id);
        lemma_deletions_members(s1, rest, fresh_id, bot);
        assert(apply_writes(s, ws, fresh_id, bot) == apply_writes(s1, rest, fresh_id, bot));
        assert forall|x: NoteModel| apply_writes(s, ws, fresh_id, bot).contains(x) implies (s.contains(x) && !deletes(ws, x.id)) by {
            assert(s1.contains(x));
            assert(x.id != id);
            assert(!deletes(rest, x.id));
            if deletes(ws, x.id) {
                let j = choose|j: int| 0 <= j < ws.len() && #[trigger] ws[j] == WriteModel::Delete(x.id);
                if j > 0 {
                    assert(rest[j - 1] == ws[j]);
                }
            }
        }
    }
}

proof fn lemma_without_id_unique(s: Seq<NoteModel>, id: u64)
    requires
        unique_ids(s),
    ensures
        unique_ids(without_id(s, id)),
    decreases s.len(),
{
    if s.len() > 0 {
        let t = s.drop_first();
        assert(unique_ids(t)) by {
            assert forall|i: int, j: int| 0 <= i < t.len() && 0 <= j < t.len() && i != j implies t[i].id != t[j].id by {
                assert(t[i] == s[i + 1] && t[j] == s[j + 1]);
            }
        }
        lemma_without_id_unique(t, id);
        lemma_without_id_members(t, id);
        let wt = without_id(t, id);
        if s[0].id != id {
            let w = seq![s[0]] + wt;
            assert(without_id(s, id) == w);
            assert forall|i: int, j: int| 0 <= i < w.len() && 0 <= j < w.len() && i != j implies w[i].id != w[j].id by {
                if i == 0 || j == 0 {
                    let k = if i == 0 { j } else { i };
                    assert(w[k] == wt[k - 1]);
                    assert(wt.contains(wt[k - 1]));
                    assert(t.contains(w[k]));
                    let m = choose|m: int| 0 <= m < t.len() && t[m] == w[k];
                    assert(s[m + 1] == t[m]);
                } else {
                    assert(w[i] == wt[i - 1] && w[j] == wt[j - 1]);
                }
            }
        }
    }
}

proof fn lemma_deletions_unique(s: Seq<NoteModel>, ws: Seq<WriteModel>, fresh_id: u64, bot: u64)
    requires
        all_deletions(ws),
        unique_ids(s),
    ensures
        unique_ids(apply_writes(s, ws, fresh_id, bot)),
    decreases ws.len(),
{
    if ws.len() > 0 {
        let id = ws[0]->Delete_0;
        assert(ws[0] == WriteModel::Delete(id));
        let rest = ws.drop_first();
        assert forall|j: int| 0 <= j < rest.len() implies (#[trigger] rest[j]) is Delete by {
            assert(rest[j] == ws[j + 1]);
        }
        lemma_without_id_unique(s, id);
        lemma_deletions_unique(without_id(s, id), rest, fresh_id, bot);
    }
}

proof fn lemma_deletions_keep_head(h: NoteModel, t: Seq<NoteModel>, ws: Seq<WriteModel>, fresh_id: u64, bot: u64)
    requires
        all_deletions(ws),
        !deletes(ws, h.id),
    ensures
        apply_writes(seq![h] + t, ws, fresh_id, bot) == seq![h] + apply_writes(t, ws, fresh_id, bot),
    decreases ws.len(),
{
    if ws.len() > 0 {
        let id = ws[0]->Delete_0;
        assert(ws[0] == WriteModel::Delete(id));
        assert((seq![h] + t).drop_first() =~= t);
        assert(without_id(seq![h] + t, id) == seq![h] + without_id(t, id));
        let rest = ws.drop_first();
        assert forall|j: int| 0 <= j < rest.len() implies (#[trigger] rest[j]) is Delete by {
            assert(rest[j] == ws[j + 1]);
        }
        if deletes(rest, h.id) {
            let j = choose|j: int| 0 <= j < rest.len() && #[trigger] rest[j] == WriteModel::Delete(h.id);
            assert(ws[j + 1] == rest[j]);
        }
        lemma_deletions_keep_head(h, without_id(t, id), rest, fresh_id, bot);
    }
}

proof fn lemma_apply_concat(s: Seq<NoteModel>, w: WriteModel, ws: Seq<WriteModel>, fresh_id: u64, bot: u64)
    ensures
        apply_writes(s, seq![w] + ws, fresh_id, bot) == apply_writes(apply_write(s, w, fresh_id, bot), ws, fresh_id, bot),
{
    assert((seq![w] + ws).drop_first() =~= ws);
}

/// What a run that changes something leaves: the written report is the
/// newest note, and it is the only status report of the bot.
proof fn lemma_written_report(report: Seq<char>, s: Seq<NoteModel>, bot: u64, fresh_id: u64)
    requires
        contains_text(report, report_marker()),
        unique_ids(s),
        forall|k: int| 0 <= k < s.len() ==> (#[trigger] s[k]).id != fresh_id,
        planned_writes(report, s, bot).len() > 0,
    ensures
        ({
            let after = apply_writes(s, planned_writes(report, s, bot), fresh_id, bot);
            &&& after.len() > 0
            &&& is_bot_report(after[0], bot)
            &&& after[0].body == report
            &&& forall|k: int| 1 <= k < after.len() ==> !is_bot_report(#[trigger] after[k], bot)
            &&& unique_ids(after)
            &&& forall|k: int| 0 <= k < after.len() ==> (#[trigger] after[k]).id == fresh_id
                || exists|m: int| 0 <= m < s.len() && s[m].id == after[k].id
        }),
{
    let ws = planned_writes(report, s, bot);
    let after = apply_writes(s, ws, fresh_id, bot);
    if s.len() > 0 && is_bot_report(s[0], bot) {
        let t = s.drop_first();
        let dels = report_deletions(t, bot);
        lemma_deletions_shape(t, bot);
        lemma_apply_concat(s, WriteModel::Update(s[0].id, report), dels, fresh_id, bot);
        let s1 = with_body(s, s[0].id, report);
        let h = NoteModel { id: s[0].id, author: s[0].author, body: report };
        assert forall|k: int| 0 <= k < t.len() implies #[trigger] t[k] == s1[k + 1] by {
            assert(s[k + 1].id != s[0].id);
        }
        assert(s1 =~= seq![h] + t);
        if deletes(dels, h.id) {
            let k = choose|k: int| 0 <= k < t.len() && (#[trigger] t[k]).id == h.id;
            assert(s[k + 1].id != s[0].id);
        }
        lemma_deletions_keep_head(h, t, dels, fresh_id, bot);
        lemma_deletions_members(t, dels, fresh_id, bot);
        let rest = apply_writes(t, dels, fresh_id, bot);
        assert(after == seq![h] + rest);
        assert forall|k: int| 1 <= k < after.len() implies !is_bot_report(#[trigger] after[k], bot) by {
            let x = after[k];
            assert(rest[k - 1] == x);
            assert(rest.contains(x));
            assert(t.contains(x));
            let m = choose|m: int| 0 <= m < t.len() && t[m] == x;
            if is_bot_report(x, bot) {
                assert(deletes(dels, t[m].id));
            }
        }
        assert(unique_ids(t)) by {
            assert forall|a: int, b: int| 0 <= a < t.len() && 0 <= b < t.len() && a != b implies t[a].id != t[b].id by {
                assert(t[a] == s[a + 1] && t[b] == s[b + 1]);
            }
        }
        lemma_deletions_unique(t, dels, fresh_id, bot);
        assert forall|k: int| 0 <= k < after.len() implies (#[trigger] after[k]).id == fresh_id
            || exists|m: int| 0 <= m < s.len() && s[m].id == after[k].id by {
            if k == 0 {
                assert(s[0].id == after[0].id);
            } else {
                assert(rest[k - 1] == after[k]);
                assert(rest.contains(after[k]));
                assert(t.contains(after[k]));
                let m = choose|m: int| 0 <= m < t.len() && t[m] == after[k];
                assert(s[m + 1] == t[m]);
            }
        }
        assert forall|a: int, b: int| 0 <= a < after.len() && 0 <= b < after.len() && a != b implies after[a].id != after[b].id by {
            if a == 0 || b == 0 {
                let k = if a == 0 { b } else { a };
                assert(rest[k - 1] == after[k]);
                assert(rest.contains(after[k]));
                assert(t.contains(after[k]));
                let m = choose|m: int| 0 <= m < t.len() && t[m] == after[k];
                assert(s[m + 1] == t[m]);
            } else {
                assert(after[a] == rest[a - 1] && after[b] == rest[b - 1]);
            }
        }
    } else {
        let dels = report_deletions(s, bot);
        lemma_deletions_shape(s, bot);
        lemma_apply_concat(s, WriteModel::Create(report), dels, fresh_id, bot);
        let h = NoteModel { id: fresh_id, author: Some(bot), body: report };
        if deletes(dels, h.id) {
            let k = choose|k: int| 0 <= k < s.len() && (#[trigger] s[k]).id == h.id;
        }
        lemma_deletions_keep_head(h, s, dels, fresh_id, bot);
        lemma_deletions_members(s, dels, fresh_id, bot);
        let rest = apply_writes(s, dels, fresh_id, bot);
        assert(after == seq![h] + rest);
        assert forall|k: int| 1 <= k < after.len() implies !is_bot_report(#[trigger] after[k], bot) by {
            let x = after[k];
            assert(rest[k - 1] == x);
            assert(rest.contains(x));
            assert(s.contains(x));
            let m = choose|m: int| 0 <= m < s.len() && s[m] == x;
            if is_bot_report(x, bot) {
                assert(deletes(dels, s[m].id));
            }
        }
        lemma_deletions_unique(s, dels, fresh_id, bot);
        assert forall|k: int| 0 <= k < after.len() implies (#[trigger] after[k]).id == fresh_id
            || exists|m: int| 0 <= m < s.len() && s[m].id == after[k].id by {
            if k > 0 {
                assert(rest[k - 1] == after[k]);
                assert(rest.contains(after[k]));
                assert(s.contains(after[k]));
                let m = choose|m: int| 0 <= m < s.len() && s[m] == after[k];
                assert(s[m].id == after[k].id);
            }
        }
        assert forall|a: int, b: int| 0 <= a < after.len() && 0 <= b < after.len() && a != b implies after[a].id != after[b].id by {
            if a == 0 || b == 0 {
                let k = if a == 0 { b } else { a };
                assert(rest[k - 1] == after[k]);
                assert(rest.contains(after[k]));
                assert(s.contains(after[k]));
                let m = choose|m: int| 0 <= m < s.len() && s[m] == after[k];
                assert(s[m].id != fresh_id);
            } else {
                assert(after[a] == rest[a - 1] && after[b] == rest[b - 1]);
            }
        }
    }
}

proof fn lemma_marked_nonempty(report: Seq<char>)
    requires
        contains_text(report, report_marker()),
    ensures
        report.len() > 0,
{
    reveal_strlit("[report]");
    let i = choose|i: int| occurs_at(report, report_marker(), i);
}

/// Reconciling twice with the same report changes nothing the second time:
/// once the changes planned for `report` are made, the plan for the same
/// report is empty. Created notes get an id that no existing note has.
pub proof fn lemma_reconcile_idempotent(report: Seq<char>, s: Seq<NoteModel>, bot: u64, fresh_id: u64)
    requires
        contains_text(report, report_marker()),
        unique_ids(s),
        forall|k: int| 0 <= k < s.len() ==> (#[trigger] s[k]).id != fresh_id,
    ensures
        planned_writes(report, apply_writes(s, planned_writes(report, s, bot), fresh_id, bot), bot) == Seq::<WriteModel>::empty(),
{
    let ws = planned_writes(report, s, bot);
    lemma_marked_nonempty(report);
    if ws.len() > 0 {
        lemma_written_report(report, s, bot, fresh_id);
        let after = apply_writes(s, ws, fresh_id, bot);
        assert(is_newest_report(after, bot, 0));
        assert(report_unchanged(report, after, bot));
    } else {
        assert(apply_writes(s, ws, fresh_id, bot) == s);
    }
}

/// A reconciliation run leaves exactly one status report of the bot on the
/// merge request, provided there was at most one before. Created notes get
/// an id that no existing note has.
pub proof fn lemma_single_live_report(report: Seq<char>, s: Seq<NoteModel>, bot: u64, fresh_id: u64)
    requires
        contains_text(report, report_marker()),
        unique_ids(s),
        forall|k: int| 0 <= k < s.len() ==> (#[trigger] s[k]).id != fresh_id,
        at_most_one_report(s, bot),
    ensures
        exactly_one_report(apply_writes(s, planned_writes(report, s, bot), fresh_id, bot), bot),
{
    let ws = planned_writes(report, s, bot);
    let after = apply_writes(s, ws, fresh_id, bot);
    lemma_marked_nonempty(report);
    if ws.len() > 0 {
        lemma_written_report(report, s, bot, fresh_id);
        assert(is_bot_report(after[0], bot));
    } else {
        assert(after == s);
        assert(report_unchanged(report, s, bot));
        let i = choose|i: int| is_newest_report(s, bot, i) && s[i].body == report;
        assert(is_bot_report(s[i], bot));
    }
}

/// The notes after reconciling with each report of `reports` in turn; the
/// note created by the i-th run, if any, gets the id `fresh[i]`.
pub open spec fn run_reports(s: Seq<NoteModel>, reports: Seq<Seq<char>>, fresh: Seq<u64>, bot: u64) -> Seq<NoteModel>
    decreases reports.len(),
{
    if reports.len() == 0 {
        s
    } else {
        run_reports(
            apply_writes(s, planned_writes(reports[0], s, bot), fresh[0], bot),
            reports.drop_first(),
            fresh.drop_first(),
            bot,
        )
    }
}

/// After one or more reconciliation runs, whatever the reports were,
/// exactly one status report of the bot remains, provided there was at
/// most one at the start and created notes get ids not used before.
pub proof fn lemma_runs_leave_one_report(s: Seq<NoteModel>, reports: Seq<Seq<char>>, fresh: Seq<u64>, bot: u64)
    requires
        reports.len() >= 1,
        fresh.len() == reports.len(),
        forall|i: int| 0 <= i < reports.len() ==> contains_text(#[trigger] reports[i], report_marker()),
        unique_ids(s),
        at_most_one_report(s, bot),
        forall|i: int, k: int| 0 <= i < fresh.len() && 0 <= k < s.len() ==> #[trigger] s[k].id != #[trigger] fresh[i],
        forall|i: int, j: int| 0 <= i < fresh.len() && 0 <= j < fresh.len() && i != j ==> fresh[i] != fresh[j],
    ensures
        exactly_one_report(run_reports(s, reports, fresh, bot), bot),
    decreases reports.len(),
{
    let r = reports[0];
    assert(contains_text(r, report_marker()));
    assert(forall|k: int| 0 <= k < s.len() ==> (#[trigger] s[k]).id != fresh[0]);
    lemma_single_live_report(r, s, bot, fresh[0]);
    let s1 = apply_writes(s, planned_writes(r, s, bot), fresh[0], bot);
    assert(run_reports(s, reports, fresh, bot) == run_reports(s1, reports.drop_first(), fresh.drop_first(), bot));
    if reports.len() == 1 {
        assert(reports.drop_first().len() == 0);
        assert(run_reports(s1, reports.drop_first(), fresh.drop_first(), bot) == s1);
    } else {
        let ws = planned_writes(r, s, bot);
        if ws.len() > 0 {
            lemma_written_report(r, s, bot, fresh[0]);
        } else {
            assert(s1 == s);
        }
        let rs = reports.drop_first();
        let fs = fresh.drop_first();
        assert forall|i: int| 0 <= i < rs.len() implies contains_text(#[trigger] rs[i], report_marker()) by {
            assert(rs[i] == reports[i + 1]);
        }
        assert forall|i: int, k: int| 0 <= i < fs.len() && 0 <= k < s1.len() implies #[trigger] s1[k].id != #[trigger] fs[i] by {
            assert(fs[i] == fresh[i + 1]);
            if s1[k].id != fresh[0] {
                let m = choose|m: int| 0 <= m < s.len() && s[m].id == s1[k].id;
                assert(s[m].id != fresh[i + 1]);
            }
        }
        assert forall|i: int, j: int| 0 <= i < fs.len() && 0 <= j < fs.len() && i != j implies fs[i] != fs[j] by {
            assert(fs[i] == fresh[i + 1] && fs[j] == fresh[j + 1]);
        }
        lemma_runs_leave_one_report(s1, rs, fs, bot);
    }
}

proof fn lemma_deletions_distinct(s: Seq<NoteModel>, bot: u64)
    requires
        unique_ids(s),
    ensures
        forall|a: int, b: int| 0 <= a < b < report_deletions(s, bot).len()
            ==> report_deletions(s, bot)[a] != report_deletions(s, bot)[b],
    decreases s.len(),
{
    if s.len() > 0 {
        let t = s.drop_last();
        assert(unique_ids(t)) by {
            assert forall|i: int, j: int| 0 <= i < t.len() && 0 <= j < t.len() && i != j implies t[i].id != t[j].id by {
                assert(t[i] == s[i] && t[j] == s[j]);
            }
        }
        lemma_deletions_distinct(t, bot);
        lemma_deletions_shape(t, bot);
        let rest = report_deletions(t, bot);
        let d = report_deletions(s, bot);
        assert forall|a: int, b: int| 0 <= a < b < d.len() implies d[a] != d[b] by {
            if b >= rest.len() {
                assert(d[b] == WriteModel::Delete(s.last().id));
                assert(d[a] == rest[a]);
                let id = rest[a]->Delete_0;
                assert(rest[a] == WriteModel::Delete(id));
                assert(deletes(rest, id));
                let k = choose|k: int| 0 <= k < t.len() && (#[trigger] t[k]).id == id && is_bot_report(t[k], bot);
                assert(s[k] == t[k]);
                assert(s[s.len() - 1].id != s[k].id);
            } else {
                assert(d[a] == rest[a] && d[b] == rest[b]);
            }
        }
    }
}

/// When a run writes the report, the write is followed by deletions only:
/// one for each status report of the bot other than the note that was
/// updated, each deleted once, and no other note.
pub proof fn lemma_stale_reports_deleted(report: Seq<char>, s: Seq<NoteModel>, bot: u64)
    requires
        unique_ids(s),
        planned_writes(report, s, bot).len() > 0,
    ensures
        ({
            let ws = planned_writes(report, s, bot);
            let updated = s.len() > 0 && is_bot_report(s[0], bot);
            let dels = ws.drop_first();
            &&& updated ==> ws[0] == WriteModel::Update(s[0].id, report)
            &&& !updated ==> ws[0] == WriteModel::Create(report)
            &&& all_deletions(dels)
            &&& forall|id: u64| deletes(dels, id) <==> exists|k: int| 0 <= k < s.len() && is_bot_report(#[trigger] s[k], bot)
                && s[k].id == id && !(updated && k == 0)
            &&& forall|a: int, b: int| 0 <= a < b < dels.len() ==> dels[a] != dels[b]
        }),
{
    let ws = planned_writes(report, s, bot);
    let updated = s.len() > 0 && is_bot_report(s[0], bot);
    let t = if updated { s.drop_first() } else { s };
    assert(ws.drop_first() =~= report_deletions(t, bot));
    assert(unique_ids(t)) by {
        if updated {
            assert forall|i: int, j: int| 0 <= i < t.len() && 0 <= j < t.len() && i != j implies t[i].id != t[j].id by {
                assert(t[i] == s[i + 1] && t[j] == s[j + 1]);
            }
        }
    }
    lemma_deletions_shape(t, bot);
    lemma_deletions_distinct(t, bot);
    let dels = ws.drop_first();
    assert forall|id: u64| deletes(dels, id) <==> exists|k: int| 0 <= k < s.len() && is_bot_report(#[trigger] s[k], bot)
        && s[k].id == id && !(updated && k == 0) by {
        if deletes(dels, id) {
            let k = choose|k: int| 0 <= k < t.len() && (#[trigger] t[k]).id == id && is_bot_report(t[k], bot);
            if updated {
                assert(s[k + 1] == t[k]);
            } else {
                assert(s[k] == t[k]);
            }
        }
        if exists|k: int| 0 <= k < s.len() && is_bot_report(#[trigger] s[k], bot) && s[k].id == id && !(updated && k == 0) {
            let k = choose|k: int| 0 <= k < s.len() && is_bot_report(#[trigger] s[k], bot) && s[k].id == id && !(updated && k == 0);
            if updated {
                assert(t[k - 1] == s[k]);
            } else {
                assert(t[k] == s[k]);
            }
        }
    }
}

proof fn lemma_deletions_keep_prefix(p: Seq<NoteModel>, t: Seq<NoteModel>, ws: Seq<WriteModel>, fresh_id: u64, bot: u64)
    requires
        all_deletions(ws),
        forall|i: int| 0 <= i < p.len() ==> !deletes(ws, (#[trigger] p[i]).id),
    ensures
        apply_writes(p + t, ws, fresh_id, bot) == p + apply_writes(t, ws, fresh_id, bot),
    decreases p.len(),
{
    if p.len() > 0 {
        let q = p.drop_first();
        assert forall|i: int| 0 <= i < q.len() implies !deletes(ws, (#[trigger] q[i]).id) by {
            assert(q[i] == p[i + 1]);
        }
        lemma_deletions_keep_prefix(q, t, ws, fresh_id, bot);
        assert(p + t =~= seq![p[0]] + (q + t));
        assert(!deletes(ws, p[0].id));
        lemma_deletions_keep_head(p[0], q + t, ws, fresh_id, bot);
        assert(p + apply_writes(t, ws, fresh_id, bot) =~= seq![p[0]] + (q + apply_writes(t, ws, fresh_id, bot)));
    }
}

/// Processing the same merge request twice in a row writes nothing the
/// second time. The first run posts its notices, which carry no report
/// marker, on top of the notes `s`, then makes the changes that were planned
/// for `report` on `s`. With the same report, the second run plans no
/// change.
pub proof fn lemma_second_run_writes_nothing(
    report: Seq<char>,
    s: Seq<NoteModel>,
    posted: Seq<NoteModel>,
    bot: u64,
    fresh_id: u64,
)
    requires
        contains_text(report, report_marker()),
        unique_ids(posted + s),
        forall|k: int| 0 <= k < (posted + s).len() ==> (#[trigger] (posted + s)[k]).id != fresh_id,
        forall|i: int| 0 <= i < posted.len() ==> !contains_text((#[trigger] posted[i]).body, report_marker()),
    ensures
        planned_writes(report, apply_writes(posted + s, planned_writes(report, s, bot), fresh_id, bot), bot)
            == Seq::<WriteModel>::empty(),
{
    let all = posted + s;
    let ws = planned_writes(report, s, bot);
    let after = apply_writes(all, ws, fresh_id, bot);
    let n = posted.len() as int;
    lemma_marked_nonempty(report);
    assert forall|k: int| 0 <= k < s.len() implies #[trigger] all[n + k] == s[k] by {}
    assert(unique_ids(s)) by {
        assert forall|i: int, j: int| 0 <= i < s.len() && 0 <= j < s.len() && i != j implies s[i].id != s[j].id by {
            assert(all[n + i] == s[i] && all[n + j] == s[j]);
        }
    }
    assert forall|i: int, k: int| 0 <= i < posted.len() && 0 <= k < s.len() implies #[trigger] posted[i].id != #[trigger] s[k].id by {
        assert(all[i] == posted[i] && all[n + k] == s[k]);
    }
    if ws.len() == 0 {
        assert(after == all);
        let i = choose|i: int| is_newest_report(s, bot, i) && s[i].body == report;
        assert(is_newest_report(all, bot, n + i)) by {
            assert forall|j: int| 0 <= j < n + i implies !is_bot_report(#[trigger] all[j], bot) by {
                if j < n {
                    assert(all[j] == posted[j]);
                } else {
                    assert(all[j] == s[j - n]);
                }
            }
        }
        assert(report_unchanged(report, after, bot));
    } else if s.len() > 0 && is_bot_report(s[0], bot) {
        let t = s.drop_first();
        let dels = report_deletions(t, bot);
        let h = NoteModel { id: s[0].id, author: s[0].author, body: report };
        lemma_deletions_shape(t, bot);
        lemma_apply_concat(all, WriteModel::Update(s[0].id, report), dels, fresh_id, bot);
        let mid = with_body(all, s[0].id, report);
        assert forall|k: int| 0 <= k < t.len() implies #[trigger] t[k] == s[k + 1] by {}
        assert(mid =~= posted + (seq![h] + t)) by {
            assert forall|k: int| 0 <= k < mid.len() implies #[trigger] mid[k] == (posted + (seq![h] + t))[k] by {
                if k < n {
                    assert(all[k] == posted[k]);
                } else if k > n {
                    assert(all[k] == s[k - n]);
                    assert(s[k - n].id != s[0].id);
                }
            }
        }
        let pre = posted + seq![h];
        assert(posted + (seq![h] + t) =~= pre + t);
        assert forall|i: int| 0 <= i < pre.len() implies !deletes(dels, (#[trigger] pre[i]).id) by {
            if deletes(dels, pre[i].id) {
                let k = choose|k: int| 0 <= k < t.len() && (#[trigger] t[k]).id == pre[i].id && is_bot_report(t[k], bot);
                assert(s[k + 1] == t[k]);
                if i < n {
                    assert(pre[i] == posted[i]);
                } else {
                    assert(pre[i] == h);
                }
            }
        }
        lemma_deletions_keep_prefix(pre, t, dels, fresh_id, bot);
        let rest = apply_writes(t, dels, fresh_id, bot);
        assert(after == pre + rest);
        assert(after[n] == h);
        assert(is_newest_report(after, bot, n)) by {
            assert forall|j: int| 0 <= j < n implies !is_bot_report(#[trigger] after[j], bot) by {
                assert(after[j] == posted[j]);
            }
        }
        assert(report_unchanged(report, after, bot));
    } else {
        let dels = report_deletions(s, bot);
        let h = NoteModel { id: fresh_id, author: Some(bot), body: report };
        lemma_deletions_shape(s, bot);
        lemma_apply_concat(all, WriteModel::Create(report), dels, fresh_id, bot);
        let pre = seq![h] + posted;
        assert(seq![h] + all =~= pre + s);
        assert forall|i: int| 0 <= i < pre.len() implies !deletes(dels, (#[trigger] pre[i]).id) by {
            if deletes(dels, pre[i].id) {
                let k = choose|k: int| 0 <= k < s.len() && (#[trigger] s[k]).id == pre[i].id && is_bot_report(s[k], bot);
                assert(all[n + k] == s[k]);
                if i > 0 {
                    assert(pre[i] == posted[i - 1]);
                } else {
                    assert(pre[i] == h);
                }
            }
        }
        lemma_deletions_keep_prefix(pre, s, dels, fresh_id, bot);
        let rest = apply_writes(s, dels, fresh_id, bot);
        assert(after == pre + rest);
        assert(after[0] == h);
        assert(is_newest_report(after, bot, 0));
        assert(report_unchanged(report, after, bot));
    }
}

} // verus!
