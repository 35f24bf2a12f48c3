//! The tracker's laws: what holds of adding, completing and listing,
//! proved over the same step function the executor is verified against.

use vstd::prelude::*;
use crate::cli::CommandView;
use crate::render::{line_text, lines_of, listed, lemma_lines_all, lemma_lines_skip};
use crate::runner::{step, EffectView, completed_text, not_found_text};
use crate::task::{
    TaskView, added_task, completed_store, contains_name, count_named, has_id, idx_of_id,
    lemma_add_preserves_inv, lemma_count_absent, lemma_idx_of_id, max_id, next_id, store_inv,
};
use crate::timefmt::{end_text, in_progress_text, utc_text, valid_ts};

verus! {

/// Adding a task with a fresh name to an empty table and then listing
/// open tasks shows exactly that task, still open: its end column is
/// the open marker.
pub proof fn lemma_add_then_list_open(name: Seq<char>, now: int)
    ensures
        ({
            let r = step(Seq::<TaskView>::empty(), CommandView::Add { task: name }, now);
            let t = TaskView { id: 1, name: name, start_time: now, end_time: Option::None };
            &&& r.ok
            &&& lines_of(r.tasks, false) == seq![line_text(t)]
            &&& end_text(t.end_time) == in_progress_text()
        }),
{
    let s0 = Seq::<TaskView>::empty();
    let r = step(s0, CommandView::Add { task: name }, now);
    let t = TaskView { id: 1, name: name, start_time: now, end_time: Option::None };
    assert(!contains_name(s0, name));
    assert(max_id(s0) == 0);
    assert(added_task(s0, name, now) == t);
    assert(r.tasks == s0.push(t));
    assert(r.tasks.last() == t);
    assert(r.tasks.drop_last() =~= s0);
    assert(listed(t, false));
    assert(lines_of(s0, false) =~= Seq::<Seq<char>>::empty());
    assert(lines_of(r.tasks, false) == lines_of(s0, false) + seq![line_text(t)]);
    assert(lines_of(r.tasks, false) =~= seq![line_text(t)]);
}

/// Adding a name twice: the first add succeeds; the second is refused
/// and leaves the table as it was; exactly one task carries the name.
pub proof fn lemma_duplicate_add(s: Seq<TaskView>, name: Seq<char>, t1: int, t2: int)
    requires
        store_inv(s),
        !contains_name(s, name),
        max_id(s) < i64::MAX,
    ensures
        ({
            let r1 = step(s, CommandView::Add { task: name }, t1);
            let r2 = step(r1.tasks, CommandView::Add { task: name }, t2);
            &&& r1.ok
            &&& !r2.ok
            &&& r2.tasks == r1.tasks
            &&& r2.effect == EffectView::NoWrite
            &&& count_named(r1.tasks, name) == 1
        }),
{
    let r1 = step(s, CommandView::Add { task: name }, t1);
    let t = added_task(s, name, t1);
    assert(r1.tasks == s.push(t));
    assert(r1.tasks[s.len() as int].name == name);
    assert(contains_name(r1.tasks, name));
    lemma_count_absent(s, name);
    assert(r1.tasks.drop_last() =~= s);
    assert(count_named(r1.tasks, name) == 1);
}

/// Completing an open task removes its line from the open-only listing
/// and gives it a line in the all-listing whose end column is the
/// completion time's text, no longer the open marker.
pub proof fn lemma_complete_moves_listing(s: Seq<TaskView>, id: int, now: int)
    requires
        store_inv(s),
        has_id(s, id),
        s[idx_of_id(s, id)].end_time is None,
    ensures
        ({
            let r = step(s, CommandView::Complete { task_id: id }, now);
            let k = idx_of_id(s, id);
            let t2 = TaskView { end_time: Option::Some(now), ..s[k] };
            &&& r.ok
            &&& r.tasks == completed_store(s, id, now)
            &&& lines_of(r.tasks, false) == lines_of(r.tasks.remove(k), false)
            &&& lines_of(r.tasks, true).len() == r.tasks.len()
            &&& lines_of(r.tasks, true)[k] == line_text(t2)
            &&& end_text(t2.end_time) == utc_text(now)
        }),
{
    lemma_idx_of_id(s, id);
    let r = step(s, CommandView::Complete { task_id: id }, now);
    let k = idx_of_id(s, id);
    let t2 = TaskView { end_time: Option::Some(now), ..s[k] };
    let s2 = completed_store(s, id, now);
    assert(s2[k] == t2);
    assert(!listed(s2[k], false));
    lemma_lines_skip(s2, false, k);
    lemma_lines_all(s2);
}

/// Completing an id no task carries changes nothing, fails, and its
/// output line differs from every successful completion's line.
pub proof fn lemma_complete_missing(s: Seq<TaskView>, id: int, now: int, other: int)
    requires
        !has_id(s, id),
    ensures
        ({
            let r = step(s, CommandView::Complete { task_id: id }, now);
            &&& r.tasks == s
            &&& !r.ok
            &&& r.effect == EffectView::NoWrite
            &&& r.lines == seq![not_found_text(id)]
            &&& not_found_text(id) != completed_text(other)
        }),
{
    reveal_strlit("No task found with ID: ");
    reveal_strlit("Completed task with ID: ");
    assert(not_found_text(id)[0] == 'N');
    assert(completed_text(other)[0] == 'C');
}

/// Listing an empty table prints no task lines at all.
pub proof fn lemma_list_empty(all: bool, now: int)
    ensures
        step(Seq::<TaskView>::empty(), CommandView::List { all }, now).lines
            == Seq::<Seq<char>>::empty(),
{
}

/// Round trip: a task added under a name and completed no earlier than
/// it started appears in the all-listing under exactly that name, with
/// a start time at or before the completion time, and an end column
/// showing the completion time's text rather than the open marker.
pub proof fn lemma_round_trip(s: Seq<TaskView>, name: Seq<char>, t_add: int, t_done: int)
    requires
        store_inv(s),
        !contains_name(s, name),
        max_id(s) < i64::MAX,
        valid_ts(t_add),
        valid_ts(t_done),
        t_add <= t_done,
    ensures
        ({
            let r1 = step(s, CommandView::Add { task: name }, t_add);
            let id = next_id(s);
            let r2 = step(r1.tasks, CommandView::Complete { task_id: id }, t_done);
            let t2 = TaskView {
                id: id,
                name: name,
                start_time: t_add,
                end_time: Option::Some(t_done),
            };
            &&& r1.ok
            &&& r2.ok
            &&& lines_of(r2.tasks, true).len() == r2.tasks.len()
            &&& lines_of(r2.tasks, true)[r2.tasks.len() - 1] == line_text(t2)
            &&& t2.start_time <= t_done
            &&& end_text(t2.end_time) == utc_text(t_done)
        }),
{
    let r1 = step(s, CommandView::Add { task: name }, t_add);
    let id = next_id(s);
    let t = added_task(s, name, t_add);
    let s1 = s.push(t);
    assert(r1.tasks == s1);
    lemma_add_preserves_inv(s, name, t_add);
    assert(s1[s.len() as int].id == id);
    assert(has_id(s1, id));
    lemma_idx_of_id(s1, id);
    let k = idx_of_id(s1, id);
    assert(k == s.len() as int);
    assert(s1[k].end_time is None);
    let r2 = step(s1, CommandView::Complete { task_id: id }, t_done);
    let s2 = completed_store(s1, id, t_done);
    let t2 = TaskView { id: id, name: name, start_time: t_add, end_time: Option::Some(t_done) };
    assert(s2[k] == t2);
    assert(s2.len() == s1.len());
    lemma_lines_all(s2);
}

} // verus!
