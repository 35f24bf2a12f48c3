//! The task table: its mathematical model, its invariant, and the three
//! operations the tracker performs on it.

use vstd::prelude::*;
use crate::timefmt::{valid_ts, opt_ts};

verus! {

/// The mathematical value of one task row.
pub struct TaskView {
    pub id: int,
    pub name: Seq<char>,
    pub start_time: int,
    pub end_time: Option<int>,
}

/// One task row: a unique id, a unique name, a start time, and an end
/// time that is set exactly once, on completion.
pub struct Task {
    pub id: i64,
    pub name: String,
    pub start_time: i64,
    pub end_time: Option<i64>,
}

impl View for Task {
    type V = TaskView;

    open spec fn view(&self) -> TaskView {
        TaskView {
            id: self.id as int,
            name: self.name@,
            start_time: self.start_time as int,
            end_time: opt_ts(self.end_time),
        }
    }
}

/// Whether some task in the table carries this name.
pub open spec fn contains_name(s: Seq<TaskView>, name: Seq<char>) -> bool {
    exists|i: int| 0 <= i < s.len() && s[i].name == name
}

/// Whether some task in the table carries this id.
pub open spec fn has_id(s: Seq<TaskView>, id: int) -> bool {
    exists|i: int| 0 <= i < s.len() && s[i].id == id
}

/// The position of the task with this id; meaningful when ids are unique
/// and the id is present.
pub open spec fn idx_of_id(s: Seq<TaskView>, id: int) -> int {
    choose|i: int| 0 <= i < s.len() && s[i].id == id
}

/// The largest id in the table, or zero when it is empty.
pub open spec fn max_id(s: Seq<TaskView>) -> int
    decreases s.len(),
{
    if s.len() == 0 {
        0
    } else if s.last().id > max_id(s.drop_last()) {
        s.last().id
    } else {
        max_id(s.drop_last())
    }
}

/// The id the storage assigns to the next inserted row: one past the
/// largest id in use.
pub open spec fn next_id(s: Seq<TaskView>) -> int {
    max_id(s) + 1
}

/// How many tasks in the table carry this name.
pub open spec fn count_named(s: Seq<TaskView>, name: Seq<char>) -> nat
    decreases s.len(),
{
    if s.len() == 0 {
        0
    } else if s.last().name == name {
        count_named(s.drop_last(), name) + 1
    } else {
        count_named(s.drop_last(), name)
    }
}

/// A name nothing carries has count zero.
pub proof fn lemma_count_absent(s: Seq<TaskView>, name: Seq<char>)
    requires
        !contains_name(s, name),
    ensures
        count_named(s, name) == 0,
    decreases s.len(),
{
    if s.len() > 0 {
        let p = s.drop_last();
        assert forall|i: int| 0 <= i < p.len() implies p[i].name != name by {
            assert(p[i] == s[i]);
        }
        lemma_count_absent(p, name);
        assert(s.last().name != name);
    }
}

/// The table's invariant: ids are unique, positive machine integers;
/// names are unique; every timestamp lies in the renderable range.
pub open spec fn store_inv(s: Seq<TaskView>) -> bool {
    &&& forall|i: int, j: int| 0 <= i < j < s.len() ==> s[i].id != s[j].id
    &&& forall|i: int, j: int| 0 <= i < j < s.len() ==> s[i].name != s[j].name
    &&& forall|i: int| 0 <= i < s.len() ==> 1 <= #[trigger] s[i].id <= i64::MAX
    &&& forall|i: int| 0 <= i < s.len() ==> valid_ts(#[trigger] s[i].start_time)
    &&& forall|i: int| 0 <= i < s.len() ==> (#[trigger] s[i].end_time matches Option::Some(e) ==> valid_ts(e))
}

/// The row Add appends: the next id, the given name, the current time,
/// no end time.
pub open spec fn added_task(s: Seq<TaskView>, name: Seq<char>, now: int) -> TaskView {
    TaskView { id: next_id(s), name: name, start_time: now, end_time: Option::None }
}

/// The table after completing the task with this id at this time.
pub open spec fn completed_store(s: Seq<TaskView>, id: int, now: int) -> Seq<TaskView> {
    s.update(
        idx_of_id(s, id),
        TaskView { end_time: Option::Some(now), ..s[idx_of_id(s, id)] },
    )
}

pub proof fn lemma_max_id_bounds(s: Seq<TaskView>)
    requires
        forall|i: int| 0 <= i < s.len() ==> 1 <= #[trigger] s[i].id <= i64::MAX,
    ensures
        0 <= max_id(s) <= i64::MAX,
        forall|i: int| 0 <= i < s.len() ==> s[i].id <= max_id(s),
    decreases s.len(),
{
    if s.len() > 0 {
        let p = s.drop_last();
        assert(forall|i: int| 0 <= i < p.len() ==> 1 <= #[trigger] p[i].id <= i64::MAX);
        lemma_max_id_bounds(p);
        assert forall|i: int| 0 <= i < s.len() implies s[i].id <= max_id(s) by {
            if i < s.len() - 1 {
                assert(p[i] == s[i]);
            }
        }
    }
}

pub proof fn lemma_idx_of_id(s: Seq<TaskView>, id: int)
    requires
        forall|i: int, j: int| 0 <= i < j < s.len() ==> s[i].id != s[j].id,
        has_id(s, id),
    ensures
        0 <= idx_of_id(s, id) < s.len(),
        s[idx_of_id(s, id)].id == id,
        forall|i: int| 0 <= i < s.len() && s[i].id == id ==> i == idx_of_id(s, id),
{
    let k = idx_of_id(s, id);
    assert(0 <= k < s.len() && s[k].id == id);
    assert forall|i: int| 0 <= i < s.len() && s[i].id == id implies i == k by {
        if i < k {
            assert(s[i].id != s[k].id);
        } else if k < i {
            assert(s[k].id != s[i].id);
        }
    }
}

/// Appending a fresh name with the next id and a valid time preserves
/// the table invariant.
pub proof fn lemma_add_preserves_inv(s: Seq<TaskView>, name: Seq<char>, now: int)
    requires
        store_inv(s),
        !contains_name(s, name),
        valid_ts(now),
        max_id(s) < i64::MAX,
    ensures
        store_inv(s.push(added_task(s, name, now))),
{
    let t = added_task(s, name, now);
    let s2 = s.push(t);
    lemma_max_id_bounds(s);
    assert forall|i: int, j: int| 0 <= i < j < s2.len() implies s2[i].id != s2[j].id by {
        if j == s.len() {
            assert(s2[i] == s[i]);
            assert(s[i].id <= max_id(s));
        }
    }
    assert forall|i: int, j: int| 0 <= i < j < s2.len() implies s2[i].name != s2[j].name by {
        if j == s.len() {
            assert(s2[i] == s[i]);
            assert(!(s[i].name == name));
        }
    }
    assert(forall|i: int| 0 <= i < s.len() ==> s2[i] == s[i]);
}

/// Setting the end time of a present task, at a valid time, preserves
/// the table invariant.
pub proof fn lemma_complete_preserves_inv(s: Seq<TaskView>, id: int, now: int)
    requires
        store_inv(s),
        has_id(s, id),
        valid_ts(now),
    ensures
        store_inv(completed_store(s, id, now)),
{
    lemma_idx_of_id(s, id);
    let k = idx_of_id(s, id);
    let s2 = completed_store(s, id, now);
    assert(forall|i: int| 0 <= i < s.len() && i != k ==> s2[i] == s[i]);
    assert(s2[k].id == s[k].id && s2[k].name == s[k].name && s2[k].start_time == s[k].start_time);
}

/// The tracked table. Its contents are reached only through the verified
/// operations, which keep `store_inv` true of its view.
pub struct TaskStore {
    tasks: Vec<Task>,
}

/// Why an Add was refused.
#[derive(Clone, Copy, PartialEq, Eq, Structural, Debug)]
pub enum AddError {
    /// A task with the requested name already exists.
    DuplicateName,
    /// Every id up to the machine maximum is in use.
    IdExhausted,
}

/// What a Complete found.
#[derive(Clone, Copy, PartialEq, Eq, Structural, Debug)]
pub enum CompleteOutcome {
    /// The task existed, was open, and its end time is now set.
    Completed,
    /// The task exists but its end time was already set; it is unchanged.
    AlreadyDone,
    /// No task carries the requested id; nothing changed.
    NotFound,
}

impl View for TaskStore {
    type V = Seq<TaskView>;

    closed spec fn view(&self) -> Seq<TaskView> {
        self.tasks@.map(|i: int, t: Task| t@)
    }
}

impl TaskStore {
    /// An empty table.
    pub fn new() -> (s: Self)
        ensures
            s@ == Seq::<TaskView>::empty(),
            store_inv(s@),
    {
        let s = TaskStore { tasks: Vec::new() };
        proof {
            assert(s@ =~= Seq::<TaskView>::empty());
        }
        s
    }

    /// Rebuilds the table from stored rows. Returns `None` exactly when
    /// the rows violate the table invariant, so a `Some` table is always
    /// safe to operate on.
    pub fn from_rows(rows: Vec<Task>) -> (r: Option<TaskStore>)
        ensures
            r matches Option::Some(s) ==> s@ == rows@.map(|i: int, t: Task| t@)
                && store_inv(s@),
            r is None ==> !store_inv(rows@.map(|i: int, t: Task| t@)),
    {
        let ghost rv = rows@.map(|i: int, t: Task| t@);
        let n: usize = rows.len();
        let mut i: usize = 0;
        while i < n
            invariant
                0 <= i <= n,
                n == rows@.len(),
                rv == rows@.map(|i: int, t: Task| t@),
                forall|p: int, q: int| 0 <= p < q < i ==> rv[p].id != rv[q].id,
                forall|p: int, q: int| 0 <= p < q < i ==> rv[p].name != rv[q].name,
                forall|p: int| 0 <= p < i ==> 1 <= rv[p].id,
                forall|p: int| 0 <= p < i ==> valid_ts(#[trigger] rv[p].start_time),
                forall|p: int| 0 <= p < i
                    ==> (#[trigger] rv[p].end_time matches Option::Some(e) ==> valid_ts(e)),
            decreases n - i,
        {
            let row = &rows[i];
            proof {
                assert(rv[i as int] == rows@[i as int]@);
            }
            if row.id < 1 {
                proof {
                    assert(rv[i as int].id < 1);
                    assert(!store_inv(rv));
                }
                return None;
            }
            if row.start_time < crate::timefmt::MIN_TS || row.start_time > crate::timefmt::MAX_TS {
                proof {
                    assert(!valid_ts(rv[i as int].start_time));
                    assert(!store_inv(rv));
                }
                return None;
            }
            match row.end_time {
                Option::Some(e) => {
                    if e < crate::timefmt::MIN_TS || e > crate::timefmt::MAX_TS {
                        proof {
                            assert(rv[i as int].end_time matches Option::Some(ev) && !valid_ts(ev));
                            assert(!store_inv(rv));
                        }
                        return None;
                    }
                },
                Option::None => {},
            }
            let mut j: usize = 0;
            while j < i
                invariant
                    0 <= j <= i < n,
                    n == rows@.len(),
                    rv == rows@.map(|i: int, t: Task| t@),
                    forall|p: int| 0 <= p < j ==> rv[p].id != rv[i as int].id,
                    forall|p: int| 0 <= p < j ==> rv[p].name != rv[i as int].name,
                decreases i - j,
            {
                proof {
                    assert(rv[j as int] == rows@[j as int]@);
                    assert(rv[i as int] == rows@[i as int]@);
                }
                if rows[j].id == rows[i].id {
                    proof {
                        assert(rv[j as int].id == rv[i as int].id);
                        assert(!store_inv(rv));
                    }
                    return None;
                }
                if rows[j].name == rows[i].name {
                    proof {
                        assert(rv[j as int].name == rv[i as int].name);
                        assert(!store_inv(rv));
                    }
                    return None;
                }
                j = j + 1;
            }
            i = i + 1;
        }
        let s = TaskStore { tasks: rows };
        Some(s)
    }

    /// The task at a position of the table.
    pub fn task_at(&self, i: usize) -> (t: &Task)
        requires
            i < self@.len(),
        ensures
            t@ == self@[i as int],
    {
        proof {
            assert(self@[i as int] == self.tasks@[i as int]@);
        }
        &self.tasks[i]
    }

    /// How many tasks the table holds.
    pub fn len(&self) -> (n: usize)
        ensures
            n == self@.len(),
    {
        self.tasks.len()
    }

    /// Adds a task: a fresh name is appended as an open row carrying the
    /// next id and the given time; a name already in use is refused and
    /// the table is unchanged. Ids can run out only at the machine limit.
    pub fn add_task(&mut self, name: String, now: i64) -> (r: Result<i64, AddError>)
        requires
            store_inv(old(self)@),
            valid_ts(now as int),
        ensures
            store_inv(final(self)@),
            contains_name(old(self)@, name@) ==> final(self)@ == old(self)@
                && r == Err::<i64, AddError>(AddError::DuplicateName),
            !contains_name(old(self)@, name@) && max_id(old(self)@) == i64::MAX
                ==> final(self)@ == old(self)@ && r == Err::<i64, AddError>(AddError::IdExhausted),
            !contains_name(old(self)@, name@) && max_id(old(self)@) < i64::MAX
                ==> final(self)@ == old(self)@.push(added_task(old(self)@, name@, now as int))
                && r == Ok::<i64, AddError>(next_id(old(self)@) as i64),
    {
        let n: usize = self.tasks.len();
        let mut i: usize = 0;
        while i < n
            invariant
                0 <= i <= n,
                n == self@.len(),
                self@ == old(self)@,
                store_inv(self@),
                forall|p: int| 0 <= p < i ==> self@[p].name != name@,
            decreases n - i,
        {
            proof {
                assert(self@[i as int] == self.tasks@[i as int]@);
            }
            if self.tasks[i].name == name {
                assert(contains_name(self@, name@));
                return Err(AddError::DuplicateName);
            }
            i = i + 1;
        }
        assert(!contains_name(self@, name@));
        let mut m: i64 = 0;
        let mut k: usize = 0;
        proof {
            assert(self@.subrange(0, 0) =~= Seq::<TaskView>::empty());
        }
        while k < n
            invariant
                0 <= k <= n,
                n == self@.len(),
                self@ == old(self)@,
                store_inv(self@),
                m as int == max_id(self@.subrange(0, k as int)),
            decreases n - k,
        {
            proof {
                assert(self@[k as int] == self.tasks@[k as int]@);
                let p = self@.subrange(0, k as int + 1);
                assert(p.drop_last() =~= self@.subrange(0, k as int));
                assert(p.last() == self@[k as int]);
            }
            if self.tasks[k].id > m {
                m = self.tasks[k].id;
            }
            k = k + 1;
        }
        proof {
            assert(self@.subrange(0, n as int) =~= self@);
        }
        if m == i64::MAX {
            return Err(AddError::IdExhausted);
        }
        let id: i64 = m + 1;
        let ghost prev = self@;
        proof {
            lemma_add_preserves_inv(prev, name@, now as int);
        }
        self.tasks.push(Task { id: id, name: name, start_time: now, end_time: None });
        proof {
            assert(self@ =~= prev.push(added_task(prev, name@, now as int)));
        }
        Ok(id)
    }

    /// Completes the task with this id: an open task gets the given end
    /// time; a task already completed, or an absent id, leaves the table
    /// unchanged, and the outcome says which happened.
    pub fn complete_task(&mut self, id: i64, now: i64) -> (r: CompleteOutcome)
        requires
            store_inv(old(self)@),
            valid_ts(now as int),
        ensures
            store_inv(final(self)@),
            !has_id(old(self)@, id as int) ==> final(self)@ == old(self)@
                && r == CompleteOutcome::NotFound,
            has_id(old(self)@, id as int)
                && old(self)@[idx_of_id(old(self)@, id as int)].end_time is Some
                ==> final(self)@ == old(self)@ && r == CompleteOutcome::AlreadyDone,
            has_id(old(self)@, id as int)
                && old(self)@[idx_of_id(old(self)@, id as int)].end_time is None
                ==> final(self)@ == completed_store(old(self)@, id as int, now as int)
                && r == CompleteOutcome::Completed,
    {
        let n: usize = self.tasks.len();
        let mut i: usize = 0;
        while i < n
            invariant
                0 <= i <= n,
                n == self@.len(),
                self@ == old(self)@,
                store_inv(self@),
                valid_ts(now as int),
                forall|p: int| 0 <= p < i ==> self@[p].id != id as int,
            decreases n - i,
        {
            proof {
                assert(self@[i as int] == self.tasks@[i as int]@);
            }
            if self.tasks[i].id == id {
                let ghost prev = self@;
                proof {
                    assert(has_id(prev, id as int));
                    lemma_idx_of_id(prev, id as int);
                    assert(idx_of_id(prev, id as int) == i as int);
                }
                match self.tasks[i].end_time {
                    Option::Some(_) => {
                        return CompleteOutcome::AlreadyDone;
                    },
                    Option::None => {
                        proof {
                            lemma_complete_preserves_inv(prev, id as int, now as int);
                        }
                        self.tasks[i].end_time = Some(now);
                        proof {
                            assert(self@ =~= completed_store(prev, id as int, now as int));
                        }
                        return CompleteOutcome::Completed;
                    },
                }
            }
            i = i + 1;
        }
        assert(!has_id(self@, id as int));
        CompleteOutcome::NotFound
    }
}

} // verus!
