//! Rendering tasks as the listing's output lines.

use vstd::prelude::*;
use vstd::string::StringExecFns;
use crate::decimal::{dec_int, i64_string};
use crate::task::{Task, TaskView, TaskStore, store_inv};
use crate::timefmt::{valid_ts, end_text, format_end, format_utc, utc_text};

verus! {

/// The listing line for one task: id, name, start time, and either the
/// end time or the open-task marker.
pub open spec fn line_text(t: TaskView) -> Seq<char> {
    "ID: "@ + dec_int(t.id) + ", Name: "@ + t.name + ", Start Time: "@ + utc_text(t.start_time)
        + ", End Time: "@ + end_text(t.end_time)
}

/// Whether a task appears in the listing: every task with `--all`, only
/// open tasks otherwise.
pub open spec fn listed(t: TaskView, all: bool) -> bool {
    all || t.end_time is None
}

/// The listing's lines, in insertion order, one per listed task.
pub open spec fn lines_of(s: Seq<TaskView>, all: bool) -> Seq<Seq<char>>
    decreases s.len(),
{
    if s.len() == 0 {
        Seq::empty()
    } else if listed(s.last(), all) {
        lines_of(s.drop_last(), all) + seq![line_text(s.last())]
    } else {
        lines_of(s.drop_last(), all)
    }
}

/// With `--all` the listing shows one line per task, in order.
pub proof fn lemma_lines_all(s: Seq<TaskView>)
    ensures
        lines_of(s, true).len() == s.len(),
        forall|i: int| 0 <= i < s.len() ==> #[trigger] lines_of(s, true)[i] == line_text(s[i]),
    decreases s.len(),
{
    if s.len() > 0 {
        lemma_lines_all(s.drop_last());
    }
}

/// A task the listing filters out contributes no line: the listing
/// equals the listing of the table without it.
pub proof fn lemma_lines_skip(s: Seq<TaskView>, all: bool, i: int)
    requires
        0 <= i < s.len(),
        !listed(s[i], all),
    ensures
        lines_of(s, all) == lines_of(s.remove(i), all),
    decreases s.len(),
{
    if i == s.len() - 1 {
        assert(s.remove(i) =~= s.drop_last());
    } else {
        lemma_lines_skip(s.drop_last(), all, i);
        assert(s.remove(i).drop_last() =~= s.drop_last().remove(i));
        assert(s.remove(i).last() == s.last());
    }
}

/// Renders the listing line of one task, as `line_text` says.
pub fn render_line(t: &Task) -> (line: String)
    requires
        valid_ts(t@.start_time),
        t@.end_time matches Option::Some(e) ==> valid_ts(e),
    ensures
        line@ == line_text(t@),
{
    let mut line = String::from_str("ID: ");
    let id_text = i64_string(t.id);
    line.append(id_text.as_str());
    line.append(", Name: ");
    line.append(t.name.as_str());
    line.append(", Start Time: ");
    let start_text = format_utc(t.start_time);
    line.append(start_text.as_str());
    line.append(", End Time: ");
    let finish_text = format_end(&t.end_time);
    line.append(finish_text.as_str());
    proof {
        assert(line@ =~= line_text(t@));
    }
    line
}

impl TaskStore {
    /// The listing: one line per listed task, in insertion order; with
    /// `all` false only open tasks are listed.
    pub fn list_lines(&self, all: bool) -> (lines: Vec<String>)
        requires
            store_inv(self@),
        ensures
            lines.deep_view() == lines_of(self@, all),
    {
        let n: usize = self.len();
        let mut lines: Vec<String> = Vec::new();
        proof {
            assert(self@.subrange(0, 0) =~= Seq::<TaskView>::empty());
            assert(lines.deep_view() =~= lines_of(self@.subrange(0, 0), all));
        }
        let mut i: usize = 0;
        while i < n
            invariant
                0 <= i <= n,
                n == self@.len(),
                store_inv(self@),
                lines.deep_view() == lines_of(self@.subrange(0, i as int), all),
            decreases n - i,
        {
            let t = self.task_at(i);
            proof {
                let p = self@.subrange(0, i as int + 1);
                assert(p.drop_last() =~= self@.subrange(0, i as int));
                assert(p.last() == self@[i as int]);
            }
            let show: bool = if all {
                true
            } else {
                match t.end_time {
                    Option::Some(_) => false,
                    Option::None => true,
                }
            };
            if show {
                let line = render_line(t);
                let ghost before = lines.deep_view();
                lines.push(line);
                proof {
                    assert(lines.deep_view() =~= before.push(line@));
                    assert(lines.deep_view() =~= lines_of(self@.subrange(0, i as int + 1), all));
                }
            }
            i = i + 1;
        }
        proof {
            assert(self@.subrange(0, n as int) =~= self@);
        }
        lines
    }
}

} // verus!
