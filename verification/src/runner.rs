//! Executing one command against the table: the new table, the output
//! lines, the exit status, and the storage effect to mirror.

use vstd::prelude::*;
use vstd::string::StringExecFns;
use crate::cli::{Command, CommandView};
use crate::decimal::{dec_int, i64_string};
use crate::render::{lines_of, line_text};
use crate::task::{
    TaskStore, TaskView, AddError, CompleteOutcome, added_task, completed_store, contains_name,
    has_id, idx_of_id, max_id, next_id, store_inv,
};
use crate::timefmt::{now_timestamp, valid_ts, MIN_TS, MAX_TS};

verus! {

/// The one storage change a command asks for.
pub enum Effect {
    /// Nothing to write back.
    NoWrite,
    /// Insert an open row with this id, name and start time.
    Insert { id: i64, name: String, start_time: i64 },
    /// Set the end time of the row with this id.
    SetEnd { id: i64, end_time: i64 },
}

/// The mathematical value of a storage effect.
pub enum EffectView {
    NoWrite,
    Insert { id: int, name: Seq<char>, start_time: int },
    SetEnd { id: int, end_time: int },
}

impl View for Effect {
    type V = EffectView;

    open spec fn view(&self) -> EffectView {
        match *self {
            Effect::NoWrite => EffectView::NoWrite,
            Effect::Insert { id, name: ref n, start_time } => EffectView::Insert {
                id: id as int,
                name: n@,
                start_time: start_time as int,
            },
            Effect::SetEnd { id, end_time } => EffectView::SetEnd {
                id: id as int,
                end_time: end_time as int,
            },
        }
    }
}

/// What executing one command produced.
pub struct RunResult {
    /// The lines to print, in order.
    pub lines: Vec<String>,
    /// Whether the command succeeded; failure exits non-zero.
    pub ok: bool,
    /// The storage change to mirror into the database.
    pub effect: Effect,
}

/// The mathematical value of an execution: table, lines, status, effect.
#[verifier::ext_equal]
pub struct StepView {
    pub tasks: Seq<TaskView>,
    pub lines: Seq<Seq<char>>,
    pub ok: bool,
    pub effect: EffectView,
}

/// The confirmation line of a successful Add.
pub open spec fn added_text(name: Seq<char>) -> Seq<char> {
    "Added task: "@ + name
}

/// The failure line of an Add whose name is already in use.
pub open spec fn duplicate_text(name: Seq<char>) -> Seq<char> {
    "Error: a task already exists with name: "@ + name
}

/// The failure line of an Add when every id is in use.
pub open spec fn exhausted_text() -> Seq<char> {
    "Error: no task id is left"@
}

/// The confirmation line of a successful Complete.
pub open spec fn completed_text(id: int) -> Seq<char> {
    "Completed task with ID: "@ + dec_int(id)
}

/// The line of a Complete whose task is already completed.
pub open spec fn already_done_text(id: int) -> Seq<char> {
    "Task is already completed, ID: "@ + dec_int(id)
}

/// The line of a Complete whose id matches no task.
pub open spec fn not_found_text(id: int) -> Seq<char> {
    "No task found with ID: "@ + dec_int(id)
}

/// The failure line when the clock reads outside the supported range.
pub open spec fn clock_error_text() -> Seq<char> {
    "Error: the system clock is out of range"@
}

/// What one command does to the table at one instant: the next table,
/// the printed lines, the exit status, and the row to write back.
pub open spec fn step(s: Seq<TaskView>, cmd: CommandView, now: int) -> StepView {
    match cmd {
        CommandView::Add { task } => {
            if contains_name(s, task) {
                StepView {
                    tasks: s,
                    lines: seq![duplicate_text(task)],
                    ok: false,
                    effect: EffectView::NoWrite,
                }
            } else if max_id(s) == i64::MAX {
                StepView {
                    tasks: s,
                    lines: seq![exhausted_text()],
                    ok: false,
                    effect: EffectView::NoWrite,
                }
            } else {
                StepView {
                    tasks: s.push(added_task(s, task, now)),
                    lines: seq![added_text(task)],
                    ok: true,
                    effect: EffectView::Insert { id: next_id(s), name: task, start_time: now },
                }
            }
        },
        CommandView::Complete { task_id } => {
            if !has_id(s, task_id) {
                StepView {
                    tasks: s,
                    lines: seq![not_found_text(task_id)],
                    ok: false,
                    effect: EffectView::NoWrite,
                }
            } else if s[idx_of_id(s, task_id)].end_time is Some {
                StepView {
                    tasks: s,
                    lines: seq![already_done_text(task_id)],
                    ok: false,
                    effect: EffectView::NoWrite,
                }
            } else {
                StepView {
                    tasks: completed_store(s, task_id, now),
                    lines: seq![completed_text(task_id)],
                    ok: true,
                    effect: EffectView::SetEnd { id: task_id, end_time: now },
                }
            }
        },
        CommandView::List { all } => StepView {
            tasks: s,
            lines: lines_of(s, all),
            ok: true,
            effect: EffectView::NoWrite,
        },
    }
}

/// Runs one command against the table at the given instant, exactly as
/// `step` says.
pub fn run_command(store: &mut TaskStore, cmd: Command, now: i64) -> (r: RunResult)
    requires
        store_inv(old(store)@),
        valid_ts(now as int),
    ensures
        store_inv(final(store)@),
        (StepView {
            tasks: final(store)@,
            lines: r.lines.deep_view(),
            ok: r.ok,
            effect: r.effect@,
        }) == step(old(store)@, cmd@, now as int),
{
    match cmd {
        Command::Add { task } => {
            proof {
                crate::task::lemma_max_id_bounds(old(store)@);
            }
            let shown = task.clone();
            match store.add_task(task, now) {
                Result::Ok(id) => {
                    let mut line = String::from_str("Added task: ");
                    line.append(shown.as_str());
                    let mut lines: Vec<String> = Vec::new();
                    lines.push(line);
                    let r = RunResult {
                        lines: lines,
                        ok: true,
                        effect: Effect::Insert { id: id, name: shown, start_time: now },
                    };
                    proof {
                        assert(r.lines.deep_view() =~= seq![added_text(cmd@->Add_task)]);
                        assert((StepView {
                            tasks: store@,
                            lines: r.lines.deep_view(),
                            ok: r.ok,
                            effect: r.effect@,
                        }) =~= step(old(store)@, cmd@, now as int));
                    }
                    r
                },
                Result::Err(AddError::DuplicateName) => {
                    let mut line = String::from_str("Error: a task already exists with name: ");
                    line.append(shown.as_str());
                    let mut lines: Vec<String> = Vec::new();
                    lines.push(line);
                    let r = RunResult { lines: lines, ok: false, effect: Effect::NoWrite };
                    proof {
                        assert(r.lines.deep_view() =~= seq![duplicate_text(cmd@->Add_task)]);
                        assert((StepView {
                            tasks: store@,
                            lines: r.lines.deep_view(),
                            ok: r.ok,
                            effect: r.effect@,
                        }) =~= step(old(store)@, cmd@, now as int));
                    }
                    r
                },
                Result::Err(AddError::IdExhausted) => {
                    let line = String::from_str("Error: no task id is left");
                    let mut lines: Vec<String> = Vec::new();
                    lines.push(line);
                    let r = RunResult { lines: lines, ok: false, effect: Effect::NoWrite };
                    proof {
                        assert(r.lines.deep_view() =~= seq![exhausted_text()]);
                        assert((StepView {
                            tasks: store@,
                            lines: r.lines.deep_view(),
                            ok: r.ok,
                            effect: r.effect@,
                        }) =~= step(old(store)@, cmd@, now as int));
                    }
                    r
                },
            }
        },
        Command::Complete { task_id } => {
            let outcome = store.complete_task(task_id, now);
            let id_text = i64_string(task_id);
            match outcome {
                CompleteOutcome::Completed => {
                    let mut line = String::from_str("Completed task with ID: ");
                    line.append(id_text.as_str());
                    let mut lines: Vec<String> = Vec::new();
                    lines.push(line);
                    let r = RunResult {
                        lines: lines,
                        ok: true,
                        effect: Effect::SetEnd { id: task_id, end_time: now },
                    };
                    proof {
                        assert(r.lines.deep_view() =~= seq![completed_text(task_id as int)]);
                        assert((StepView {
                            tasks: store@,
                            lines: r.lines.deep_view(),
                            ok: r.ok,
                            effect: r.effect@,
                        }) =~= step(old(store)@, cmd@, now as int));
                    }
                    r
                },
                CompleteOutcome::AlreadyDone => {
                    let mut line = String::from_str("Task is already completed, ID: ");
                    line.append(id_text.as_str());
                    let mut lines: Vec<String> = Vec::new();
                    lines.push(line);
                    let r = RunResult { lines: lines, ok: false, effect: Effect::NoWrite };
                    proof {
                        assert(r.lines.deep_view() =~= seq![already_done_text(task_id as int)]);
                        assert((StepView {
                            tasks: store@,
                            lines: r.lines.deep_view(),
                            ok: r.ok,
                            effect: r.effect@,
                        }) =~= step(old(store)@, cmd@, now as int));
                    }
                    r
                },
                CompleteOutcome::NotFound => {
                    let mut line = String::from_str("No task found with ID: ");
                    line.append(id_text.as_str());
                    let mut lines: Vec<String> = Vec::new();
                    lines.push(line);
                    let r = RunResult { lines: lines, ok: false, effect: Effect::NoWrite };
                    proof {
                        assert(r.lines.deep_view() =~= seq![not_found_text(task_id as int)]);
                        assert((StepView {
                            tasks: store@,
                            lines: r.lines.deep_view(),
                            ok: r.ok,
                            effect: r.effect@,
                        }) =~= step(old(store)@, cmd@, now as int));
                    }
                    r
                },
            }
        },
        Command::List { all } => {
            let lines = store.list_lines(all);
            let r = RunResult { lines: lines, ok: true, effect: Effect::NoWrite };
            proof {
                assert((StepView {
                    tasks: store@,
                    lines: r.lines.deep_view(),
                    ok: r.ok,
                    effect: r.effect@,
                }) =~= step(old(store)@, cmd@, now as int));
            }
            r
        },
    }
}

/// Reads the clock and runs one command. Of the clock, only this holds
/// of every outcome: either some instant in the supported range was
/// read and the command ran at it, or the clock was out of range, the
/// table is untouched and the one line says so.
pub fn execute(store: &mut TaskStore, cmd: Command) -> (r: RunResult)
    requires
        store_inv(old(store)@),
    ensures
        store_inv(final(store)@),
        (exists|now: int|
            valid_ts(now) && (StepView {
                tasks: final(store)@,
                lines: r.lines.deep_view(),
                ok: r.ok,
                effect: r.effect@,
            }) == step(old(store)@, cmd@, now)) || (final(store)@ == old(store)@ && !r.ok
            && r.effect@ == EffectView::NoWrite && r.lines.deep_view()
            == seq![clock_error_text()]),
{
    let now = now_timestamp();
    if now < MIN_TS || now > MAX_TS {
        let line = String::from_str("Error: the system clock is out of range");
        let mut lines: Vec<String> = Vec::new();
        lines.push(line);
        let r = RunResult { lines: lines, ok: false, effect: Effect::NoWrite };
        proof {
            assert(r.lines.deep_view() =~= seq![clock_error_text()]);
        }
        r
    } else {
        let r = run_command(store, cmd, now);
        proof {
            assert(valid_ts(now as int) && (StepView {
                tasks: store@,
                lines: r.lines.deep_view(),
                ok: r.ok,
                effect: r.effect@,
            }) == step(old(store)@, cmd@, now as int));
        }
        r
    }
}

} // verus!
