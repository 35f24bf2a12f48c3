//! The command-line grammar: resolving process arguments to a command.

use vstd::prelude::*;
use vstd::string::StringExecFns;
use crate::decimal::{is_i64_literal, literal_value, parse_i64};

verus! {

/// A resolved command.
pub enum Command {
    /// Add a task with this name.
    Add { task: String },
    /// Complete the task with this id.
    Complete { task_id: i64 },
    /// List tasks: open ones, or every task when `all` is set.
    List { all: bool },
}

/// The mathematical value of a command.
pub enum CommandView {
    Add { task: Seq<char> },
    Complete { task_id: int },
    List { all: bool },
}

impl View for Command {
    type V = CommandView;

    open spec fn view(&self) -> CommandView {
        match *self {
            Command::Add { task: ref t } => CommandView::Add { task: t@ },
            Command::Complete { task_id } => CommandView::Complete { task_id: task_id as int },
            Command::List { all } => CommandView::List { all: all },
        }
    }
}

/// Why the arguments did not resolve to a command.
#[derive(Clone, Copy, PartialEq, Eq, Structural, Debug)]
pub enum ParseError {
    /// No subcommand was given.
    MissingCommand,
    /// The subcommand is not add, complete or list.
    UnknownCommand,
    /// add was given no task name.
    MissingTask,
    /// add was given an empty task name.
    EmptyTask,
    /// complete was given no task id.
    MissingTaskId,
    /// complete's argument is not an integer id.
    InvalidTaskId,
    /// An argument was given that the subcommand does not take.
    UnexpectedArgument,
}

/// What the arguments (without the program name) resolve to: the command,
/// or the first reason they are malformed.
pub open spec fn parse_spec(args: Seq<Seq<char>>) -> Result<CommandView, ParseError> {
    if args.len() == 0 {
        Result::Err(ParseError::MissingCommand)
    } else if args[0] == "add"@ {
        if args.len() < 2 {
            Result::Err(ParseError::MissingTask)
        } else if args.len() > 2 {
            Result::Err(ParseError::UnexpectedArgument)
        } else if args[1].len() == 0 {
            Result::Err(ParseError::EmptyTask)
        } else {
            Result::Ok(CommandView::Add { task: args[1] })
        }
    } else if args[0] == "complete"@ {
        if args.len() < 2 {
            Result::Err(ParseError::MissingTaskId)
        } else if args.len() > 2 {
            Result::Err(ParseError::UnexpectedArgument)
        } else if !is_i64_literal(args[1]) {
            Result::Err(ParseError::InvalidTaskId)
        } else {
            Result::Ok(CommandView::Complete { task_id: literal_value(args[1]) })
        }
    } else if args[0] == "list"@ {
        if args.len() == 1 {
            Result::Ok(CommandView::List { all: false })
        } else if args.len() == 2 && (args[1] == "-a"@ || args[1] == "--all"@) {
            Result::Ok(CommandView::List { all: true })
        } else {
            Result::Err(ParseError::UnexpectedArgument)
        }
    } else {
        Result::Err(ParseError::UnknownCommand)
    }
}

fn arg_is(a: &String, lit: &str) -> (r: bool)
    ensures
        r == (a@ == lit@),
{
    let s = String::from_str(lit);
    *a == s
}

/// Resolves the process arguments, program name excluded, to a command,
/// exactly as `parse_spec` says.
pub fn parse_args(args: &Vec<String>) -> (r: Result<Command, ParseError>)
    ensures
        r matches Result::Ok(c) ==> parse_spec(args.deep_view())
            == Result::Ok::<CommandView, ParseError>(c@),
        r matches Result::Err(e) ==> parse_spec(args.deep_view())
            == Result::Err::<CommandView, ParseError>(e),
{
    let ghost av = args.deep_view();
    proof {
        assert(forall|i: int| 0 <= i < args@.len() ==> av[i] == args@[i]@);
    }
    if args.len() == 0 {
        return Err(ParseError::MissingCommand);
    }
    if arg_is(&args[0], "add") {
        if args.len() < 2 {
            return Err(ParseError::MissingTask);
        }
        if args.len() > 2 {
            return Err(ParseError::UnexpectedArgument);
        }
        let task = args[1].clone();
        if task.as_str().unicode_len() == 0 {
            return Err(ParseError::EmptyTask);
        }
        Ok(Command::Add { task: task })
    } else if arg_is(&args[0], "complete") {
        if args.len() < 2 {
            return Err(ParseError::MissingTaskId);
        }
        if args.len() > 2 {
            return Err(ParseError::UnexpectedArgument);
        }
        match parse_i64(args[1].as_str()) {
            Option::Some(task_id) => Ok(Command::Complete { task_id: task_id }),
            Option::None => Err(ParseError::InvalidTaskId),
        }
    } else if arg_is(&args[0], "list") {
        if args.len() == 1 {
            return Ok(Command::List { all: false });
        }
        if args.len() == 2 {
            if arg_is(&args[1], "-a") || arg_is(&args[1], "--all") {
                return Ok(Command::List { all: true });
            }
        }
        Err(ParseError::UnexpectedArgument)
    } else {
        Err(ParseError::UnknownCommand)
    }
}

/// How the command line is used, one line per form.
pub fn usage_text() -> (s: String)
    ensures
        s@ == "Usage: task-tracker add <task>\n       task-tracker complete <task_id>\n       task-tracker list [-a|--all]"@,
{
    String::from_str(
        "Usage: task-tracker add <task>\n       task-tracker complete <task_id>\n       task-tracker list [-a|--all]",
    )
}

/// The reason text of a parse error.
pub open spec fn parse_error_text(e: ParseError) -> Seq<char> {
    match e {
        ParseError::MissingCommand => "no command given"@,
        ParseError::UnknownCommand => "unknown command"@,
        ParseError::MissingTask => "add takes a task name"@,
        ParseError::EmptyTask => "the task name is empty"@,
        ParseError::MissingTaskId => "complete takes a task id"@,
        ParseError::InvalidTaskId => "the task id is not an integer"@,
        ParseError::UnexpectedArgument => "unexpected argument"@,
    }
}

impl ParseError {
    /// Renders the reason, as `parse_error_text` says.
    pub fn text(&self) -> (s: String)
        ensures
            s@ == parse_error_text(*self),
    {
        match *self {
            ParseError::MissingCommand => String::from_str("no command given"),
            ParseError::UnknownCommand => String::from_str("unknown command"),
            ParseError::MissingTask => String::from_str("add takes a task name"),
            ParseError::EmptyTask => String::from_str("the task name is empty"),
            ParseError::MissingTaskId => String::from_str("complete takes a task id"),
            ParseError::InvalidTaskId => String::from_str("the task id is not an integer"),
            ParseError::UnexpectedArgument => String::from_str("unexpected argument"),
        }
    }
}

} // verus!
