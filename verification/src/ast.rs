//! Abstract syntax tree types for a command.
//!
//! Each type has a view that holds its text as sequences of characters: the
//! contracts of the parser and the evaluator are stated over these views.

use crate::text::texts;
use vstd::prelude::*;

verus! {

/// Where a command's output goes instead of the console.
pub enum Redirection {
    /// No redirection: both streams keep their destination.
    NoRedirection,
    /// Standard output goes to the file `filename`.
    StdOut { filename: String, is_append: bool },
    /// Standard error goes to the file `filename`.
    StdErr { filename: String, is_append: bool },
}

/// A redirection as a mathematical value.
pub enum RedirectionView {
    NoRedirection,
    StdOut { filename: Seq<char>, is_append: bool },
    StdErr { filename: Seq<char>, is_append: bool },
}

impl View for Redirection {
    type V = RedirectionView;

    open spec fn view(&self) -> RedirectionView {
        match self {
            Redirection::NoRedirection => RedirectionView::NoRedirection,
            Redirection::StdOut { filename, is_append } => RedirectionView::StdOut {
                filename: filename@,
                is_append: *is_append,
            },
            Redirection::StdErr { filename, is_append } => RedirectionView::StdErr {
                filename: filename@,
                is_append: *is_append,
            },
        }
    }
}

/// A command that the shell runs itself.
#[derive(Debug)]
pub enum BuiltIn {
    /// Changes the working directory to a given path.
    Cd(String),
    /// Echos back user input.
    Echo(Vec<String>),
    /// Exits the shell with a return code.
    Exit(i32),
    /// Lists the lines entered so far, or only the last few.
    History(Option<usize>),
    /// Prints the working directory.
    Pwd,
    /// Displays the type of command.
    Type(String),
}

/// A built-in command as a mathematical value.
pub enum BuiltInView {
    Cd(Seq<char>),
    Echo(Seq<Seq<char>>),
    Exit(i32),
    History(Option<usize>),
    Pwd,
    Type(Seq<char>),
}

impl View for BuiltIn {
    type V = BuiltInView;

    open spec fn view(&self) -> BuiltInView {
        match self {
            BuiltIn::Cd(path) => BuiltInView::Cd(path@),
            BuiltIn::Echo(args) => BuiltInView::Echo(texts(args@)),
            BuiltIn::Exit(code) => BuiltInView::Exit(*code),
            BuiltIn::History(limit) => BuiltInView::History(*limit),
            BuiltIn::Pwd => BuiltInView::Pwd,
            BuiltIn::Type(name) => BuiltInView::Type(name@),
        }
    }
}

/// Contents of a built-in command.
pub struct BuiltInCommand {
    pub built_in: BuiltIn,
    pub redirection: Redirection,
}

/// Contents of an external command.
pub struct ExternalCommand {
    /// The program's name followed by its arguments.
    pub args: Vec<String>,
    pub redirection: Redirection,
}

/// A shell command.
pub enum Command {
    BuiltIn(BuiltInCommand),
    External(ExternalCommand),
}

/// A command as a mathematical value.
pub enum CommandView {
    BuiltIn { built_in: BuiltInView, redirection: RedirectionView },
    External { args: Seq<Seq<char>>, redirection: RedirectionView },
}

impl View for Command {
    type V = CommandView;

    open spec fn view(&self) -> CommandView {
        match self {
            Command::BuiltIn(command) => CommandView::BuiltIn {
                built_in: command.built_in@,
                redirection: command.redirection@,
            },
            Command::External(command) => CommandView::External {
                args: texts(command.args@),
                redirection: command.redirection@,
            },
        }
    }
}

/// The views of a pipeline's commands, in order.
pub open spec fn command_views(commands: Seq<Command>) -> Seq<CommandView> {
    Seq::new(commands.len(), |i: int| commands[i]@)
}

/// Whether every external command of the pipeline names its program: its
/// list of arguments is not empty.
pub open spec fn programs_named(pipeline: Seq<Command>) -> bool {
    forall|i: int|
        0 <= i < pipeline.len() ==> match #[trigger] pipeline[i] {
            Command::External(command) => command.args.len() > 0,
            Command::BuiltIn(_) => true,
        }
}

/// The names that the shell treats as built-in commands.
pub open spec fn is_built_in_name(name: Seq<char>) -> bool {
    name == "cd"@ || name == "echo"@ || name == "exit"@ || name == "history"@ || name == "pwd"@
        || name == "type"@
}

} // verus!
