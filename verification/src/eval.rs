//! Evaluation of a pipeline, as far as it is decided without the operating
//! system.
//!
//! A built-in writes text to two sinks, which here are strings. Where it
//! needs the operating system (the working directory, the search path, the
//! history), [`eval_built_in`] says what is needed, and one of the
//! `finish_` functions takes the answer and writes what the built-in has to
//! say. How the stages of a pipeline are connected is laid out by [`eval`].

use crate::ast::{
    command_views, is_built_in_name, programs_named, BuiltIn, BuiltInCommand, BuiltInView, Command,
    CommandView, ExternalCommand, Redirection, RedirectionView,
};
use crate::parser::{all_plain_words, lemma_echo_of_plain_words, parse_text, spaced, ParseErrorView};
use crate::system::{change_directory, change_directory_report, DirectoryEntry, OsError};
use crate::text::{decimal_digits, push_decimal, texts};
use vstd::prelude::*;

verus! {

/// The arguments of `echo` with one space between each two.
pub open spec fn joined_with_spaces(args: Seq<Seq<char>>) -> Seq<char>
    decreases args.len(),
{
    if args.len() == 0 {
        Seq::empty()
    } else if args.len() == 1 {
        args[0]
    } else {
        joined_with_spaces(args.drop_last()).push(' ') + args.last()
    }
}

/// What `echo` writes: its arguments with one space between each two, and
/// one newline at the end.
pub open spec fn echo_text(args: Seq<Seq<char>>) -> Seq<char> {
    joined_with_spaces(args).push('\n')
}

/// What `type` writes for a built-in name.
pub open spec fn type_built_in_text(name: Seq<char>) -> Seq<char> {
    name + " is a shell builtin\n"@
}

/// What `type` writes for a name found on the search path at `path`.
pub open spec fn type_found_text(name: Seq<char>, path: Seq<char>) -> Seq<char> {
    name + " is "@ + path + "\n"@
}

/// What `type` writes for a name that is neither built in nor found.
pub open spec fn type_not_found_text(name: Seq<char>) -> Seq<char> {
    name + ": not found\n"@
}

/// The line of the history with number `index`, counted from zero: a tab,
/// the number counted from one, a tab, the entry and a newline.
pub open spec fn history_line(index: int, entry: Seq<char>) -> Seq<char> {
    seq!['\t'] + decimal_digits((index + 1) as nat) + seq!['\t'] + entry + seq!['\n']
}

/// The lines of the history from entry `from` up to, not including, entry
/// `to`.
pub open spec fn history_lines(entries: Seq<Seq<char>>, from: int, to: int) -> Seq<char>
    decreases to - from,
{
    if to <= from {
        Seq::empty()
    } else {
        history_lines(entries, from, to - 1) + history_line(to - 1, entries[to - 1])
    }
}

/// The first entry that `history` shows: with a limit the last `limit`
/// entries are shown, all of them where there are no more than that.
pub open spec fn history_start(len: int, limit: Option<usize>) -> int {
    match limit {
        Some(limit) => if limit >= len {
            0
        } else {
            len - limit
        },
        None => 0,
    }
}

/// What `history` writes.
pub open spec fn history_text(entries: Seq<Seq<char>>, limit: Option<usize>) -> Seq<char> {
    history_lines(entries, history_start(entries.len() as int, limit), entries.len() as int)
}

/// What is left to do for a built-in after [`eval_built_in`].
#[derive(Debug)]
pub enum BuiltInStep {
    /// Nothing: what the built-in had to say stands in the sinks.
    Finished,
    /// The shell exits with this status, at once.
    Exit(i32),
    /// The home directory is looked up; [`finish_cd_home`] goes on.
    FindHome,
    /// The working directory is changed to this path; [`finish_cd`] goes on.
    ChangeDirectory(String),
    /// The working directory is read; [`finish_pwd`] goes on.
    ReadWorkingDirectory,
    /// The search path is searched for this name; [`finish_type`] goes on.
    SearchExecutable(String),
    /// The history is read; [`print_history`] goes on with this limit.
    ReadHistory(Option<usize>),
}

/// A step as a mathematical value.
pub enum BuiltInStepView {
    Finished,
    Exit(i32),
    FindHome,
    ChangeDirectory(Seq<char>),
    ReadWorkingDirectory,
    SearchExecutable(Seq<char>),
    ReadHistory(Option<usize>),
}

impl View for BuiltInStep {
    type V = BuiltInStepView;

    open spec fn view(&self) -> BuiltInStepView {
        match self {
            BuiltInStep::Finished => BuiltInStepView::Finished,
            BuiltInStep::Exit(code) => BuiltInStepView::Exit(*code),
            BuiltInStep::FindHome => BuiltInStepView::FindHome,
            BuiltInStep::ChangeDirectory(path) => BuiltInStepView::ChangeDirectory(path@),
            BuiltInStep::ReadWorkingDirectory => BuiltInStepView::ReadWorkingDirectory,
            BuiltInStep::SearchExecutable(name) => BuiltInStepView::SearchExecutable(name@),
            BuiltInStep::ReadHistory(limit) => BuiltInStepView::ReadHistory(*limit),
        }
    }
}

/// What a built-in writes to standard output before it needs anything from
/// the operating system.
pub open spec fn built_in_output(built_in: BuiltInView) -> Seq<char> {
    match built_in {
        BuiltInView::Echo(args) => echo_text(args),
        BuiltInView::Type(name) => if is_built_in_name(name) {
            type_built_in_text(name)
        } else {
            Seq::empty()
        },
        _ => Seq::empty(),
    }
}

/// What is left to do for a built-in once it has written
/// [`built_in_output`].
pub open spec fn built_in_step(built_in: BuiltInView) -> BuiltInStepView {
    match built_in {
        BuiltInView::Echo(args) => BuiltInStepView::Finished,
        BuiltInView::Cd(path) => if path == "~"@ {
            BuiltInStepView::FindHome
        } else {
            BuiltInStepView::ChangeDirectory(path)
        },
        BuiltInView::Exit(code) => BuiltInStepView::Exit(code),
        BuiltInView::Pwd => BuiltInStepView::ReadWorkingDirectory,
        BuiltInView::Type(name) => if is_built_in_name(name) {
            BuiltInStepView::Finished
        } else {
            BuiltInStepView::SearchExecutable(name)
        },
        BuiltInView::History(limit) => BuiltInStepView::ReadHistory(limit),
    }
}

/// Writes the arguments of `echo` to `stdout`.
fn write_echo(stdout: &mut String, args: &Vec<String>)
    ensures
        final(stdout)@ == old(stdout)@ + echo_text(texts(args@)),
{
    let ghost start = stdout@;
    let ghost all = texts(args@);
    if args.len() > 0 {
        stdout.append(args[0].as_str());
        assert(all.take(1) =~= seq![all[0]]);
        assert(all.take(1).drop_last() =~= Seq::empty());
        let mut i: usize = 1;
        while i < args.len()
            invariant
                1 <= i <= args.len(),
                all == texts(args@),
                stdout@ == start + joined_with_spaces(all.take(i as int)),
            decreases args.len() - i,
        {
            stdout.push(' ');
            stdout.append(args[i].as_str());
            proof {
                assert(all.take(i + 1).drop_last() =~= all.take(i as int));
                assert(all.take(i + 1).last() == args@[i as int]@);
                assert(stdout@ =~= start + joined_with_spaces(all.take(i + 1)));
            }
            i = i + 1;
        }
        assert(all.take(i as int) =~= all);
    } else {
        assert(stdout@ =~= start + joined_with_spaces(all));
    }
    stdout.push('\n');
    assert(stdout@ =~= start + echo_text(all));
}

/// Whether `name` is the name of a built-in command.
pub fn is_built_in(name: &str) -> (known: bool)
    ensures
        known == is_built_in_name(name@),
{
    name.eq("cd") || name.eq("echo") || name.eq("exit") || name.eq("history") || name.eq("pwd")
        || name.eq("type")
}

/// Evaluates a built in command.
///
/// Writes to `stdout` what the built-in has to say without the operating
/// system, and returns what is left to do.
pub fn eval_built_in(stdout: &mut String, stderr: &mut String, built_in: &BuiltIn) -> (step:
    BuiltInStep)
    ensures
        final(stdout)@ == old(stdout)@ + built_in_output(built_in@),
        final(stderr)@ == old(stderr)@,
        step@ == built_in_step(built_in@),
{
    assert(stdout@ + Seq::<char>::empty() =~= stdout@);
    match built_in {
        BuiltIn::Echo(args) => {
            write_echo(stdout, args);
            BuiltInStep::Finished
        },
        BuiltIn::Cd(path) => {
            if path.as_str().eq("~") {
                BuiltInStep::FindHome
            } else {
                BuiltInStep::ChangeDirectory(path.clone())
            }
        },
        BuiltIn::Exit(code) => BuiltInStep::Exit(*code),
        BuiltIn::Pwd => BuiltInStep::ReadWorkingDirectory,
        BuiltIn::Type(command) => {
            if is_built_in(command.as_str()) {
                stdout.append(command.as_str());
                stdout.append(" is a shell builtin\n");
                assert(stdout@ =~= old(stdout)@ + type_built_in_text(command@));
                BuiltInStep::Finished
            } else {
                BuiltInStep::SearchExecutable(command.clone())
            }
        },
        BuiltIn::History(limit) => BuiltInStep::ReadHistory(*limit),
    }
}

/// What `cd ~` writes when no home directory is known.
pub open spec fn home_unknown_text() -> Seq<char> {
    "cd: Home directory is unknown\n"@
}

/// Goes on with `cd ~` once the home directory has been looked up.
///
/// With a home directory the result is the path to change to; how that
/// change went is then judged by [`change_directory`], whose error is the
/// error of the whole command. Without one the built-in says so on
/// `stderr` and is done.
pub fn finish_cd_home(stderr: &mut String, home: Option<String>) -> (path: Option<String>)
    ensures
        path == home,
        final(stderr)@ == old(stderr)@ + match home {
            Some(_) => Seq::empty(),
            None => home_unknown_text(),
        },
{
    match home {
        Some(home) => {
            assert(stderr@ + Seq::<char>::empty() =~= stderr@);
            Some(home)
        },
        None => {
            stderr.append("cd: Home directory is unknown\n");
            None
        },
    }
}

/// What `cd` writes to the error stream after the change to `path` was
/// answered with `outcome`.
pub open spec fn cd_text(path: Seq<char>, outcome: Result<(), OsError>) -> Seq<char> {
    match change_directory_report(path, outcome) {
        Some(report) => "cd: "@ + report + "\n"@,
        None => Seq::empty(),
    }
}

/// Goes on with `cd` once the operating system has been asked to change to
/// `path` and has answered with `outcome`: a failure is reported on
/// `stderr`.
pub fn finish_cd(stderr: &mut String, path: &str, outcome: Result<(), OsError>)
    ensures
        final(stderr)@ == old(stderr)@ + cd_text(path@, outcome),
{
    match change_directory(path, outcome) {
        Ok(_) => {
            assert(stderr@ + Seq::<char>::empty() =~= stderr@);
        },
        Err(e) => {
            stderr.append("cd: ");
            stderr.append(e.message());
            stderr.append("\n");
            assert(stderr@ =~= old(stderr)@ + cd_text(path@, outcome));
        },
    }
}

/// Goes on with `pwd` once the working directory has been read: the
/// directory and a newline go to `stdout`, an error's text and a newline to
/// `stderr`.
pub fn finish_pwd(stdout: &mut String, stderr: &mut String, outcome: Result<String, OsError>)
    ensures
        final(stdout)@ == old(stdout)@ + match outcome {
            Ok(directory) => directory@.push('\n'),
            Err(_) => Seq::empty(),
        },
        final(stderr)@ == old(stderr)@ + match outcome {
            Ok(_) => Seq::empty(),
            Err(e) => e.message@.push('\n'),
        },
{
    assert(stdout@ + Seq::<char>::empty() =~= stdout@);
    assert(stderr@ + Seq::<char>::empty() =~= stderr@);
    match outcome {
        Ok(directory) => {
            stdout.append(directory.as_str());
            stdout.push('\n');
            assert(stdout@ =~= old(stdout)@ + directory@.push('\n'));
        },
        Err(e) => {
            stderr.append(e.message.as_str());
            stderr.push('\n');
            assert(stderr@ =~= old(stderr)@ + e.message@.push('\n'));
        },
    }
}

/// Goes on with `type` once the search path has been searched for `name`:
/// where the file was found goes to `stdout`, that it was not found to
/// `stderr`.
pub fn finish_type(
    stdout: &mut String,
    stderr: &mut String,
    name: &str,
    found: Option<&DirectoryEntry>,
)
    ensures
        final(stdout)@ == old(stdout)@ + match found {
            Some(entry) => type_found_text(name@, entry.path@),
            None => Seq::empty(),
        },
        final(stderr)@ == old(stderr)@ + match found {
            Some(_) => Seq::empty(),
            None => type_not_found_text(name@),
        },
{
    assert(stdout@ + Seq::<char>::empty() =~= stdout@);
    assert(stderr@ + Seq::<char>::empty() =~= stderr@);
    match found {
        Some(entry) => {
            stdout.append(name);
            stdout.append(" is ");
            stdout.append(entry.path.as_str());
            stdout.append("\n");
            assert(stdout@ =~= old(stdout)@ + type_found_text(name@, entry.path@));
        },
        None => {
            stderr.append(name);
            stderr.append(": not found\n");
            assert(stderr@ =~= old(stderr)@ + type_not_found_text(name@));
        },
    }
}

/// Writes the history to `stdout`, one numbered line for each entry; with
/// a limit only the last `limit` entries.
pub fn print_history(history: &Vec<String>, stdout: &mut String, limit: &Option<usize>)
    ensures
        final(stdout)@ == old(stdout)@ + history_text(texts(history@), *limit),
{
    let len = history.len();
    let start = match limit {
        Some(limit) => if *limit >= len {
            0
        } else {
            len - *limit
        },
        None => 0,
    };
    let ghost entries = texts(history@);
    assert(stdout@ =~= old(stdout)@ + history_lines(entries, start as int, start as int));
    let mut i: usize = start;
    while i < len
        invariant
            start <= i <= len,
            len == history.len(),
            entries == texts(history@),
            stdout@ == old(stdout)@ + history_lines(entries, start as int, i as int),
        decreases len - i,
    {
        stdout.push('\t');
        push_decimal(stdout, (i + 1) as u64);
        stdout.push('\t');
        stdout.append(history[i].as_str());
        stdout.push('\n');
        assert(stdout@ =~= old(stdout)@ + history_lines(entries, start as int, i + 1));
        i = i + 1;
    }
}

/// Where a stream of a stage comes from or goes to.
#[derive(Debug)]
pub enum Stdio {
    /// The shell's own stream.
    Inherit,
    /// A new pipe, or for a built-in a buffer.
    Piped,
    /// The pipe that the stage before writes its output to.
    PreviousOutput,
    /// A file, created if it is not there, and emptied first unless
    /// `is_append`.
    File { filename: String, is_append: bool },
}

/// A stream's end as a mathematical value.
pub enum StdioView {
    Inherit,
    Piped,
    PreviousOutput,
    File { filename: Seq<char>, is_append: bool },
}

impl View for Stdio {
    type V = StdioView;

    open spec fn view(&self) -> StdioView {
        match self {
            Stdio::Inherit => StdioView::Inherit,
            Stdio::Piped => StdioView::Piped,
            Stdio::PreviousOutput => StdioView::PreviousOutput,
            Stdio::File { filename, is_append } => StdioView::File {
                filename: filename@,
                is_append: *is_append,
            },
        }
    }
}

/// Where standard output goes: to the file that the redirection names for
/// it, else to `otherwise`.
pub open spec fn redirected_stdout(redirection: RedirectionView, otherwise: StdioView) -> StdioView {
    match redirection {
        RedirectionView::StdOut { filename, is_append } => StdioView::File { filename, is_append },
        _ => otherwise,
    }
}

/// Where standard error goes: to the file that the redirection names for
/// it, else to the shell's own error stream.
pub open spec fn redirected_stderr(redirection: RedirectionView) -> StdioView {
    match redirection {
        RedirectionView::StdErr { filename, is_append } => StdioView::File { filename, is_append },
        _ => StdioView::Inherit,
    }
}

/// How a file is opened.
#[derive(Clone, Copy, Debug, PartialEq, Eq, Structural)]
pub struct FileOptions {
    pub write: bool,
    pub create: bool,
    pub append: bool,
    pub truncate: bool,
}

/// How the file of a redirection is opened: for writing, created if it is
/// not there, and either appended to or emptied first.
pub fn open_file(is_append: bool) -> (options: FileOptions)
    ensures
        options == (FileOptions {
            write: true,
            create: true,
            append: is_append,
            truncate: !is_append,
        }),
{
    FileOptions { write: true, create: true, append: is_append, truncate: !is_append }
}

/// Where the two streams of a built-in go.
#[derive(Debug)]
pub struct BuiltInSinks {
    /// Standard output: a file, or `Piped` for a buffer that the pipeline
    /// hands on.
    pub stdout: Stdio,
    /// Standard error: a file, or the shell's own error stream.
    pub stderr: Stdio,
}

/// Chooses the sinks of a built-in command by its redirection: the stream
/// that the redirection names goes to the file, standard output otherwise
/// to a buffer and standard error to the shell's own.
pub fn eval_built_in_command(built_in_command: &BuiltInCommand) -> (sinks: BuiltInSinks)
    ensures
        sinks.stdout@ == redirected_stdout(built_in_command.redirection@, StdioView::Piped),
        sinks.stderr@ == redirected_stderr(built_in_command.redirection@),
{
    match &built_in_command.redirection {
        Redirection::StdOut { filename, is_append } => BuiltInSinks {
            stdout: Stdio::File { filename: filename.clone(), is_append: *is_append },
            stderr: Stdio::Inherit,
        },
        Redirection::StdErr { filename, is_append } => BuiltInSinks {
            stdout: Stdio::Piped,
            stderr: Stdio::File { filename: filename.clone(), is_append: *is_append },
        },
        Redirection::NoRedirection => BuiltInSinks { stdout: Stdio::Piped, stderr: Stdio::Inherit },
    }
}

/// A process to start: the program, its arguments and its three streams.
#[derive(Debug)]
pub struct ExternalInvocation {
    pub program: String,
    pub args: Vec<String>,
    pub stdin: Stdio,
    pub stdout: Stdio,
    pub stderr: Stdio,
}

/// An invocation as a mathematical value.
pub struct ExternalInvocationView {
    pub program: Seq<char>,
    pub args: Seq<Seq<char>>,
    pub stdin: StdioView,
    pub stdout: StdioView,
    pub stderr: StdioView,
}

impl View for ExternalInvocation {
    type V = ExternalInvocationView;

    open spec fn view(&self) -> ExternalInvocationView {
        ExternalInvocationView {
            program: self.program@,
            args: texts(self.args@),
            stdin: self.stdin@,
            stdout: self.stdout@,
            stderr: self.stderr@,
        }
    }
}

/// Evaluates an external command, e.g. `ls`: the first argument is the
/// program, the others are handed to it.
pub fn eval_external(args: &Vec<String>, stdin: Stdio, stdout: Stdio, stderr: Stdio) -> (invocation:
    ExternalInvocation)
    requires
        args.len() > 0,
    ensures
        invocation@ == (ExternalInvocationView {
            program: args[0]@,
            args: texts(args@).skip(1),
            stdin: stdin@,
            stdout: stdout@,
            stderr: stderr@,
        }),
{
    let program = args[0].clone();
    let mut rest: Vec<String> = Vec::new();
    let mut i: usize = 1;
    assert(texts(rest@) =~= texts(args@).subrange(1, 1));
    while i < args.len()
        invariant
            1 <= i <= args.len(),
            texts(rest@) == texts(args@).subrange(1, i as int),
        decreases args.len() - i,
    {
        let ghost before = texts(rest@);
        rest.push(args[i].clone());
        assert(texts(rest@) =~= before.push(args@[i as int]@));
        assert(texts(rest@) =~= texts(args@).subrange(1, i + 1));
        i = i + 1;
    }
    assert(texts(args@).subrange(1, i as int) =~= texts(args@).skip(1));
    ExternalInvocation { program, args: rest, stdin, stdout, stderr }
}

/// The process for an external command whose place in the pipeline gives
/// it `stdin` and `stdout`: a redirection takes over the stream that it
/// names, and standard error is the shell's own otherwise.
pub fn eval_external_command(external_command: &ExternalCommand, stdin: Stdio, stdout: Stdio) -> (invocation:
    ExternalInvocation)
    requires
        external_command.args.len() > 0,
    ensures
        invocation@ == (ExternalInvocationView {
            program: external_command.args[0]@,
            args: texts(external_command.args@).skip(1),
            stdin: stdin@,
            stdout: redirected_stdout(external_command.redirection@, stdout@),
            stderr: redirected_stderr(external_command.redirection@),
        }),
{
    match &external_command.redirection {
        Redirection::StdOut { filename, is_append } => {
            let stdout = Stdio::File { filename: filename.clone(), is_append: *is_append };
            let stderr = Stdio::Inherit;
            eval_external(&external_command.args, stdin, stdout, stderr)
        },
        Redirection::StdErr { filename, is_append } => {
            let stderr = Stdio::File { filename: filename.clone(), is_append: *is_append };
            eval_external(&external_command.args, stdin, stdout, stderr)
        },
        Redirection::NoRedirection => {
            let stderr = Stdio::Inherit;
            eval_external(&external_command.args, stdin, stdout, stderr)
        },
    }
}

/// Where the output that a built-in wrote to its buffer goes.
#[derive(Clone, Copy, Debug, PartialEq, Eq, Structural)]
pub enum Capture {
    /// To the shell's own output: the built-in is the last stage.
    ShellOutput,
    /// To the input of the next stage, an external command.
    NextStage,
    /// Nowhere: the next stage is a built-in, which reads no input.
    Dropped,
}

/// What to do for one stage of a pipeline.
#[derive(Debug)]
pub enum Stage {
    /// Run the built-in of this stage with these sinks, then hand on what
    /// its buffer holds.
    BuiltIn { sinks: BuiltInSinks, capture: Capture },
    /// Start this process. With `feed`, write the buffer of the built-in
    /// before it to the process's input, and close that input.
    External { invocation: ExternalInvocation, feed: bool },
}

/// A stage as a mathematical value.
pub enum StageView {
    BuiltIn { stdout: StdioView, stderr: StdioView, capture: Capture },
    External { invocation: ExternalInvocationView, feed: bool },
}

impl View for Stage {
    type V = StageView;

    open spec fn view(&self) -> StageView {
        match self {
            Stage::BuiltIn { sinks, capture } => StageView::BuiltIn {
                stdout: sinks.stdout@,
                stderr: sinks.stderr@,
                capture: *capture,
            },
            Stage::External { invocation, feed } => StageView::External {
                invocation: invocation@,
                feed: *feed,
            },
        }
    }
}

/// Whether stage `i` is an external command that writes its output to a
/// pipe.
pub open spec fn writes_to_pipe(pipeline: Seq<CommandView>, i: int) -> bool {
    &&& 0 <= i
    &&& i + 1 < pipeline.len()
    &&& pipeline[i] is External
    &&& !(pipeline[i]->External_redirection is StdOut)
}

/// Where an external command at place `i` reads from: the first stage from
/// the shell's input, a stage behind an external command from that
/// command's pipe, and any other stage from a new pipe.
pub open spec fn stage_stdin(pipeline: Seq<CommandView>, i: int) -> StdioView {
    if i == 0 {
        StdioView::Inherit
    } else if writes_to_pipe(pipeline, i - 1) {
        StdioView::PreviousOutput
    } else {
        StdioView::Piped
    }
}

/// Where a command at place `i` writes to unless it is redirected: the
/// last stage to the shell's output, any other stage to a pipe.
pub open spec fn stage_stdout(pipeline: Seq<CommandView>, i: int) -> StdioView {
    if i + 1 == pipeline.len() {
        StdioView::Inherit
    } else {
        StdioView::Piped
    }
}

/// Where the buffer of a built-in at place `i` goes.
pub open spec fn stage_capture(pipeline: Seq<CommandView>, i: int) -> Capture {
    if i + 1 == pipeline.len() {
        Capture::ShellOutput
    } else if pipeline[i + 1] is External {
        Capture::NextStage
    } else {
        Capture::Dropped
    }
}

/// What to do for stage `i` of `pipeline`.
pub open spec fn stage_plan(pipeline: Seq<CommandView>, i: int) -> StageView {
    match pipeline[i] {
        CommandView::BuiltIn { built_in, redirection } => StageView::BuiltIn {
            stdout: redirected_stdout(redirection, StdioView::Piped),
            stderr: redirected_stderr(redirection),
            capture: stage_capture(pipeline, i),
        },
        CommandView::External { args, redirection } => StageView::External {
            invocation: ExternalInvocationView {
                program: args[0],
                args: args.skip(1),
                stdin: stage_stdin(pipeline, i),
                stdout: redirected_stdout(redirection, stage_stdout(pipeline, i)),
                stderr: redirected_stderr(redirection),
            },
            feed: i > 0 && pipeline[i - 1] is BuiltIn,
        },
    }
}

/// Whether `command` is an external command that, at a place before the
/// last, writes its output to a pipe.
fn pipes_output(command: &Command) -> (pipes: bool)
    ensures
        pipes == (command@ is External && !(command@->External_redirection is StdOut)),
{
    match command {
        Command::External(command) => match &command.redirection {
            Redirection::StdOut { .. } => false,
            _ => true,
        },
        Command::BuiltIn(_) => false,
    }
}

/// Lays out the evaluation of a pipeline: one stage for each command, from
/// left to right, each with its streams.
pub fn eval(pipeline: &Vec<Command>) -> (stages: Vec<Stage>)
    requires
        programs_named(pipeline@),
    ensures
        stages.len() == pipeline.len(),
        forall|i: int|
            0 <= i < pipeline.len() ==> (#[trigger] stages[i])@ == stage_plan(
                command_views(pipeline@),
                i,
            ),
{
    let n = pipeline.len();
    let ghost commands = command_views(pipeline@);
    let mut stages: Vec<Stage> = Vec::new();
    let mut i: usize = 0;
    while i < n
        invariant
            n == pipeline.len(),
            i <= n,
            commands == command_views(pipeline@),
            programs_named(pipeline@),
            stages.len() == i,
            forall|k: int| 0 <= k < i ==> (#[trigger] stages[k])@ == stage_plan(commands, k),
        decreases n - i,
    {
        let is_first = i == 0;
        let is_last = i + 1 == n;
        assert(commands[i as int] == pipeline@[i as int]@);
        let stage = match &pipeline[i] {
            Command::BuiltIn(command) => {
                let capture = if is_last {
                    Capture::ShellOutput
                } else {
                    assert(commands[i + 1] == pipeline@[i + 1]@);
                    match &pipeline[i + 1] {
                        Command::External(_) => Capture::NextStage,
                        Command::BuiltIn(_) => Capture::Dropped,
                    }
                };
                Stage::BuiltIn { sinks: eval_built_in_command(command), capture }
            },
            Command::External(command) => {
                let mut feed = false;
                let stdin = if is_first {
                    Stdio::Inherit
                } else {
                    assert(commands[i - 1] == pipeline@[i - 1]@);
                    feed = match &pipeline[i - 1] {
                        Command::BuiltIn(_) => true,
                        Command::External(_) => false,
                    };
                    if pipes_output(&pipeline[i - 1]) {
                        Stdio::PreviousOutput
                    } else {
                        Stdio::Piped
                    }
                };
                let stdout = if is_last {
                    Stdio::Inherit
                } else {
                    Stdio::Piped
                };
                assert(pipeline@[i as int] == Command::External(*command));
                Stage::External { invocation: eval_external_command(command, stdin, stdout), feed }
            },
        };
        assert(stage@ == stage_plan(commands, i as int));
        stages.push(stage);
        i = i + 1;
    }
    stages
}

/// Two external commands that follow one another share a pipe exactly when
/// the first one's output is not redirected to a file: then the first
/// writes to the pipe and the second reads from it, else neither does.
pub proof fn lemma_pipe_has_both_ends(pipeline: Seq<CommandView>, i: int)
    requires
        0 <= i,
        i + 1 < pipeline.len(),
        pipeline[i] is External,
        pipeline[i + 1] is External,
    ensures
        (stage_plan(pipeline, i)->External_invocation.stdout == StdioView::Piped) == (stage_plan(
            pipeline,
            i + 1,
        )->External_invocation.stdin == StdioView::PreviousOutput),
        stage_plan(pipeline, i + 1)->External_invocation.stdin != StdioView::Inherit,
        !stage_plan(pipeline, i + 1)->External_feed,
{
}

/// The output of a built-in reaches the external command behind it: the
/// built-in's buffer is handed to the next stage, which reads it from a new
/// pipe.
pub proof fn lemma_built_in_feeds_next_stage(pipeline: Seq<CommandView>, i: int)
    requires
        0 <= i,
        i + 1 < pipeline.len(),
        pipeline[i] is BuiltIn,
        pipeline[i + 1] is External,
    ensures
        stage_plan(pipeline, i)->BuiltIn_capture == Capture::NextStage,
        stage_plan(pipeline, i + 1)->External_feed,
        stage_plan(pipeline, i + 1)->External_invocation.stdin == StdioView::Piped,
{
}

/// The ends of a pipeline are the shell's own: the first stage, if it is
/// an external command, reads the shell's input, and the last stage writes
/// to the shell's output unless its output is redirected to a file.
pub proof fn lemma_pipeline_ends(pipeline: Seq<CommandView>)
    requires
        pipeline.len() > 0,
    ensures
        pipeline[0] is External ==> stage_plan(pipeline, 0)->External_invocation.stdin
            == StdioView::Inherit && !stage_plan(pipeline, 0)->External_feed,
        ({
            let last = pipeline.len() - 1;
            match pipeline[last] {
                CommandView::External { args, redirection } => !(redirection is StdOut)
                    ==> stage_plan(pipeline, last)->External_invocation.stdout
                    == StdioView::Inherit,
                CommandView::BuiltIn { built_in, redirection } => stage_plan(
                    pipeline,
                    last,
                )->BuiltIn_capture == Capture::ShellOutput,
            }
        }),
{
}

/// A redirection changes only the stream that it names: with standard
/// error redirected, a stage's output goes where its place in the pipeline
/// puts it, and with standard output redirected, or nothing, a stage's
/// errors go to the shell's own error stream.
pub proof fn lemma_redirection_is_local(redirection: RedirectionView, otherwise: StdioView)
    ensures
        !(redirection is StdOut) ==> redirected_stdout(redirection, otherwise) == otherwise,
        !(redirection is StdErr) ==> redirected_stderr(redirection) == StdioView::Inherit,
        redirection is StdOut ==> redirected_stdout(redirection, otherwise) is File,
        redirection is StdErr ==> redirected_stderr(redirection) is File,
{
}

/// Writing one more word with a space in front adds just that.
pub proof fn lemma_spaced_push(words: Seq<Seq<char>>, word: Seq<char>)
    ensures
        spaced(words.push(word)) == spaced(words) + seq![' '] + word,
    decreases words.len(),
{
    let all = words.push(word);
    if words.len() == 0 {
        assert(all.skip(1) =~= Seq::empty());
        assert(spaced(all.skip(1)) =~= Seq::empty());
        assert(spaced(all) =~= spaced(words) + seq![' '] + word);
    } else {
        let tail = words.skip(1);
        assert(all.skip(1) =~= tail.push(word));
        lemma_spaced_push(tail, word);
        assert(all[0] == words[0]);
        assert(spaced(all) == seq![' '] + words[0] + spaced(tail.push(word)));
        assert(spaced(words) == seq![' '] + words[0] + spaced(tail));
        assert(seq![' '] + words[0] + (spaced(tail) + seq![' '] + word) =~= seq![' '] + words[0]
            + spaced(tail) + seq![' '] + word);
    }
}

/// Words with a space in front of each are a space and the words with
/// spaces between them.
pub proof fn lemma_spaced_is_joined(words: Seq<Seq<char>>)
    requires
        words.len() > 0,
    ensures
        spaced(words) == seq![' '] + joined_with_spaces(words),
    decreases words.len(),
{
    let init = words.drop_last();
    assert(words =~= init.push(words.last()));
    lemma_spaced_push(init, words.last());
    if init.len() == 0 {
        assert(spaced(init) =~= Seq::empty());
        assert(words[0] == words.last());
        assert(spaced(words) =~= seq![' '] + joined_with_spaces(words));
    } else {
        lemma_spaced_is_joined(init);
        assert(spaced(words) =~= seq![' '] + joined_with_spaces(words));
    }
}

/// `echo` writes back what stands behind it. For words that need no
/// quoting, written behind `echo` with one space in front of each, the
/// line is the one command `echo` with these words, and what it writes is
/// the text behind `echo` without its first space, and a newline.
pub proof fn lemma_echo_round_trip(words: Seq<Seq<char>>)
    requires
        all_plain_words(words),
    ensures
        parse_text("echo"@ + spaced(words)) == Ok::<Seq<CommandView>, ParseErrorView>(
            seq![
                CommandView::BuiltIn {
                    built_in: BuiltInView::Echo(words),
                    redirection: RedirectionView::NoRedirection,
                },
            ],
        ),
        built_in_step(BuiltInView::Echo(words)) == BuiltInStepView::Finished,
        words.len() > 0 ==> seq![' '] + built_in_output(BuiltInView::Echo(words)) == spaced(
            words,
        ).push('\n'),
        words.len() == 0 ==> built_in_output(BuiltInView::Echo(words)) == seq!['\n'],
{
    lemma_echo_of_plain_words(words);
    if words.len() > 0 {
        lemma_spaced_is_joined(words);
        assert(seq![' '] + built_in_output(BuiltInView::Echo(words)) =~= spaced(words).push('\n'));
    } else {
        assert(built_in_output(BuiltInView::Echo(words)) =~= seq!['\n']);
    }
}

} // verus!
