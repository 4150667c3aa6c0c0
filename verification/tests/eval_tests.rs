use shell_core::ast::{BuiltIn, BuiltInCommand, Command, ExternalCommand, Redirection};
use shell_core::eval::{
    eval, eval_built_in, eval_built_in_command, eval_external, eval_external_command,
    finish_cd, finish_cd_home, finish_pwd, finish_type, is_built_in, open_file, print_history,
    BuiltInStep, Capture, FileOptions, Stage, Stdio,
};
use shell_core::parser::parse;
use shell_core::system::{DirectoryEntry, OsError};

fn strings(items: &[&str]) -> Vec<String> {
    items.iter().map(|s| s.to_string()).collect()
}

/// Runs the one built-in that `text` stands for and returns what it wrote
/// and what it asks for.
fn run_built_in(text: &str) -> (String, String, BuiltInStep) {
    let mut pipeline = parse(text).unwrap();
    assert_eq!(pipeline.len(), 1);
    match pipeline.pop().unwrap() {
        Command::BuiltIn(command) => {
            let mut stdout = String::new();
            let mut stderr = String::new();
            let step = eval_built_in(&mut stdout, &mut stderr, &command.built_in);
            (stdout, stderr, step)
        }
        Command::External(_) => panic!("{:?} is no built-in", text),
    }
}

fn echo_output(text: &str) -> String {
    let (stdout, stderr, step) = run_built_in(text);
    assert_eq!(stderr, "");
    assert!(matches!(step, BuiltInStep::Finished));
    stdout
}

fn is_file(stdio: &Stdio, name: &str, append: bool) -> bool {
    matches!(stdio, Stdio::File { filename, is_append } if filename == name && *is_append == append)
}

#[test]
fn echo_joins_with_single_spaces() {
    assert_eq!(echo_output("echo"), "\n");
    assert_eq!(echo_output("echo hi"), "hi\n");
    assert_eq!(echo_output("echo   hello    world  "), "hello world\n");
    assert_eq!(echo_output("echo 1 2 3"), "1 2 3\n");
    assert_eq!(echo_output("echo ''"), "\n");
    assert_eq!(echo_output("echo '' ''"), " \n");
}

#[test]
fn echo_keeps_quoted_text() {
    assert_eq!(echo_output("echo 'a  b'"), "a  b\n");
    assert_eq!(echo_output("echo \"it's \\\"ok\\\"\""), "it's \"ok\"\n");
    assert_eq!(echo_output("echo a\\ b"), "a b\n");
}

#[test]
fn echo_appends_to_what_the_sink_holds() {
    let mut stdout = String::from("before|");
    let mut stderr = String::from("err");
    let step = eval_built_in(&mut stdout, &mut stderr, &BuiltIn::Echo(strings(&["x", "y"])));
    assert!(matches!(step, BuiltInStep::Finished));
    assert_eq!(stdout, "before|x y\n");
    assert_eq!(stderr, "err");
}

#[test]
fn unclosed_quote_produces_no_output() {
    let error = parse("echo 'abc").err().unwrap();
    assert!(error.message().contains("unclosed single quote"));
}

#[test]
fn exit_asks_for_the_status() {
    let (stdout, stderr, step) = run_built_in("exit 42");
    assert!(matches!(step, BuiltInStep::Exit(42)));
    assert_eq!((stdout.as_str(), stderr.as_str()), ("", ""));
    assert!(matches!(run_built_in("exit").2, BuiltInStep::Exit(0)));
}

#[test]
fn type_knows_the_built_ins() {
    for name in ["cd", "echo", "exit", "history", "pwd", "type"] {
        let (stdout, stderr, step) = run_built_in(&format!("type {}", name));
        assert_eq!(stdout, format!("{} is a shell builtin\n", name));
        assert_eq!(stderr, "");
        assert!(matches!(step, BuiltInStep::Finished));
        assert!(is_built_in(name));
    }
    for name in ["", "ls", "Echo", "cd ", "types"] {
        assert!(!is_built_in(name));
    }
}

#[test]
fn type_searches_for_other_names() {
    let (stdout, stderr, step) = run_built_in("type nonexistent_cmd_xyz");
    assert_eq!((stdout.as_str(), stderr.as_str()), ("", ""));
    assert!(matches!(step, BuiltInStep::SearchExecutable(name) if name == "nonexistent_cmd_xyz"));

    let mut stdout = String::new();
    let mut stderr = String::new();
    finish_type(&mut stdout, &mut stderr, "nonexistent_cmd_xyz", None);
    assert_eq!(stdout, "");
    assert_eq!(stderr, "nonexistent_cmd_xyz: not found\n");

    let entry = DirectoryEntry {
        file_name: b"ls".to_vec(),
        mode: Some(0o755),
        path: "/bin/ls".to_string(),
    };
    let mut stdout = String::new();
    let mut stderr = String::new();
    finish_type(&mut stdout, &mut stderr, "ls", Some(&entry));
    assert_eq!(stdout, "ls is /bin/ls\n");
    assert_eq!(stderr, "");
}

#[test]
fn cd_asks_for_the_change() {
    let (stdout, stderr, step) = run_built_in("cd /no/such/dir");
    assert_eq!((stdout.as_str(), stderr.as_str()), ("", ""));
    assert!(matches!(step, BuiltInStep::ChangeDirectory(path) if path == "/no/such/dir"));
    assert!(matches!(run_built_in("cd ~").2, BuiltInStep::FindHome));
    assert!(matches!(run_built_in("cd ~/x").2, BuiltInStep::ChangeDirectory(path) if path == "~/x"));
}

#[test]
fn cd_reports_a_missing_directory() {
    let mut stderr = String::new();
    let error = OsError { not_found: true, message: "No such file or directory (os error 2)".to_string() };
    finish_cd(&mut stderr, "/no/such/dir", Err(error));
    assert_eq!(stderr, "cd: /no/such/dir: No such file or directory\n");
}

#[test]
fn cd_reports_other_errors_with_their_text() {
    let mut stderr = String::from(">");
    let error = OsError { not_found: false, message: "Permission denied (os error 13)".to_string() };
    finish_cd(&mut stderr, "/root", Err(error));
    assert_eq!(stderr, ">cd: Permission denied (os error 13)\n");
}

#[test]
fn cd_is_silent_on_success() {
    let mut stderr = String::new();
    finish_cd(&mut stderr, "/tmp", Ok(()));
    assert_eq!(stderr, "");
}

#[test]
fn cd_home() {
    let mut stderr = String::new();
    assert_eq!(finish_cd_home(&mut stderr, Some("/home/me".to_string())), Some("/home/me".to_string()));
    assert_eq!(stderr, "");
    assert_eq!(finish_cd_home(&mut stderr, None), None);
    assert_eq!(stderr, "cd: Home directory is unknown\n");
}

#[test]
fn pwd_prints_the_directory_or_the_error() {
    assert!(matches!(run_built_in("pwd").2, BuiltInStep::ReadWorkingDirectory));
    let mut stdout = String::new();
    let mut stderr = String::new();
    finish_pwd(&mut stdout, &mut stderr, Ok("/home/me".to_string()));
    assert_eq!((stdout.as_str(), stderr.as_str()), ("/home/me\n", ""));
    let mut stdout = String::new();
    let mut stderr = String::new();
    finish_pwd(&mut stdout, &mut stderr, Err(OsError { not_found: true, message: "gone".to_string() }));
    assert_eq!((stdout.as_str(), stderr.as_str()), ("", "gone\n"));
}

#[test]
fn history_lists_numbered_lines() {
    assert!(matches!(run_built_in("history").2, BuiltInStep::ReadHistory(None)));
    assert!(matches!(run_built_in("history 2").2, BuiltInStep::ReadHistory(Some(2))));
    let history = strings(&["echo a", "pwd", "history"]);
    let show = |limit: Option<usize>| {
        let mut stdout = String::new();
        print_history(&history, &mut stdout, &limit);
        stdout
    };
    assert_eq!(show(None), "\t1\techo a\n\t2\tpwd\n\t3\thistory\n");
    assert_eq!(show(Some(2)), "\t2\tpwd\n\t3\thistory\n");
    assert_eq!(show(Some(1)), "\t3\thistory\n");
    assert_eq!(show(Some(0)), "");
    assert_eq!(show(Some(3)), show(None));
    assert_eq!(show(Some(100)), show(None));
    assert_eq!(show(Some(usize::MAX)), show(None));
}

#[test]
fn history_numbers_are_decimal() {
    let history: Vec<String> = (0..12).map(|i| format!("cmd{}", i)).collect();
    let mut stdout = String::new();
    print_history(&history, &mut stdout, &Some(3));
    assert_eq!(stdout, "\t10\tcmd9\n\t11\tcmd10\n\t12\tcmd11\n");
    let mut stdout = String::new();
    print_history(&Vec::new(), &mut stdout, &None);
    assert_eq!(stdout, "");
}

#[test]
fn files_are_truncated_or_appended() {
    assert_eq!(open_file(false), FileOptions { write: true, create: true, append: false, truncate: true });
    assert_eq!(open_file(true), FileOptions { write: true, create: true, append: true, truncate: false });
}

#[test]
fn redirection_of_echo_to_a_file() {
    // `>` empties the file first, so running the command twice leaves one line.
    let pipeline = parse("echo hi > /tmp/f").unwrap();
    let stages = eval(&pipeline);
    match &stages[0] {
        Stage::BuiltIn { sinks, capture } => {
            assert!(is_file(&sinks.stdout, "/tmp/f", false));
            assert!(matches!(sinks.stderr, Stdio::Inherit));
            assert_eq!(*capture, Capture::ShellOutput);
            assert!(open_file(false).truncate);
        }
        _ => panic!("built-in expected"),
    }
    // `>>` keeps what is there, so running it twice leaves two lines.
    let pipeline = parse("echo hi >> /tmp/f").unwrap();
    let stages = eval(&pipeline);
    match &stages[0] {
        Stage::BuiltIn { sinks, .. } => {
            assert!(is_file(&sinks.stdout, "/tmp/f", true));
            assert!(open_file(true).append && !open_file(true).truncate);
        }
        _ => panic!("built-in expected"),
    }
    assert_eq!(echo_output("echo hi"), "hi\n");
}

#[test]
fn unrecognized_descriptor_touches_no_file() {
    let error = parse("echo hi 3> /tmp/f").err().unwrap();
    assert!(error.message().contains("unrecognized file descriptor 3"));
}

#[test]
fn sinks_of_a_built_in() {
    let command = |redirection| BuiltInCommand { built_in: BuiltIn::Pwd, redirection };
    let sinks = eval_built_in_command(&command(Redirection::NoRedirection));
    assert!(matches!((&sinks.stdout, &sinks.stderr), (Stdio::Piped, Stdio::Inherit)));
    let sinks = eval_built_in_command(&command(Redirection::StdOut {
        filename: "out".to_string(),
        is_append: true,
    }));
    assert!(is_file(&sinks.stdout, "out", true));
    assert!(matches!(sinks.stderr, Stdio::Inherit));
    let sinks = eval_built_in_command(&command(Redirection::StdErr {
        filename: "err".to_string(),
        is_append: false,
    }));
    assert!(matches!(sinks.stdout, Stdio::Piped));
    assert!(is_file(&sinks.stderr, "err", false));
}

#[test]
fn external_invocation_splits_program_and_arguments() {
    let invocation = eval_external(&strings(&["ls", "-l", "/tmp"]), Stdio::Inherit, Stdio::Piped, Stdio::Inherit);
    assert_eq!(invocation.program, "ls");
    assert_eq!(invocation.args, strings(&["-l", "/tmp"]));
    assert!(matches!(invocation.stdin, Stdio::Inherit));
    assert!(matches!(invocation.stdout, Stdio::Piped));
    assert!(matches!(invocation.stderr, Stdio::Inherit));
    let invocation = eval_external(&strings(&["true"]), Stdio::Piped, Stdio::Inherit, Stdio::Inherit);
    assert_eq!(invocation.program, "true");
    assert!(invocation.args.is_empty());
}

#[test]
fn external_redirection_takes_over_one_stream() {
    let command = |redirection| ExternalCommand { args: strings(&["ls", "x"]), redirection };
    let invocation = eval_external_command(&command(Redirection::NoRedirection), Stdio::PreviousOutput, Stdio::Piped);
    assert!(matches!(invocation.stdin, Stdio::PreviousOutput));
    assert!(matches!(invocation.stdout, Stdio::Piped));
    assert!(matches!(invocation.stderr, Stdio::Inherit));
    let invocation = eval_external_command(
        &command(Redirection::StdOut { filename: "o".to_string(), is_append: false }),
        Stdio::Inherit,
        Stdio::Piped,
    );
    assert!(is_file(&invocation.stdout, "o", false));
    assert!(matches!(invocation.stderr, Stdio::Inherit));
    let invocation = eval_external_command(
        &command(Redirection::StdErr { filename: "e".to_string(), is_append: true }),
        Stdio::Inherit,
        Stdio::Piped,
    );
    assert!(matches!(invocation.stdout, Stdio::Piped));
    assert!(is_file(&invocation.stderr, "e", true));
    assert_eq!(invocation.program, "ls");
    assert_eq!(invocation.args, strings(&["x"]));
}

#[test]
fn built_in_feeds_the_external_stage_behind_it() {
    let pipeline = parse("echo hello | cat").unwrap();
    let stages = eval(&pipeline);
    assert_eq!(stages.len(), 2);
    match &stages[0] {
        Stage::BuiltIn { sinks, capture } => {
            assert!(matches!(sinks.stdout, Stdio::Piped));
            assert!(matches!(sinks.stderr, Stdio::Inherit));
            assert_eq!(*capture, Capture::NextStage);
        }
        _ => panic!("built-in expected"),
    }
    match &stages[1] {
        Stage::External { invocation, feed } => {
            assert!(*feed);
            assert_eq!(invocation.program, "cat");
            assert!(invocation.args.is_empty());
            assert!(matches!(invocation.stdin, Stdio::Piped));
            assert!(matches!(invocation.stdout, Stdio::Inherit));
            assert!(matches!(invocation.stderr, Stdio::Inherit));
        }
        _ => panic!("external command expected"),
    }
    // What is fed is what echo wrote.
    match &pipeline[0] {
        Command::BuiltIn(command) => {
            let mut stdout = String::new();
            let mut stderr = String::new();
            eval_built_in(&mut stdout, &mut stderr, &command.built_in);
            assert_eq!(stdout, "hello\n");
        }
        _ => panic!("built-in expected"),
    }
}

#[test]
fn single_external_command_uses_the_shells_streams() {
    let stages = eval(&parse("ls -l").unwrap());
    assert_eq!(stages.len(), 1);
    match &stages[0] {
        Stage::External { invocation, feed } => {
            assert!(!*feed);
            assert!(matches!(invocation.stdin, Stdio::Inherit));
            assert!(matches!(invocation.stdout, Stdio::Inherit));
            assert!(matches!(invocation.stderr, Stdio::Inherit));
        }
        _ => panic!("external command expected"),
    }
    assert!(eval(&Vec::new()).is_empty());
}

#[test]
fn external_stages_are_chained_by_pipes() {
    let stages = eval(&parse("cat f | grep x 2> e | sort > out | wc | uniq").unwrap());
    assert_eq!(stages.len(), 5);
    let invocation = |i: usize| match &stages[i] {
        Stage::External { invocation, feed } => {
            assert!(!*feed);
            invocation
        }
        _ => panic!("external command expected"),
    };
    assert!(matches!(invocation(0).stdin, Stdio::Inherit));
    assert!(matches!(invocation(0).stdout, Stdio::Piped));
    assert!(matches!(invocation(1).stdin, Stdio::PreviousOutput));
    assert!(matches!(invocation(1).stdout, Stdio::Piped));
    assert!(is_file(&invocation(1).stderr, "e", false));
    assert!(matches!(invocation(2).stdin, Stdio::PreviousOutput));
    assert!(is_file(&invocation(2).stdout, "out", false));
    // The stage before writes to a file: there is no pipe to read from.
    assert!(matches!(invocation(3).stdin, Stdio::Piped));
    assert!(matches!(invocation(3).stdout, Stdio::Piped));
    assert!(matches!(invocation(4).stdin, Stdio::PreviousOutput));
    assert!(matches!(invocation(4).stdout, Stdio::Inherit));
}

#[test]
fn built_in_stages_in_a_pipeline() {
    let stages = eval(&parse("ls | echo a | pwd | cat 2>> log | type x > t").unwrap());
    assert_eq!(stages.len(), 5);
    assert!(matches!(&stages[0], Stage::External { invocation, feed: false }
        if matches!(invocation.stdout, Stdio::Piped)));
    assert!(matches!(&stages[1], Stage::BuiltIn { capture: Capture::Dropped, .. }));
    assert!(matches!(&stages[2], Stage::BuiltIn { capture: Capture::NextStage, .. }));
    assert!(matches!(&stages[3], Stage::External { invocation, feed: true }
        if matches!(invocation.stdin, Stdio::Piped)
            && matches!(invocation.stdout, Stdio::Piped)
            && is_file(&invocation.stderr, "log", true)));
    assert!(matches!(&stages[4], Stage::BuiltIn { sinks, capture: Capture::ShellOutput }
        if is_file(&sinks.stdout, "t", false)));
}

#[test]
fn echo_writes_back_plain_words() {
    for words in [vec!["a"], vec!["hello", "world"], vec!["x1", "-n", "/usr/bin", "a.b", "~"]] {
        let mut text = String::from("echo");
        for word in words.iter() {
            text.push(' ');
            text.push_str(word);
        }
        assert_eq!(echo_output(&text), format!("{}\n", &text[5..]));
    }
}
