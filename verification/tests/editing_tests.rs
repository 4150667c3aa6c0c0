use shell_core::editing::{ShellCompleter, ShellCompletionCandidate, ShellHelper};
use shell_core::system::DirectoryEntry;
use std::path::PathBuf;

fn entry(name: &[u8], mode: Option<u32>) -> DirectoryEntry {
    DirectoryEntry { file_name: name.to_vec(), mode, path: String::new() }
}

fn complete(line: &str, directories: &Vec<Vec<DirectoryEntry>>) -> Vec<(String, String)> {
    let paths: Vec<PathBuf> = Vec::new();
    let completer = ShellCompleter::new(&paths);
    let (pos, candidates) = completer.complete(line, 7, directories);
    assert_eq!(pos, 7);
    candidates
        .iter()
        .map(|c| (c.display().to_string(), c.replacement().to_string()))
        .collect()
}

fn pair(display: &str, replacement: &str) -> (String, String) {
    (display.to_string(), replacement.to_string())
}

#[test]
fn candidate_shows_the_name_and_inserts_the_rest() {
    let candidate = ShellCompletionCandidate::new("ec", "ho".to_string());
    assert_eq!(candidate.display(), "echo");
    assert_eq!(candidate.replacement(), "ho ");
    let candidate = ShellCompletionCandidate::new("", "ls".to_string());
    assert_eq!(candidate.display(), "ls");
    assert_eq!(candidate.replacement(), "ls ");
}

#[test]
fn built_in_names_are_completed() {
    let none: Vec<Vec<DirectoryEntry>> = Vec::new();
    assert_eq!(complete("ec", &none), vec![pair("echo", "ho ")]);
    assert_eq!(complete("e", &none), vec![pair("echo", "cho "), pair("exit", "xit ")]);
    assert_eq!(complete("his", &none), vec![pair("history", "tory ")]);
    assert_eq!(
        complete("", &none),
        vec![
            pair("cd", "cd "),
            pair("echo", "echo "),
            pair("exit", "exit "),
            pair("history", "history "),
            pair("pwd", "pwd "),
            pair("type", "type "),
        ]
    );
}

#[test]
fn a_complete_name_has_no_candidate_of_its_own() {
    let none: Vec<Vec<DirectoryEntry>> = Vec::new();
    assert_eq!(complete("echo", &none), vec![]);
    assert_eq!(complete("zzz", &none), vec![]);
    let directories = vec![vec![entry(b"echoes", Some(0o755))]];
    assert_eq!(complete("echo", &directories), vec![pair("echoes", "es ")]);
}

#[test]
fn executables_on_the_path_are_completed_in_byte_order() {
    let directories = vec![
        vec![
            entry(b"python3", Some(0o755)),
            entry(b"pytest", Some(0o755)),
            entry(b"py", Some(0o755)),
            entry(b"pyramid.txt", Some(0o644)),
            entry(b"pydoc", None),
        ],
        vec![entry(b"python", Some(0o755)), entry(b"python3", Some(0o755)), entry(b"pyZ", Some(0o100))],
    ];
    assert_eq!(
        complete("py", &directories),
        vec![
            pair("pyZ", "Z "),
            pair("pytest", "test "),
            pair("python", "thon "),
            pair("python3", "thon3 "),
        ]
    );
    assert_eq!(
        complete("p", &directories),
        vec![
            pair("pwd", "wd "),
            pair("py", "y "),
            pair("pyZ", "yZ "),
            pair("pytest", "ytest "),
            pair("python", "ython "),
            pair("python3", "ython3 "),
        ]
    );
}

#[test]
fn names_that_cannot_be_shown_give_no_candidate() {
    let directories = vec![vec![
        entry(&[b'x', 0xff], Some(0o755)),
        entry("xé".as_bytes(), Some(0o755)),
        entry(b"", Some(0o755)),
        entry(b"xa", Some(0o755)),
    ]];
    assert_eq!(complete("x", &directories), vec![pair("xa", "a "), pair("xé", "é ")]);
}

#[test]
fn completer_keeps_its_search_path() {
    let paths = vec![PathBuf::from("/bin"), PathBuf::from("/usr/bin")];
    let completer = ShellCompleter::new(&paths);
    assert_eq!(completer.search_path(), &paths[..]);
    let helper = ShellHelper::new(completer);
    assert_eq!(helper.completer_ref().search_path().len(), 2);
}
