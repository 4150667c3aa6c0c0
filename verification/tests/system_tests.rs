use shell_core::error::{eval_result, EvalError};
use shell_core::system::{
    change_directory, search_for_executable_file, spawn_command, DirectoryEntry, OsError,
};

fn entry(name: &str, mode: Option<u32>, path: &str) -> DirectoryEntry {
    DirectoryEntry { file_name: name.as_bytes().to_vec(), mode, path: path.to_string() }
}

fn os_error(not_found: bool, message: &str) -> OsError {
    OsError { not_found, message: message.to_string() }
}

#[test]
fn eval_error_keeps_its_message() {
    assert_eq!(EvalError::new("boom".to_string()).message(), "boom");
    assert_eq!(EvalError::from_str("bang").message(), "bang");
    assert_eq!(EvalError::from_str("").message(), "");
    match eval_result(EvalError::from_str("failed")) {
        Ok(()) => panic!("an error was expected"),
        Err(e) => assert_eq!(e.message(), "failed"),
    }
}

#[test]
fn changing_to_a_missing_directory_names_the_path() {
    let error = change_directory("/no/such", Err(os_error(true, "os says no"))).err().unwrap();
    assert_eq!(error.message(), "/no/such: No such file or directory");
}

#[test]
fn changing_directory_keeps_other_errors() {
    let error = change_directory("/root", Err(os_error(false, "Permission denied"))).err().unwrap();
    assert_eq!(error.message(), "Permission denied");
    assert!(change_directory("/tmp", Ok(())).is_ok());
}

#[test]
fn spawning_a_missing_program_names_it() {
    let error = spawn_command("frobnicate", Err(os_error(true, "os says no"))).err().unwrap();
    assert_eq!(error.message(), "frobnicate: command not found");
}

#[test]
fn spawning_keeps_other_errors() {
    let error = spawn_command("ls", Err(os_error(false, "Too many open files"))).err().unwrap();
    assert_eq!(error.message(), "Too many open files");
    assert!(spawn_command("ls", Ok(())).is_ok());
}

#[test]
fn search_finds_the_first_executable_of_that_name() {
    let directories = vec![
        vec![entry("cat", Some(0o755), "/a/cat"), entry("ls", Some(0o644), "/a/ls")],
        vec![],
        vec![entry("ls", None, "/b/ls"), entry("lsx", Some(0o755), "/b/lsx"), entry("ls", Some(0o700), "/b/ls2")],
        vec![entry("ls", Some(0o755), "/c/ls")],
    ];
    assert_eq!(search_for_executable_file(&directories, "ls").unwrap().path, "/b/ls2");
    assert_eq!(search_for_executable_file(&directories, "cat").unwrap().path, "/a/cat");
    assert_eq!(search_for_executable_file(&directories, "lsx").unwrap().path, "/b/lsx");
    assert!(search_for_executable_file(&directories, "l").is_none());
    assert!(search_for_executable_file(&directories, "").is_none());
    assert!(search_for_executable_file(&directories, "nonexistent_cmd_xyz").is_none());
    assert!(search_for_executable_file(&Vec::new(), "ls").is_none());
}

#[test]
fn any_execute_bit_makes_a_file_executable() {
    for (mode, executable) in [
        (0o100, true),
        (0o010, true),
        (0o001, true),
        (0o111, true),
        (0o100644, false),
        (0o100755, true),
        (0o666, false),
        (0, false),
        (0o4000, false),
    ] {
        let directories = vec![vec![entry("x", Some(mode), "/x")]];
        assert_eq!(search_for_executable_file(&directories, "x").is_some(), executable, "{:o}", mode);
    }
}

#[test]
fn names_are_compared_byte_by_byte() {
    let directories = vec![vec![
        DirectoryEntry { file_name: vec![0xff, b'l', b's'], mode: Some(0o755), path: "/odd".to_string() },
        entry("é", Some(0o755), "/e"),
    ]];
    assert!(search_for_executable_file(&directories, "ls").is_none());
    assert_eq!(search_for_executable_file(&directories, "é").unwrap().path, "/e");
    assert!(search_for_executable_file(&directories, "e").is_none());
}
