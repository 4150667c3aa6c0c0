//! What the shell decides about answers of the operating system.
//!
//! The calls themselves (changing the directory, listing a directory,
//! starting a process) are made by the program around this library. It
//! hands their outcome in as plain values, and these functions say what the
//! shell makes of it.

use crate::error::EvalError;
use crate::trie::{builder_entries, new_builder, push_entry};
use trie_rs::TrieBuilder;
use vstd::prelude::*;
use vstd::string::StringSliceAdditionalSpecFns;

verus! {

/// An error of the operating system, as far as the shell looks at it.
#[derive(Debug)]
pub struct OsError {
    /// Whether the error says that a file or directory was not found.
    pub not_found: bool,
    /// The error's own text.
    pub message: String,
}

/// An entry of a directory on the search path.
#[derive(Debug)]
pub struct DirectoryEntry {
    /// The file's name, as the bytes that the file system holds.
    pub file_name: Vec<u8>,
    /// The file's permission bits, where they could be read.
    pub mode: Option<u32>,
    /// The file's full path, as shown to the user.
    pub path: String,
}

/// What changing the directory to `path` reports when the operating system
/// answers with `outcome`.
pub open spec fn change_directory_report(path: Seq<char>, outcome: Result<(), OsError>) -> Option<
    Seq<char>,
> {
    match outcome {
        Ok(_) => None,
        Err(e) => if e.not_found {
            Some(path + ": No such file or directory"@)
        } else {
            Some(e.message@)
        },
    }
}

/// Changes the current directory.
///
/// The change itself has been asked of the operating system, with
/// `outcome` as its answer. A directory that does not exist is reported by
/// its path; any other error keeps the system's text.
pub fn change_directory(path: &str, outcome: Result<(), OsError>) -> (result: Result<
    (),
    EvalError,
>)
    ensures
        match result {
            Ok(_) => change_directory_report(path@, outcome) is None,
            Err(e) => change_directory_report(path@, outcome) == Some(e@),
        },
{
    match outcome {
        Ok(_) => Ok(()),
        Err(e) => {
            if e.not_found {
                let mut message = String::from_str(path);
                message.append(": No such file or directory");
                Err(EvalError::new(message))
            } else {
                Err(EvalError::new(e.message))
            }
        },
    }
}

/// What starting `program` reports when the operating system answers with
/// `outcome`.
pub open spec fn spawn_report(program: Seq<char>, outcome: Result<(), OsError>) -> Option<
    Seq<char>,
> {
    match outcome {
        Ok(_) => None,
        Err(e) => if e.not_found {
            Some(program + ": command not found"@)
        } else {
            Some(e.message@)
        },
    }
}

/// Spawn a command and report how it went.
///
/// The process itself has been asked of the operating system, with
/// `outcome` as its answer. A program that cannot be found is reported by
/// its name; any other error keeps the system's text.
pub fn spawn_command(program: &str, outcome: Result<(), OsError>) -> (result: Result<
    (),
    EvalError,
>)
    ensures
        match result {
            Ok(_) => spawn_report(program@, outcome) is None,
            Err(e) => spawn_report(program@, outcome) == Some(e@),
        },
{
    match outcome {
        Ok(_) => Ok(()),
        Err(e) => {
            if e.not_found {
                let mut message = String::from_str(program);
                message.append(": command not found");
                Err(EvalError::new(message))
            } else {
                Err(EvalError::new(e.message))
            }
        },
    }
}

/// Whether permission bits allow anyone to execute the file: the owner, the
/// group or the others.
pub open spec fn is_executable_mode(mode: u32) -> bool {
    mode & 0o111 != 0
}

impl DirectoryEntry {
    /// Whether the entry is a file that can be executed: its permission
    /// bits could be read and allow it.
    pub open spec fn is_executable(&self) -> bool {
        match self.mode {
            Some(mode) => is_executable_mode(mode),
            None => false,
        }
    }

    /// Whether the entry is an executable file named `file_name`.
    pub open spec fn is_executable_named(&self, file_name: Seq<u8>) -> bool {
        self.file_name@ == file_name && self.is_executable()
    }
}

/// Whether two byte strings are the same.
fn bytes_equal(a: &[u8], b: &[u8]) -> (equal: bool)
    ensures
        equal == (a@ == b@),
{
    if a.len() != b.len() {
        return false;
    }
    let mut i: usize = 0;
    while i < a.len()
        invariant
            a.len() == b.len(),
            i <= a.len(),
            forall|j: int| 0 <= j < i ==> a@[j] == b@[j],
        decreases a.len() - i,
    {
        if a[i] != b[i] {
            return false;
        }
        i = i + 1;
    }
    assert(a@ =~= b@);
    true
}

/// Whether the directory at `d`, entry `e`, comes before directory `i`,
/// entry `j`, in the order in which the search path is walked.
pub open spec fn searched_before(d: int, e: int, i: int, j: int) -> bool {
    d < i || (d == i && e < j)
}

/// Searches for an executable file in a collection of paths.
///
/// `directories` holds the listing of each directory of the search path,
/// in the order of the path. The result is the first entry, in that order,
/// whose name is `file_name` and which can be executed.
pub fn search_for_executable_file<'a>(
    directories: &'a Vec<Vec<DirectoryEntry>>,
    file_name: &str,
) -> (found: Option<&'a DirectoryEntry>)
    ensures
        match found {
            Some(entry) => exists|i: int, j: int|
                {
                    &&& 0 <= i < directories.len()
                    &&& 0 <= j < directories[i].len()
                    &&& *entry == #[trigger] directories[i][j]
                    &&& entry.is_executable_named(file_name.spec_bytes())
                    &&& forall|d: int, e: int|
                        0 <= d < directories.len() && 0 <= e < directories[d].len()
                            && searched_before(d, e, i, j) ==> !(#[trigger] directories[d][e]).is_executable_named(
                            file_name.spec_bytes(),
                        )
                },
            None => forall|d: int, e: int|
                0 <= d < directories.len() && 0 <= e < directories[d].len() ==> !(
                #[trigger] directories[d][e]).is_executable_named(file_name.spec_bytes()),
        },
{
    let name = file_name.as_bytes();
    let mut i: usize = 0;
    while i < directories.len()
        invariant
            i <= directories.len(),
            name@ == file_name.spec_bytes(),
            forall|d: int, e: int|
                0 <= d < i && 0 <= e < directories[d].len() ==> !(
                #[trigger] directories[d][e]).is_executable_named(file_name.spec_bytes()),
        decreases directories.len() - i,
    {
        let directory = &directories[i];
        let mut j: usize = 0;
        while j < directory.len()
            invariant
                i < directories.len(),
                directory == &directories[i as int],
                j <= directory.len(),
                name@ == file_name.spec_bytes(),
                forall|d: int, e: int|
                    0 <= d < i && 0 <= e < directories[d].len() ==> !(
                    #[trigger] directories[d][e]).is_executable_named(file_name.spec_bytes()),
                forall|e: int|
                    0 <= e < j ==> !(#[trigger] directories[i as int][e]).is_executable_named(
                        file_name.spec_bytes(),
                    ),
            decreases directory.len() - j,
        {
            let entry = &directory[j];
            if bytes_equal(entry.file_name.as_slice(), name) {
                if let Some(mode) = entry.mode {
                    if mode & 0o111 != 0 {
                        assert(*entry == directories[i as int][j as int]);
                        return Some(entry);
                    }
                }
            }
            j = j + 1;
        }
        i = i + 1;
    }
    None
}

/// The names of the executable files that the search path holds before
/// directory `i`, entry `j`. A file without a name is left out.
pub open spec fn executable_names_before(
    directories: Seq<Vec<DirectoryEntry>>,
    i: int,
    j: int,
) -> Set<Seq<u8>> {
    Set::new(
        |name: Seq<u8>|
            name.len() > 0 && exists|d: int, e: int|
                0 <= d < directories.len() && 0 <= e < directories[d].len() && searched_before(
                    d,
                    e,
                    i,
                    j,
                ) && (#[trigger] directories[d][e]).is_executable_named(name),
    )
}

/// The names of all executable files on the search path.
pub open spec fn executable_names(directories: Seq<Vec<DirectoryEntry>>) -> Set<Seq<u8>> {
    executable_names_before(directories, directories.len() as int, 0)
}

/// A builder of a prefix tree that holds the name of every executable file
/// on the search path.
///
/// `directories` holds the listing of each directory of the search path.
pub fn trie_builder_with_path_executables(directories: &Vec<Vec<DirectoryEntry>>) -> (builder:
    TrieBuilder<u8>)
    ensures
        builder_entries(builder) == executable_names(directories@),
{
    let mut builder = new_builder();
    let mut i: usize = 0;
    assert(builder_entries(builder) =~= executable_names_before(directories@, 0, 0));
    while i < directories.len()
        invariant
            i <= directories.len(),
            builder_entries(builder) == executable_names_before(directories@, i as int, 0),
        decreases directories.len() - i,
    {
        let directory = &directories[i];
        let mut j: usize = 0;
        while j < directory.len()
            invariant
                i < directories.len(),
                directory == &directories[i as int],
                j <= directory.len(),
                builder_entries(builder) == executable_names_before(
                    directories@,
                    i as int,
                    j as int,
                ),
            decreases directory.len() - j,
        {
            let entry = &directory[j];
            let ghost before = executable_names_before(directories@, i as int, j as int);
            let ghost after = executable_names_before(directories@, i as int, j + 1);
            let mut pushed = false;
            if let Some(mode) = entry.mode {
                if mode & 0o111 != 0 && entry.file_name.len() > 0 {
                    push_entry(&mut builder, entry.file_name.as_slice());
                    pushed = true;
                }
            }
            proof {
                let name = entry.file_name@;
                assert(*entry == directories@[i as int][j as int]);
                assert forall|n: Seq<u8>| after.contains(n) <==> (before.contains(n) || (pushed
                    && n == name)) by {
                    if before.contains(n) {
                        let (d, e) = choose|d: int, e: int|
                            0 <= d < directories.len() && 0 <= e < directories[d].len()
                                && searched_before(d, e, i as int, j as int) && (
                            #[trigger] directories[d][e]).is_executable_named(n);
                        assert(searched_before(d, e, i as int, j + 1));
                    }
                    if pushed && n == name {
                        assert(searched_before(i as int, j as int, i as int, j + 1));
                        assert(directories[i as int][j as int].is_executable_named(n));
                    }
                    if after.contains(n) {
                        let (d, e) = choose|d: int, e: int|
                            0 <= d < directories.len() && 0 <= e < directories[d].len()
                                && searched_before(d, e, i as int, j + 1) && (
                            #[trigger] directories[d][e]).is_executable_named(n);
                        if d == i && e == j {
                            assert(n == name);
                            assert(pushed);
                        } else {
                            assert(searched_before(d, e, i as int, j as int));
                        }
                    }
                }
                if pushed {
                    assert(after =~= before.insert(name));
                } else {
                    assert(after =~= before);
                }
            }
            j = j + 1;
        }
        proof {
            let done = executable_names_before(directories@, i as int, j as int);
            let next = executable_names_before(directories@, i + 1, 0);
            assert forall|n: Seq<u8>| done.contains(n) <==> next.contains(n) by {
                if done.contains(n) {
                    let (d, e) = choose|d: int, e: int|
                        0 <= d < directories.len() && 0 <= e < directories[d].len()
                            && searched_before(d, e, i as int, j as int) && (
                        #[trigger] directories[d][e]).is_executable_named(n);
                    assert(searched_before(d, e, i + 1, 0));
                }
                if next.contains(n) {
                    let (d, e) = choose|d: int, e: int|
                        0 <= d < directories.len() && 0 <= e < directories[d].len()
                            && searched_before(d, e, i + 1, 0) && (
                        #[trigger] directories[d][e]).is_executable_named(n);
                    assert(searched_before(d, e, i as int, j as int));
                }
            }
            assert(done =~= next);
        }
        i = i + 1;
    }
    builder
}

} // verus!
