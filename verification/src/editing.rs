//! Command completion for the line editor.
//!
//! The editor itself lives in the program around this library. It asks for
//! the candidates that complete a line; the candidates are the built-in
//! names and the names of the executable files on the search path.

use crate::system::{executable_names, trie_builder_with_path_executables, DirectoryEntry};
use crate::trie::{build_trie, byte_strings, is_postfix_listing, postfix_search, push_entry};
use std::path::PathBuf;
use vstd::prelude::*;
use vstd::string::StringSliceAdditionalSpecFns;
use vstd::utf8::{decode_utf8, encode_utf8, encode_utf8_decode_utf8, valid_utf8};

verus! {

/// `std::path::PathBuf`: a path of the file system. The library hands such
/// paths on and never looks into them.
#[verifier::external_type_specification]
#[verifier::external_body]
pub struct ExPathBuf(PathBuf);

/// One way to complete a line.
pub struct ShellCompletionCandidate {
    display: String,
    replacement: String,
}

/// A candidate as a mathematical value.
pub struct CandidateView {
    /// The text shown in the list of candidates.
    pub display: Seq<char>,
    /// The text put into the line when the candidate is chosen.
    pub replacement: Seq<char>,
}

/// The candidate that completes `line` with `completion`: it is shown as
/// the whole command name, and puts in the completion and one space.
pub open spec fn candidate(line: Seq<char>, completion: Seq<char>) -> CandidateView {
    CandidateView { display: line + completion, replacement: completion.push(' ') }
}

impl View for ShellCompletionCandidate {
    type V = CandidateView;

    closed spec fn view(&self) -> CandidateView {
        CandidateView { display: self.display@, replacement: self.replacement@ }
    }
}

impl ShellCompletionCandidate {
    /// The candidate that completes `line` with `completion`.
    pub fn new(line: &str, completion: String) -> (result: Self)
        ensures
            result@ == candidate(line@, completion@),
    {
        let mut display = String::new();
        display.append(line);
        display.append(completion.as_str());
        assert(display@ =~= line@ + completion@);
        let mut replacement = completion;
        replacement.push(' ');
        Self { display, replacement }
    }

    /// The text shown in the list of candidates.
    pub fn display(&self) -> (text: &str)
        ensures
            text@ == self@.display,
    {
        self.display.as_str()
    }

    /// The text put into the line when the candidate is chosen.
    pub fn replacement(&self) -> (text: &str)
        ensures
            text@ == self@.replacement,
    {
        self.replacement.as_str()
    }
}

/// The views of a list of candidates, in order.
pub open spec fn candidate_views(candidates: Seq<ShellCompletionCandidate>) -> Seq<CandidateView> {
    Seq::new(candidates.len(), |i: int| candidates[i]@)
}

/// The candidates for the given rests of command names, in order. A rest
/// that is no valid UTF-8 cannot be shown and gives no candidate.
pub open spec fn candidates_for(line: Seq<char>, postfixes: Seq<Seq<u8>>) -> Seq<CandidateView>
    decreases postfixes.len(),
{
    if postfixes.len() == 0 {
        Seq::empty()
    } else {
        let before = candidates_for(line, postfixes.drop_last());
        if valid_utf8(postfixes.last()) {
            before.push(candidate(line, decode_utf8(postfixes.last())))
        } else {
            before
        }
    }
}

/// The names that can be completed: the built-in names and the names of
/// the executable files on the search path.
pub open spec fn command_names(directories: Seq<Vec<DirectoryEntry>>) -> Set<Seq<u8>> {
    executable_names(directories).insert("cd".spec_bytes()).insert("echo".spec_bytes()).insert(
        "exit".spec_bytes(),
    ).insert("history".spec_bytes()).insert("pwd".spec_bytes()).insert("type".spec_bytes())
}

/// Completes command names.
pub struct ShellCompleter<'a> {
    paths: &'a [PathBuf],
}

impl<'a> ShellCompleter<'a> {
    /// A completer for the directories `paths` of the search path.
    pub fn new(paths: &'a [PathBuf]) -> (completer: Self)
        ensures
            completer.paths() == paths,
    {
        Self { paths }
    }

    /// The directories of the search path.
    pub closed spec fn paths(&self) -> &'a [PathBuf] {
        self.paths
    }

    /// The directories whose listings `complete` is to be given.
    pub fn search_path(&self) -> (paths: &'a [PathBuf])
        ensures
            paths == self.paths(),
    {
        self.paths
    }

    /// The candidates that complete `line`, and the position in the line at
    /// which a chosen candidate is put in.
    ///
    /// `directories` holds the listing of each directory of the search
    /// path. The candidates are the rests of all command names that start
    /// with `line` and go on behind it, in dictionary order of their bytes.
    pub fn complete(&self, line: &str, pos: usize, directories: &Vec<Vec<DirectoryEntry>>) -> (result:
        (usize, Vec<ShellCompletionCandidate>))
        ensures
            result.0 == pos,
            exists|postfixes: Seq<Seq<u8>>|
                is_postfix_listing(command_names(directories@), line.spec_bytes(), postfixes)
                    && candidate_views(result.1@) == #[trigger] candidates_for(line@, postfixes),
    {
        let trie = {
            let mut trie_builder = trie_builder_with_path_executables(directories);
            proof {
                lemma_built_in_names_have_bytes();
            }
            // Add built-in commands to trie builder.
            push_entry(&mut trie_builder, "cd".as_bytes());
            push_entry(&mut trie_builder, "echo".as_bytes());
            push_entry(&mut trie_builder, "exit".as_bytes());
            push_entry(&mut trie_builder, "history".as_bytes());
            push_entry(&mut trie_builder, "pwd".as_bytes());
            push_entry(&mut trie_builder, "type".as_bytes());
            build_trie(trie_builder)
        };
        let postfixes = postfix_search(&trie, line.as_bytes());
        let ghost listing = byte_strings(postfixes@);
        let mut completions: Vec<ShellCompletionCandidate> = Vec::new();
        let mut i: usize = 0;
        assert(listing.take(0) =~= Seq::empty());
        assert(candidate_views(completions@) =~= candidates_for(line@, listing.take(0)));
        while i < postfixes.len()
            invariant
                i <= postfixes.len(),
                listing == byte_strings(postfixes@),
                candidate_views(completions@) == candidates_for(line@, listing.take(i as int)),
            decreases postfixes.len() - i,
        {
            let ghost before = candidate_views(completions@);
            let bytes = postfixes[i].clone();
            assert(bytes@ == listing[i as int]);
            proof {
                assert(listing.take(i + 1).drop_last() =~= listing.take(i as int));
                assert(listing.take(i + 1).last() == listing[i as int]);
            }
            match String::from_utf8(bytes) {
                Ok(completion) => {
                    proof {
                        encode_utf8_decode_utf8(completion@);
                    }
                    completions.push(ShellCompletionCandidate::new(line, completion));
                    assert(candidate_views(completions@) =~= before.push(
                        candidate(line@, decode_utf8(listing[i as int])),
                    ));
                },
                Err(_) => {},
            }
            i = i + 1;
        }
        assert(listing.take(i as int) =~= listing);
        (pos, completions)
    }
}

/// No built-in name is empty when written as bytes.
proof fn lemma_built_in_names_have_bytes()
    ensures
        "cd".spec_bytes().len() > 0,
        "echo".spec_bytes().len() > 0,
        "exit".spec_bytes().len() > 0,
        "history".spec_bytes().len() > 0,
        "pwd".spec_bytes().len() > 0,
        "type".spec_bytes().len() > 0,
{
    reveal_strlit("cd");
    reveal_strlit("echo");
    reveal_strlit("exit");
    reveal_strlit("history");
    reveal_strlit("pwd");
    reveal_strlit("type");
    lemma_encoding_is_not_empty("cd"@);
    lemma_encoding_is_not_empty("echo"@);
    lemma_encoding_is_not_empty("exit"@);
    lemma_encoding_is_not_empty("history"@);
    lemma_encoding_is_not_empty("pwd"@);
    lemma_encoding_is_not_empty("type"@);
}

/// Text that is not empty has an encoding that is not empty.
proof fn lemma_encoding_is_not_empty(text: Seq<char>)
    requires
        text.len() > 0,
    ensures
        encode_utf8(text).len() > 0,
{
    encode_utf8_decode_utf8(text);
    if encode_utf8(text).len() == 0 {
        assert(decode_utf8(encode_utf8(text)).len() == 0);
    }
}

/// Connects the line editor with the shell's completer.
pub struct ShellHelper<'a> {
    completer: ShellCompleter<'a>,
}

impl<'a> ShellHelper<'a> {
    /// A helper that completes with `completer`.
    pub fn new(completer: ShellCompleter<'a>) -> (helper: Self)
        ensures
            helper.completer() == completer,
    {
        Self { completer }
    }

    /// The completer that the helper uses.
    pub closed spec fn completer(&self) -> ShellCompleter<'a> {
        self.completer
    }

    /// The completer that the helper uses.
    pub fn completer_ref(&self) -> (completer: &ShellCompleter<'a>)
        ensures
            *completer == self.completer(),
    {
        &self.completer
    }
}

} // verus!
