//! What is asked of git, and how its answer is read.

use crate::decimal::{decimal, decimal_text};
use crate::lines::texts;
use std::string::FromUtf8Error;
use vstd::prelude::*;
use vstd::string::StringExecFns;
use vstd::utf8::{decode_utf8, valid_utf8};

verus! {

/// One question to git.
#[derive(Debug, Clone, PartialEq, Eq)]
pub enum Query {
    /// The commits of a range on any path between its two ends, newest first.
    AncestryPath(String),
    /// The commits of a range along the first-parent line, newest first.
    FirstParent(String),
    /// The identifier of the commit that the current branch's head names.
    Head,
    /// The full record of one commit.
    Record(String),
}

/// Why a question to git has no answer.
#[derive(Debug, PartialEq, Eq)]
pub enum GitError {
    /// git ended with a failure: its exit code and what it wrote about it.
    Failed { code: i32, diagnostic: String },
    /// What git wrote is not UTF-8 text: the standard library's account of
    /// where it stops being so.
    Encoding(FromUtf8Error),
}

impl Query {
    /// The words that git is started with for this question, as contracts
    /// see them.
    pub open spec fn words(self) -> Seq<Seq<char>> {
        match self {
            Query::AncestryPath(range) => seq!["rev-list"@, range@, "--ancestry-path"@],
            Query::FirstParent(range) => seq!["rev-list"@, range@, "--first-parent"@],
            Query::Head => seq!["show-ref"@, "-s"@, "HEAD"@],
            Query::Record(id) => seq!["show"@, id@],
        }
    }

    /// The words that git is started with for this question: the
    /// subcommand first, then its arguments.
    pub fn arguments(&self) -> (words: Vec<String>)
        ensures
            texts(words@) == self.words(),
    {
        let mut words: Vec<String> = Vec::new();
        match self {
            Query::AncestryPath(range) => {
                words.push(String::from_str("rev-list"));
                words.push(range.clone());
                words.push(String::from_str("--ancestry-path"));
            },
            Query::FirstParent(range) => {
                words.push(String::from_str("rev-list"));
                words.push(range.clone());
                words.push(String::from_str("--first-parent"));
            },
            Query::Head => {
                words.push(String::from_str("show-ref"));
                words.push(String::from_str("-s"));
                words.push(String::from_str("HEAD"));
            },
            Query::Record(id) => {
                words.push(String::from_str("show"));
                words.push(id.clone());
            },
        }
        assert(texts(words@) =~= self.words());
        words
    }
}

/// The standard library's error for bytes that are not UTF-8. Nothing is
/// known of what it holds.
#[verifier::external_type_specification]
#[verifier::external_body]
pub struct ExFromUtf8Error(FromUtf8Error);

/// Trusted: `String::from_utf8` of the standard library fails exactly on
/// bytes that are not valid UTF-8, and otherwise gives the string that those
/// bytes encode.
pub assume_specification[ String::from_utf8 ](vec: Vec<u8>) -> (text: Result<String, FromUtf8Error>)
    ensures
        text is Ok <==> valid_utf8(vec@),
        text matches Ok(s) ==> s@ == decode_utf8(vec@),
;

/// The message of a failure of git: a fixed opening, the exit code in
/// decimal, a colon and a space, and the diagnostic.
pub open spec fn failure_text(code: int, diagnostic: Seq<char>) -> Seq<char> {
    "Git command failed with code "@ + decimal(code) + ": "@ + diagnostic
}

/// The message that reports a failure of git with its exit code and its
/// diagnostic.
pub fn failure_message(code: i32, diagnostic: &str) -> (message: String)
    ensures
        message@ == failure_text(code as int, diagnostic@),
{
    let digits = decimal_text(code);
    String::from_str("Git command failed with code ").concat(digits.as_str()).concat(": ").concat(
        diagnostic,
    )
}

/// Reads what a run of git left behind: whether it succeeded, its exit code,
/// and the bytes it wrote to its output and about its errors. A run that
/// succeeded gives its output as text. One that failed gives the failure
/// with the exit code and the diagnostic. Bytes that are needed and are not
/// UTF-8 give an encoding error.
pub fn read_output(success: bool, code: i32, stdout: Vec<u8>, stderr: Vec<u8>) -> (answer: Result<
    String,
    GitError,
>)
    ensures
        match answer {
            Ok(text) => success && valid_utf8(stdout@) && text@ == decode_utf8(stdout@),
            Err(GitError::Failed { code: reported, diagnostic }) => !success && valid_utf8(stderr@)
                && reported == code && diagnostic@ == decode_utf8(stderr@),
            Err(GitError::Encoding(_)) => !valid_utf8(
                if success {
                    stdout@
                } else {
                    stderr@
                },
            ),
        },
{
    if !success {
        match String::from_utf8(stderr) {
            Ok(diagnostic) => Err(GitError::Failed { code, diagnostic }),
            Err(broken) => Err(GitError::Encoding(broken)),
        }
    } else {
        match String::from_utf8(stdout) {
            Ok(text) => Ok(text),
            Err(broken) => Err(GitError::Encoding(broken)),
        }
    }
}

} // verus!
