//! Checkpoint outcomes and errors, and the rules on checkpoint ids.
use vstd::prelude::*;
use vstd::string::*;
use crate::text::{contains_seq, contains_text, control_char, ends_with, has_suffix, is_control, is_space, space_char};

verus! {

/// What `create` produced when it did not fail.
#[derive(Debug, PartialEq, Eq)]
pub enum CheckpointOutcome {
    Created,
    Skipped { reason: String },
}

/// Why a checkpoint operation failed.
#[derive(Debug, PartialEq, Eq)]
pub enum CheckpointError {
    /// A process could not be started, or a file could not be handled.
    Io(String),
    /// A command printed output that was not UTF-8.
    InvalidUtf8,
    /// A git command exited with a non-zero status.
    Git { command: String, message: String },
    InvalidCheckpointId(String),
    InvalidState(String),
    MissingMetadata(String),
    /// No checkpoint of that id exists.
    NotFound(String),
    NotARepository(String),
    Time(String),
}

/// The characters that a checkpoint id may not contain, besides white space
/// and control characters.
pub open spec fn is_forbidden_id_char(c: char) -> bool {
    c == '/' || c == '\\' || c == ':' || c == '?' || c == '*' || c == '[' || c == '^' || c == '~'
}

/// Whether `id` is a safe path segment for a git ref.
pub open spec fn valid_checkpoint_id(id: Seq<char>) -> bool {
    &&& id.len() > 0
    &&& forall|i: int|
        0 <= i < id.len() ==> !is_space(#[trigger] id[i]) && !is_control(id[i])
            && !is_forbidden_id_char(id[i])
    &&& id[0] != '.'
    &&& id.last() != '.'
    &&& !has_suffix(id, ".lock"@)
    &&& !contains_seq(id, ".."@)
    &&& !contains_seq(id, "@{"@)
}

pub open spec fn invalid_id_message(id: Seq<char>) -> Seq<char> {
    "Invalid checkpoint_id: "@ + id
}

fn forbidden_id_char(c: char) -> (r: bool)
    ensures
        r == (is_space(c) || is_control(c) || is_forbidden_id_char(c)),
{
    space_char(c) || control_char(c) || c == '/' || c == '\\' || c == ':' || c == '?' || c
        == '*' || c == '[' || c == '^' || c == '~'
}

/// Checks that `checkpoint_id` can name a ref, before anything touches a
/// repository.
pub fn validate_checkpoint_id(checkpoint_id: &str) -> (r: Result<(), CheckpointError>)
    ensures
        r is Ok <==> valid_checkpoint_id(checkpoint_id@),
        r matches Err(CheckpointError::InvalidCheckpointId(m)) ==> m@ == invalid_id_message(
            checkpoint_id@,
        ),
        r is Err ==> r->Err_0 is InvalidCheckpointId,
{
    let n = checkpoint_id.unicode_len();
    let mut i: usize = 0;
    while i < n && !forbidden_id_char(checkpoint_id.get_char(i))
        invariant
            n == checkpoint_id@.len(),
            i <= n,
            forall|k: int|
                0 <= k < i ==> !is_space(#[trigger] checkpoint_id@[k]) && !is_control(
                    checkpoint_id@[k],
                ) && !is_forbidden_id_char(checkpoint_id@[k]),
        decreases n - i,
    {
        i = i + 1;
    }
    proof {
        reveal_strlit(".lock");
        reveal_strlit("..");
        reveal_strlit("@{");
    }
    let invalid = n == 0 || i < n || checkpoint_id.get_char(0) == '.' || checkpoint_id.get_char(n - 1)
        == '.' || ends_with(checkpoint_id, ".lock") || contains_text(checkpoint_id, "..")
        || contains_text(checkpoint_id, "@{");
    if invalid {
        let mut message = String::from_str("Invalid checkpoint_id: ");
        message.append(checkpoint_id);
        Err(CheckpointError::InvalidCheckpointId(message))
    } else {
        Ok(())
    }
}

/// The text by which a checkpoint error is reported.
pub open spec fn error_text(e: CheckpointError) -> Seq<char> {
    match e {
        CheckpointError::Io(m) => "Checkpoint IO error: "@ + m@,
        CheckpointError::InvalidUtf8 => "Checkpoint git output was not valid UTF-8"@,
        CheckpointError::Git { command, message } => "Checkpoint git command failed ("@ + command@
            + "): "@ + message@,
        CheckpointError::InvalidCheckpointId(m) => m@,
        CheckpointError::InvalidState(m) => m@,
        CheckpointError::MissingMetadata(m) => m@,
        CheckpointError::NotFound(m) => m@,
        CheckpointError::NotARepository(m) => m@,
        CheckpointError::Time(m) => m@,
    }
}

impl CheckpointError {
    /// The text by which this error is reported.
    pub fn message(&self) -> (r: String)
        ensures
            r@ == error_text(*self),
    {
        match self {
            CheckpointError::Io(m) => {
                let mut r = String::from_str("Checkpoint IO error: ");
                r.append(m.as_str());
                r
            },
            CheckpointError::InvalidUtf8 => String::from_str(
                "Checkpoint git output was not valid UTF-8",
            ),
            CheckpointError::Git { command, message } => {
                let mut r = String::from_str("Checkpoint git command failed (");
                r.append(command.as_str());
                r.append("): ");
                r.append(message.as_str());
                r
            },
            CheckpointError::InvalidCheckpointId(m) => m.clone(),
            CheckpointError::InvalidState(m) => m.clone(),
            CheckpointError::MissingMetadata(m) => m.clone(),
            CheckpointError::NotFound(m) => m.clone(),
            CheckpointError::NotARepository(m) => m.clone(),
            CheckpointError::Time(m) => m.clone(),
        }
    }
}

} // verus!
