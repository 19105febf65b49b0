//! What is recorded before a tool changes something.
use crate::outcome::clone_text;
use crate::session::RecoveryMetadata;
use crate::session::RecoveryView;
use crate::text::opt_view;
use crate::text::owned;
use vstd::prelude::*;
use vstd::string::*;

verus! {

/// A change that a tool is about to make.
#[derive(Debug)]
pub enum Change {
    /// An edit of a file.
    Edit {
        target: String,
        /// The revision as the model wrote it.
        revision: String,
        /// The revision that it names, where it is a revision token.
        token: Option<String>,
        /// The revision after the edit, where it can be told.
        candidate: Option<String>,
        temp: String,
        backup: Option<String>,
    },
    /// A file written whole.
    Write {
        target: String,
        /// The revision that the model named, where it named one.
        token: Option<String>,
        /// The revision after the write.
        new_revision: String,
        temp: String,
        backup: Option<String>,
    },
    /// A shell command.
    Bash { command: String },
}

/// What is recorded of a change: what it starts from, what it should come to, and where the
/// files lie that are used to make it.
pub open spec fn record_of(change: Change) -> RecoveryView {
    match change {
        Change::Edit { target, revision, token, candidate, temp, backup } => RecoveryView {
            tool: "edit"@,
            target_path: target@,
            expected_revision: match token {
                Some(token) => token@,
                None => revision@,
            },
            candidate_revision: opt_view(candidate),
            temp_path: temp@,
            backup_path: opt_view(backup),
        },
        Change::Write { target, token, new_revision, temp, backup } => RecoveryView {
            tool: "write"@,
            target_path: target@,
            expected_revision: match token {
                Some(token) => token@,
                None => Seq::empty(),
            },
            candidate_revision: Some(new_revision@),
            temp_path: temp@,
            backup_path: opt_view(backup),
        },
        Change::Bash { command } => RecoveryView {
            tool: "bash"@,
            target_path: command@,
            expected_revision: Seq::empty(),
            candidate_revision: None,
            temp_path: Seq::empty(),
            backup_path: None,
        },
    }
}

/// What is recorded of a change.
pub fn recovery_metadata(change: &Change) -> (r: RecoveryMetadata)
    ensures
        r@ == record_of(*change),
{
    match change {
        Change::Edit { target, revision, token, candidate, temp, backup } => RecoveryMetadata {
            tool: owned("edit"),
            target_path: target.clone(),
            expected_revision: match token {
                Some(token) => token.clone(),
                None => revision.clone(),
            },
            candidate_revision: clone_text(candidate),
            temp_path: temp.clone(),
            backup_path: clone_text(backup),
        },
        Change::Write { target, token, new_revision, temp, backup } => RecoveryMetadata {
            tool: owned("write"),
            target_path: target.clone(),
            expected_revision: match token {
                Some(token) => token.clone(),
                None => String::new(),
            },
            candidate_revision: Some(new_revision.clone()),
            temp_path: temp.clone(),
            backup_path: clone_text(backup),
        },
        Change::Bash { command } => RecoveryMetadata {
            tool: owned("bash"),
            target_path: command.clone(),
            expected_revision: String::new(),
            candidate_revision: None,
            temp_path: String::new(),
            backup_path: None,
        },
    }
}

} // verus!
