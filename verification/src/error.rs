//! Why an invocation produced no outcome.

use vstd::prelude::*;
use vstd::string::StringExecFns;

verus! {

/// Opens the message of an importer that could not be started.
pub const SPAWN_FAILURE_PREFIX: &'static str = "コマンド実行エラー: ";

/// Opens the message of a background task that did not complete.
pub const SCHEDULING_FAILURE_PREFIX: &'static str = "タスク実行エラー: ";

/// A failure of the invocation itself. An importer that ran and reported a
/// failure is no such error: it has an outcome.
#[derive(Debug, PartialEq, Eq)]
pub enum InvocationError {
    /// The importer could not be started. Holds the system's description.
    SpawnFailure(String),
    /// The background task that runs the importer did not complete. Holds
    /// the scheduler's description.
    SchedulingFailure(String),
}

impl InvocationError {
    /// The description that the error holds.
    pub open spec fn description(self) -> Seq<char> {
        match self {
            InvocationError::SpawnFailure(description) => description@,
            InvocationError::SchedulingFailure(description) => description@,
        }
    }

    /// The text that opens the message of this kind of error.
    pub open spec fn prefix(self) -> Seq<char> {
        match self {
            InvocationError::SpawnFailure(_) => SPAWN_FAILURE_PREFIX@,
            InvocationError::SchedulingFailure(_) => SCHEDULING_FAILURE_PREFIX@,
        }
    }

    /// The message for the caller: the prefix of the kind, then the
    /// description.
    pub open spec fn message_text(self) -> Seq<char> {
        self.prefix() + self.description()
    }

    /// The messages of the two kinds never coincide, whatever the
    /// descriptions: a caller can tell from the message alone whether the
    /// importer or the background task failed.
    pub proof fn lemma_kinds_tell_apart(spawn: InvocationError, scheduling: InvocationError)
        requires
            spawn is SpawnFailure,
            scheduling is SchedulingFailure,
        ensures
            spawn.message_text() != scheduling.message_text(),
    {
        reveal_strlit("コマンド実行エラー: ");
        reveal_strlit("タスク実行エラー: ");
        assert(spawn.message_text()[0] == 'コ');
        assert(scheduling.message_text()[0] == 'タ');
    }

    /// The message for the caller.
    pub fn message(&self) -> (text: String)
        ensures
            text@ == self.message_text(),
    {
        match self {
            InvocationError::SpawnFailure(description) => {
                let mut text = SPAWN_FAILURE_PREFIX.to_owned();
                text.append(description.as_str());
                text
            },
            InvocationError::SchedulingFailure(description) => {
                let mut text = SCHEDULING_FAILURE_PREFIX.to_owned();
                text.append(description.as_str());
                text
            },
        }
    }
}

} // verus!
