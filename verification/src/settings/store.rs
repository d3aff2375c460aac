//! Publishing a candidate store.
use crate::config::StoredConfig;
use crate::text::concat;
use vstd::prelude::*;

verus! {

/// What a commit asks of the caller beside the swap it has made.
#[derive(Clone, Copy, Debug, PartialEq, Eq, Structural)]
pub struct Committed {
    /// The history's new retention in days, where it changed.
    pub retention: Option<u64>,
}

/// The store, the revision and the answer that a commit leaves behind.
pub open spec fn commit_outcome(
    store: StoredConfig,
    revision: u64,
    candidate: StoredConfig,
    validated: Result<(), String>,
    saved: Result<(), String>,
) -> (StoredConfig, u64, Result<Committed, Seq<char>>) {
    match (validated, saved) {
        (Err(e), _) => (store, revision, Err(e@)),
        (Ok(_), Err(e)) => (store, revision, Err("cannot write the config store: "@ + e@)),
        (Ok(_), Ok(_)) => (
            candidate,
            if revision == u64::MAX {
                0
            } else {
                (revision + 1) as u64
            },
            Ok(
                Committed {
                    retention: if candidate@.history_days == store@.history_days {
                        None
                    } else {
                        Some(candidate@.history_days)
                    },
                },
            ),
        ),
    }
}

/// The answer to a commit, its message by its characters.
pub open spec fn commit_answer(r: Result<Committed, String>) -> Result<Committed, Seq<char>> {
    match r {
        Ok(c) => Ok(c),
        Err(e) => Err(e@),
    }
}

/// Commit a candidate store: only when it was validated and persisted is it
/// published as the store's truth and the revision moved on. Callers hold the
/// store lock, which is the save-mutex; `saved` is what writing the candidate
/// came to, which is tried only after `validated` passed.
pub fn commit(
    guard: &mut StoredConfig,
    revision: &mut u64,
    candidate: StoredConfig,
    validated: Result<(), String>,
    saved: Result<(), String>,
) -> (r: Result<Committed, String>)
    ensures
        match validated {
            Err(e) => {
                &&& r matches Err(message) && message@ == e@
                &&& *final(guard) == *old(guard)
                &&& *final(revision) == *old(revision)
            },
            Ok(_) => match saved {
                Err(e) => {
                    &&& r matches Err(message) && message@ == "cannot write the config store: "@
                        + e@
                    &&& *final(guard) == *old(guard)
                    &&& *final(revision) == *old(revision)
                },
                Ok(_) => {
                    &&& r == Ok::<Committed, String>(
                        Committed {
                            retention: if candidate@.history_days == old(guard)@.history_days {
                                None
                            } else {
                                Some(candidate@.history_days)
                            },
                        },
                    )
                    &&& *final(guard) == candidate
                    &&& *final(revision) == if *old(revision) == u64::MAX {
                        0
                    } else {
                        *old(revision) + 1
                    }
                },
            },
        },
        (*final(guard), *final(revision), commit_answer(r)) == commit_outcome(
            *old(guard),
            *old(revision),
            candidate,
            validated,
            saved,
        ),
{
    match validated {
        Err(e) => return Err(e),
        Ok(_) => {},
    }
    match saved {
        Err(e) => return Err(concat("cannot write the config store: ", &e)),
        Ok(_) => {},
    }
    let retention = if candidate.history.days != guard.history.days {
        Some(candidate.history.days)
    } else {
        None
    };
    *guard = candidate;
    *revision = revision.wrapping_add(1);
    Ok(Committed { retention })
}

/// A refused or failed write applies nothing: the store and its revision
/// stand, and the caller is told. A write that is validated and saved
/// publishes the candidate, moves the revision on, and names the retention
/// exactly where it is another one.
pub proof fn law_failed_writes_apply_nothing(
    store: StoredConfig,
    revision: u64,
    candidate: StoredConfig,
    validated: Result<(), String>,
    saved: Result<(), String>,
)
    ensures
        ({
            let (after, next, answer) = commit_outcome(
                store,
                revision,
                candidate,
                validated,
                saved,
            );
            &&& answer is Ok <==> validated is Ok && saved is Ok
            &&& answer is Err ==> after == store && next == revision
            &&& validated is Err ==> answer == Err::<Committed, Seq<char>>(validated->Err_0@)
            &&& validated is Ok && saved is Err ==> answer->Err_0
                == "cannot write the config store: "@ + saved->Err_0@
            &&& answer is Ok ==> after == candidate && next != revision
            &&& answer is Ok && revision < u64::MAX ==> next == revision + 1
            &&& answer is Ok ==> (answer->Ok_0.retention is Some <==> candidate@.history_days
                != store@.history_days)
            &&& answer is Ok && answer->Ok_0.retention is Some ==> answer->Ok_0.retention->0
                == candidate@.history_days
        }),
{
}

}
