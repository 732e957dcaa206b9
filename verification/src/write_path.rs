//! The write paths as a protocol with the storage accessor.
//!
//! A write path never touches storage itself. It names the next statement to
//! run, is told what storage answered, and decides from that alone how to go
//! on: mutate, read the whole active set back, then commit or roll back.
//! Whoever holds the connection runs the statements.

use crate::db::{AddCommitteeError, CommitteeRecord, DeleteCommitteeError, RenameCommitteeError};
use crate::model::{full_names, names_clash, short_names};
use crate::util::contains_duplicates;
use vstd::prelude::*;

verus! {

/// One statement for the storage accessor to run.
#[derive(Debug, Clone, Copy, PartialEq, Eq)]
pub enum Action<'a> {
    /// Open a transaction.
    Begin,
    /// Append an active row with a fresh identity.
    Insert { full_name: &'a str, short_name: &'a str },
    /// Replace both names of the row with this identity, deleted or not.
    UpdateNames { id: i32, new_full_name: &'a str, new_short_name: &'a str },
    /// Stamp the row with this identity as deleted, if it is active.
    SoftDelete { id: i32 },
    /// Read all active rows.
    ListActive,
    /// Make the transaction's writes permanent.
    Commit,
    /// Undo the transaction's writes.
    Rollback,
}

/// What storage answers when a statement went through: how many rows the
/// statement changed, and the rows it returned.
#[derive(Debug)]
pub struct Reply {
    pub rows_affected: u64,
    pub rows: Vec<CommitteeRecord>,
}

/// Where a write path stands: which statement it has asked for and waits on.
#[derive(Debug)]
pub enum Stage<E> {
    /// Waits for the transaction to open.
    Beginning,
    /// Waits for its insert, update or soft delete.
    Mutating,
    /// Waits for the active set as it is after the mutation.
    Listing,
    /// Waits for the commit, holding the listing it will return.
    Committing(Vec<CommitteeRecord>),
    /// Waits for the rollback, holding the failure it will return.
    Aborting(E),
}

impl<E> Stage<E> {
    /// An upper bound on the statements the write path still asks for,
    /// counting the one it waits on.
    pub open spec fn remaining(self) -> nat {
        match self {
            Stage::Beginning => 4,
            Stage::Mutating => 3,
            Stage::Listing => 2,
            Stage::Committing(_) => 1,
            Stage::Aborting(_) => 1,
        }
    }
}

/// What a write path does next.
#[derive(Debug)]
pub enum Step<'a, E> {
    /// Run this statement and come back with the answer, at this stage.
    Perform(Stage<E>, Action<'a>),
    /// The write path is over, with this result.
    Finish(Result<Vec<CommitteeRecord>, E>),
}

/// How every write path opens: it asks for a transaction.
pub fn begin_write<'a, E>() -> (first: (Stage<E>, Action<'a>))
    ensures
        first == (Stage::<E>::Beginning, Action::Begin),
{
    (Stage::Beginning, Action::Begin)
}

/// Copies the full names out of a listing, in its order.
fn full_names_of(rows: &Vec<CommitteeRecord>) -> (names: Vec<String>)
    ensures
        names.deep_view() == full_names(rows.deep_view()),
{
    let mut names: Vec<String> = Vec::new();
    let mut i: usize = 0;
    while i < rows.len()
        invariant
            i <= rows.len(),
            names.len() == i,
            forall|k: int| 0 <= k < i ==> names[k]@ == rows[k].full_name@,
        decreases rows.len() - i,
    {
        names.push(rows[i].full_name.clone());
        i += 1;
    }
    assert(names.deep_view() =~= full_names(rows.deep_view()));
    names
}

/// Copies the short names out of a listing, in its order.
fn short_names_of(rows: &Vec<CommitteeRecord>) -> (names: Vec<String>)
    ensures
        names.deep_view() == short_names(rows.deep_view()),
{
    let mut names: Vec<String> = Vec::new();
    let mut i: usize = 0;
    while i < rows.len()
        invariant
            i <= rows.len(),
            names.len() == i,
            forall|k: int| 0 <= k < i ==> names[k]@ == rows[k].short_name@,
        decreases rows.len() - i,
    {
        names.push(rows[i].short_name.clone());
        i += 1;
    }
    assert(names.deep_view() =~= short_names(rows.deep_view()));
    names
}

/// Scans a listing for two committees with the same full name or the same
/// short name.
pub fn has_name_clash(rows: &Vec<CommitteeRecord>) -> (clash: bool)
    ensures
        clash == names_clash(rows.deep_view()),
{
    let full = full_names_of(rows);
    if contains_duplicates(&full) {
        return true;
    }
    let short = short_names_of(rows);
    contains_duplicates(&short)
}

/// The add write path, one decision at a time.
pub open spec fn add_committee_next<'a>(
    stage: Stage<AddCommitteeError>,
    reply: Result<Reply, sqlx::Error>,
    full_name: &'a str,
    short_name: &'a str,
) -> Step<'a, AddCommitteeError> {
    match (stage, reply) {
        (Stage::Beginning, Ok(_)) => Step::Perform(
            Stage::Mutating,
            Action::Insert { full_name, short_name },
        ),
        (Stage::Beginning, Err(failure)) => Step::Finish(Err(AddCommitteeError::Other(failure))),
        (Stage::Mutating, Ok(_)) => Step::Perform(Stage::Listing, Action::ListActive),
        (Stage::Listing, Ok(listed)) => if names_clash(listed.rows.deep_view()) {
            Step::Perform(Stage::Aborting(AddCommitteeError::Duplicate), Action::Rollback)
        } else {
            Step::Perform(Stage::Committing(listed.rows), Action::Commit)
        },
        (Stage::Mutating, Err(failure)) | (Stage::Listing, Err(failure)) => Step::Perform(
            Stage::Aborting(AddCommitteeError::Other(failure)),
            Action::Rollback,
        ),
        (Stage::Committing(rows), Ok(_)) => Step::Finish(Ok(rows)),
        (Stage::Committing(_), Err(failure)) => Step::Finish(
            Err(AddCommitteeError::Other(failure)),
        ),
        (Stage::Aborting(error), _) => Step::Finish(Err(error)),
    }
}

/// Decides how the add write path goes on from `stage`, now that storage has
/// answered the statement the stage waited on.
///
/// The new row is inserted first and the whole active set read back; a shared
/// full name or short name anywhere in it rolls the insert back with
/// `Duplicate`. A storage failure rolls back and is handed on as `Other`.
pub fn add_committee_step<'a>(
    stage: Stage<AddCommitteeError>,
    reply: Result<Reply, sqlx::Error>,
    full_name: &'a str,
    short_name: &'a str,
) -> (step: Step<'a, AddCommitteeError>)
    ensures
        step == add_committee_next(stage, reply, full_name, short_name),
{
    match stage {
        Stage::Beginning => match reply {
            Ok(_) => Step::Perform(Stage::Mutating, Action::Insert { full_name, short_name }),
            Err(failure) => Step::Finish(Err(AddCommitteeError::Other(failure))),
        },
        Stage::Mutating => match reply {
            Ok(_) => Step::Perform(Stage::Listing, Action::ListActive),
            Err(failure) => Step::Perform(
                Stage::Aborting(AddCommitteeError::Other(failure)),
                Action::Rollback,
            ),
        },
        Stage::Listing => match reply {
            Ok(listed) => {
                if has_name_clash(&listed.rows) {
                    Step::Perform(Stage::Aborting(AddCommitteeError::Duplicate), Action::Rollback)
                } else {
                    Step::Perform(Stage::Committing(listed.rows), Action::Commit)
                }
            },
            Err(failure) => Step::Perform(
                Stage::Aborting(AddCommitteeError::Other(failure)),
                Action::Rollback,
            ),
        },
        Stage::Committing(rows) => match reply {
            Ok(_) => Step::Finish(Ok(rows)),
            Err(failure) => Step::Finish(Err(AddCommitteeError::Other(failure))),
        },
        Stage::Aborting(error) => Step::Finish(Err(error)),
    }
}

/// The rename write path, one decision at a time.
pub open spec fn rename_committee_next<'a>(
    stage: Stage<RenameCommitteeError>,
    reply: Result<Reply, sqlx::Error>,
    id: i32,
    new_full_name: &'a str,
    new_short_name: &'a str,
) -> Step<'a, RenameCommitteeError> {
    match (stage, reply) {
        (Stage::Beginning, Ok(_)) => Step::Perform(
            Stage::Mutating,
            Action::UpdateNames { id, new_full_name, new_short_name },
        ),
        (Stage::Beginning, Err(failure)) => Step::Finish(
            Err(RenameCommitteeError::Other(failure)),
        ),
        (Stage::Mutating, Ok(updated)) => if updated.rows_affected == 0 {
            Step::Perform(Stage::Aborting(RenameCommitteeError::NotFound), Action::Rollback)
        } else {
            Step::Perform(Stage::Listing, Action::ListActive)
        },
        (Stage::Listing, Ok(listed)) => if names_clash(listed.rows.deep_view()) {
            Step::Perform(Stage::Aborting(RenameCommitteeError::Duplicate), Action::Rollback)
        } else {
            Step::Perform(Stage::Committing(listed.rows), Action::Commit)
        },
        (Stage::Mutating, Err(failure)) | (Stage::Listing, Err(failure)) => Step::Perform(
            Stage::Aborting(RenameCommitteeError::Other(failure)),
            Action::Rollback,
        ),
        (Stage::Committing(rows), Ok(_)) => Step::Finish(Ok(rows)),
        (Stage::Committing(_), Err(failure)) => Step::Finish(
            Err(RenameCommitteeError::Other(failure)),
        ),
        (Stage::Aborting(error), _) => Step::Finish(Err(error)),
    }
}

/// Decides how the rename write path goes on from `stage`, now that storage
/// has answered the statement the stage waited on.
///
/// The update goes by identity alone. If it changed no row the path rolls back
/// with `NotFound`. Otherwise the whole active set is read back, and a shared
/// full name or short name anywhere in it rolls the update back with
/// `Duplicate`. A storage failure rolls back and is handed on as `Other`.
pub fn rename_committee_step<'a>(
    stage: Stage<RenameCommitteeError>,
    reply: Result<Reply, sqlx::Error>,
    id: i32,
    new_full_name: &'a str,
    new_short_name: &'a str,
) -> (step: Step<'a, RenameCommitteeError>)
    ensures
        step == rename_committee_next(stage, reply, id, new_full_name, new_short_name),
{
    match stage {
        Stage::Beginning => match reply {
            Ok(_) => Step::Perform(
                Stage::Mutating,
                Action::UpdateNames { id, new_full_name, new_short_name },
            ),
            Err(failure) => Step::Finish(Err(RenameCommitteeError::Other(failure))),
        },
        Stage::Mutating => match reply {
            Ok(updated) => {
                if updated.rows_affected == 0 {
                    Step::Perform(Stage::Aborting(RenameCommitteeError::NotFound), Action::Rollback)
                } else {
                    Step::Perform(Stage::Listing, Action::ListActive)
                }
            },
            Err(failure) => Step::Perform(
                Stage::Aborting(RenameCommitteeError::Other(failure)),
                Action::Rollback,
            ),
        },
        Stage::Listing => match reply {
            Ok(listed) => {
                if has_name_clash(&listed.rows) {
                    Step::Perform(
                        Stage::Aborting(RenameCommitteeError::Duplicate),
                        Action::Rollback,
                    )
                } else {
                    Step::Perform(Stage::Committing(listed.rows), Action::Commit)
                }
            },
            Err(failure) => Step::Perform(
                Stage::Aborting(RenameCommitteeError::Other(failure)),
                Action::Rollback,
            ),
        },
        Stage::Committing(rows) => match reply {
            Ok(_) => Step::Finish(Ok(rows)),
            Err(failure) => Step::Finish(Err(RenameCommitteeError::Other(failure))),
        },
        Stage::Aborting(error) => Step::Finish(Err(error)),
    }
}

/// The delete write path, one decision at a time.
pub open spec fn delete_committee_next<'a>(
    stage: Stage<DeleteCommitteeError>,
    reply: Result<Reply, sqlx::Error>,
    id: i32,
) -> Step<'a, DeleteCommitteeError> {
    match (stage, reply) {
        (Stage::Beginning, Ok(_)) => Step::Perform(Stage::Mutating, Action::SoftDelete { id }),
        (Stage::Beginning, Err(failure)) => Step::Finish(
            Err(DeleteCommitteeError::Other(failure)),
        ),
        (Stage::Mutating, Ok(deleted)) => if deleted.rows_affected == 0 {
            Step::Perform(Stage::Aborting(DeleteCommitteeError::NotFound), Action::Rollback)
        } else {
            Step::Perform(Stage::Listing, Action::ListActive)
        },
        (Stage::Listing, Ok(listed)) => Step::Perform(
            Stage::Committing(listed.rows),
            Action::Commit,
        ),
        (Stage::Mutating, Err(failure)) | (Stage::Listing, Err(failure)) => Step::Perform(
            Stage::Aborting(DeleteCommitteeError::Other(failure)),
            Action::Rollback,
        ),
        (Stage::Committing(rows), Ok(_)) => Step::Finish(Ok(rows)),
        (Stage::Committing(_), Err(failure)) => Step::Finish(
            Err(DeleteCommitteeError::Other(failure)),
        ),
        (Stage::Aborting(error), _) => Step::Finish(Err(error)),
    }
}

/// Decides how the delete write path goes on from `stage`, now that storage
/// has answered the statement the stage waited on.
///
/// The soft delete touches active rows only. If it changed no row the path
/// rolls back with `NotFound`. Otherwise the active set is read back and
/// committed as it is: taking a row out cannot make two names collide. A
/// storage failure rolls back and is handed on as `Other`.
pub fn delete_committee_step<'a>(
    stage: Stage<DeleteCommitteeError>,
    reply: Result<Reply, sqlx::Error>,
    id: i32,
) -> (step: Step<'a, DeleteCommitteeError>)
    ensures
        step == delete_committee_next::<'a>(stage, reply, id),
{
    match stage {
        Stage::Beginning => match reply {
            Ok(_) => Step::Perform(Stage::Mutating, Action::SoftDelete { id }),
            Err(failure) => Step::Finish(Err(DeleteCommitteeError::Other(failure))),
        },
        Stage::Mutating => match reply {
            Ok(deleted) => {
                if deleted.rows_affected == 0 {
                    Step::Perform(Stage::Aborting(DeleteCommitteeError::NotFound), Action::Rollback)
                } else {
                    Step::Perform(Stage::Listing, Action::ListActive)
                }
            },
            Err(failure) => Step::Perform(
                Stage::Aborting(DeleteCommitteeError::Other(failure)),
                Action::Rollback,
            ),
        },
        Stage::Listing => match reply {
            Ok(listed) => Step::Perform(Stage::Committing(listed.rows), Action::Commit),
            Err(failure) => Step::Perform(
                Stage::Aborting(DeleteCommitteeError::Other(failure)),
                Action::Rollback,
            ),
        },
        Stage::Committing(rows) => match reply {
            Ok(_) => Step::Finish(Ok(rows)),
            Err(failure) => Step::Finish(Err(DeleteCommitteeError::Other(failure))),
        },
        Stage::Aborting(error) => Step::Finish(Err(error)),
    }
}

} // verus!
