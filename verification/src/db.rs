//! The store's records, the failures of its operations, and the operations
//! themselves, run on the committee table held in memory.

use crate::model::{
    add_commits, after_add, after_delete, after_rename, delete_commits, names_clash,
    rename_commits, Committee, Table,
};
use crate::table::{saved_view, CommitteeTable};
use crate::write_path::{
    add_committee_step, begin_write, delete_committee_step, rename_committee_step, Action, Stage,
    Step,
};
use vstd::prelude::*;

verus! {

/// `sqlx::Error`, the storage failure, carried through unread.
#[verifier::external_type_specification]
#[verifier::external_body]
pub struct ExStorageError(sqlx::Error);

/// One active committee, as a listing returns it.
#[derive(Debug, Clone, PartialEq, Eq)]
pub struct CommitteeRecord {
    pub id: i32,
    pub full_name: String,
    pub short_name: String,
}

impl View for CommitteeRecord {
    type V = Committee;

    open spec fn view(&self) -> Committee {
        Committee { id: self.id as int, full_name: self.full_name@, short_name: self.short_name@ }
    }
}

impl DeepView for CommitteeRecord {
    type V = Committee;

    open spec fn deep_view(&self) -> Committee {
        self@
    }
}

/// One user: the identity and the profile that a lookup returns verbatim.
#[derive(Debug, Clone, PartialEq, Eq)]
pub struct UserRecord {
    pub id: i32,
    pub profile: String,
}

/// Why an add did not commit.
#[derive(Debug)]
pub enum AddCommitteeError {
    Duplicate,
    Other(sqlx::Error),
}

impl From<sqlx::Error> for AddCommitteeError {
    fn from(value: sqlx::Error) -> (error: Self) {
        Self::Other(value)
    }
}

impl vstd::std_specs::convert::FromSpecImpl<sqlx::Error> for AddCommitteeError {
    open spec fn obeys_from_spec() -> bool {
        true
    }

    open spec fn from_spec(value: sqlx::Error) -> Self {
        Self::Other(value)
    }
}

/// Why a rename did not commit.
#[derive(Debug)]
pub enum RenameCommitteeError {
    NotFound,
    Duplicate,
    Other(sqlx::Error),
}

impl From<sqlx::Error> for RenameCommitteeError {
    fn from(value: sqlx::Error) -> (error: Self) {
        Self::Other(value)
    }
}

impl vstd::std_specs::convert::FromSpecImpl<sqlx::Error> for RenameCommitteeError {
    open spec fn obeys_from_spec() -> bool {
        true
    }

    open spec fn from_spec(value: sqlx::Error) -> Self {
        Self::Other(value)
    }
}

/// Why a delete did not commit.
#[derive(Debug)]
pub enum DeleteCommitteeError {
    NotFound,
    Other(sqlx::Error),
}

impl From<sqlx::Error> for DeleteCommitteeError {
    fn from(value: sqlx::Error) -> (error: Self) {
        Self::Other(value)
    }
}

impl vstd::std_specs::convert::FromSpecImpl<sqlx::Error> for DeleteCommitteeError {
    open spec fn obeys_from_spec() -> bool {
        true
    }

    open spec fn from_spec(value: sqlx::Error) -> Self {
        Self::Other(value)
    }
}

/// Why a user lookup returned no user.
#[derive(Debug)]
pub enum GetUserError {
    NotFound,
    Other(sqlx::Error),
}

impl From<sqlx::Error> for GetUserError {
    fn from(value: sqlx::Error) -> (error: Self) {
        Self::Other(value)
    }
}

impl vstd::std_specs::convert::FromSpecImpl<sqlx::Error> for GetUserError {
    open spec fn obeys_from_spec() -> bool {
        true
    }

    open spec fn from_spec(value: sqlx::Error) -> Self {
        Self::Other(value)
    }
}

/// Lists the active committees, each once, in the order in which they were
/// added.
pub fn get_all_committees(table: &CommitteeTable) -> (list: Vec<CommitteeRecord>)
    ensures
        list.deep_view() == table@.active(),
        table@.wf(),
{
    table.list_active()
}

/// Where the add write path stands while it runs on a table that was `start`
/// when it began.
spec fn add_in_flight(
    start: Table,
    table: Table,
    saved: Option<Table>,
    stage: Stage<AddCommitteeError>,
    action: Action,
    full_name: &str,
    short_name: &str,
) -> bool {
    let inserted = start.insert(full_name@, short_name@);
    match stage {
        Stage::Beginning => action == Action::Begin && table == start,
        Stage::Mutating => {
            &&& action == Action::Insert { full_name, short_name }
            &&& table == start
            &&& saved == Some(start)
        },
        Stage::Listing => action == Action::ListActive && table == inserted && saved == Some(start),
        Stage::Committing(rows) => {
            &&& action == Action::Commit
            &&& table == inserted
            &&& rows.deep_view() == inserted.active()
            &&& !names_clash(inserted.active())
        },
        Stage::Aborting(error) => {
            &&& action == Action::Rollback
            &&& saved == Some(start)
            &&& error == AddCommitteeError::Duplicate
            &&& names_clash(inserted.active())
        },
    }
}

/// What an add of these names to the table `before` leaves and returns: the
/// table after it, and the listing of that table or `Duplicate`.
pub open spec fn add_outcome(
    before: Table,
    full_name: Seq<char>,
    short_name: Seq<char>,
    after: Table,
    result: Result<Vec<CommitteeRecord>, AddCommitteeError>,
) -> bool {
    &&& after == after_add(before, full_name, short_name)
    &&& match result {
        Ok(list) => add_commits(before, full_name, short_name) && list.deep_view()
            == after.active(),
        Err(AddCommitteeError::Duplicate) => !add_commits(before, full_name, short_name),
        Err(AddCommitteeError::Other(_)) => false,
    }
}

/// Adds a committee: inserts it, reads the active set back, and keeps the
/// insertion only if no two active committees then share a full name or share
/// a short name. Otherwise the table is left as it was and the add fails with
/// `Duplicate`.
///
/// On success the result is the listing after the insertion.
pub fn add_committee(table: &mut CommitteeTable, full_name: &str, short_name: &str) -> (result:
    Result<Vec<CommitteeRecord>, AddCommitteeError>)
    requires
        old(table)@.next_id < i32::MAX,
    ensures
        add_outcome(old(table)@, full_name@, short_name@, final(table)@, result),
        old(table)@.wf(),
        final(table)@.wf(),
{
    let ghost start = table@;
    proof {
        use_type_invariant(&*table);
    }
    let mut saved: Option<CommitteeTable> = None;
    let (mut stage, mut action) = begin_write::<AddCommitteeError>();
    loop
        invariant
            start == old(table)@,
            start.wf(),
            table@.wf(),
            start.next_id < i32::MAX,
            add_in_flight(start, table@, saved_view(saved), stage, action, full_name, short_name),
        decreases stage.remaining(),
    {
        let reply = table.perform(&mut saved, action, 0);
        match add_committee_step(stage, Ok(reply), full_name, short_name) {
            Step::Perform(next, statement) => {
                stage = next;
                action = statement;
            },
            Step::Finish(result) => {
                return result;
            },
        }
    }
}

/// Where the rename write path stands while it runs on a table that was
/// `start` when it began.
spec fn rename_in_flight(
    start: Table,
    table: Table,
    saved: Option<Table>,
    stage: Stage<RenameCommitteeError>,
    action: Action,
    id: i32,
    new_full_name: &str,
    new_short_name: &str,
) -> bool {
    let updated = start.update_names(id as int, new_full_name@, new_short_name@);
    match stage {
        Stage::Beginning => action == Action::Begin && table == start,
        Stage::Mutating => {
            &&& action == Action::UpdateNames { id, new_full_name, new_short_name }
            &&& table == start
            &&& saved == Some(start)
        },
        Stage::Listing => {
            &&& action == Action::ListActive
            &&& table == updated
            &&& saved == Some(start)
            &&& start.matched(id as int) != 0
        },
        Stage::Committing(rows) => {
            &&& action == Action::Commit
            &&& table == updated
            &&& rows.deep_view() == updated.active()
            &&& start.matched(id as int) != 0
            &&& !names_clash(updated.active())
        },
        Stage::Aborting(error) => {
            &&& action == Action::Rollback
            &&& saved == Some(start)
            &&& match error {
                RenameCommitteeError::NotFound => start.matched(id as int) == 0,
                RenameCommitteeError::Duplicate => start.matched(id as int) != 0 && names_clash(
                    updated.active(),
                ),
                RenameCommitteeError::Other(_) => false,
            }
        },
    }
}

/// What a rename of `id` on the table `before` leaves and returns: the table
/// after it, and the listing of that table, `NotFound` or `Duplicate`.
pub open spec fn rename_outcome(
    before: Table,
    id: int,
    full_name: Seq<char>,
    short_name: Seq<char>,
    after: Table,
    result: Result<Vec<CommitteeRecord>, RenameCommitteeError>,
) -> bool {
    &&& after == after_rename(before, id, full_name, short_name)
    &&& match result {
        Ok(list) => rename_commits(before, id, full_name, short_name) && list.deep_view()
            == after.active(),
        Err(RenameCommitteeError::NotFound) => before.matched(id) == 0,
        Err(RenameCommitteeError::Duplicate) => before.matched(id) != 0 && names_clash(
            before.update_names(id, full_name, short_name).active(),
        ),
        Err(RenameCommitteeError::Other(_)) => false,
    }
}

/// Renames a committee: gives the row with identity `id` both new names,
/// reads the active set back, and keeps the update only if no two active
/// committees then share a full name or share a short name.
///
/// With no row of that identity the rename fails with `NotFound`; on a
/// collision it fails with `Duplicate`. Either way the table is left as it
/// was. The update goes by identity alone, so a soft-deleted row is renamed
/// too: that succeeds, and no listing shows it.
///
/// On success the result is the listing after the update.
pub fn rename_committee(
    table: &mut CommitteeTable,
    id: i32,
    new_full_name: &str,
    new_short_name: &str,
) -> (result: Result<Vec<CommitteeRecord>, RenameCommitteeError>)
    ensures
        rename_outcome(
            old(table)@,
            id as int,
            new_full_name@,
            new_short_name@,
            final(table)@,
            result,
        ),
        old(table)@.wf(),
        final(table)@.wf(),
{
    let ghost start = table@;
    proof {
        use_type_invariant(&*table);
    }
    let mut saved: Option<CommitteeTable> = None;
    let (mut stage, mut action) = begin_write::<RenameCommitteeError>();
    loop
        invariant
            start == old(table)@,
            start.wf(),
            table@.wf(),
            rename_in_flight(
                start,
                table@,
                saved_view(saved),
                stage,
                action,
                id,
                new_full_name,
                new_short_name,
            ),
        decreases stage.remaining(),
    {
        let reply = table.perform(&mut saved, action, 0);
        match rename_committee_step(stage, Ok(reply), id, new_full_name, new_short_name) {
            Step::Perform(next, statement) => {
                stage = next;
                action = statement;
            },
            Step::Finish(result) => {
                return result;
            },
        }
    }
}

/// Where the delete write path stands while it runs on a table that was
/// `start` when it began.
spec fn delete_in_flight(
    start: Table,
    table: Table,
    saved: Option<Table>,
    stage: Stage<DeleteCommitteeError>,
    action: Action,
    id: i32,
    now: i64,
) -> bool {
    let deleted = start.soft_delete(id as int, now as int);
    match stage {
        Stage::Beginning => action == Action::Begin && table == start,
        Stage::Mutating => {
            &&& action == Action::SoftDelete { id }
            &&& table == start
            &&& saved == Some(start)
        },
        Stage::Listing => {
            &&& action == Action::ListActive
            &&& table == deleted
            &&& start.live(id as int) != 0
        },
        Stage::Committing(rows) => {
            &&& action == Action::Commit
            &&& table == deleted
            &&& rows.deep_view() == deleted.active()
            &&& start.live(id as int) != 0
        },
        Stage::Aborting(error) => {
            &&& action == Action::Rollback
            &&& saved == Some(start)
            &&& error == DeleteCommitteeError::NotFound
            &&& start.live(id as int) == 0
        },
    }
}

/// What a delete of `id` at `now` on the table `before` leaves and returns:
/// the table after it, and the listing of that table or `NotFound`.
pub open spec fn delete_outcome(
    before: Table,
    id: int,
    now: int,
    after: Table,
    result: Result<Vec<CommitteeRecord>, DeleteCommitteeError>,
) -> bool {
    &&& after == after_delete(before, id, now)
    &&& match result {
        Ok(list) => delete_commits(before, id) && list.deep_view() == after.active(),
        Err(DeleteCommitteeError::NotFound) => !delete_commits(before, id),
        Err(DeleteCommitteeError::Other(_)) => false,
    }
}

/// Deletes a committee softly: stamps the active row with identity `id` as
/// deleted at `now`. The row stays in the table and leaves every listing.
///
/// With no active row of that identity, because there never was one or
/// because it is deleted already, the delete fails with `NotFound` and the
/// table is left as it was.
///
/// On success the result is the listing after the delete.
pub fn delete_committee(table: &mut CommitteeTable, id: i32, now: i64) -> (result: Result<
    Vec<CommitteeRecord>,
    DeleteCommitteeError,
>)
    ensures
        delete_outcome(old(table)@, id as int, now as int, final(table)@, result),
        old(table)@.wf(),
        final(table)@.wf(),
{
    let ghost start = table@;
    proof {
        use_type_invariant(&*table);
    }
    let mut saved: Option<CommitteeTable> = None;
    let (mut stage, mut action) = begin_write::<DeleteCommitteeError>();
    loop
        invariant
            start == old(table)@,
            start.wf(),
            table@.wf(),
            delete_in_flight(start, table@, saved_view(saved), stage, action, id, now),
        decreases stage.remaining(),
    {
        let reply = table.perform(&mut saved, action, now);
        match delete_committee_step(stage, Ok(reply), id) {
            Step::Perform(next, statement) => {
                stage = next;
                action = statement;
            },
            Step::Finish(result) => {
                return result;
            },
        }
    }
}

/// Looks a user up by identity and returns the record as stored. The table is
/// keyed by identity; the first row that carries it is the user.
pub fn get_user_from_id(users: &Vec<UserRecord>, user_id: i32) -> (result: Result<
    UserRecord,
    GetUserError,
>)
    ensures
        match result {
            Ok(user) => exists|i: int|
                {
                    &&& 0 <= i < users.len()
                    &&& user == #[trigger] users[i]
                    &&& user.id == user_id
                    &&& forall|k: int| 0 <= k < i ==> (#[trigger] users[k]).id != user_id
                },
            Err(GetUserError::NotFound) => forall|k: int|
                0 <= k < users.len() ==> (#[trigger] users[k]).id != user_id,
            Err(GetUserError::Other(_)) => false,
        },
{
    let mut i: usize = 0;
    while i < users.len()
        invariant
            i <= users.len(),
            forall|k: int| 0 <= k < i ==> (#[trigger] users[k]).id != user_id,
        decreases users.len() - i,
    {
        if users[i].id == user_id {
            return Ok(UserRecord { id: users[i].id, profile: users[i].profile.clone() });
        }
        i += 1;
    }
    Err(GetUserError::NotFound)
}

} // verus!
