//! The committee table held in memory, with the statements of the storage
//! accessor as its operations.
//!
//! Uniqueness of names is not this table's concern: it stores what it is
//! told, as the relational store does. The write paths enforce it.

use crate::db::CommitteeRecord;
use crate::facts::{lemma_statements_keep_identities, lemma_touches_one_row_at_most};
use crate::model::{
    as_committee, has_id, is_active, is_active_with_id, rename_of, retire_of, Committee, Row, Table,
};
use crate::write_path::{Action, Reply};
use vstd::prelude::*;

verus! {

/// One stored row: a committee and, once it was soft-deleted, the time of
/// that.
#[derive(Debug, Clone, PartialEq, Eq)]
pub struct CommitteeRow {
    pub id: i32,
    pub full_name: String,
    pub short_name: String,
    pub deleted: Option<i64>,
}

impl View for CommitteeRow {
    type V = Row;

    open spec fn view(&self) -> Row {
        Row {
            id: self.id as int,
            full_name: self.full_name@,
            short_name: self.short_name@,
            deleted: match self.deleted {
                Some(at) => Some(at as int),
                None => None,
            },
        }
    }
}

impl DeepView for CommitteeRow {
    type V = Row;

    open spec fn deep_view(&self) -> Row {
        self@
    }
}

/// The committee table: rows in the order of their insertion, none ever
/// removed, and the counter that hands out identities. No two rows of a
/// table have one identity, and the counter is past all of them.
#[derive(Debug)]
pub struct CommitteeTable {
    rows: Vec<CommitteeRow>,
    next_id: i32,
}

impl View for CommitteeTable {
    type V = Table;

    closed spec fn view(&self) -> Table {
        Table { rows: self.rows.deep_view(), next_id: self.next_id as int }
    }
}

/// The table a transaction would go back to, if there is one.
pub open spec fn saved_view(saved: Option<CommitteeTable>) -> Option<Table> {
    match saved {
        Some(table) => Some(table@),
        None => None,
    }
}

/// What running `action` makes of a table and of the copy a transaction
/// holds: the table after it, the copy after it, the count of rows it
/// changed, and the rows it returned.
pub open spec fn performed(table: Table, saved: Option<Table>, action: Action, now: int) -> (
    Table,
    Option<Table>,
    nat,
    Seq<Committee>,
) {
    match action {
        Action::Begin => (table, Some(table), 0, Seq::empty()),
        Action::Insert { full_name, short_name } => (
            table.insert(full_name@, short_name@),
            saved,
            1,
            Seq::empty(),
        ),
        Action::UpdateNames { id, new_full_name, new_short_name } => (
            table.update_names(id as int, new_full_name@, new_short_name@),
            saved,
            table.matched(id as int),
            Seq::empty(),
        ),
        Action::SoftDelete { id } => (
            table.soft_delete(id as int, now),
            saved,
            table.live(id as int),
            Seq::empty(),
        ),
        Action::ListActive => (table, saved, 0, table.active()),
        Action::Commit => (table, None, 0, Seq::empty()),
        Action::Rollback => (
            match saved {
                Some(before) => before,
                None => table,
            },
            None,
            0,
            Seq::empty(),
        ),
    }
}

impl CommitteeTable {
    /// What holds of every table: identities are unique, and the counter is
    /// past all of them.
    #[verifier::type_invariant]
    pub open spec fn identities_unique(self) -> bool {
        self@.wf()
    }

    /// A table without rows, whose first row will get identity 1.
    pub fn new() -> (table: Self)
        ensures
            table@ == Table::empty(),
            table@.wf(),
    {
        let rows: Vec<CommitteeRow> = Vec::new();
        assert(rows.deep_view() =~= Seq::<Row>::empty());
        CommitteeTable { rows, next_id: 1 }
    }

    /// Takes the rows out of the table, to change them and put them back.
    fn take_rows(&mut self) -> (rows: Vec<CommitteeRow>)
        ensures
            rows == old(self).rows,
            final(self).rows@ == Seq::<CommitteeRow>::empty(),
            final(self).next_id == old(self).next_id,
    {
        let mut rows: Vec<CommitteeRow> = Vec::new();
        assert(rows.deep_view() =~= Seq::<Row>::empty());
        core::mem::swap(&mut self.rows, &mut rows);
        assert(self.rows.deep_view() =~= Seq::<Row>::empty());
        rows
    }

    /// Whether the identity counter can serve one more insertion.
    pub fn has_room(&self) -> (room: bool)
        ensures
            room == (self@.next_id < i32::MAX),
    {
        self.next_id < i32::MAX
    }

    /// How many rows the table holds, deleted ones included.
    pub fn row_count(&self) -> (count: usize)
        ensures
            count == self@.rows.len(),
    {
        self.rows.len()
    }

    /// The first row with identity `id`, deleted or not, as it is stored.
    pub fn find(&self, id: i32) -> (found: Option<CommitteeRow>)
        ensures
            match found {
                Some(row) => exists|k: int|
                    {
                        &&& 0 <= k < self@.rows.len()
                        &&& row@ == #[trigger] self@.rows[k]
                        &&& row.id == id
                        &&& forall|j: int| 0 <= j < k ==> (#[trigger] self@.rows[j]).id != id
                    },
                None => forall|k: int| 0 <= k < self@.rows.len() ==> (#[trigger] self@.rows[k]).id
                    != id,
            },
    {
        let mut i: usize = 0;
        while i < self.rows.len()
            invariant
                i <= self.rows.len(),
                forall|j: int| 0 <= j < i ==> (#[trigger] self@.rows[j]).id != id,
            decreases self.rows.len() - i,
        {
            if self.rows[i].id == id {
                let row = CommitteeRow {
                    id: self.rows[i].id,
                    full_name: self.rows[i].full_name.clone(),
                    short_name: self.rows[i].short_name.clone(),
                    deleted: self.rows[i].deleted,
                };
                assert(row@ == self@.rows[i as int]);
                return Some(row);
            }
            i += 1;
        }
        None
    }

    /// Lists the active committees, in table order.
    pub fn list_active(&self) -> (list: Vec<CommitteeRecord>)
        ensures
            list.deep_view() == self@.active(),
            self@.wf(),
    {
        proof {
            use_type_invariant(self);
        }
        let ghost rows = self.rows.deep_view();
        let mut list: Vec<CommitteeRecord> = Vec::new();
        let mut i: usize = 0;
        assert(rows.take(0) =~= Seq::<Row>::empty());
        assert(Seq::<Row>::empty().filter(is_active()) =~= Seq::<Row>::empty()) by {
            reveal(Seq::filter);
        }
        assert(list.deep_view() =~= rows.take(0).filter(is_active()).map_values(as_committee()));
        while i < self.rows.len()
            invariant
                i <= self.rows.len(),
                rows == self.rows.deep_view(),
                list.deep_view() == rows.take(i as int).filter(is_active()).map_values(
                    as_committee(),
                ),
            decreases self.rows.len() - i,
        {
            let ghost listed = list.deep_view();
            proof {
                assert(rows.take(i + 1) =~= rows.take(i as int).push(rows[i as int]));
                rows.take(i as int).lemma_filter_push(rows[i as int], is_active());
                rows.take(i as int).filter(is_active()).lemma_push_map_commute(
                    as_committee(),
                    rows[i as int],
                );
            }
            if self.rows[i].deleted.is_none() {
                let record = CommitteeRecord {
                    id: self.rows[i].id,
                    full_name: self.rows[i].full_name.clone(),
                    short_name: self.rows[i].short_name.clone(),
                };
                list.push(record);
                assert(list.deep_view() =~= listed.push(rows[i as int].committee()));
            }
            i += 1;
        }
        assert(rows.take(i as int) =~= rows);
        list
    }

    /// Appends an active row with the next identity.
    pub fn insert(&mut self, full_name: &str, short_name: &str)
        requires
            old(self)@.next_id < i32::MAX,
        ensures
            final(self)@ == old(self)@.insert(full_name@, short_name@),
            final(self)@.wf(),
    {
        proof {
            use_type_invariant(&*self);
            lemma_statements_keep_identities(self@);
        }
        let ghost before = self.rows.deep_view();
        let row = CommitteeRow {
            id: self.next_id,
            full_name: full_name.to_owned(),
            short_name: short_name.to_owned(),
            deleted: None,
        };
        let ghost added = row@;
        let mut rows = self.take_rows();
        rows.push(row);
        assert(rows.deep_view() =~= before.push(added));
        self.next_id = self.next_id + 1;
        self.rows = rows;
    }

    /// Gives every row with identity `id` the new names, deleted or not, and
    /// returns how many rows that were.
    pub fn update_names(
        &mut self,
        id: i32,
        new_full_name: &str,
        new_short_name: &str,
    ) -> (rows_affected: u64)
        ensures
            final(self)@ == old(self)@.update_names(id as int, new_full_name@, new_short_name@),
            rows_affected == old(self)@.matched(id as int),
            rows_affected <= 1,
            final(self)@.wf(),
    {
        proof {
            use_type_invariant(&*self);
            lemma_touches_one_row_at_most(self@, id as int);
            lemma_statements_keep_identities(self@);
        }
        let ghost before = self.rows.deep_view();
        let ghost rename = rename_of(id as int, new_full_name@, new_short_name@);
        let mut rows = self.take_rows();
        let mut count: usize = 0;
        let mut i: usize = 0;
        assert(before.take(0) =~= Seq::<Row>::empty());
        assert(Seq::<Row>::empty().filter(has_id(id as int)).len() == 0) by {
            reveal(Seq::filter);
        }
        while i < rows.len()
            invariant
                i <= rows.len(),
                rows.len() == before.len(),
                rename == rename_of(id as int, new_full_name@, new_short_name@),
                count <= i,
                count == before.take(i as int).filter(has_id(id as int)).len(),
                forall|k: int| 0 <= k < i ==> (#[trigger] rows[k])@ == rename(before[k]),
                forall|k: int| i <= k < before.len() ==> (#[trigger] rows[k])@ == before[k],
            decreases rows.len() - i,
        {
            proof {
                assert(before.take(i + 1) =~= before.take(i as int).push(before[i as int]));
                before.take(i as int).lemma_filter_push(before[i as int], has_id(id as int));
            }
            if rows[i].id == id {
                let deleted = rows[i].deleted;
                rows.set(
                    i,
                    CommitteeRow {
                        id,
                        full_name: new_full_name.to_owned(),
                        short_name: new_short_name.to_owned(),
                        deleted,
                    },
                );
                count += 1;
            }
            i += 1;
        }
        assert(before.take(i as int) =~= before);
        assert(rows.deep_view() =~= before.map_values(rename));
        self.rows = rows;
        count as u64
    }

    /// Stamps every active row with identity `id` as deleted at `now`, and
    /// returns how many rows that were.
    pub fn soft_delete(&mut self, id: i32, now: i64) -> (rows_affected: u64)
        ensures
            final(self)@ == old(self)@.soft_delete(id as int, now as int),
            rows_affected == old(self)@.live(id as int),
            rows_affected <= 1,
            final(self)@.wf(),
    {
        proof {
            use_type_invariant(&*self);
            lemma_touches_one_row_at_most(self@, id as int);
            lemma_statements_keep_identities(self@);
        }
        let ghost before = self.rows.deep_view();
        let ghost retire = retire_of(id as int, now as int);
        let mut rows = self.take_rows();
        let mut count: usize = 0;
        let mut i: usize = 0;
        assert(before.take(0) =~= Seq::<Row>::empty());
        assert(Seq::<Row>::empty().filter(is_active_with_id(id as int)).len() == 0) by {
            reveal(Seq::filter);
        }
        while i < rows.len()
            invariant
                i <= rows.len(),
                rows.len() == before.len(),
                retire == retire_of(id as int, now as int),
                count <= i,
                count == before.take(i as int).filter(is_active_with_id(id as int)).len(),
                forall|k: int| 0 <= k < i ==> (#[trigger] rows[k])@ == retire(before[k]),
                forall|k: int| i <= k < before.len() ==> (#[trigger] rows[k])@ == before[k],
            decreases rows.len() - i,
        {
            proof {
                assert(before.take(i + 1) =~= before.take(i as int).push(before[i as int]));
                before.take(i as int).lemma_filter_push(
                    before[i as int],
                    is_active_with_id(id as int),
                );
            }
            if rows[i].id == id && rows[i].deleted.is_none() {
                let full_name = rows[i].full_name.clone();
                let short_name = rows[i].short_name.clone();
                rows.set(i, CommitteeRow { id, full_name, short_name, deleted: Some(now) });
                count += 1;
            }
            i += 1;
        }
        assert(before.take(i as int) =~= before);
        assert(rows.deep_view() =~= before.map_values(retire));
        self.rows = rows;
        count as u64
    }

    /// Copies the table, for a transaction to go back to.
    pub fn snapshot(&self) -> (copy: Self)
        ensures
            copy@ == self@,
            copy@.wf(),
    {
        proof {
            use_type_invariant(self);
        }
        let mut rows: Vec<CommitteeRow> = Vec::new();
        let mut i: usize = 0;
        while i < self.rows.len()
            invariant
                i <= self.rows.len(),
                rows.len() == i,
                forall|k: int| 0 <= k < i ==> (#[trigger] rows[k])@ == self.rows[k]@,
            decreases self.rows.len() - i,
        {
            rows.push(
                CommitteeRow {
                    id: self.rows[i].id,
                    full_name: self.rows[i].full_name.clone(),
                    short_name: self.rows[i].short_name.clone(),
                    deleted: self.rows[i].deleted,
                },
            );
            i += 1;
        }
        assert(rows.deep_view() =~= self.rows.deep_view());
        CommitteeTable { rows, next_id: self.next_id }
    }

    /// Runs one statement of a write path on the table. `saved` is the copy
    /// that an open transaction goes back to on rollback; `now` is the time
    /// that a soft delete stamps.
    pub fn perform(
        &mut self,
        saved: &mut Option<CommitteeTable>,
        action: Action,
        now: i64,
    ) -> (reply: Reply)
        requires
            action is Insert ==> old(self)@.next_id < i32::MAX,
        ensures
            (
                final(self)@,
                saved_view(*final(saved)),
                reply.rows_affected as nat,
                reply.rows.deep_view(),
            ) == performed(old(self)@, saved_view(*old(saved)), action, now as int),
            final(self)@.wf(),
            reply.rows_affected <= 1,
    {
        proof {
            use_type_invariant(&*self);
        }
        match action {
            Action::Begin => {
                *saved = Some(self.snapshot());
                Reply { rows_affected: 0, rows: Vec::new() }
            },
            Action::Insert { full_name, short_name } => {
                self.insert(full_name, short_name);
                Reply { rows_affected: 1, rows: Vec::new() }
            },
            Action::UpdateNames { id, new_full_name, new_short_name } => {
                let rows_affected = self.update_names(id, new_full_name, new_short_name);
                Reply { rows_affected, rows: Vec::new() }
            },
            Action::SoftDelete { id } => {
                let rows_affected = self.soft_delete(id, now);
                Reply { rows_affected, rows: Vec::new() }
            },
            Action::ListActive => Reply { rows_affected: 0, rows: self.list_active() },
            Action::Commit => {
                *saved = None;
                Reply { rows_affected: 0, rows: Vec::new() }
            },
            Action::Rollback => {
                if let Some(before) = saved.take() {
                    proof {
                        use_type_invariant(&before);
                    }
                    *self = before;
                }
                Reply { rows_affected: 0, rows: Vec::new() }
            },
        }
    }
}

} // verus!
