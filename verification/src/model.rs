//! The committee table as mathematics: rows, the statements the storage
//! accessor runs on them, and what each write path makes of a table.
//!
//! Everything here is specification. The executable table refines it, and the
//! laws of the write paths are stated over it.

use vstd::prelude::*;

verus! {

/// A committee as a listing shows it.
pub struct Committee {
    pub id: int,
    pub full_name: Seq<char>,
    pub short_name: Seq<char>,
}

/// A stored committee row. `deleted` holds the time of its soft delete; a row
/// without one is active.
pub struct Row {
    pub id: int,
    pub full_name: Seq<char>,
    pub short_name: Seq<char>,
    pub deleted: Option<int>,
}

impl Row {
    /// The row was not soft-deleted.
    pub open spec fn is_active(self) -> bool {
        self.deleted is None
    }

    /// The row as a listing shows it.
    pub open spec fn committee(self) -> Committee {
        Committee { id: self.id, full_name: self.full_name, short_name: self.short_name }
    }

    /// The row with both names replaced.
    pub open spec fn renamed(self, full_name: Seq<char>, short_name: Seq<char>) -> Row {
        Row { full_name, short_name, ..self }
    }

    /// The row marked as deleted at `now`.
    pub open spec fn retired(self, now: int) -> Row {
        Row { deleted: Some(now), ..self }
    }
}

/// Selects the active rows.
pub open spec fn is_active() -> spec_fn(Row) -> bool {
    |row: Row| row.is_active()
}

/// Selects the rows with identity `id`, deleted or not.
pub open spec fn has_id(id: int) -> spec_fn(Row) -> bool {
    |row: Row| row.id == id
}

/// Selects the active rows with identity `id`.
pub open spec fn is_active_with_id(id: int) -> spec_fn(Row) -> bool {
    |row: Row| row.id == id && row.is_active()
}

/// Shows a row as a listing does.
pub open spec fn as_committee() -> spec_fn(Row) -> Committee {
    |row: Row| row.committee()
}

/// Gives the rows with identity `id` new names and leaves the others alone.
pub open spec fn rename_of(id: int, full_name: Seq<char>, short_name: Seq<char>) -> spec_fn(
    Row,
) -> Row {
    |row: Row|
        if row.id == id {
            row.renamed(full_name, short_name)
        } else {
            row
        }
}

/// Marks the active rows with identity `id` as deleted at `now` and leaves the
/// others alone.
pub open spec fn retire_of(id: int, now: int) -> spec_fn(Row) -> Row {
    |row: Row|
        if row.id == id && row.is_active() {
            row.retired(now)
        } else {
            row
        }
}

/// Gives the listed committee with identity `id` new names and leaves the
/// others alone.
pub open spec fn rename_entry(id: int, full_name: Seq<char>, short_name: Seq<char>) -> spec_fn(
    Committee,
) -> Committee {
    |entry: Committee|
        if entry.id == id {
            Committee { id, full_name, short_name }
        } else {
            entry
        }
}

/// Selects the listed committees whose identity is not `id`.
pub open spec fn other_than(id: int) -> spec_fn(Committee) -> bool {
    |entry: Committee| entry.id != id
}

/// What a listing of `rows` returns: the active ones, in their order.
pub open spec fn listing(rows: Seq<Row>) -> Seq<Committee> {
    rows.filter(is_active()).map_values(as_committee())
}

/// The committee table: its rows in the order of their insertion, and the
/// identity that the next insertion will assign.
pub struct Table {
    pub rows: Seq<Row>,
    pub next_id: int,
}

impl Table {
    /// The table before anything was inserted.
    pub open spec fn empty() -> Table {
        Table { rows: Seq::empty(), next_id: 1 }
    }

    /// Identities are unique, and all of them were assigned already.
    pub open spec fn wf(self) -> bool {
        &&& forall|i: int| 0 <= i < self.rows.len() ==> (#[trigger] self.rows[i]).id < self.next_id
        &&& forall|i: int, j: int|
            0 <= i < j < self.rows.len() ==> (#[trigger] self.rows[i]).id != (
            #[trigger] self.rows[j]).id
    }

    /// What a listing returns: the active rows, in table order.
    pub open spec fn active(self) -> Seq<Committee> {
        listing(self.rows)
    }

    /// The table after the insertion of a new active row.
    pub open spec fn insert(self, full_name: Seq<char>, short_name: Seq<char>) -> Table {
        Table {
            rows: self.rows.push(
                Row { id: self.next_id, full_name, short_name, deleted: None },
            ),
            next_id: self.next_id + 1,
        }
    }

    /// How many rows an update of `id` touches. Deleted rows count.
    pub open spec fn matched(self, id: int) -> nat {
        self.rows.filter(has_id(id)).len()
    }

    /// The table after an update of the names of `id`.
    pub open spec fn update_names(self, id: int, full_name: Seq<char>, short_name: Seq<char>)
        -> Table {
        Table { rows: self.rows.map_values(rename_of(id, full_name, short_name)), ..self }
    }

    /// How many rows a soft delete of `id` touches. Only active rows count.
    pub open spec fn live(self, id: int) -> nat {
        self.rows.filter(is_active_with_id(id)).len()
    }

    /// The table after a soft delete of `id` at `now`.
    pub open spec fn soft_delete(self, id: int, now: int) -> Table {
        Table { rows: self.rows.map_values(retire_of(id, now)), ..self }
    }
}

/// Reads the full name of a listed committee.
pub open spec fn full_name_of() -> spec_fn(Committee) -> Seq<char> {
    |entry: Committee| entry.full_name
}

/// Reads the short name of a listed committee.
pub open spec fn short_name_of() -> spec_fn(Committee) -> Seq<char> {
    |entry: Committee| entry.short_name
}

/// The full names of a listing, in its order.
pub open spec fn full_names(list: Seq<Committee>) -> Seq<Seq<char>> {
    list.map_values(full_name_of())
}

/// The short names of a listing, in its order.
pub open spec fn short_names(list: Seq<Committee>) -> Seq<Seq<char>> {
    list.map_values(short_name_of())
}

/// Two committees of the listing share a full name, or two share a short
/// name. The two kinds of name are separate namespaces.
pub open spec fn names_clash(list: Seq<Committee>) -> bool {
    !full_names(list).no_duplicates() || !short_names(list).no_duplicates()
}

/// Whether the add write path commits: after the insertion no two active
/// committees share a name.
pub open spec fn add_commits(table: Table, full_name: Seq<char>, short_name: Seq<char>) -> bool {
    !names_clash(table.insert(full_name, short_name).active())
}

/// The table that the add write path leaves.
pub open spec fn after_add(table: Table, full_name: Seq<char>, short_name: Seq<char>) -> Table {
    if add_commits(table, full_name, short_name) {
        table.insert(full_name, short_name)
    } else {
        table
    }
}

/// Whether the rename write path commits: the update touched a row, and after
/// it no two active committees share a name.
pub open spec fn rename_commits(
    table: Table,
    id: int,
    full_name: Seq<char>,
    short_name: Seq<char>,
) -> bool {
    table.matched(id) != 0 && !names_clash(table.update_names(id, full_name, short_name).active())
}

/// The table that the rename write path leaves.
pub open spec fn after_rename(table: Table, id: int, full_name: Seq<char>, short_name: Seq<char>)
    -> Table {
    if rename_commits(table, id, full_name, short_name) {
        table.update_names(id, full_name, short_name)
    } else {
        table
    }
}

/// Whether the delete write path commits: the soft delete touched a row.
pub open spec fn delete_commits(table: Table, id: int) -> bool {
    table.live(id) != 0
}

/// The table that the delete write path leaves.
pub open spec fn after_delete(table: Table, id: int, now: int) -> Table {
    if delete_commits(table, id) {
        table.soft_delete(id, now)
    } else {
        table
    }
}

/// One call of a write path.
pub enum Mutation {
    Add { full_name: Seq<char>, short_name: Seq<char> },
    Rename { id: int, new_full_name: Seq<char>, new_short_name: Seq<char> },
    Delete { id: int, now: int },
}

impl Mutation {
    /// Whether the call commits on `table`.
    pub open spec fn commits(self, table: Table) -> bool {
        match self {
            Mutation::Add { full_name, short_name } => add_commits(table, full_name, short_name),
            Mutation::Rename { id, new_full_name, new_short_name } => rename_commits(
                table,
                id,
                new_full_name,
                new_short_name,
            ),
            Mutation::Delete { id, now } => delete_commits(table, id),
        }
    }

    /// The table that the call leaves of `table`.
    pub open spec fn apply(self, table: Table) -> Table {
        match self {
            Mutation::Add { full_name, short_name } => after_add(table, full_name, short_name),
            Mutation::Rename { id, new_full_name, new_short_name } => after_rename(
                table,
                id,
                new_full_name,
                new_short_name,
            ),
            Mutation::Delete { id, now } => after_delete(table, id, now),
        }
    }

    /// What the call makes of the listing `list` of `table`, told without the
    /// rows: a call that does not commit leaves it alone; an add appends the
    /// new committee under the table's next identity; a rename replaces the
    /// names of the committee with that identity; a delete takes that
    /// committee out.
    pub open spec fn relist(self, table: Table, list: Seq<Committee>) -> Seq<Committee> {
        if !self.commits(table) {
            list
        } else {
            match self {
                Mutation::Add { full_name, short_name } => list.push(
                    Committee { id: table.next_id, full_name, short_name },
                ),
                Mutation::Rename { id, new_full_name, new_short_name } => list.map_values(
                    rename_entry(id, new_full_name, new_short_name),
                ),
                Mutation::Delete { id, now } => list.filter(other_than(id)),
            }
        }
    }
}

/// The table that the calls leave of `table`, made one after the other.
pub open spec fn apply_all(table: Table, calls: Seq<Mutation>) -> Table
    decreases calls.len(),
{
    if calls.len() == 0 {
        table
    } else {
        calls.last().apply(apply_all(table, calls.drop_last()))
    }
}

/// What the calls, made one after the other, make of the listing of `table`.
pub open spec fn relist_all(table: Table, calls: Seq<Mutation>) -> Seq<Committee>
    decreases calls.len(),
{
    if calls.len() == 0 {
        table.active()
    } else {
        calls.last().relist(
            apply_all(table, calls.drop_last()),
            relist_all(table, calls.drop_last()),
        )
    }
}

} // verus!
