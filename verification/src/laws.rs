//! What holds of the write paths, whatever table they meet and whatever they
//! are asked.

use crate::db::{
    add_outcome, delete_outcome, rename_outcome, AddCommitteeError, CommitteeRecord,
    DeleteCommitteeError, RenameCommitteeError,
};
use crate::facts::{
    lemma_listing_empty, lemma_listing_ids_distinct, lemma_listing_push, lemma_listing_renamed,
    lemma_listing_retired, lemma_listing_shows, lemma_live_none, lemma_matched_none,
    lemma_statements_keep_identities,
};
use crate::model::{
    add_commits, after_add, apply_all, full_name_of, full_names, listing, names_clash,
    other_than, relist_all, rename_entry, short_name_of, short_names, Committee, Mutation, Row,
    Table,
};
use crate::write_path::{
    add_committee_next, delete_committee_next, rename_committee_next, Action, Reply, Stage, Step,
};
use vstd::prelude::*;

verus! {

/// Some active committee of the table goes by this full name or by this short
/// name.
pub open spec fn name_taken(table: Table, full_name: Seq<char>, short_name: Seq<char>) -> bool {
    exists|k: int|
        0 <= k < table.rows.len() && (#[trigger] table.rows[k]).is_active() && (
        table.rows[k].full_name == full_name || table.rows[k].short_name == short_name)
}

/// Some active committee of the table, other than `id`, goes by this full
/// name or by this short name.
pub open spec fn name_taken_by_other(
    table: Table,
    id: int,
    full_name: Seq<char>,
    short_name: Seq<char>,
) -> bool {
    exists|k: int|
        0 <= k < table.rows.len() && (#[trigger] table.rows[k]).is_active() && table.rows[k].id
            != id && (table.rows[k].full_name == full_name || table.rows[k].short_name
            == short_name)
}

/// The table holds an active committee with identity `id`.
pub open spec fn is_listed(table: Table, id: int) -> bool {
    exists|k: int|
        0 <= k < table.rows.len() && (#[trigger] table.rows[k]).is_active() && table.rows[k].id
            == id
}

/// The table holds an active committee that goes by both of these names.
pub open spec fn holds_names(table: Table, full_name: Seq<char>, short_name: Seq<char>) -> bool {
    exists|k: int|
        0 <= k < table.rows.len() && (#[trigger] table.rows[k]).is_active()
            && table.rows[k].full_name == full_name && table.rows[k].short_name == short_name
}

/// Two entries of a listing with one full name, or with one short name, make
/// the listing clash.
proof fn lemma_shared_name_clashes(list: Seq<Committee>, a: int, b: int)
    requires
        0 <= a < list.len(),
        0 <= b < list.len(),
        a != b,
        list[a].full_name == list[b].full_name || list[a].short_name == list[b].short_name,
    ensures
        names_clash(list),
{
    if list[a].full_name == list[b].full_name {
        assert(full_names(list)[a] == full_names(list)[b]);
    } else {
        assert(short_names(list)[a] == short_names(list)[b]);
    }
}

/// Inserting a name that an active committee goes by makes the listing clash.
proof fn lemma_taken_name_clashes(table: Table, full_name: Seq<char>, short_name: Seq<char>)
    requires
        name_taken(table, full_name, short_name),
    ensures
        !add_commits(table, full_name, short_name),
{
    let rows = table.rows;
    let k = choose|k: int|
        0 <= k < rows.len() && (#[trigger] rows[k]).is_active() && (rows[k].full_name == full_name
            || rows[k].short_name == short_name);
    let added = Row { id: table.next_id, full_name, short_name, deleted: None };
    lemma_listing_push(rows, added);
    lemma_listing_shows(rows, rows[k].committee());
    let list = listing(rows);
    let a = choose|a: int| 0 <= a < list.len() && list[a] == rows[k].committee();
    let after = table.insert(full_name, short_name).active();
    assert(after == list.push(added.committee()));
    lemma_shared_name_clashes(after, a, list.len() as int);
}

/// An add whose full name or short name an active committee already goes by
/// fails with `Duplicate` and leaves the table as it was, row for row.
pub proof fn law_add_of_taken_name_is_refused(
    before: Table,
    full_name: Seq<char>,
    short_name: Seq<char>,
    after: Table,
    result: Result<Vec<CommitteeRecord>, AddCommitteeError>,
)
    requires
        add_outcome(before, full_name, short_name, after, result),
        name_taken(before, full_name, short_name),
    ensures
        result == Err::<Vec<CommitteeRecord>, AddCommitteeError>(AddCommitteeError::Duplicate),
        after == before,
        after.rows.len() == before.rows.len(),
        after.active() == before.active(),
{
    lemma_taken_name_clashes(before, full_name, short_name);
}

/// Where no two active committees share a name, an add of a full name and a
/// short name that no active committee goes by succeeds, and the new
/// committee is listed last, under the identity that was next.
pub proof fn law_add_of_free_name_commits(
    before: Table,
    full_name: Seq<char>,
    short_name: Seq<char>,
    after: Table,
    result: Result<Vec<CommitteeRecord>, AddCommitteeError>,
)
    requires
        add_outcome(before, full_name, short_name, after, result),
        !names_clash(before.active()),
        !name_taken(before, full_name, short_name),
    ensures
        result matches Ok(list) && list.deep_view() == after.active(),
        after.active() == before.active().push(
            Committee { id: before.next_id, full_name, short_name },
        ),
{
    let rows = before.rows;
    let list = listing(rows);
    let added = Row { id: before.next_id, full_name, short_name, deleted: None };
    lemma_listing_push(rows, added);
    let grown = list.push(added.committee());
    assert forall|a: int, b: int| 0 <= a < grown.len() && 0 <= b < grown.len() && a != b implies {
        &&& full_names(grown)[a] != full_names(grown)[b]
        &&& short_names(grown)[a] != short_names(grown)[b]
    } by {
        if a < list.len() && b < list.len() {
            assert(full_names(list)[a] != full_names(list)[b]);
            assert(short_names(list)[a] != short_names(list)[b]);
        } else {
            let inner = if a < list.len() {
                a
            } else {
                b
            };
            assert(list.contains(list[inner]));
            lemma_listing_shows(rows, list[inner]);
        }
    }
}

/// An add that commits leaves an active committee with its names.
proof fn lemma_committed_add_holds(table: Table, full_name: Seq<char>, short_name: Seq<char>)
    requires
        add_commits(table, full_name, short_name),
    ensures
        holds_names(after_add(table, full_name, short_name), full_name, short_name),
{
    let after = after_add(table, full_name, short_name);
    assert(after.rows[table.rows.len() as int].is_active());
}

/// No add takes an active committee away or changes its names.
proof fn lemma_add_keeps_names(
    table: Table,
    full_name: Seq<char>,
    short_name: Seq<char>,
    held_full_name: Seq<char>,
    held_short_name: Seq<char>,
)
    requires
        holds_names(table, held_full_name, held_short_name),
    ensures
        holds_names(after_add(table, full_name, short_name), held_full_name, held_short_name),
{
    let k = choose|k: int|
        0 <= k < table.rows.len() && (#[trigger] table.rows[k]).is_active()
            && table.rows[k].full_name == held_full_name && table.rows[k].short_name
            == held_short_name;
    let after = after_add(table, full_name, short_name);
    assert(after.rows[k] == table.rows[k]);
}

/// Every call is an add.
pub open spec fn all_adds(calls: Seq<Mutation>) -> bool {
    forall|k: int| 0 <= k < calls.len() ==> (#[trigger] calls[k]) is Add
}

/// Whether call `i` of `calls` commits, when they are made one after the
/// other from `table` on.
pub open spec fn commits_at(table: Table, calls: Seq<Mutation>, i: int) -> bool {
    calls[i].commits(apply_all(table, calls.take(i)))
}

/// The names of an add that committed are held from then on, as long as only
/// adds follow.
proof fn lemma_adds_keep_names(table: Table, calls: Seq<Mutation>, i: int, upto: int)
    requires
        all_adds(calls),
        0 <= i < upto <= calls.len(),
        commits_at(table, calls, i),
    ensures
        holds_names(
            apply_all(table, calls.take(upto)),
            calls[i]->full_name,
            calls[i]->short_name,
        ),
    decreases upto,
{
    let last = calls[upto - 1];
    assert(calls.take(upto).drop_last() =~= calls.take(upto - 1));
    assert(calls.take(upto).last() == last);
    let earlier = apply_all(table, calls.take(upto - 1));
    assert(apply_all(table, calls.take(upto)) == last.apply(earlier));
    assert(last is Add);
    if upto - 1 == i {
        lemma_committed_add_holds(earlier, last->full_name, last->short_name);
    } else {
        lemma_adds_keep_names(table, calls, i, upto - 1);
        lemma_add_keeps_names(
            earlier,
            last->full_name,
            last->short_name,
            calls[i]->full_name,
            calls[i]->short_name,
        );
    }
}

/// Of a run of adds, any two that commit differ in their full names and
/// differ in their short names.
pub proof fn law_committed_adds_are_distinct(table: Table, calls: Seq<Mutation>, i: int, j: int)
    requires
        all_adds(calls),
        0 <= i < j < calls.len(),
        commits_at(table, calls, i),
        commits_at(table, calls, j),
    ensures
        calls[i]->full_name != calls[j]->full_name,
        calls[i]->short_name != calls[j]->short_name,
{
    let met = apply_all(table, calls.take(j));
    lemma_adds_keep_names(table, calls, i, j);
    if calls[i]->full_name == calls[j]->full_name || calls[i]->short_name
        == calls[j]->short_name {
        let k = choose|k: int|
            0 <= k < met.rows.len() && (#[trigger] met.rows[k]).is_active()
                && met.rows[k].full_name == calls[i]->full_name && met.rows[k].short_name
                == calls[i]->short_name;
        assert(name_taken(met, calls[j]->full_name, calls[j]->short_name));
        lemma_taken_name_clashes(met, calls[j]->full_name, calls[j]->short_name);
    }
}

/// A rename of an active committee to a full name or a short name that
/// another active committee goes by fails with `Duplicate`, and every
/// committee keeps the names it had.
pub proof fn law_rename_onto_taken_name_is_refused(
    before: Table,
    id: int,
    full_name: Seq<char>,
    short_name: Seq<char>,
    after: Table,
    result: Result<Vec<CommitteeRecord>, RenameCommitteeError>,
)
    requires
        rename_outcome(before, id, full_name, short_name, after, result),
        is_listed(before, id),
        name_taken_by_other(before, id, full_name, short_name),
    ensures
        result == Err::<Vec<CommitteeRecord>, RenameCommitteeError>(
            RenameCommitteeError::Duplicate,
        ),
        after == before,
        after.active() == before.active(),
{
    let rows = before.rows;
    let own = choose|k: int|
        0 <= k < rows.len() && (#[trigger] rows[k]).is_active() && rows[k].id == id;
    let other = choose|k: int|
        0 <= k < rows.len() && (#[trigger] rows[k]).is_active() && rows[k].id != id && (
        rows[k].full_name == full_name || rows[k].short_name == short_name);
    lemma_matched_none(before, id);
    let list = listing(rows);
    lemma_listing_shows(rows, rows[own].committee());
    lemma_listing_shows(rows, rows[other].committee());
    let a = choose|a: int| 0 <= a < list.len() && list[a] == rows[own].committee();
    let b = choose|b: int| 0 <= b < list.len() && list[b] == rows[other].committee();
    lemma_listing_renamed(rows, id, full_name, short_name);
    let renamed = before.update_names(id, full_name, short_name).active();
    assert(renamed == list.map_values(rename_entry(id, full_name, short_name)));
    assert(renamed[a].full_name == full_name && renamed[a].short_name == short_name);
    assert(renamed[b] == list[b]);
    lemma_shared_name_clashes(renamed, a, b);
}

/// A rename of an identity that no row has fails with `NotFound` and leaves
/// the table as it was.
pub proof fn law_rename_of_missing_is_refused(
    before: Table,
    id: int,
    full_name: Seq<char>,
    short_name: Seq<char>,
    after: Table,
    result: Result<Vec<CommitteeRecord>, RenameCommitteeError>,
)
    requires
        rename_outcome(before, id, full_name, short_name, after, result),
        forall|k: int| 0 <= k < before.rows.len() ==> (#[trigger] before.rows[k]).id != id,
    ensures
        result == Err::<Vec<CommitteeRecord>, RenameCommitteeError>(
            RenameCommitteeError::NotFound,
        ),
        after == before,
{
    lemma_matched_none(before, id);
}

/// Where no two active committees share a name, a rename of a committee that
/// was deleted succeeds whatever the new names are: the row takes them, and
/// the listing stays as it was.
pub proof fn law_rename_of_deleted_is_silent(
    before: Table,
    id: int,
    full_name: Seq<char>,
    short_name: Seq<char>,
    after: Table,
    result: Result<Vec<CommitteeRecord>, RenameCommitteeError>,
)
    requires
        rename_outcome(before, id, full_name, short_name, after, result),
        !names_clash(before.active()),
        !is_listed(before, id),
        exists|k: int| 0 <= k < before.rows.len() && (#[trigger] before.rows[k]).id == id,
    ensures
        result matches Ok(list) && list.deep_view() == before.active(),
        after == before.update_names(id, full_name, short_name),
        after.active() == before.active(),
{
    let rows = before.rows;
    let list = listing(rows);
    lemma_matched_none(before, id);
    lemma_listing_renamed(rows, id, full_name, short_name);
    let renamed = list.map_values(rename_entry(id, full_name, short_name));
    assert forall|a: int| 0 <= a < list.len() implies renamed[a] == list[a] by {
        assert(list.contains(list[a]));
        lemma_listing_shows(rows, list[a]);
    }
    assert(renamed =~= list);
}

/// Where identities are unique and no two active committees share a name, a
/// rename of an active committee to a full name and a short name that no
/// other active committee goes by succeeds: the committee is listed under
/// the new names, in its place, and nothing else of the listing changes.
pub proof fn law_rename_to_free_name_commits(
    before: Table,
    id: int,
    full_name: Seq<char>,
    short_name: Seq<char>,
    after: Table,
    result: Result<Vec<CommitteeRecord>, RenameCommitteeError>,
)
    requires
        rename_outcome(before, id, full_name, short_name, after, result),
        before.wf(),
        !names_clash(before.active()),
        is_listed(before, id),
        !name_taken_by_other(before, id, full_name, short_name),
    ensures
        result matches Ok(list) && list.deep_view() == after.active(),
        after.active() == before.active().map_values(rename_entry(id, full_name, short_name)),
{
    let rows = before.rows;
    let list = listing(rows);
    lemma_matched_none(before, id);
    lemma_listing_renamed(rows, id, full_name, short_name);
    lemma_listing_ids_distinct(rows);
    let renamed = list.map_values(rename_entry(id, full_name, short_name));
    assert forall|a: int, b: int|
        0 <= a < renamed.len() && 0 <= b < renamed.len() && a != b implies {
        &&& full_names(renamed)[a] != full_names(renamed)[b]
        &&& short_names(renamed)[a] != short_names(renamed)[b]
    } by {
        assert(list[a].id != list[b].id);
        assert(full_names(list)[a] != full_names(list)[b]);
        assert(short_names(list)[a] != short_names(list)[b]);
        if list[a].id == id || list[b].id == id {
            let other = if list[a].id == id {
                b
            } else {
                a
            };
            assert(list.contains(list[other]));
            lemma_listing_shows(rows, list[other]);
        }
    }
}

/// A delete of an identity that no active committee has, because none ever
/// had it or because that committee is deleted already, fails with `NotFound`
/// and leaves the table as it was.
pub proof fn law_delete_of_missing_is_refused(
    before: Table,
    id: int,
    now: int,
    after: Table,
    result: Result<Vec<CommitteeRecord>, DeleteCommitteeError>,
)
    requires
        delete_outcome(before, id, now, after, result),
        !is_listed(before, id),
    ensures
        result == Err::<Vec<CommitteeRecord>, DeleteCommitteeError>(
            DeleteCommitteeError::NotFound,
        ),
        after == before,
{
    lemma_live_none(before, id);
}

/// A delete of an active committee succeeds. It stamps the rows of that
/// identity as deleted, removes no row, and takes the committee, and nothing
/// else, out of the listing that it returns and of every listing of the table
/// it leaves.
pub proof fn law_delete_of_listed_retires_it(
    before: Table,
    id: int,
    now: int,
    after: Table,
    result: Result<Vec<CommitteeRecord>, DeleteCommitteeError>,
)
    requires
        delete_outcome(before, id, now, after, result),
        is_listed(before, id),
    ensures
        result matches Ok(list) && list.deep_view() == after.active(),
        after.rows.len() == before.rows.len(),
        forall|k: int|
            0 <= k < after.rows.len() && (#[trigger] after.rows[k]).id == id
                ==> !after.rows[k].is_active(),
        after.active() == before.active().filter(other_than(id)),
        !is_listed(after, id),
        forall|j: int| 0 <= j < after.active().len() ==> (#[trigger] after.active()[j]).id != id,
{
    lemma_live_none(before, id);
    lemma_listing_retired(before.rows, id, now);
    assert forall|j: int| 0 <= j < after.active().len() implies (#[trigger] after.active()[j]).id
        != id by {
        before.active().lemma_filter_pred(other_than(id), j);
    }
}

/// A call does not bring back an identity that was handed out and is not
/// listed, and it hands out no identity a second time.
proof fn lemma_call_keeps_out(table: Table, id: int, call: Mutation)
    requires
        table.wf(),
        id < table.next_id,
        !is_listed(table, id),
    ensures
        call.apply(table).wf(),
        id < call.apply(table).next_id,
        !is_listed(call.apply(table), id),
{
    lemma_statements_keep_identities(table);
    let after = call.apply(table);
    assert forall|k: int| 0 <= k < after.rows.len() implies !((#[trigger] after.rows[k]).is_active()
        && after.rows[k].id == id) by {
        if k < table.rows.len() {
            assert(!(table.rows[k].is_active() && table.rows[k].id == id));
        }
    }
}

/// A committee that was deleted stays deleted: an identity that was handed
/// out and is not listed is in no listing after any run of adds, renames and
/// deletes.
pub proof fn law_deleted_stays_out(table: Table, id: int, calls: Seq<Mutation>)
    requires
        table.wf(),
        id < table.next_id,
        !is_listed(table, id),
    ensures
        apply_all(table, calls).wf(),
        id < apply_all(table, calls).next_id,
        !is_listed(apply_all(table, calls), id),
        forall|j: int|
            0 <= j < apply_all(table, calls).active().len() ==> (#[trigger] apply_all(
                table,
                calls,
            ).active()[j]).id != id,
    decreases calls.len(),
{
    if calls.len() > 0 {
        law_deleted_stays_out(table, id, calls.drop_last());
        lemma_call_keeps_out(apply_all(table, calls.drop_last()), id, calls.last());
    }
    let after = apply_all(table, calls);
    assert forall|j: int| 0 <= j < after.active().len() implies (#[trigger] after.active()[j]).id
        != id by {
        let entry = after.active()[j];
        assert(after.active().contains(entry));
        lemma_listing_shows(after.rows, entry);
    }
}

/// A call changes the listing as its own account says: a call that fails
/// changes nothing, an add appends, a rename replaces names in place, a
/// delete removes. Deleted rows never show.
pub proof fn law_listing_follows_call(table: Table, call: Mutation)
    ensures
        call.apply(table).active() == call.relist(table, table.active()),
{
    if call.commits(table) {
        match call {
            Mutation::Add { full_name, short_name } => {
                lemma_listing_push(
                    table.rows,
                    Row { id: table.next_id, full_name, short_name, deleted: None },
                );
            },
            Mutation::Rename { id, new_full_name, new_short_name } => {
                lemma_listing_renamed(table.rows, id, new_full_name, new_short_name);
            },
            Mutation::Delete { id, now } => {
                lemma_listing_retired(table.rows, id, now);
            },
        }
    }
}

/// After any run of adds, renames and deletes the listing is what the calls
/// that committed made of it, each in its turn: the committees added and not
/// deleted since, each under the names of the last add or rename of it that
/// committed.
pub proof fn law_listing_follows_calls(table: Table, calls: Seq<Mutation>)
    ensures
        apply_all(table, calls).active() == relist_all(table, calls),
    decreases calls.len(),
{
    if calls.len() > 0 {
        law_listing_follows_calls(table, calls.drop_last());
        law_listing_follows_call(apply_all(table, calls.drop_last()), calls.last());
    }
}

/// Dropping entries from a sequence in which no two entries agree under
/// `key` leaves one in which no two agree under it.
proof fn lemma_filter_keeps_distinct<A, B>(
    entries: Seq<A>,
    keep: spec_fn(A) -> bool,
    key: spec_fn(A) -> B,
)
    requires
        entries.map_values(key).no_duplicates(),
    ensures
        entries.filter(keep).map_values(key).no_duplicates(),
    decreases entries.len(),
{
    reveal(Seq::filter);
    if entries.len() > 0 {
        let head = entries.drop_last();
        let last = entries.last();
        assert forall|a: int, b: int|
            0 <= a < head.len() && 0 <= b < head.len() && a != b implies head.map_values(key)[a]
            != head.map_values(key)[b] by {
            assert(entries.map_values(key)[a] != entries.map_values(key)[b]);
        }
        lemma_filter_keeps_distinct(head, keep, key);
        let kept = head.filter(keep);
        if keep(last) {
            let all = entries.filter(keep);
            assert(all == kept.push(last));
            assert forall|a: int, b: int|
                0 <= a < all.len() && 0 <= b < all.len() && a != b implies all.map_values(key)[a]
                != all.map_values(key)[b] by {
                if a < kept.len() && b < kept.len() {
                    assert(kept.map_values(key)[a] != kept.map_values(key)[b]);
                } else {
                    let inner = if a < kept.len() {
                        a
                    } else {
                        b
                    };
                    assert(kept.contains(kept[inner]));
                    head.lemma_filter_contains_rev(keep, kept[inner]);
                    let at = choose|at: int| 0 <= at < head.len() && head[at] == kept[inner];
                    assert(entries.map_values(key)[at] != entries.map_values(key)[entries.len()
                        - 1]);
                }
            }
        }
    }
}

/// If no two active committees share a full name or share a short name, then
/// none do after a call, whether it commits or not.
pub proof fn law_names_stay_unique(table: Table, call: Mutation)
    requires
        !names_clash(table.active()),
    ensures
        !names_clash(call.apply(table).active()),
{
    if call.commits(table) {
        match call {
            Mutation::Add { full_name, short_name } => {},
            Mutation::Rename { id, new_full_name, new_short_name } => {},
            Mutation::Delete { id, now } => {
                lemma_listing_retired(table.rows, id, now);
                lemma_filter_keeps_distinct(table.active(), other_than(id), full_name_of());
                lemma_filter_keeps_distinct(table.active(), other_than(id), short_name_of());
            },
        }
    }
}

/// From a table without rows on, whatever is asked of the write paths, no two
/// active committees ever share a full name or share a short name.
pub proof fn law_names_are_unique(calls: Seq<Mutation>)
    ensures
        !names_clash(apply_all(Table::empty(), calls).active()),
    decreases calls.len(),
{
    if calls.len() == 0 {
        lemma_listing_empty();
    } else {
        law_names_are_unique(calls.drop_last());
        law_names_stay_unique(apply_all(Table::empty(), calls.drop_last()), calls.last());
    }
}

/// No call changes the identity of a row or hands an identity out twice: if
/// identities are unique before a call, they are after it, and every row is
/// still there under its identity.
pub proof fn law_identities_stay_unique(table: Table, call: Mutation)
    requires
        table.wf(),
    ensures
        call.apply(table).wf(),
        table.rows.len() <= call.apply(table).rows.len(),
        forall|k: int|
            0 <= k < table.rows.len() ==> (#[trigger] call.apply(table).rows[k]).id
                == table.rows[k].id,
{
    lemma_statements_keep_identities(table);
}

/// Once its transaction is open, a write path answers a statement that
/// storage failed on with a rollback, and returns that failure after it.
pub proof fn law_failed_statement_rolls_back(
    failure: sqlx::Error,
    id: i32,
    full_name: &str,
    short_name: &str,
)
    ensures
        forall|stage: Stage<AddCommitteeError>|
            stage is Mutating || stage is Listing ==> #[trigger] add_committee_next(
                stage,
                Err(failure),
                full_name,
                short_name,
            ) == Step::Perform(
                Stage::Aborting(AddCommitteeError::Other(failure)),
                Action::Rollback,
            ),
        forall|stage: Stage<RenameCommitteeError>|
            stage is Mutating || stage is Listing ==> #[trigger] rename_committee_next(
                stage,
                Err(failure),
                id,
                full_name,
                short_name,
            ) == Step::Perform(
                Stage::Aborting(RenameCommitteeError::Other(failure)),
                Action::Rollback,
            ),
        forall|stage: Stage<DeleteCommitteeError>|
            stage is Mutating || stage is Listing ==> #[trigger] delete_committee_next(
                stage,
                Err(failure),
                id,
            ) == Step::Perform(
                Stage::Aborting(DeleteCommitteeError::Other(failure)),
                Action::Rollback,
            ),
        forall|error: AddCommitteeError, reply: Result<Reply, sqlx::Error>|
            #[trigger] add_committee_next(Stage::Aborting(error), reply, full_name, short_name)
                == Step::<AddCommitteeError>::Finish(Err(error)),
        forall|error: RenameCommitteeError, reply: Result<Reply, sqlx::Error>|
            #[trigger] rename_committee_next(
                Stage::Aborting(error),
                reply,
                id,
                full_name,
                short_name,
            ) == Step::<RenameCommitteeError>::Finish(Err(error)),
        forall|error: DeleteCommitteeError, reply: Result<Reply, sqlx::Error>|
            #[trigger] delete_committee_next(Stage::Aborting(error), reply, id) == Step::<
                DeleteCommitteeError,
            >::Finish(Err(error)),
{
}

/// A write path returns a listing only when storage has confirmed the commit,
/// and the listing is the one read back before it.
pub proof fn law_only_a_commit_succeeds(
    reply: Result<Reply, sqlx::Error>,
    id: i32,
    full_name: &str,
    short_name: &str,
)
    ensures
        forall|stage: Stage<AddCommitteeError>|
            (#[trigger] add_committee_next(
                stage,
                reply,
                full_name,
                short_name,
            )) matches Step::Finish(Ok(list)) ==> reply is Ok && stage == Stage::<
                AddCommitteeError,
            >::Committing(list),
        forall|stage: Stage<RenameCommitteeError>|
            (#[trigger] rename_committee_next(
                stage,
                reply,
                id,
                full_name,
                short_name,
            )) matches Step::Finish(Ok(list)) ==> reply is Ok && stage == Stage::<
                RenameCommitteeError,
            >::Committing(list),
        forall|stage: Stage<DeleteCommitteeError>|
            (#[trigger] delete_committee_next(stage, reply, id)) matches Step::Finish(Ok(list))
                ==> reply is Ok && stage == Stage::<DeleteCommitteeError>::Committing(list),
{
}

/// Every step that asks for a statement brings a write path nearer to its
/// end: a path asks for four statements at most, the opening of its
/// transaction included.
pub proof fn law_write_paths_run_out(
    reply: Result<Reply, sqlx::Error>,
    id: i32,
    full_name: &str,
    short_name: &str,
)
    ensures
        forall|stage: Stage<AddCommitteeError>|
            (#[trigger] add_committee_next(
                stage,
                reply,
                full_name,
                short_name,
            )) matches Step::Perform(next, _) ==> next.remaining() < stage.remaining() <= 4,
        forall|stage: Stage<RenameCommitteeError>|
            (#[trigger] rename_committee_next(
                stage,
                reply,
                id,
                full_name,
                short_name,
            )) matches Step::Perform(next, _) ==> next.remaining() < stage.remaining() <= 4,
        forall|stage: Stage<DeleteCommitteeError>|
            (#[trigger] delete_committee_next(stage, reply, id)) matches Step::Perform(next, _)
                ==> next.remaining() < stage.remaining() <= 4,
{
}

} // verus!
