//! Facts about listings: how the active set changes under each statement of
//! the storage accessor.

use crate::model::{
    as_committee, has_id, is_active, is_active_with_id, listing, other_than, rename_entry,
    rename_of, retire_of, Committee, Row, Table,
};
use vstd::prelude::*;

verus! {

/// Nothing is listed of no rows.
pub proof fn lemma_listing_empty()
    ensures
        listing(Seq::<Row>::empty()) == Seq::<Committee>::empty(),
{
    reveal(Seq::filter);
    assert(listing(Seq::<Row>::empty()) =~= Seq::<Committee>::empty());
}

/// A further row shows at the end of the listing if it is active, and not at
/// all if it is deleted.
pub proof fn lemma_listing_push(rows: Seq<Row>, row: Row)
    ensures
        listing(rows.push(row)) == if row.is_active() {
            listing(rows).push(row.committee())
        } else {
            listing(rows)
        },
{
    rows.lemma_filter_push(row, is_active());
    rows.filter(is_active()).lemma_push_map_commute(as_committee(), row);
}

/// A committee is listed exactly if an active row shows it.
pub proof fn lemma_listing_shows(rows: Seq<Row>, entry: Committee)
    ensures
        listing(rows).contains(entry) <==> exists|k: int|
            0 <= k < rows.len() && (#[trigger] rows[k]).is_active() && rows[k].committee() == entry,
    decreases rows.len(),
{
    if rows.len() == 0 {
        lemma_listing_empty();
        assert(rows =~= Seq::<Row>::empty());
    } else {
        let head = rows.drop_last();
        let last = rows.last();
        assert(rows =~= head.push(last));
        lemma_listing_push(head, last);
        lemma_listing_shows(head, entry);
        if listing(rows).contains(entry) {
            let j = choose|j: int| 0 <= j < listing(rows).len() && listing(rows)[j] == entry;
            if last.is_active() && j == listing(head).len() {
                assert(rows[rows.len() - 1].is_active());
            } else {
                assert(listing(head)[j] == entry);
                assert(listing(head).contains(entry));
                let k = choose|k: int|
                    0 <= k < head.len() && (#[trigger] head[k]).is_active() && head[k].committee()
                        == entry;
                assert(rows[k] == head[k]);
            }
        }
        if exists|k: int|
            0 <= k < rows.len() && (#[trigger] rows[k]).is_active() && rows[k].committee()
                == entry {
            let k = choose|k: int|
                0 <= k < rows.len() && (#[trigger] rows[k]).is_active() && rows[k].committee()
                    == entry;
            if k == rows.len() - 1 {
                assert(listing(rows)[listing(head).len() as int] == entry);
            } else {
                assert(head[k] == rows[k]);
                assert(listing(head).contains(entry));
                let j = choose|j: int| 0 <= j < listing(head).len() && listing(head)[j] == entry;
                assert(listing(rows)[j] == entry);
            }
        }
    }
}

/// Renaming rows by identity renames the listed committee of that identity,
/// in place, and changes nothing else of the listing.
pub proof fn lemma_listing_renamed(
    rows: Seq<Row>,
    id: int,
    full_name: Seq<char>,
    short_name: Seq<char>,
)
    ensures
        listing(rows.map_values(rename_of(id, full_name, short_name))) == listing(rows).map_values(
            rename_entry(id, full_name, short_name),
        ),
    decreases rows.len(),
{
    let rename = rename_of(id, full_name, short_name);
    let entry = rename_entry(id, full_name, short_name);
    if rows.len() == 0 {
        lemma_listing_empty();
        assert(rows.map_values(rename) =~= Seq::<Row>::empty());
        assert(rows =~= Seq::<Row>::empty());
        assert(listing(rows).map_values(entry) =~= Seq::<Committee>::empty());
    } else {
        let head = rows.drop_last();
        let last = rows.last();
        assert(rows =~= head.push(last));
        assert(rows.map_values(rename) =~= head.map_values(rename).push(rename(last)));
        lemma_listing_renamed(head, id, full_name, short_name);
        lemma_listing_push(head, last);
        lemma_listing_push(head.map_values(rename), rename(last));
        if last.is_active() {
            assert(listing(head).push(last.committee()).map_values(entry) =~= listing(
                head,
            ).map_values(entry).push(entry(last.committee())));
        }
    }
}

/// Retiring the active rows of an identity takes the committee of that
/// identity out of the listing and changes nothing else of it.
pub proof fn lemma_listing_retired(rows: Seq<Row>, id: int, now: int)
    ensures
        listing(rows.map_values(retire_of(id, now))) == listing(rows).filter(other_than(id)),
    decreases rows.len(),
{
    let retire = retire_of(id, now);
    if rows.len() == 0 {
        lemma_listing_empty();
        assert(rows.map_values(retire) =~= Seq::<Row>::empty());
        assert(rows =~= Seq::<Row>::empty());
        assert(Seq::<Committee>::empty().filter(other_than(id)) =~= Seq::<Committee>::empty()) by {
            reveal(Seq::filter);
        }
    } else {
        let head = rows.drop_last();
        let last = rows.last();
        assert(rows =~= head.push(last));
        assert(rows.map_values(retire) =~= head.map_values(retire).push(retire(last)));
        lemma_listing_retired(head, id, now);
        lemma_listing_push(head, last);
        lemma_listing_push(head.map_values(retire), retire(last));
        if last.is_active() {
            listing(head).lemma_filter_push(last.committee(), other_than(id));
        }
    }
}

/// An update touches no row exactly if no row has the identity.
pub proof fn lemma_matched_none(table: Table, id: int)
    ensures
        table.matched(id) == 0 <==> forall|k: int|
            0 <= k < table.rows.len() ==> (#[trigger] table.rows[k]).id != id,
{
    let rows = table.rows;
    if forall|k: int| 0 <= k < rows.len() ==> (#[trigger] rows[k]).id != id {
        let select = has_id(id);
        assert(rows.all(|row: Row| !select(row)));
        rows.lemma_all_neg_filter_empty(select);
    } else {
        let k = choose|k: int| 0 <= k < rows.len() && (#[trigger] rows[k]).id == id;
        rows.lemma_filter_contains(has_id(id), k);
    }
}

/// A soft delete touches no row exactly if no active row has the identity.
pub proof fn lemma_live_none(table: Table, id: int)
    ensures
        table.live(id) == 0 <==> forall|k: int|
            0 <= k < table.rows.len() ==> !((#[trigger] table.rows[k]).id == id
                && table.rows[k].is_active()),
{
    let rows = table.rows;
    if forall|k: int|
        0 <= k < rows.len() ==> !((#[trigger] rows[k]).id == id && rows[k].is_active()) {
        let select = is_active_with_id(id);
        assert(rows.all(|row: Row| !select(row)));
        rows.lemma_all_neg_filter_empty(select);
    } else {
        let k = choose|k: int|
            0 <= k < rows.len() && (#[trigger] rows[k]).id == id && rows[k].is_active();
        rows.lemma_filter_contains(is_active_with_id(id), k);
    }
}

/// Where at most one entry of a sequence is selected, the selection has at
/// most one entry.
proof fn lemma_filter_of_one<A>(entries: Seq<A>, select: spec_fn(A) -> bool)
    requires
        forall|a: int, b: int|
            0 <= a < b < entries.len() ==> !(select(#[trigger] entries[a]) && select(
                #[trigger] entries[b],
            )),
    ensures
        entries.filter(select).len() <= 1,
    decreases entries.len(),
{
    reveal(Seq::filter);
    if entries.len() > 0 {
        let head = entries.drop_last();
        if select(entries.last()) {
            assert forall|a: int| 0 <= a < head.len() implies !select(#[trigger] head[a]) by {
                assert(head[a] == entries[a]);
                assert(entries.last() == entries[entries.len() - 1]);
            }
            assert(head.all(|entry: A| !select(entry)));
            head.lemma_all_neg_filter_empty(select);
        } else {
            assert forall|a: int, b: int| 0 <= a < b < head.len() implies !(select(
                #[trigger] head[a],
            ) && select(#[trigger] head[b])) by {
                assert(head[a] == entries[a] && head[b] == entries[b]);
            }
            lemma_filter_of_one(head, select);
        }
    }
}

/// Identities are unique, so an update by identity and a soft delete by
/// identity each touch one row or none.
pub proof fn lemma_touches_one_row_at_most(table: Table, id: int)
    requires
        table.wf(),
    ensures
        table.matched(id) <= 1,
        table.live(id) <= 1,
{
    lemma_filter_of_one(table.rows, has_id(id));
    lemma_filter_of_one(table.rows, is_active_with_id(id));
}

/// No statement changes the identity of a row, and an insertion hands out an
/// identity that no row has.
pub proof fn lemma_statements_keep_identities(table: Table)
    requires
        table.wf(),
    ensures
        forall|full_name: Seq<char>, short_name: Seq<char>|
            (#[trigger] table.insert(full_name, short_name)).wf(),
        forall|id: int, full_name: Seq<char>, short_name: Seq<char>|
            (#[trigger] table.update_names(id, full_name, short_name)).wf(),
        forall|id: int, now: int| (#[trigger] table.soft_delete(id, now)).wf(),
{
    assert forall|full_name: Seq<char>, short_name: Seq<char>|
        (#[trigger] table.insert(full_name, short_name)).wf() by {
        let after = table.insert(full_name, short_name);
        assert forall|i: int, j: int| 0 <= i < j < after.rows.len() implies (
        #[trigger] after.rows[i]).id != (#[trigger] after.rows[j]).id by {
            if j < table.rows.len() {
                assert(table.rows[i].id != table.rows[j].id);
            } else {
                assert(table.rows[i].id < table.next_id);
            }
        }
        assert forall|i: int| 0 <= i < after.rows.len() implies (#[trigger] after.rows[i]).id
            < after.next_id by {
            if i < table.rows.len() {
                assert(table.rows[i].id < table.next_id);
            }
        }
    }
    assert forall|id: int, full_name: Seq<char>, short_name: Seq<char>|
        (#[trigger] table.update_names(id, full_name, short_name)).wf() by {
        let after = table.update_names(id, full_name, short_name);
        assert forall|i: int, j: int| 0 <= i < j < after.rows.len() implies (
        #[trigger] after.rows[i]).id != (#[trigger] after.rows[j]).id by {
            assert(table.rows[i].id != table.rows[j].id);
        }
        assert forall|i: int| 0 <= i < after.rows.len() implies (#[trigger] after.rows[i]).id
            < after.next_id by {
            assert(table.rows[i].id < table.next_id);
        }
    }
    assert forall|id: int, now: int| (#[trigger] table.soft_delete(id, now)).wf() by {
        let after = table.soft_delete(id, now);
        assert forall|i: int, j: int| 0 <= i < j < after.rows.len() implies (
        #[trigger] after.rows[i]).id != (#[trigger] after.rows[j]).id by {
            assert(table.rows[i].id != table.rows[j].id);
        }
        assert forall|i: int| 0 <= i < after.rows.len() implies (#[trigger] after.rows[i]).id
            < after.next_id by {
            assert(table.rows[i].id < table.next_id);
        }
    }
}

/// Rows with unique identities are listed under unique identities.
pub proof fn lemma_listing_ids_distinct(rows: Seq<Row>)
    requires
        forall|i: int, j: int|
            0 <= i < j < rows.len() ==> (#[trigger] rows[i]).id != (#[trigger] rows[j]).id,
    ensures
        forall|a: int, b: int|
            0 <= a < b < listing(rows).len() ==> (#[trigger] listing(rows)[a]).id != (
            #[trigger] listing(rows)[b]).id,
    decreases rows.len(),
{
    if rows.len() == 0 {
        lemma_listing_empty();
        assert(rows =~= Seq::<Row>::empty());
    } else {
        let head = rows.drop_last();
        let last = rows.last();
        assert(rows =~= head.push(last));
        assert forall|i: int, j: int| 0 <= i < j < head.len() implies (#[trigger] head[i]).id != (
        #[trigger] head[j]).id by {
            assert(rows[i].id != rows[j].id);
        }
        lemma_listing_ids_distinct(head);
        lemma_listing_push(head, last);
        if last.is_active() {
            assert forall|a: int, b: int| 0 <= a < b < listing(rows).len() implies (
            #[trigger] listing(rows)[a]).id != (#[trigger] listing(rows)[b]).id by {
                if b < listing(head).len() {
                    assert(listing(head)[a].id != listing(head)[b].id);
                } else {
                    let entry = listing(head)[a];
                    assert(listing(head).contains(entry));
                    lemma_listing_shows(head, entry);
                    let k = choose|k: int|
                        0 <= k < head.len() && (#[trigger] head[k]).is_active()
                            && head[k].committee() == entry;
                    assert(rows[k].id != rows[rows.len() - 1].id);
                }
            }
        }
    }
}

} // verus!
