use flashcow::db::{
    add_committee, delete_committee, get_all_committees, get_user_from_id, rename_committee,
    AddCommitteeError, CommitteeRecord, DeleteCommitteeError, GetUserError, RenameCommitteeError,
    UserRecord,
};
use flashcow::table::{CommitteeRow, CommitteeTable};
use flashcow::write_path::Action;

fn committee(id: i32, full_name: &str, short_name: &str) -> CommitteeRecord {
    CommitteeRecord { id, full_name: full_name.to_string(), short_name: short_name.to_string() }
}

fn table_of(names: &[(&str, &str)]) -> CommitteeTable {
    let mut table = CommitteeTable::new();
    for (full_name, short_name) in names {
        add_committee(&mut table, full_name, short_name).unwrap();
    }
    table
}

#[test]
fn new_table_lists_nothing() {
    let table = CommitteeTable::new();
    assert_eq!(get_all_committees(&table), Vec::new());
    assert_eq!(table.row_count(), 0);
    assert!(table.has_room());
}

#[test]
fn committee_lifecycle_scenario() {
    let mut table = CommitteeTable::new();

    let listing = add_committee(&mut table, "Finance", "FIN").unwrap();
    assert_eq!(listing.len(), 1);
    assert_eq!(get_all_committees(&table).len(), 1);
    let id = listing[0].id;

    let refused = add_committee(&mut table, "Finance", "OPS");
    assert!(matches!(refused, Err(AddCommitteeError::Duplicate)));
    assert_eq!(get_all_committees(&table), vec![committee(id, "Finance", "FIN")]);

    let listing = rename_committee(&mut table, id, "Budget", "BUD").unwrap();
    assert_eq!(listing, vec![committee(id, "Budget", "BUD")]);
    assert_eq!(get_all_committees(&table), vec![committee(id, "Budget", "BUD")]);

    let listing = delete_committee(&mut table, id, 1_700_000_000).unwrap();
    assert_eq!(listing, Vec::new());
    assert_eq!(get_all_committees(&table), Vec::new());

    let again = delete_committee(&mut table, id, 1_700_000_001);
    assert!(matches!(again, Err(DeleteCommitteeError::NotFound)));
}

#[test]
fn add_returns_the_listing_with_the_new_committee_last() {
    let mut table = CommitteeTable::new();
    let first = add_committee(&mut table, "Finance", "FIN").unwrap();
    assert_eq!(first, vec![committee(1, "Finance", "FIN")]);
    let second = add_committee(&mut table, "Operations", "OPS").unwrap();
    assert_eq!(second, vec![committee(1, "Finance", "FIN"), committee(2, "Operations", "OPS")]);
}

#[test]
fn identities_are_handed_out_in_sequence_and_never_twice() {
    let mut table = table_of(&[("Finance", "FIN"), ("Operations", "OPS"), ("Budget", "BUD")]);
    delete_committee(&mut table, 2, 10).unwrap();
    let listing = add_committee(&mut table, "Outreach", "OUT").unwrap();
    let ids: Vec<i32> = listing.iter().map(|entry| entry.id).collect();
    assert_eq!(ids, vec![1, 3, 4]);
}

#[test]
fn add_with_taken_full_name_is_duplicate_and_changes_nothing() {
    let mut table = table_of(&[("Finance", "FIN"), ("Operations", "OPS")]);
    let before = get_all_committees(&table);
    let rows_before = table.row_count();
    let refused = add_committee(&mut table, "Operations", "NEW");
    assert!(matches!(refused, Err(AddCommitteeError::Duplicate)));
    assert_eq!(get_all_committees(&table), before);
    assert_eq!(table.row_count(), rows_before);
}

#[test]
fn add_with_taken_short_name_is_duplicate_and_changes_nothing() {
    let mut table = table_of(&[("Finance", "FIN"), ("Operations", "OPS")]);
    let before = get_all_committees(&table);
    let rows_before = table.row_count();
    let refused = add_committee(&mut table, "Finland", "FIN");
    assert!(matches!(refused, Err(AddCommitteeError::Duplicate)));
    assert_eq!(get_all_committees(&table), before);
    assert_eq!(table.row_count(), rows_before);
}

#[test]
fn add_compares_names_exactly_and_by_case() {
    let mut table = table_of(&[("Finance", "FIN")]);
    let listing = add_committee(&mut table, "finance", "fin").unwrap();
    assert_eq!(listing.len(), 2);
    let listing = add_committee(&mut table, "Finance ", "FIN ").unwrap();
    assert_eq!(listing.len(), 3);
}

#[test]
fn add_keeps_full_and_short_names_apart() {
    let mut table = table_of(&[("Finance", "FIN")]);
    let listing = add_committee(&mut table, "FIN", "Finance").unwrap();
    assert_eq!(listing, vec![committee(1, "Finance", "FIN"), committee(2, "FIN", "Finance")]);
}

#[test]
fn add_may_reuse_the_names_of_a_deleted_committee() {
    let mut table = table_of(&[("Finance", "FIN")]);
    delete_committee(&mut table, 1, 10).unwrap();
    let listing = add_committee(&mut table, "Finance", "FIN").unwrap();
    assert_eq!(listing, vec![committee(2, "Finance", "FIN")]);
    assert_eq!(table.row_count(), 2);
}

#[test]
fn a_refused_add_hands_its_identity_out_again() {
    let mut table = table_of(&[("Finance", "FIN")]);
    assert!(add_committee(&mut table, "Finance", "OPS").is_err());
    let listing = add_committee(&mut table, "Operations", "OPS").unwrap();
    assert_eq!(listing[1], committee(2, "Operations", "OPS"));
}

#[test]
fn adds_that_succeed_are_pairwise_distinct() {
    let mut table = CommitteeTable::new();
    let asked = [
        ("Finance", "FIN"),
        ("Finance", "OPS"),
        ("Operations", "OPS"),
        ("Budget", "FIN"),
        ("Budget", "BUD"),
        ("Operations", "BUD"),
    ];
    let mut taken: Vec<(&str, &str)> = Vec::new();
    for (full_name, short_name) in asked {
        if add_committee(&mut table, full_name, short_name).is_ok() {
            taken.push((full_name, short_name));
        }
    }
    assert_eq!(taken, vec![("Finance", "FIN"), ("Operations", "OPS"), ("Budget", "BUD")]);
    for (i, first) in taken.iter().enumerate() {
        for second in taken.iter().skip(i + 1) {
            assert_ne!(first.0, second.0);
            assert_ne!(first.1, second.1);
        }
    }
}

#[test]
fn rename_changes_both_names_in_place() {
    let mut table = table_of(&[("Finance", "FIN"), ("Operations", "OPS"), ("Budget", "BUD")]);
    let listing = rename_committee(&mut table, 2, "Outreach", "OUT").unwrap();
    assert_eq!(
        listing,
        vec![
            committee(1, "Finance", "FIN"),
            committee(2, "Outreach", "OUT"),
            committee(3, "Budget", "BUD")
        ]
    );
    assert_eq!(get_all_committees(&table), listing);
}

#[test]
fn rename_to_its_own_names_succeeds() {
    let mut table = table_of(&[("Finance", "FIN"), ("Operations", "OPS")]);
    let listing = rename_committee(&mut table, 1, "Finance", "FIN").unwrap();
    assert_eq!(listing, vec![committee(1, "Finance", "FIN"), committee(2, "Operations", "OPS")]);
    let listing = rename_committee(&mut table, 1, "Finance", "FNC").unwrap();
    assert_eq!(listing[0], committee(1, "Finance", "FNC"));
}

#[test]
fn rename_onto_the_full_name_of_another_is_duplicate_and_keeps_the_names() {
    let mut table = table_of(&[("Finance", "FIN"), ("Operations", "OPS")]);
    let refused = rename_committee(&mut table, 2, "Finance", "OPS");
    assert!(matches!(refused, Err(RenameCommitteeError::Duplicate)));
    assert_eq!(
        get_all_committees(&table),
        vec![committee(1, "Finance", "FIN"), committee(2, "Operations", "OPS")]
    );
}

#[test]
fn rename_onto_the_short_name_of_another_is_duplicate_and_keeps_the_names() {
    let mut table = table_of(&[("Finance", "FIN"), ("Operations", "OPS")]);
    let refused = rename_committee(&mut table, 1, "Treasury", "OPS");
    assert!(matches!(refused, Err(RenameCommitteeError::Duplicate)));
    assert_eq!(
        get_all_committees(&table),
        vec![committee(1, "Finance", "FIN"), committee(2, "Operations", "OPS")]
    );
    assert_eq!(
        table.find(1),
        Some(CommitteeRow {
            id: 1,
            full_name: "Finance".to_string(),
            short_name: "FIN".to_string(),
            deleted: None
        })
    );
}

#[test]
fn rename_of_an_unassigned_identity_is_not_found() {
    let mut table = table_of(&[("Finance", "FIN")]);
    let refused = rename_committee(&mut table, 999, "Budget", "BUD");
    assert!(matches!(refused, Err(RenameCommitteeError::NotFound)));
    assert_eq!(get_all_committees(&table), vec![committee(1, "Finance", "FIN")]);
    let mut empty = CommitteeTable::new();
    assert!(matches!(
        rename_committee(&mut empty, 1, "Budget", "BUD"),
        Err(RenameCommitteeError::NotFound)
    ));
}

#[test]
fn rename_of_unassigned_identity_wins_over_a_clash() {
    let mut table = table_of(&[("Finance", "FIN")]);
    let refused = rename_committee(&mut table, 999, "Finance", "FIN");
    assert!(matches!(refused, Err(RenameCommitteeError::NotFound)));
}

#[test]
fn rename_of_a_deleted_committee_succeeds_and_stays_unlisted() {
    let mut table = table_of(&[("Finance", "FIN"), ("Operations", "OPS")]);
    delete_committee(&mut table, 1, 42).unwrap();
    let listing = rename_committee(&mut table, 1, "Operations", "OPS").unwrap();
    assert_eq!(listing, vec![committee(2, "Operations", "OPS")]);
    assert_eq!(
        table.find(1),
        Some(CommitteeRow {
            id: 1,
            full_name: "Operations".to_string(),
            short_name: "OPS".to_string(),
            deleted: Some(42)
        })
    );
}

#[test]
fn rename_may_take_the_names_of_a_deleted_committee() {
    let mut table = table_of(&[("Finance", "FIN"), ("Operations", "OPS")]);
    delete_committee(&mut table, 1, 42).unwrap();
    let listing = rename_committee(&mut table, 2, "Finance", "FIN").unwrap();
    assert_eq!(listing, vec![committee(2, "Finance", "FIN")]);
}

#[test]
fn delete_takes_the_committee_out_of_listings_and_keeps_the_row() {
    let mut table = table_of(&[("Finance", "FIN"), ("Operations", "OPS"), ("Budget", "BUD")]);
    let listing = delete_committee(&mut table, 2, 1_700_000_000).unwrap();
    assert_eq!(listing, vec![committee(1, "Finance", "FIN"), committee(3, "Budget", "BUD")]);
    assert_eq!(get_all_committees(&table), listing);
    assert_eq!(table.row_count(), 3);
    assert_eq!(
        table.find(2),
        Some(CommitteeRow {
            id: 2,
            full_name: "Operations".to_string(),
            short_name: "OPS".to_string(),
            deleted: Some(1_700_000_000)
        })
    );
}

#[test]
fn delete_of_an_unassigned_identity_is_not_found() {
    let mut table = table_of(&[("Finance", "FIN")]);
    let refused = delete_committee(&mut table, 999, 5);
    assert!(matches!(refused, Err(DeleteCommitteeError::NotFound)));
    assert_eq!(get_all_committees(&table), vec![committee(1, "Finance", "FIN")]);
    let mut empty = CommitteeTable::new();
    assert!(matches!(delete_committee(&mut empty, 1, 5), Err(DeleteCommitteeError::NotFound)));
}

#[test]
fn delete_of_a_deleted_committee_is_not_found_and_keeps_the_first_stamp() {
    let mut table = table_of(&[("Finance", "FIN")]);
    delete_committee(&mut table, 1, 5).unwrap();
    let refused = delete_committee(&mut table, 1, 6);
    assert!(matches!(refused, Err(DeleteCommitteeError::NotFound)));
    assert_eq!(table.find(1).unwrap().deleted, Some(5));
}

#[test]
fn deleted_committee_stays_out_of_later_listings() {
    let mut table = table_of(&[("Finance", "FIN"), ("Operations", "OPS")]);
    delete_committee(&mut table, 1, 10).unwrap();
    let listing = add_committee(&mut table, "Finance", "FIN").unwrap();
    assert!(listing.iter().all(|entry| entry.id != 1));
    let listing = rename_committee(&mut table, 1, "Treasury", "TRS").unwrap();
    assert!(listing.iter().all(|entry| entry.id != 1));
    let listing = rename_committee(&mut table, 2, "Outreach", "OUT").unwrap();
    assert!(listing.iter().all(|entry| entry.id != 1));
    let listing = delete_committee(&mut table, 3, 11).unwrap();
    assert!(listing.iter().all(|entry| entry.id != 1));
    assert!(delete_committee(&mut table, 1, 12).is_err());
    assert_eq!(get_all_committees(&table), vec![committee(2, "Outreach", "OUT")]);
    assert_eq!(table.find(1).unwrap().deleted, Some(10));
}

#[test]
fn listing_follows_the_latest_successful_mutations() {
    let mut table = CommitteeTable::new();
    add_committee(&mut table, "Finance", "FIN").unwrap();
    add_committee(&mut table, "Operations", "OPS").unwrap();
    assert!(add_committee(&mut table, "Finance", "FNC").is_err());
    rename_committee(&mut table, 1, "Treasury", "TRS").unwrap();
    assert!(rename_committee(&mut table, 1, "Operations", "TRS").is_err());
    add_committee(&mut table, "Finance", "FIN").unwrap();
    delete_committee(&mut table, 2, 100).unwrap();
    assert!(delete_committee(&mut table, 2, 101).is_err());
    rename_committee(&mut table, 3, "Finance", "OPS").unwrap();
    assert_eq!(
        get_all_committees(&table),
        vec![committee(1, "Treasury", "TRS"), committee(3, "Finance", "OPS")]
    );
}

#[test]
fn storage_statements_do_not_check_names() {
    let mut table = CommitteeTable::new();
    table.insert("Finance", "FIN");
    table.insert("Finance", "FIN");
    assert_eq!(
        table.list_active(),
        vec![committee(1, "Finance", "FIN"), committee(2, "Finance", "FIN")]
    );
    assert_eq!(table.update_names(2, "Finance", "FIN"), 1);
    assert_eq!(table.update_names(3, "Finance", "FIN"), 0);
    assert_eq!(table.soft_delete(2, 9), 1);
    assert_eq!(table.soft_delete(2, 9), 0);
    assert_eq!(table.update_names(2, "Budget", "BUD"), 1);
    assert_eq!(table.list_active(), vec![committee(1, "Finance", "FIN")]);
}

#[test]
fn write_paths_catch_a_clash_they_did_not_make() {
    let mut table = CommitteeTable::new();
    table.insert("Finance", "FIN");
    table.insert("Finance", "FIN");
    assert!(matches!(
        add_committee(&mut table, "Budget", "BUD"),
        Err(AddCommitteeError::Duplicate)
    ));
    assert!(matches!(
        rename_committee(&mut table, 1, "Finance", "FNC"),
        Err(RenameCommitteeError::Duplicate)
    ));
    let listing = delete_committee(&mut table, 2, 3).unwrap();
    assert_eq!(listing, vec![committee(1, "Finance", "FIN")]);
}

#[test]
fn rollback_puts_the_table_back_and_commit_keeps_it() {
    let mut table = table_of(&[("Finance", "FIN")]);
    let mut saved = None;
    table.perform(&mut saved, Action::Begin, 0);
    assert!(saved.is_some());
    let reply = table.perform(
        &mut saved,
        Action::Insert { full_name: "Operations", short_name: "OPS" },
        0,
    );
    assert_eq!(reply.rows_affected, 1);
    let reply = table.perform(&mut saved, Action::SoftDelete { id: 1 }, 7);
    assert_eq!(reply.rows_affected, 1);
    let reply = table.perform(&mut saved, Action::ListActive, 0);
    assert_eq!(reply.rows, vec![committee(2, "Operations", "OPS")]);
    table.perform(&mut saved, Action::Rollback, 0);
    assert!(saved.is_none());
    assert_eq!(table.list_active(), vec![committee(1, "Finance", "FIN")]);
    assert_eq!(table.row_count(), 1);

    table.perform(&mut saved, Action::Begin, 0);
    let reply = table.perform(
        &mut saved,
        Action::UpdateNames { id: 1, new_full_name: "Budget", new_short_name: "BUD" },
        0,
    );
    assert_eq!(reply.rows_affected, 1);
    table.perform(&mut saved, Action::Commit, 0);
    assert!(saved.is_none());
    table.perform(&mut saved, Action::Rollback, 0);
    assert_eq!(table.list_active(), vec![committee(1, "Budget", "BUD")]);
}

#[test]
fn find_returns_the_row_of_an_identity_or_nothing() {
    let table = table_of(&[("Finance", "FIN"), ("Operations", "OPS")]);
    assert_eq!(
        table.find(2),
        Some(CommitteeRow {
            id: 2,
            full_name: "Operations".to_string(),
            short_name: "OPS".to_string(),
            deleted: None
        })
    );
    assert_eq!(table.find(3), None);
    assert_eq!(CommitteeTable::new().find(1), None);
}

#[test]
fn snapshot_is_a_copy() {
    let mut table = table_of(&[("Finance", "FIN")]);
    let copy = table.snapshot();
    table.insert("Operations", "OPS");
    assert_eq!(copy.list_active(), vec![committee(1, "Finance", "FIN")]);
    assert_eq!(table.list_active().len(), 2);
}

fn users() -> Vec<UserRecord> {
    vec![
        UserRecord { id: 1, profile: "ada".to_string() },
        UserRecord { id: 7, profile: "grace".to_string() },
    ]
}

#[test]
fn user_lookup_returns_the_record_as_stored() {
    let found = get_user_from_id(&users(), 7).unwrap();
    assert_eq!(found, UserRecord { id: 7, profile: "grace".to_string() });
    let found = get_user_from_id(&users(), 1).unwrap();
    assert_eq!(found, UserRecord { id: 1, profile: "ada".to_string() });
}

#[test]
fn user_lookup_of_an_unassigned_identity_is_not_found() {
    assert!(matches!(get_user_from_id(&users(), 999999), Err(GetUserError::NotFound)));
    assert!(matches!(get_user_from_id(&Vec::new(), 1), Err(GetUserError::NotFound)));
}

#[test]
fn storage_failures_become_other() {
    assert!(matches!(
        AddCommitteeError::from(sqlx::Error::PoolClosed),
        AddCommitteeError::Other(sqlx::Error::PoolClosed)
    ));
    assert!(matches!(
        RenameCommitteeError::from(sqlx::Error::PoolClosed),
        RenameCommitteeError::Other(sqlx::Error::PoolClosed)
    ));
    assert!(matches!(
        DeleteCommitteeError::from(sqlx::Error::PoolClosed),
        DeleteCommitteeError::Other(sqlx::Error::PoolClosed)
    ));
    assert!(matches!(
        GetUserError::from(sqlx::Error::RowNotFound),
        GetUserError::Other(sqlx::Error::RowNotFound)
    ));
}
