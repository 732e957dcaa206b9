use flashcow::db::{
    AddCommitteeError, CommitteeRecord, DeleteCommitteeError, RenameCommitteeError,
};
use flashcow::write_path::{
    add_committee_step, begin_write, delete_committee_step, has_name_clash,
    rename_committee_step, Action, Reply, Stage, Step,
};

fn record(id: i32, full_name: &str, short_name: &str) -> CommitteeRecord {
    CommitteeRecord { id, full_name: full_name.to_string(), short_name: short_name.to_string() }
}

fn done(rows_affected: u64) -> Result<Reply, sqlx::Error> {
    Ok(Reply { rows_affected, rows: Vec::new() })
}

fn listed(rows: Vec<CommitteeRecord>) -> Result<Reply, sqlx::Error> {
    Ok(Reply { rows_affected: 0, rows })
}

fn failed() -> Result<Reply, sqlx::Error> {
    Err(sqlx::Error::PoolClosed)
}

#[test]
fn every_write_path_opens_a_transaction() {
    let (stage, action) = begin_write::<AddCommitteeError>();
    assert!(matches!(stage, Stage::Beginning));
    assert_eq!(action, Action::Begin);
}

#[test]
fn listing_without_shared_names_does_not_clash() {
    let rows = vec![record(1, "Finance", "FIN"), record(2, "Operations", "OPS")];
    assert!(!has_name_clash(&rows));
    assert!(!has_name_clash(&Vec::new()));
}

#[test]
fn shared_full_name_clashes() {
    let rows = vec![record(1, "Finance", "FIN"), record(2, "Finance", "OPS")];
    assert!(has_name_clash(&rows));
}

#[test]
fn shared_short_name_clashes() {
    let rows = vec![record(1, "Finance", "FIN"), record(2, "Finland", "FIN")];
    assert!(has_name_clash(&rows));
}

#[test]
fn full_and_short_names_are_separate_namespaces() {
    let rows = vec![record(1, "FIN", "Finance"), record(2, "Finance", "FIN")];
    assert!(!has_name_clash(&rows));
}

#[test]
fn add_inserts_once_the_transaction_is_open() {
    let step = add_committee_step(Stage::Beginning, done(0), "Finance", "FIN");
    assert!(matches!(
        step,
        Step::Perform(Stage::Mutating, Action::Insert { full_name: "Finance", short_name: "FIN" })
    ));
}

#[test]
fn add_without_transaction_fails_without_rollback() {
    let step = add_committee_step(Stage::Beginning, failed(), "Finance", "FIN");
    assert!(matches!(
        step,
        Step::Finish(Err(AddCommitteeError::Other(sqlx::Error::PoolClosed)))
    ));
}

#[test]
fn add_reads_the_active_set_back_after_the_insert() {
    let step = add_committee_step(Stage::Mutating, done(1), "Finance", "FIN");
    assert!(matches!(step, Step::Perform(Stage::Listing, Action::ListActive)));
}

#[test]
fn add_does_not_read_the_row_count_of_the_insert() {
    let step = add_committee_step(Stage::Mutating, done(0), "Finance", "FIN");
    assert!(matches!(step, Step::Perform(Stage::Listing, Action::ListActive)));
}

#[test]
fn add_rolls_back_when_the_insert_fails() {
    let step = add_committee_step(Stage::Mutating, failed(), "Finance", "FIN");
    assert!(matches!(
        step,
        Step::Perform(
            Stage::Aborting(AddCommitteeError::Other(sqlx::Error::PoolClosed)),
            Action::Rollback
        )
    ));
}

#[test]
fn add_commits_a_listing_without_clash() {
    let rows = vec![record(1, "Finance", "FIN"), record(2, "Operations", "OPS")];
    let step = add_committee_step(Stage::Listing, listed(rows.clone()), "Operations", "OPS");
    match step {
        Step::Perform(Stage::Committing(held), Action::Commit) => assert_eq!(held, rows),
        other => panic!("unexpected step: {:?}", other),
    }
}

#[test]
fn add_rolls_back_a_listing_with_a_shared_full_name() {
    let rows = vec![record(1, "Finance", "FIN"), record(2, "Finance", "OPS")];
    let step = add_committee_step(Stage::Listing, listed(rows), "Finance", "OPS");
    assert!(matches!(
        step,
        Step::Perform(Stage::Aborting(AddCommitteeError::Duplicate), Action::Rollback)
    ));
}

#[test]
fn add_rolls_back_a_listing_with_a_shared_short_name() {
    let rows = vec![record(1, "Finance", "FIN"), record(2, "Finland", "FIN")];
    let step = add_committee_step(Stage::Listing, listed(rows), "Finland", "FIN");
    assert!(matches!(
        step,
        Step::Perform(Stage::Aborting(AddCommitteeError::Duplicate), Action::Rollback)
    ));
}

#[test]
fn add_catches_a_clash_among_rows_it_did_not_write() {
    let rows =
        vec![record(1, "Finance", "FIN"), record(2, "Finance", "OPS"), record(3, "Budget", "BUD")];
    let step = add_committee_step(Stage::Listing, listed(rows), "Budget", "BUD");
    assert!(matches!(
        step,
        Step::Perform(Stage::Aborting(AddCommitteeError::Duplicate), Action::Rollback)
    ));
}

#[test]
fn add_rolls_back_when_the_listing_fails() {
    let step = add_committee_step(Stage::Listing, failed(), "Finance", "FIN");
    assert!(matches!(
        step,
        Step::Perform(
            Stage::Aborting(AddCommitteeError::Other(sqlx::Error::PoolClosed)),
            Action::Rollback
        )
    ));
}

#[test]
fn add_returns_the_listing_once_committed() {
    let rows = vec![record(1, "Finance", "FIN")];
    let step = add_committee_step(Stage::Committing(rows.clone()), done(0), "Finance", "FIN");
    match step {
        Step::Finish(Ok(returned)) => assert_eq!(returned, rows),
        other => panic!("unexpected step: {:?}", other),
    }
}

#[test]
fn add_fails_when_the_commit_fails() {
    let rows = vec![record(1, "Finance", "FIN")];
    let step = add_committee_step(Stage::Committing(rows), failed(), "Finance", "FIN");
    assert!(matches!(
        step,
        Step::Finish(Err(AddCommitteeError::Other(sqlx::Error::PoolClosed)))
    ));
}

#[test]
fn add_returns_its_failure_after_the_rollback() {
    let step = add_committee_step(
        Stage::Aborting(AddCommitteeError::Duplicate),
        done(0),
        "Finance",
        "FIN",
    );
    assert!(matches!(step, Step::Finish(Err(AddCommitteeError::Duplicate))));
}

#[test]
fn add_returns_its_failure_even_if_the_rollback_fails() {
    let step = add_committee_step(
        Stage::Aborting(AddCommitteeError::Duplicate),
        failed(),
        "Finance",
        "FIN",
    );
    assert!(matches!(step, Step::Finish(Err(AddCommitteeError::Duplicate))));
    let step = add_committee_step(
        Stage::Aborting(AddCommitteeError::Other(sqlx::Error::RowNotFound)),
        failed(),
        "Finance",
        "FIN",
    );
    assert!(matches!(
        step,
        Step::Finish(Err(AddCommitteeError::Other(sqlx::Error::RowNotFound)))
    ));
}

#[test]
fn rename_updates_once_the_transaction_is_open() {
    let step = rename_committee_step(Stage::Beginning, done(0), 7, "Budget", "BUD");
    assert!(matches!(
        step,
        Step::Perform(
            Stage::Mutating,
            Action::UpdateNames { id: 7, new_full_name: "Budget", new_short_name: "BUD" }
        )
    ));
}

#[test]
fn rename_without_transaction_fails_without_rollback() {
    let step = rename_committee_step(Stage::Beginning, failed(), 7, "Budget", "BUD");
    assert!(matches!(
        step,
        Step::Finish(Err(RenameCommitteeError::Other(sqlx::Error::PoolClosed)))
    ));
}

#[test]
fn rename_of_no_row_is_not_found() {
    let step = rename_committee_step(Stage::Mutating, done(0), 7, "Budget", "BUD");
    assert!(matches!(
        step,
        Step::Perform(Stage::Aborting(RenameCommitteeError::NotFound), Action::Rollback)
    ));
}

#[test]
fn rename_of_a_row_reads_the_active_set_back() {
    let step = rename_committee_step(Stage::Mutating, done(1), 7, "Budget", "BUD");
    assert!(matches!(step, Step::Perform(Stage::Listing, Action::ListActive)));
}

#[test]
fn rename_rolls_back_when_the_update_fails() {
    let step = rename_committee_step(Stage::Mutating, failed(), 7, "Budget", "BUD");
    assert!(matches!(
        step,
        Step::Perform(
            Stage::Aborting(RenameCommitteeError::Other(sqlx::Error::PoolClosed)),
            Action::Rollback
        )
    ));
}

#[test]
fn rename_commits_a_listing_without_clash() {
    let rows = vec![record(7, "Budget", "BUD"), record(8, "Operations", "OPS")];
    let step = rename_committee_step(Stage::Listing, listed(rows.clone()), 7, "Budget", "BUD");
    match step {
        Step::Perform(Stage::Committing(held), Action::Commit) => assert_eq!(held, rows),
        other => panic!("unexpected step: {:?}", other),
    }
}

#[test]
fn rename_rolls_back_a_listing_with_a_clash() {
    let rows = vec![record(7, "Operations", "BUD"), record(8, "Operations", "OPS")];
    let step = rename_committee_step(Stage::Listing, listed(rows), 7, "Operations", "BUD");
    assert!(matches!(
        step,
        Step::Perform(Stage::Aborting(RenameCommitteeError::Duplicate), Action::Rollback)
    ));
    let rows = vec![record(7, "Budget", "OPS"), record(8, "Operations", "OPS")];
    let step = rename_committee_step(Stage::Listing, listed(rows), 7, "Budget", "OPS");
    assert!(matches!(
        step,
        Step::Perform(Stage::Aborting(RenameCommitteeError::Duplicate), Action::Rollback)
    ));
}

#[test]
fn rename_rolls_back_when_the_listing_fails() {
    let step = rename_committee_step(Stage::Listing, failed(), 7, "Budget", "BUD");
    assert!(matches!(
        step,
        Step::Perform(
            Stage::Aborting(RenameCommitteeError::Other(sqlx::Error::PoolClosed)),
            Action::Rollback
        )
    ));
}

#[test]
fn rename_finishes_with_listing_or_failure() {
    let rows = vec![record(7, "Budget", "BUD")];
    let step = rename_committee_step(Stage::Committing(rows.clone()), done(0), 7, "Budget", "BUD");
    match step {
        Step::Finish(Ok(returned)) => assert_eq!(returned, rows),
        other => panic!("unexpected step: {:?}", other),
    }
    let step = rename_committee_step(Stage::Committing(rows), failed(), 7, "Budget", "BUD");
    assert!(matches!(
        step,
        Step::Finish(Err(RenameCommitteeError::Other(sqlx::Error::PoolClosed)))
    ));
    let step = rename_committee_step(
        Stage::Aborting(RenameCommitteeError::NotFound),
        done(0),
        7,
        "Budget",
        "BUD",
    );
    assert!(matches!(step, Step::Finish(Err(RenameCommitteeError::NotFound))));
    let step = rename_committee_step(
        Stage::Aborting(RenameCommitteeError::Duplicate),
        failed(),
        7,
        "Budget",
        "BUD",
    );
    assert!(matches!(step, Step::Finish(Err(RenameCommitteeError::Duplicate))));
}

#[test]
fn delete_stamps_once_the_transaction_is_open() {
    let step = delete_committee_step(Stage::Beginning, done(0), 7);
    assert!(matches!(step, Step::Perform(Stage::Mutating, Action::SoftDelete { id: 7 })));
}

#[test]
fn delete_without_transaction_fails_without_rollback() {
    let step = delete_committee_step(Stage::Beginning, failed(), 7);
    assert!(matches!(
        step,
        Step::Finish(Err(DeleteCommitteeError::Other(sqlx::Error::PoolClosed)))
    ));
}

#[test]
fn delete_of_no_active_row_is_not_found() {
    let step = delete_committee_step(Stage::Mutating, done(0), 7);
    assert!(matches!(
        step,
        Step::Perform(Stage::Aborting(DeleteCommitteeError::NotFound), Action::Rollback)
    ));
}

#[test]
fn delete_of_a_row_reads_the_active_set_back() {
    let step = delete_committee_step(Stage::Mutating, done(1), 7);
    assert!(matches!(step, Step::Perform(Stage::Listing, Action::ListActive)));
}

#[test]
fn delete_commits_whatever_is_listed() {
    let rows = vec![record(1, "Finance", "FIN"), record(2, "Finance", "FIN")];
    let step = delete_committee_step(Stage::Listing, listed(rows.clone()), 7);
    match step {
        Step::Perform(Stage::Committing(held), Action::Commit) => assert_eq!(held, rows),
        other => panic!("unexpected step: {:?}", other),
    }
}

#[test]
fn delete_rolls_back_on_storage_failure() {
    let step = delete_committee_step(Stage::Mutating, failed(), 7);
    assert!(matches!(
        step,
        Step::Perform(
            Stage::Aborting(DeleteCommitteeError::Other(sqlx::Error::PoolClosed)),
            Action::Rollback
        )
    ));
    let step = delete_committee_step(Stage::Listing, failed(), 7);
    assert!(matches!(
        step,
        Step::Perform(
            Stage::Aborting(DeleteCommitteeError::Other(sqlx::Error::PoolClosed)),
            Action::Rollback
        )
    ));
}

#[test]
fn delete_finishes_with_listing_or_failure() {
    let rows = vec![record(1, "Finance", "FIN")];
    let step = delete_committee_step(Stage::Committing(rows.clone()), done(0), 7);
    match step {
        Step::Finish(Ok(returned)) => assert_eq!(returned, rows),
        other => panic!("unexpected step: {:?}", other),
    }
    let step = delete_committee_step(Stage::Committing(rows), failed(), 7);
    assert!(matches!(
        step,
        Step::Finish(Err(DeleteCommitteeError::Other(sqlx::Error::PoolClosed)))
    ));
    let step = delete_committee_step(Stage::Aborting(DeleteCommitteeError::NotFound), failed(), 7);
    assert!(matches!(step, Step::Finish(Err(DeleteCommitteeError::NotFound))));
}
