use transfer_sh_helper::errors::{RemoteFailure, TransferError};
use transfer_sh_helper::record::{Link, TransferResponse};
use transfer_sh_helper::store::{Database, DeleteOutcome, DeleteStep, RemoteOutcome};

fn response(link: &str, credential: &str) -> Result<TransferResponse, TransferError> {
    Ok(TransferResponse {
        transfer_link: link.to_string(),
        delete_link: credential.to_string(),
    })
}

fn record(id: i64, name: &str) -> Link {
    Link::new(
        id,
        name.to_string(),
        format!("https://x/{id}"),
        format!("DEL{id}"),
        1_700_000_000,
        None,
    )
}

fn store_with_one() -> Database {
    let mut db = Database::new();
    db.transfer_file(
        "report.pdf",
        response("https://x/abc", "DEL123"),
        Ok("abcd".to_string()),
        1_700_000_000,
    )
    .unwrap();
    db
}

#[test]
fn register_assigns_ids_from_one() {
    let mut db = Database::new();
    let first = db
        .transfer_file(
            "report.pdf",
            response("https://x/abc", "DEL123"),
            Ok("0123abcd".to_string()),
            1_700_000_000,
        )
        .unwrap();
    assert_eq!(first.id, 1);
    assert_eq!(first.name, "report.pdf");
    assert_eq!(first.link, "https://x/abc");
    assert_eq!(first.delete_link, "DEL123");
    assert_eq!(first.unix_time, 1_700_000_000);
    assert_eq!(first.sha256sum, Some("0123abcd".to_string()));
    let second = db
        .transfer_file(
            "report.pdf",
            response("https://x/def", "DEL456"),
            Ok("4567".to_string()),
            1_700_000_005,
        )
        .unwrap();
    assert_eq!(second.id, 2);
    assert_eq!(db.get_all_entries(), vec![first, second]);
}

#[test]
fn listing_follows_insertion_order() {
    let mut db = Database::new();
    let names = ["a", "b", "c", "d"];
    for (k, name) in names.iter().enumerate() {
        let l = db
            .insert_entry(name, "https://x/l", "DEL", "hash", 100 + k as u64)
            .unwrap();
        assert_eq!(l.id, k as i64 + 1);
    }
    let all = db.get_all_entries();
    assert_eq!(all.len(), 4);
    for k in 0..4 {
        assert_eq!(all[k].name, names[k]);
        if k > 0 {
            assert!(all[k - 1].id < all[k].id);
        }
    }
}

#[test]
fn find_returns_registered_record() {
    let mut db = Database::new();
    let l = db
        .insert_entry("notes.txt", "https://x/n", "DELn", "ff", 42)
        .unwrap();
    assert_eq!(db.get_single_entry(l.id), Some(l));
    assert_eq!(db.get_single_entry(7), None);
    assert_eq!(db.get_single_entry(0), None);
}

#[test]
fn empty_store_lists_nothing() {
    let db = Database::new();
    assert!(db.get_all_entries().is_empty());
    assert_eq!(db.get_single_entry(1), None);
}

#[test]
fn delete_with_remote_success_removes() {
    let mut db = store_with_one();
    assert_eq!(db.delete_entry(1), DeleteStep::Confirm);
    assert_eq!(db.answer_confirmation(true), DeleteStep::Revoke("DEL123".to_string()));
    assert_eq!(
        db.report_revocation(RemoteOutcome::Removed),
        DeleteStep::Done(DeleteOutcome::Committed)
    );
    assert_eq!(db.get_single_entry(1), None);
    assert!(db.get_all_entries().is_empty());
}

#[test]
fn delete_with_remote_already_gone_removes() {
    let mut db = store_with_one();
    assert_eq!(db.delete_entry(1), DeleteStep::Confirm);
    assert_eq!(db.answer_confirmation(true), DeleteStep::Revoke("DEL123".to_string()));
    assert_eq!(
        db.report_revocation(RemoteOutcome::AlreadyGone),
        DeleteStep::Done(DeleteOutcome::Committed)
    );
    assert_eq!(db.get_single_entry(1), None);
}

#[test]
fn delete_with_network_error_and_declined_force_keeps_record() {
    let mut db = store_with_one();
    let before = db.get_all_entries();
    assert_eq!(db.delete_entry(1), DeleteStep::Confirm);
    assert_eq!(db.answer_confirmation(true), DeleteStep::Revoke("DEL123".to_string()));
    // While the transaction is open the staged row is gone from view.
    assert_eq!(db.get_single_entry(1), None);
    let failure = RemoteOutcome::Failed(RemoteFailure::Network("connection reset".to_string()));
    assert_eq!(db.report_revocation(failure), DeleteStep::Force);
    assert_eq!(db.answer_force(false), DeleteStep::Done(DeleteOutcome::RolledBack));
    let after = db.get_all_entries();
    assert_eq!(after, before);
    assert_eq!(after.len(), 1);
    assert_eq!(after[0].id, 1);
}

#[test]
fn declined_force_restores_middle_row() {
    let rows = vec![record(2, "a"), record(5, "b"), record(9, "c")];
    let mut db = Database::from_rows(rows, 9).unwrap();
    let before = db.get_all_entries();
    assert_eq!(db.delete_entry(5), DeleteStep::Confirm);
    assert_eq!(db.answer_confirmation(true), DeleteStep::Revoke("DEL5".to_string()));
    assert_eq!(db.get_all_entries().len(), 2);
    let failure = RemoteOutcome::Failed(RemoteFailure::Status(500));
    assert_eq!(db.report_revocation(failure), DeleteStep::Force);
    assert_eq!(db.answer_force(false), DeleteStep::Done(DeleteOutcome::RolledBack));
    assert_eq!(db.get_all_entries(), before);
}

#[test]
fn forced_delete_commits_despite_remote_failure() {
    let mut db = store_with_one();
    assert_eq!(db.delete_entry(1), DeleteStep::Confirm);
    assert_eq!(db.answer_confirmation(true), DeleteStep::Revoke("DEL123".to_string()));
    let failure = RemoteOutcome::Failed(RemoteFailure::Status(503));
    assert_eq!(db.report_revocation(failure), DeleteStep::Force);
    assert_eq!(db.answer_force(true), DeleteStep::Done(DeleteOutcome::Committed));
    assert_eq!(db.get_single_entry(1), None);
}

#[test]
fn declined_confirmation_cancels() {
    let mut db = store_with_one();
    let before = db.get_all_entries();
    assert_eq!(db.delete_entry(1), DeleteStep::Confirm);
    assert_eq!(db.answer_confirmation(false), DeleteStep::Done(DeleteOutcome::Cancelled));
    assert_eq!(db.get_all_entries(), before);
}

#[test]
fn delete_of_missing_id_is_not_found() {
    let mut db = store_with_one();
    assert_eq!(db.delete_entry(2), DeleteStep::Done(DeleteOutcome::NotFound));
    assert_eq!(db.get_all_entries().len(), 1);
    // No deletion is pending: a new one can start at once.
    assert_eq!(db.delete_entry(1), DeleteStep::Confirm);
}

#[test]
fn ids_are_not_reused_after_delete() {
    let mut db = store_with_one();
    db.delete_entry(1);
    db.answer_confirmation(true);
    db.report_revocation(RemoteOutcome::Removed);
    let l = db.insert_entry("next", "https://x/n", "DELn", "00", 5).unwrap();
    assert_eq!(l.id, 2);
}

#[test]
fn upload_failure_stores_nothing() {
    let mut db = Database::new();
    let err = db
        .transfer_file(
            "a",
            Err(TransferError::Remote(RemoteFailure::Status(500))),
            Ok("ff".to_string()),
            1,
        )
        .unwrap_err();
    assert_eq!(err, TransferError::Remote(RemoteFailure::Status(500)));
    assert!(db.get_all_entries().is_empty());
}

#[test]
fn hash_failure_stores_nothing() {
    let mut db = Database::new();
    let err = db
        .transfer_file(
            "a",
            response("https://x/a", "DELa"),
            Err(TransferError::Io("unreadable".to_string())),
            1,
        )
        .unwrap_err();
    assert_eq!(err, TransferError::Io("unreadable".to_string()));
    assert!(db.get_all_entries().is_empty());
}

#[test]
fn exhausted_ids_surface_the_orphaned_upload() {
    let mut db = Database::from_rows(vec![], i64::MAX).unwrap();
    let err = db
        .transfer_file("a", response("https://x/a", "DELa"), Ok("ff".to_string()), 1)
        .unwrap_err();
    match err {
        TransferError::Persistence { orphan, .. } => {
            let orphan = orphan.unwrap();
            assert_eq!(orphan.transfer_link, "https://x/a");
            assert_eq!(orphan.delete_link, "DELa");
        }
        other => panic!("unexpected error {other:?}"),
    }
    assert!(db.get_all_entries().is_empty());
    let plain = db.insert_entry("b", "l", "d", "h", 1).unwrap_err();
    assert!(matches!(plain, TransferError::Persistence { orphan: None, .. }));
}

#[test]
fn from_rows_accepts_ordered_rows() {
    let db = Database::from_rows(vec![record(1, "a"), record(3, "b")], 4).unwrap();
    assert_eq!(db.get_all_entries().len(), 2);
    assert_eq!(db.get_single_entry(3).unwrap().name, "b");
    let mut db = db;
    assert_eq!(db.insert_entry("c", "l", "d", "h", 1).unwrap().id, 5);
}

#[test]
fn from_rows_refuses_bad_tables() {
    let unordered = Database::from_rows(vec![record(3, "a"), record(1, "b")], 4);
    assert!(matches!(unordered, Err(TransferError::Persistence { .. })));
    let duplicate = Database::from_rows(vec![record(2, "a"), record(2, "b")], 4);
    assert!(matches!(duplicate, Err(TransferError::Persistence { .. })));
    let beyond_last = Database::from_rows(vec![record(1, "a"), record(6, "b")], 4);
    assert!(matches!(beyond_last, Err(TransferError::Persistence { .. })));
    let zero_id = Database::from_rows(vec![record(0, "a")], 4);
    assert!(matches!(zero_id, Err(TransferError::Persistence { .. })));
    let negative_last = Database::from_rows(vec![], -1);
    assert!(matches!(negative_last, Err(TransferError::Persistence { .. })));
}
