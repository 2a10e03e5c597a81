use su_store::domain::{Message, Process, ProcessScheduler, Scheduler};
use su_store::error::StoreErrorType;
use su_store::store::StoreClient;

fn client() -> StoreClient {
    StoreClient::new(4).unwrap()
}

fn process(id: &str, meta: &str) -> Process {
    Process { process_id: id.to_string(), structured_metadata: meta.to_string() }
}

fn message(pid: &str, mid: &str, epoch: i32, nonce: i32, timestamp: i64, chain: &str) -> Message {
    Message {
        process_id: pid.to_string(),
        message_id: mid.to_string(),
        structured_metadata: "{}".to_string(),
        epoch,
        nonce,
        timestamp,
        hash_chain: chain.to_string(),
    }
}

fn scheduler(url: &str, count: i32) -> Scheduler {
    Scheduler { row_id: None, url: url.to_string(), process_count: count }
}

#[test]
fn process_save_is_idempotent_and_first_write_wins() {
    let mut c = client();
    let p1 = process("p-1", "{\"v\":1}");
    assert_eq!(c.save_process(&p1, b"payload-one").unwrap(), "saved");

    // A second save under the same key succeeds and is ignored.
    let p2 = process("p-1", "{\"v\":2}");
    assert_eq!(c.save_process(&p2, b"payload-two").unwrap(), "saved");

    let got = c.get_process("p-1").unwrap();
    assert_eq!(got, p1);
    assert_eq!(got.structured_metadata, "{\"v\":1}");
}

#[test]
fn message_duplicate_is_rejected() {
    let mut c = client();
    let m1 = message("p-1", "m-1", 0, 0, 100, "h1");
    assert_eq!(c.save_message(&m1, b"b1").unwrap(), "saved");

    let m2 = message("p-1", "m-1", 1, 1, 200, "h2");
    let err = c.save_message(&m2, b"b2").unwrap_err();
    match err {
        StoreErrorType::DatabaseError(s) => assert_eq!(s, "Duplicate message id"),
        other => panic!("expected DatabaseError, got {:?}", other),
    }

    // No second row was created, and the stored record is the first.
    let log = c.get_messages("p-1").unwrap();
    assert_eq!(log.len(), 1);
    assert_eq!(log[0], m1);
}

#[test]
fn duplicate_message_id_is_rejected_across_processes() {
    let mut c = client();
    let m1 = message("p-1", "m-1", 0, 0, 100, "h1");
    assert_eq!(c.save_message(&m1, b"b1").unwrap(), "saved");

    // message_id is unique across the whole log, not per process.
    let m2 = message("p-2", "m-1", 0, 0, 100, "h1");
    assert!(matches!(
        c.save_message(&m2, b"b1"),
        Err(StoreErrorType::DatabaseError(_))
    ));
    assert!(c.get_messages("p-2").unwrap().is_empty());
}

#[test]
fn latest_follows_the_append_order() {
    let mut c = client();
    let m1 = message("p-1", "m-1", 0, 0, 100, "h1");
    let m2 = message("p-1", "m-2", 0, 1, 200, "h2");
    let m3 = message("p-1", "m-3", 0, 2, 300, "h3");
    c.save_message(&m1, b"b1").unwrap();
    c.save_message(&m2, b"b2").unwrap();
    c.save_message(&m3, b"b3").unwrap();
    assert_eq!(c.get_latest_message("p-1").unwrap(), Some(m3));

    let m4 = message("p-1", "m-4", 1, 0, 50, "h4");
    c.save_message(&m4, b"b4").unwrap();
    // Insertion sequence, not the caller-supplied hints, decides.
    assert_eq!(c.get_latest_message("p-1").unwrap(), Some(m4));
}

#[test]
fn list_is_in_insertion_order_per_process() {
    let mut c = client();
    let m1 = message("p-1", "m-1", 0, 0, 100, "h1");
    let other = message("p-2", "m-x", 0, 0, 150, "hx");
    let m2 = message("p-1", "m-2", 0, 1, 200, "h2");
    let m3 = message("p-1", "m-3", 0, 2, 300, "h3");
    c.save_message(&m1, b"b1").unwrap();
    c.save_message(&other, b"bx").unwrap();
    c.save_message(&m2, b"b2").unwrap();
    c.save_message(&m3, b"b3").unwrap();

    let log = c.get_messages("p-1").unwrap();
    assert_eq!(log, vec![m1, m2, m3]);
    let log2 = c.get_messages("p-2").unwrap();
    assert_eq!(log2, vec![other]);
}

#[test]
fn process_round_trip_preserves_every_field() {
    let mut c = client();
    let p = process("proc-42", "{\"owner\":\"node-7\"}");
    c.save_process(&p, b"\x00\x01binary\xff").unwrap();
    assert_eq!(c.get_process("proc-42").unwrap(), p);
}

#[test]
fn message_round_trip_preserves_every_field() {
    let mut c = client();
    let m = message("proc-42", "msg-9", 3, 17, 1_700_000_000_123, "chain-link");
    c.save_message(&m, b"\x00\x01binary\xff").unwrap();
    let got = c.get_message("msg-9").unwrap();
    assert_eq!(got, m);
    assert_eq!(got.epoch, 3);
    assert_eq!(got.nonce, 17);
    assert_eq!(got.timestamp, 1_700_000_000_123);
    assert_eq!(got.hash_chain, "chain-link");
}

#[test]
fn unused_keys_give_not_found_never_database_error() {
    let mut c = client();
    // Populate unrelated rows so the lookups scan something.
    c.save_process(&process("p-1", "{}"), b"b").unwrap();
    c.save_message(&message("p-1", "m-1", 0, 0, 1, "h"), b"b").unwrap();
    c.save_scheduler(&scheduler("url-a", 0)).unwrap();

    assert!(matches!(c.get_process("absent"), Err(StoreErrorType::NotFound(_))));
    assert!(matches!(c.get_message("absent"), Err(StoreErrorType::NotFound(_))));
    assert!(matches!(c.get_scheduler(&99), Err(StoreErrorType::NotFound(_))));
    assert!(matches!(
        c.get_scheduler_by_url(&"absent".to_string()),
        Err(StoreErrorType::NotFound(_))
    ));
    assert!(matches!(
        c.get_process_scheduler("absent"),
        Err(StoreErrorType::NotFound(_))
    ));
    // An empty log is an absence of messages, not an error.
    assert_eq!(c.get_latest_message("absent").unwrap(), None);
}

#[test]
fn not_found_carries_the_entity_in_its_detail() {
    let mut c = client();
    let err = c.get_process("absent").unwrap_err();
    assert_eq!(err.message(), "Process not found");
    let err = c.get_message("absent").unwrap_err();
    assert_eq!(err.message(), "Message not found");
    let err = c.get_scheduler(&1).unwrap_err();
    assert_eq!(err.message(), "Scheduler not found");
    let err = c.get_process_scheduler("absent").unwrap_err();
    assert_eq!(err.message(), "Process scheduler not found");
}

#[test]
fn first_assignment_wins() {
    let mut c = client();
    c.save_scheduler(&scheduler("url-a", 0)).unwrap();
    c.save_scheduler(&scheduler("url-b", 0)).unwrap();
    let s1 = c.get_scheduler_by_url(&"url-a".to_string()).unwrap();
    let s2 = c.get_scheduler_by_url(&"url-b".to_string()).unwrap();

    let a1 = ProcessScheduler {
        row_id: None,
        process_id: "p-1".to_string(),
        scheduler_row_id: s1.row_id.unwrap(),
    };
    assert_eq!(c.save_process_scheduler(&a1).unwrap(), "saved");

    // The attempt to rebind succeeds as a no-op.
    let a2 = ProcessScheduler {
        row_id: None,
        process_id: "p-1".to_string(),
        scheduler_row_id: s2.row_id.unwrap(),
    };
    assert_eq!(c.save_process_scheduler(&a2).unwrap(), "saved");

    let got = c.get_process_scheduler("p-1").unwrap();
    assert_eq!(got.scheduler_row_id, s1.row_id.unwrap());
    assert!(got.row_id.is_some());
}

#[test]
fn schedulers_enumerate_in_ascending_identity_order() {
    let mut c = client();
    c.save_scheduler(&scheduler("a", 0)).unwrap();
    c.save_scheduler(&scheduler("b", 0)).unwrap();
    // Interleave an update between the inserts.
    let mut a = c.get_scheduler_by_url(&"a".to_string()).unwrap();
    a.process_count = 5;
    assert_eq!(c.update_scheduler(&a).unwrap(), "updated");
    c.save_scheduler(&scheduler("c", 0)).unwrap();
    // A conflicting re-insert of "b" is a silent no-op.
    c.save_scheduler(&scheduler("b", 9)).unwrap();

    let all = c.get_all_schedulers().unwrap();
    assert_eq!(all.len(), 3);
    let urls: Vec<&str> = all.iter().map(|s| s.url.as_str()).collect();
    assert_eq!(urls, vec!["a", "b", "c"]);
    for w in all.windows(2) {
        assert!(w[0].row_id.unwrap() < w[1].row_id.unwrap());
    }
    assert_eq!(all[0].process_count, 5);
    assert_eq!(all[1].process_count, 0);
}

#[test]
fn scheduler_save_is_idempotent_by_url() {
    let mut c = client();
    c.save_scheduler(&scheduler("url-a", 1)).unwrap();
    c.save_scheduler(&scheduler("url-a", 7)).unwrap();
    let got = c.get_scheduler_by_url(&"url-a".to_string()).unwrap();
    // The second write's fields are ignored.
    assert_eq!(got.process_count, 1);
    assert_eq!(c.get_all_schedulers().unwrap().len(), 1);
}

#[test]
fn update_scheduler_requires_an_identity() {
    let mut c = client();
    c.save_scheduler(&scheduler("url-a", 0)).unwrap();
    let err = c.update_scheduler(&scheduler("url-a", 3)).unwrap_err();
    match err {
        StoreErrorType::DatabaseError(s) => assert_eq!(s, "Scheduler row_id not set"),
        other => panic!("expected DatabaseError, got {:?}", other),
    }
}

#[test]
fn update_scheduler_rewrites_url_and_count_in_place() {
    let mut c = client();
    c.save_scheduler(&scheduler("url-a", 0)).unwrap();
    let mut s = c.get_scheduler_by_url(&"url-a".to_string()).unwrap();
    s.url = "url-z".to_string();
    s.process_count = 11;
    assert_eq!(c.update_scheduler(&s).unwrap(), "updated");

    let got = c.get_scheduler(&s.row_id.unwrap()).unwrap();
    assert_eq!(got.url, "url-z");
    assert_eq!(got.process_count, 11);
    assert!(matches!(
        c.get_scheduler_by_url(&"url-a".to_string()),
        Err(StoreErrorType::NotFound(_))
    ));
}

#[test]
fn update_scheduler_refuses_a_url_collision() {
    let mut c = client();
    c.save_scheduler(&scheduler("url-a", 0)).unwrap();
    c.save_scheduler(&scheduler("url-b", 0)).unwrap();
    let mut b = c.get_scheduler_by_url(&"url-b".to_string()).unwrap();
    b.url = "url-a".to_string();
    let err = c.update_scheduler(&b).unwrap_err();
    match err {
        StoreErrorType::DatabaseError(s) => assert_eq!(s, "Duplicate scheduler url"),
        other => panic!("expected DatabaseError, got {:?}", other),
    }
    // Nothing changed.
    assert_eq!(
        c.get_scheduler_by_url(&"url-b".to_string()).unwrap().url,
        "url-b"
    );
}

#[test]
fn update_of_an_absent_identity_matches_no_row() {
    let mut c = client();
    c.save_scheduler(&scheduler("url-a", 0)).unwrap();
    let ghosted = Scheduler { row_id: Some(99), url: "url-x".to_string(), process_count: 1 };
    // A statement that matches no row still reports success.
    assert_eq!(c.update_scheduler(&ghosted).unwrap(), "updated");
    let all = c.get_all_schedulers().unwrap();
    assert_eq!(all.len(), 1);
    assert_eq!(all[0].url, "url-a");
}

#[test]
fn error_detail_is_carried_through_every_variant() {
    assert_eq!(StoreErrorType::DatabaseError("a".to_string()).message(), "a");
    assert_eq!(StoreErrorType::NotFound("b".to_string()).message(), "b");
    assert_eq!(StoreErrorType::JsonError("c".to_string()).message(), "c");
    assert_eq!(StoreErrorType::EnvVarError("d".to_string()).message(), "d");
}

#[test]
fn zero_sized_pool_is_a_misconfiguration() {
    assert!(matches!(
        StoreClient::new(0),
        Err(StoreErrorType::DatabaseError(_))
    ));
}

#[test]
fn exhausted_pool_fails_operations_until_a_lease_returns() {
    let mut c = StoreClient::new(1).unwrap();
    let lease = c.get_conn().unwrap();

    // The one connection is out: every operation fails, and a second
    // checkout does too.
    let err = c.save_process(&process("p-1", "{}"), b"b").unwrap_err();
    match err {
        StoreErrorType::DatabaseError(s) => {
            assert_eq!(s, "Failed to get connection from pool.")
        },
        other => panic!("expected DatabaseError, got {:?}", other),
    }
    assert!(matches!(c.get_conn(), Err(StoreErrorType::DatabaseError(_))));

    // Nothing was written while the pool was exhausted.
    c.return_conn(lease);
    assert!(matches!(c.get_process("p-1"), Err(StoreErrorType::NotFound(_))));
    assert_eq!(c.save_process(&process("p-1", "{}"), b"b").unwrap(), "saved");
    assert_eq!(c.get_process("p-1").unwrap(), process("p-1", "{}"));
}

#[test]
fn operations_release_their_lease_on_error_paths_too() {
    let mut c = StoreClient::new(1).unwrap();
    let m = message("p-1", "m-1", 0, 0, 1, "h");
    c.save_message(&m, b"b").unwrap();
    // A duplicate append fails but still releases its lease...
    assert!(c.save_message(&m, b"b").is_err());
    // ...so the single connection is free again.
    assert_eq!(c.get_latest_message("p-1").unwrap(), Some(m));
}
