use mud_server::clock::Timestamp;
use mud_server::transactionstorage::{MessageLog, Transaction};

fn ts(sec: i64, nsec: i32) -> Timestamp {
    Timestamp::new(sec, nsec)
}

fn texts(records: &Vec<Transaction>) -> Vec<String> {
    let mut out = Vec::new();
    for r in records {
        out.push(r.message.clone());
    }
    out
}

#[test]
fn timestamps_order_by_seconds_then_nanoseconds() {
    assert!(ts(2, 0).after(&ts(1, 999_999_999)));
    assert!(ts(1, 5).after(&ts(1, 4)));
    assert!(!ts(1, 5).after(&ts(1, 5)));
    assert!(!ts(1, 5).after(&ts(1, 6)));
    assert!(!ts(0, 9).after(&ts(1, 0)));
    assert!(ts(-1, 0).after(&ts(-2, 5)));
}

#[test]
fn transaction_new_has_no_id_yet() {
    let t = Transaction::new("hello".to_string(), ts(7, 3));
    assert_eq!(t.id, 0);
    assert_eq!(t.message, "hello");
    assert_eq!(t.time_created, ts(7, 3));
    let copy = t.duplicate();
    assert_eq!(copy.id, 0);
    assert_eq!(copy.message, "hello");
    assert_eq!(copy.time_created, ts(7, 3));
}

#[test]
fn insert_assigns_ids_from_one() {
    let mut log = MessageLog::new();
    assert_eq!(log.len(), 0);
    let a = log.insert_record(Transaction::new("a".to_string(), ts(1, 0))).unwrap();
    let b = log.insert_record(Transaction::new("b".to_string(), ts(2, 0))).unwrap();
    let c = log.insert_record(Transaction::new("c".to_string(), ts(3, 0))).unwrap();
    assert_eq!((a.id, b.id, c.id), (1, 2, 3));
    assert_eq!(a.message, "a");
    assert_eq!(c.time_created, ts(3, 0));
    assert_eq!(log.len(), 3);
}

#[test]
fn query_returns_what_is_strictly_newer() {
    let mut log = MessageLog::new();
    for (i, text) in ["a", "b", "c", "d"].iter().enumerate() {
        log.insert_record(Transaction::new(text.to_string(), ts(10 + i as i64, 0)));
    }
    assert_eq!(texts(&log.query(ts(0, 0))), vec!["a", "b", "c", "d"]);
    assert_eq!(texts(&log.query(ts(10, 0))), vec!["b", "c", "d"]);
    assert_eq!(texts(&log.query(ts(11, 500))), vec!["c", "d"]);
    assert_eq!(texts(&log.query(ts(13, 0))), Vec::<String>::new());
    assert_eq!(texts(&log.query(ts(99, 0))), Vec::<String>::new());
    let found = log.query(ts(11, 0));
    assert_eq!(found[0].id, 3);
    assert_eq!(found[1].id, 4);
}

#[test]
fn round_trip_from_every_record() {
    let mut log = MessageLog::new();
    let n = 6;
    let mut stored = Vec::new();
    for k in 0..n {
        stored.push(log.insert_record(Transaction::new(format!("m{}", k), ts(100, k * 10))).unwrap());
    }
    for k in 0..n as usize {
        let found = log.query(stored[k].time_created);
        assert_eq!(found.len(), n as usize - k - 1);
        for (j, r) in found.iter().enumerate() {
            assert_eq!(r.id, stored[k + 1 + j].id);
            assert_eq!(r.message, stored[k + 1 + j].message);
            assert_eq!(r.time_created, stored[k + 1 + j].time_created);
        }
    }
}

#[test]
fn records_with_the_time_asked_for_are_not_newer() {
    let mut log = MessageLog::new();
    log.insert_record(Transaction::new("a".to_string(), ts(5, 0)));
    log.insert_record(Transaction::new("b".to_string(), ts(5, 0)));
    log.insert_record(Transaction::new("c".to_string(), ts(6, 0)));
    assert_eq!(texts(&log.query(ts(5, 0))), vec!["c"]);
    assert_eq!(texts(&log.query(ts(4, 0))), vec!["a", "b", "c"]);
}

#[test]
fn a_late_arrival_is_filed_by_its_time() {
    let mut log = MessageLog::new();
    log.insert_record(Transaction::new("first".to_string(), ts(10, 0)));
    log.insert_record(Transaction::new("third".to_string(), ts(30, 0)));
    let late = log.insert_record(Transaction::new("second".to_string(), ts(20, 0))).unwrap();
    assert_eq!(late.id, 3);
    let all = log.query(ts(0, 0));
    assert_eq!(texts(&all), vec!["first", "second", "third"]);
    assert_eq!(all[1].id, 3);
    assert_eq!(all[2].id, 2);
    assert_eq!(texts(&log.query(ts(20, 0))), vec!["third"]);
    let tie = log.insert_record(Transaction::new("tie".to_string(), ts(20, 0))).unwrap();
    assert_eq!(tie.id, 4);
    assert_eq!(texts(&log.query(ts(0, 0))), vec!["first", "second", "tie", "third"]);
}

#[test]
fn append_files_the_text_under_the_next_id() {
    let mut log = MessageLog::new();
    let a = log.append("one".to_string()).unwrap();
    let b = log.append("two".to_string()).unwrap();
    assert_eq!(a.id, 1);
    assert_eq!(b.id, 2);
    assert_eq!(a.message, "one");
    assert_eq!(b.message, "two");
    assert!(a.time_created.sec > 1_000_000_000);
    assert!(a.time_created.nsec >= 0 && a.time_created.nsec < 1_000_000_000);
    assert!(!a.time_created.after(&b.time_created));
    assert_eq!(log.len(), 2);
    assert_eq!(texts(&log.query(ts(0, 0))), vec!["one", "two"]);
}
