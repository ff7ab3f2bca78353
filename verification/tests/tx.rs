use echodb::{new, Database, Error};

#[test]
fn set_commit_get_round_trip() {
    let db: Database = new();
    let mut tx = db.begin(true);
    tx.set("k", "v").unwrap();
    tx.commit().unwrap();
    let mut tx = db.begin(false);
    assert_eq!(tx.get("k").unwrap(), Some("v".to_owned()));
    tx.cancel().unwrap();
}

#[test]
fn set_overwrites_existing_value() {
    let db: Database = new();
    let mut tx = db.begin(true);
    tx.set("k", "a").unwrap();
    tx.set("k", "b").unwrap();
    assert_eq!(tx.get("k").unwrap(), Some("b".to_owned()));
    tx.commit().unwrap();
}

#[test]
fn put_existing_key_is_rejected() {
    let db: Database = new();
    let mut tx = db.begin(true);
    tx.put("k", "a").unwrap();
    let res = tx.put("k", "b");
    assert_eq!(res, Err(Error::KeyAlreadyExists));
    // The failed put left the entry untouched and the transaction usable.
    assert_eq!(tx.get("k").unwrap(), Some("a".to_owned()));
    tx.commit().unwrap();
}

#[test]
fn conditional_update() {
    let db: Database = new();
    let mut tx = db.begin(true);
    tx.put("k", "a").unwrap();
    tx.commit().unwrap();
    // ----------
    let mut tx = db.begin(true);
    let res = tx.putc("k", "b", Some("a"));
    assert!(res.is_ok());
    let res = tx.putc("k", "c", Some("a"));
    assert_eq!(res, Err(Error::ValNotExpectedValue));
    assert_eq!(tx.get("k").unwrap(), Some("b".to_owned()));
    let res = tx.commit();
    assert!(res.is_ok());
}

#[test]
fn putc_none_means_insert_if_absent() {
    let db: Database = new();
    let mut tx = db.begin(true);
    let res = tx.putc("k", "a", None);
    assert!(res.is_ok());
    // Now present, so a `None` expectation fails and changes nothing.
    let res = tx.putc("k", "b", None);
    assert_eq!(res, Err(Error::ValNotExpectedValue));
    assert_eq!(tx.get("k").unwrap(), Some("a".to_owned()));
    tx.cancel().unwrap();
}

#[test]
fn del_missing_key_is_noop() {
    let db: Database = new();
    let mut tx = db.begin(true);
    tx.set("a", "1").unwrap();
    tx.del("b").unwrap();
    assert_eq!(tx.get("a").unwrap(), Some("1".to_owned()));
    assert_eq!(tx.contains("b").unwrap(), false);
    tx.cancel().unwrap();
}

#[test]
fn delc_matches_expectation() {
    let db: Database = new();
    let mut tx = db.begin(true);
    tx.set("k", "a").unwrap();
    let res = tx.delc("k", Some("b"));
    assert_eq!(res, Err(Error::ValNotExpectedValue));
    assert_eq!(tx.get("k").unwrap(), Some("a".to_owned()));
    let res = tx.delc("k", Some("a"));
    assert!(res.is_ok());
    assert_eq!(tx.contains("k").unwrap(), false);
    // Absent key with a `None` expectation: nothing to delete, still ok.
    let res = tx.delc("k", None);
    assert!(res.is_ok());
    // Absent key with a `Some` expectation fails.
    let res = tx.delc("k", Some("a"));
    assert_eq!(res, Err(Error::ValNotExpectedValue));
    tx.cancel().unwrap();
}

#[test]
fn cancel_after_commit_reports_closed() {
    let db: Database = new();
    let mut tx = db.begin(true);
    tx.set("k", "v").unwrap();
    tx.commit().unwrap();
    assert!(tx.closed());
    assert_eq!(tx.cancel(), Err(Error::TxClosed));
    assert_eq!(tx.commit(), Err(Error::TxClosed));
    assert_eq!(tx.get("k"), Err(Error::TxClosed));
    assert_eq!(tx.contains("k"), Err(Error::TxClosed));
    assert_eq!(tx.keys("a".."z", 10), Err(Error::TxClosed));
    assert_eq!(tx.scan("a".."z", 10), Err(Error::TxClosed));
    assert_eq!(tx.putc("k", "v", None), Err(Error::TxClosed));
    assert_eq!(tx.delc("k", None), Err(Error::TxClosed));
}

#[test]
fn readonly_commit_rejected_but_usable() {
    let db: Database = new();
    let mut tx = db.begin(false);
    assert_eq!(tx.commit(), Err(Error::TxNotWritable));
    assert_eq!(tx.putc("k", "v", None), Err(Error::TxNotWritable));
    assert_eq!(tx.delc("k", None), Err(Error::TxNotWritable));
    assert!(!tx.closed());
    // Reads still work after the rejections.
    assert_eq!(tx.contains("k").unwrap(), false);
    assert!(tx.cancel().is_ok());
}

#[test]
fn keys_are_ordered_half_open_and_limited() {
    let db: Database = new();
    let mut tx = db.begin(true);
    tx.set("d", "4").unwrap();
    tx.set("a", "1").unwrap();
    tx.set("c", "3").unwrap();
    tx.set("b", "2").unwrap();
    tx.commit().unwrap();
    // ----------
    let mut tx = db.begin(false);
    // Half-open: "a" included, "d" excluded; ordered ascending.
    let ks = tx.keys("a".."d", 10).unwrap();
    assert_eq!(ks, vec!["a".to_owned(), "b".to_owned(), "c".to_owned()]);
    // The limit truncates after ordering.
    let ks = tx.keys("a".."z", 2).unwrap();
    assert_eq!(ks, vec!["a".to_owned(), "b".to_owned()]);
    // A limit of zero yields nothing.
    let ks = tx.keys("a".."z", 0).unwrap();
    assert_eq!(ks, Vec::<String>::new());
    // An inverted range yields nothing.
    let ks = tx.keys("z".."a", 10).unwrap();
    assert_eq!(ks, Vec::<String>::new());
    // An empty range yields nothing.
    let ks = tx.keys("b".."b", 10).unwrap();
    assert_eq!(ks, Vec::<String>::new());
    tx.cancel().unwrap();
}

#[test]
fn scan_returns_ordered_pairs() {
    let db: Database = new();
    let mut tx = db.begin(true);
    tx.set("b", "2").unwrap();
    tx.set("a", "1").unwrap();
    tx.set("c", "3").unwrap();
    tx.commit().unwrap();
    // ----------
    let mut tx = db.begin(false);
    let ps = tx.scan("a".."c", 10).unwrap();
    assert_eq!(
        ps,
        vec![("a".to_owned(), "1".to_owned()), ("b".to_owned(), "2".to_owned())]
    );
    let ps = tx.scan("a".."z", 1).unwrap();
    assert_eq!(ps, vec![("a".to_owned(), "1".to_owned())]);
    tx.cancel().unwrap();
}

#[test]
fn scan_sees_uncommitted_writes_of_its_own() {
    let db: Database = new();
    let mut tx = db.begin(true);
    tx.set("a", "1").unwrap();
    let ps = tx.scan("a".."z", 10).unwrap();
    assert_eq!(ps, vec![("a".to_owned(), "1".to_owned())]);
    tx.cancel().unwrap();
    // The cancelled write never reached the committed map.
    let mut tx = db.begin(false);
    let ps = tx.scan("a".."z", 10).unwrap();
    assert_eq!(ps, Vec::<(String, String)>::new());
    tx.cancel().unwrap();
}

#[test]
fn snapshot_is_stable_under_later_commits() {
    let db: Database = new();
    let mut tx = db.begin(true);
    tx.set("k", "old").unwrap();
    tx.commit().unwrap();
    // ----------
    let mut reader = db.begin(false);
    let mut writer = db.begin(true);
    writer.set("k", "new").unwrap();
    writer.set("extra", "x").unwrap();
    writer.commit().unwrap();
    // The reader's snapshot pre-dates the commit and is unaffected.
    assert_eq!(reader.get("k").unwrap(), Some("old".to_owned()));
    assert_eq!(reader.contains("extra").unwrap(), false);
    assert_eq!(reader.keys("a".."z", 10).unwrap(), vec!["k".to_owned()]);
    reader.cancel().unwrap();
    // A fresh reader sees the commit.
    let mut after = db.begin(false);
    assert_eq!(after.get("k").unwrap(), Some("new".to_owned()));
    assert_eq!(after.contains("extra").unwrap(), true);
    after.cancel().unwrap();
}
