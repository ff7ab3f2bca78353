use echodb::{new, Database};

#[test]
fn begin_tx_readable() {
    let db: Database = new();
    db.begin(false);
}

#[test]
fn begin_tx_writeable() {
    let db: Database = new();
    db.begin(true);
}

#[test]
fn writeable_tx_async() {
    let db: Database = new();
    let mut tx = db.begin(true);
    let res = tx.put("test", "something");
    assert!(res.is_ok());
    let res = tx.get("test");
    assert!(res.is_ok());
    let res = tx.commit();
    assert!(res.is_ok());
}

#[test]
fn readable_tx_not_writable() {
    let db: Database = new();
    // ----------
    let mut tx = db.begin(false);
    let res = tx.put("test", "something");
    assert!(res.is_err());
    let res = tx.set("test", "something");
    assert!(res.is_err());
    let res = tx.del("test");
    assert!(res.is_err());
    let res = tx.commit();
    assert!(res.is_err());
    let res = tx.cancel();
    assert!(res.is_ok());
}

#[test]
fn finished_tx_not_writeable() {
    let db: Database = new();
    // ----------
    let mut tx = db.begin(false);
    let res = tx.cancel();
    assert!(res.is_ok());
    let res = tx.put("test", "something");
    assert!(res.is_err());
    let res = tx.set("test", "something");
    assert!(res.is_err());
    let res = tx.del("test");
    assert!(res.is_err());
    let res = tx.commit();
    assert!(res.is_err());
    let res = tx.cancel();
    assert!(res.is_err());
}

#[test]
fn cancelled_tx_is_cancelled() {
    let db: Database = new();
    // ----------
    let mut tx = db.begin(true);
    tx.put("test", "something").unwrap();
    let res = tx.contains("test").unwrap();
    assert_eq!(res, true);
    let res = tx.get("test").unwrap();
    assert_eq!(res, Some("something".to_owned()));
    let res = tx.cancel();
    assert!(res.is_ok());
    // ----------
    let mut tx = db.begin(false);
    let res = tx.contains("test").unwrap();
    assert_eq!(res, false);
    let res = tx.get("test").unwrap();
    assert_eq!(res, None);
    let res = tx.cancel();
    assert!(res.is_ok());
}

#[test]
fn committed_tx_is_committed() {
    let db: Database = new();
    // ----------
    let mut tx = db.begin(true);
    tx.put("test", "something").unwrap();
    let res = tx.contains("test").unwrap();
    assert_eq!(res, true);
    let res = tx.get("test").unwrap();
    assert_eq!(res, Some("something".to_owned()));
    let res = tx.commit();
    assert!(res.is_ok());
    // ----------
    let mut tx = db.begin(false);
    let res = tx.contains("test").unwrap();
    assert_eq!(res, true);
    let res = tx.get("test").unwrap();
    assert_eq!(res, Some("something".to_owned()));
    let res = tx.cancel();
    assert!(res.is_ok());
}

#[test]
fn multiple_concurrent_readers() {
    let db: Database = new();
    // ----------
    let mut tx = db.begin(true);
    tx.put("test", "something").unwrap();
    let res = tx.contains("test").unwrap();
    assert_eq!(res, true);
    let res = tx.get("test").unwrap();
    assert_eq!(res, Some("something".to_owned()));
    let res = tx.commit();
    assert!(res.is_ok());
    // ----------
    let mut tx1 = db.begin(false);
    let res = tx1.contains("test").unwrap();
    assert_eq!(res, true);
    let res = tx1.contains("temp").unwrap();
    assert_eq!(res, false);
    // ----------
    let mut tx2 = db.begin(false);
    let res = tx2.contains("test").unwrap();
    assert_eq!(res, true);
    let res = tx2.contains("temp").unwrap();
    assert_eq!(res, false);
    // ----------
    let res = tx1.cancel();
    assert!(res.is_ok());
    let res = tx2.cancel();
    assert!(res.is_ok());
}

#[test]
fn multiple_concurrent_operators() {
    let db: Database = new();
    // ----------
    let mut tx = db.begin(true);
    tx.put("test", "something").unwrap();
    let res = tx.contains("test").unwrap();
    assert_eq!(res, true);
    let res = tx.get("test").unwrap();
    assert_eq!(res, Some("something".to_owned()));
    let res = tx.commit();
    assert!(res.is_ok());
    // ----------
    let mut tx1 = db.begin(false);
    let res = tx1.contains("test").unwrap();
    assert_eq!(res, true);
    let res = tx1.contains("temp").unwrap();
    assert_eq!(res, false);
    // ----------
    let mut txw = db.begin(true);
    txw.put("temp", "other").unwrap();
    let res = txw.contains("test").unwrap();
    assert_eq!(res, true);
    let res = txw.contains("temp").unwrap();
    assert_eq!(res, true);
    let res = txw.commit();
    assert!(res.is_ok());
    // ----------
    let mut tx2 = db.begin(false);
    let res = tx2.contains("test").unwrap();
    assert_eq!(res, true);
    let res = tx2.contains("temp").unwrap();
    assert_eq!(res, true);
    // ----------
    let res = tx1.contains("temp").unwrap();
    assert_eq!(res, false);
    // ----------
    let res = tx1.cancel();
    assert!(res.is_ok());
    let res = tx2.cancel();
    assert!(res.is_ok());
}
