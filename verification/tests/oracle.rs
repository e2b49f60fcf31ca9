use prophecy_contract::oracle::{CallContext, OracleError, ProphecyOracle};

fn ctx(caller: &str, timestamp: u64) -> CallContext {
    CallContext { caller: caller.to_string(), timestamp }
}

#[test]
fn test_store_and_get_prophecy() {
    let owner = "oracle.near".to_string();
    let mut contract = ProphecyOracle::new(owner.clone());
    let prophecy_id = "test_prophecy".to_string();
    let prophecy_text = "The future of Web3 is bright!".to_string();

    let stored = contract.store_prophecy(
        ctx("oracle.near", 1),
        prophecy_id.clone(),
        prophecy_text.clone(),
    );
    assert!(stored.is_ok());

    let stored_prophecy = contract.get_prophecy(prophecy_id).unwrap();
    assert_eq!(stored_prophecy.text, prophecy_text);
}

#[test]
fn owner_write_is_readable_with_creator_and_timestamp() {
    let mut contract = ProphecyOracle::new("oracle.near".to_string());
    let stored = contract.store_prophecy(
        ctx("oracle.near", 1_700_000_000_000_000_000),
        "test_prophecy".to_string(),
        "The future of Web3 is bright!".to_string(),
    );
    assert!(stored.is_ok());

    let record = contract.get_prophecy("test_prophecy".to_string()).unwrap();
    assert_eq!(record.text, "The future of Web3 is bright!");
    assert_eq!(record.creator, "oracle.near");
    assert_eq!(record.timestamp, 1_700_000_000_000_000_000);
}

#[test]
fn non_owner_store_fails_and_key_stays_absent() {
    let mut contract = ProphecyOracle::new("oracle.near".to_string());
    let stored = contract.store_prophecy(ctx("eve.near", 1), "x".to_string(), "hack".to_string());
    assert_eq!(stored, Err(OracleError::Unauthorized));
    assert!(contract.get_prophecy("x".to_string()).is_none());
}

#[test]
fn non_owner_store_leaves_existing_record_unchanged() {
    let mut contract = ProphecyOracle::new("oracle.near".to_string());
    assert!(contract
        .store_prophecy(ctx("oracle.near", 1), "k".to_string(), "original".to_string())
        .is_ok());

    let rejected =
        contract.store_prophecy(ctx("eve.near", 2), "k".to_string(), "forged".to_string());
    assert_eq!(rejected, Err(OracleError::Unauthorized));

    let record = contract.get_prophecy("k".to_string()).unwrap();
    assert_eq!(record.text, "original");
    assert_eq!(record.creator, "oracle.near");
    assert_eq!(record.timestamp, 1);
}

#[test]
fn overwrite_updates_text_but_keeps_order_slot() {
    let mut contract = ProphecyOracle::new("oracle.near".to_string());
    assert!(contract
        .store_prophecy(ctx("oracle.near", 1), "a".to_string(), "first".to_string())
        .is_ok());
    assert!(contract
        .store_prophecy(ctx("oracle.near", 2), "b".to_string(), "second".to_string())
        .is_ok());
    assert!(contract
        .store_prophecy(ctx("oracle.near", 3), "a".to_string(), "rewritten".to_string())
        .is_ok());

    let listed = contract.get_latest_prophecies(2);
    assert_eq!(listed.len(), 2);
    assert_eq!(listed[0].0, "a");
    assert_eq!(listed[0].1.text, "rewritten");
    assert_eq!(listed[0].1.timestamp, 3);
    assert_eq!(listed[1].0, "b");
    assert_eq!(listed[1].1.text, "second");
}

#[test]
fn pagination_returns_min_of_count_and_limit_in_order() {
    let mut contract = ProphecyOracle::new("oracle.near".to_string());
    for (i, key) in ["one", "two", "three"].iter().enumerate() {
        assert!(contract
            .store_prophecy(ctx("oracle.near", i as u64), key.to_string(), format!("text {}", i))
            .is_ok());
    }

    assert_eq!(contract.get_latest_prophecies(0).len(), 0);

    let two = contract.get_latest_prophecies(2);
    assert_eq!(two.len(), 2);
    assert_eq!(two[0].0, "one");
    assert_eq!(two[1].0, "two");

    let all = contract.get_latest_prophecies(10);
    assert_eq!(all.len(), 3);
    assert_eq!(all[0].0, "one");
    assert_eq!(all[1].0, "two");
    assert_eq!(all[2].0, "three");
}

#[test]
fn absent_key_reads_as_empty() {
    let contract = ProphecyOracle::new("oracle.near".to_string());
    assert!(contract.get_prophecy("never_stored".to_string()).is_none());

    let mut written = ProphecyOracle::new("oracle.near".to_string());
    assert!(written
        .store_prophecy(ctx("oracle.near", 1), "present".to_string(), "text".to_string())
        .is_ok());
    assert!(written.get_prophecy("missing".to_string()).is_none());
}

#[test]
fn repeated_reads_return_identical_results() {
    let mut contract = ProphecyOracle::new("oracle.near".to_string());
    assert!(contract
        .store_prophecy(ctx("oracle.near", 5), "k1".to_string(), "v1".to_string())
        .is_ok());
    assert!(contract
        .store_prophecy(ctx("oracle.near", 6), "k2".to_string(), "v2".to_string())
        .is_ok());

    let first = contract.get_prophecy("k1".to_string()).unwrap();
    let second = contract.get_prophecy("k1".to_string()).unwrap();
    assert_eq!(first.text, second.text);
    assert_eq!(first.timestamp, second.timestamp);
    assert_eq!(first.creator, second.creator);

    let list_a = contract.get_latest_prophecies(10);
    let list_b = contract.get_latest_prophecies(10);
    assert_eq!(list_a.len(), list_b.len());
    for (pa, pb) in list_a.iter().zip(list_b.iter()) {
        assert_eq!(pa.0, pb.0);
        assert_eq!(pa.1.text, pb.1.text);
        assert_eq!(pa.1.timestamp, pb.1.timestamp);
        assert_eq!(pa.1.creator, pb.1.creator);
    }
}

#[test]
fn empty_key_and_empty_text_are_accepted() {
    let mut contract = ProphecyOracle::new("oracle.near".to_string());
    assert!(contract
        .store_prophecy(ctx("oracle.near", 0), "".to_string(), "".to_string())
        .is_ok());
    let record = contract.get_prophecy("".to_string()).unwrap();
    assert_eq!(record.text, "");
    assert_eq!(contract.get_latest_prophecies(1).len(), 1);
}
