use ticky::asset::Asset;
use ticky::data_handler::{kind_code, AssetHandler, DataError, DataType};
use ticky::keys::{build_part_prefix, build_quote_key, is_valid_name};
use ticky::store::KvStore;

#[test]
fn kv_put_get_delete() {
    let mut db = KvStore::new();
    assert_eq!(db.len(), 0);
    db.put(vec![1, 2, 3], vec![9]);
    db.put(vec![0, 5], vec![7]);
    assert_eq!(db.len(), 2);
    assert_eq!(db.get(&vec![1, 2, 3]), Some(vec![9]));
    assert_eq!(db.get(&vec![0, 5]), Some(vec![7]));
    assert_eq!(db.get(&vec![1, 2]), None);
    db.delete(&vec![0, 5]);
    assert_eq!(db.get(&vec![0, 5]), None);
    assert_eq!(db.len(), 1);
}

#[test]
fn kv_overwrite_keeps_one_entry() {
    let mut db = KvStore::new();
    db.put(vec![4, 4], vec![1]);
    db.put(vec![4, 4], vec![2]);
    assert_eq!(db.len(), 1);
    assert_eq!(db.get(&vec![4, 4]), Some(vec![2]));
}

#[test]
fn asset_insert_and_get_roundtrip() {
    let mut db = KvStore::new();
    let a = Asset::new(
        "ACME Corp",
        Some("123456".to_string()),
        None,
        Some("a note".to_string()),
    );
    db.insert_asset(&a).unwrap();
    let got = db.get_asset_by_name("ACME Corp").unwrap();
    assert_eq!(got.name, "ACME Corp");
    assert_eq!(got.wkn, Some("123456".to_string()));
    assert_eq!(got.isin, None);
    assert_eq!(got.note, Some("a note".to_string()));
}

#[test]
fn asset_upsert_is_idempotent() {
    let mut db = KvStore::new();
    let a1 = Asset::new("ACME", Some("old".to_string()), None, None);
    let a2 = Asset::new("ACME", Some("new".to_string()), Some("ISIN1".to_string()), None);
    db.insert_asset(&a1).unwrap();
    db.insert_asset(&a2).unwrap();
    assert_eq!(db.len(), 1);
    let got = db.get_asset_by_name("ACME").unwrap();
    assert_eq!(got.wkn, Some("new".to_string()));
    assert_eq!(got.isin, Some("ISIN1".to_string()));
}

#[test]
fn asset_not_found() {
    let mut db = KvStore::new();
    match db.get_asset_by_name("nothing here") {
        Err(DataError::NotFound) => {}
        other => panic!("expected NotFound, got {:?}", other),
    }
}

#[test]
fn asset_corrupt_value_is_data_access_failure() {
    let mut db = KvStore::new();
    let key = build_part_prefix(kind_code(DataType::Asset), "broken");
    db.put(key, vec![0xff, 0x01, 0x02]);
    match db.get_asset_by_name("broken") {
        Err(DataError::DataAccessFailure) => {}
        other => panic!("expected DataAccessFailure, got {:?}", other),
    }
}

#[test]
fn asset_update_and_delete() {
    let mut db = KvStore::new();
    let a = Asset::new("X", None, None, None);
    db.insert_asset(&a).unwrap();
    let a2 = Asset::new("X", None, None, Some("changed".to_string()));
    db.update_asset(&a2).unwrap();
    assert_eq!(db.get_asset_by_name("X").unwrap().note, Some("changed".to_string()));
    db.delete_asset(&a2).unwrap();
    match db.get_asset_by_name("X") {
        Err(DataError::NotFound) => {}
        other => panic!("expected NotFound after delete, got {:?}", other),
    }
}

#[test]
fn insert_if_absent_only_inserts_on_miss() {
    let mut db = KvStore::new();
    let a1 = Asset::new("A", Some("first".to_string()), None, None);
    let a2 = Asset::new("A", Some("second".to_string()), None, None);
    assert!(db.insert_if_absent(&a1));
    assert!(!db.insert_if_absent(&a2));
    assert_eq!(db.get_asset_by_name("A").unwrap().wkn, Some("first".to_string()));
}

#[test]
fn key_layout_exact_bytes() {
    // kind byte, primary field, terminator.
    assert_eq!(build_part_prefix(kind_code(DataType::Asset), "A"), vec![0, 65, 0]);
    assert_eq!(build_part_prefix(kind_code(DataType::Quote), "AB"), vec![1, 65, 66, 0]);
    // Quote key: prefix, biased big-endian timestamp, biased big-endian
    // sequence id; timestamp 0 biases to 0x8000_0000_0000_0000.
    assert_eq!(
        build_quote_key("A", 0, 0),
        vec![1, 65, 0, 128, 0, 0, 0, 0, 0, 0, 0, 128, 0, 0, 0, 0, 0, 0, 0]
    );
}

#[test]
fn key_order_matches_numeric_order() {
    // Byte-lexicographic order must match numeric order across a decimal
    // digit boundary and across the sign.
    let k_small = build_quote_key("T", 999_999_999, 0);
    let k_big = build_quote_key("T", 1_000_000_000, 0);
    assert!(k_small < k_big);
    let k_neg = build_quote_key("T", -5, 0);
    let k_pos = build_quote_key("T", 5, 0);
    assert!(k_neg < k_pos);
    // Same timestamp: sequence id breaks the tie.
    let k_s1 = build_quote_key("T", 7, 1);
    let k_s2 = build_quote_key("T", 7, 2);
    assert!(k_s1 < k_s2);
}

#[test]
fn valid_name_rejects_terminator_byte() {
    assert!(is_valid_name("ACME"));
    assert!(is_valid_name(""));
    assert!(!is_valid_name("A\u{0}B"));
}
