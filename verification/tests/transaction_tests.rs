use ticky::data_handler::{DataError, TransactionHandler};
use ticky::fiat::{CashAmount, CashFlow, Currency, Date};
use ticky::store::KvStore;
use ticky::transaction::{Transaction, TransactionType};

fn cash_flow(amount: i64) -> CashFlow {
    CashFlow::new(amount, Currency::USD, Date { year: 2020, month: 4, day: 17 })
}

fn txn(id: u128, transaction_type: TransactionType, amount: i64) -> Transaction {
    Transaction { id, transaction_type, cash_flow: cash_flow(amount), note: None }
}

#[test]
fn transaction_roundtrip_every_kind() {
    let mut db = KvStore::new();
    let kinds = vec![
        TransactionType::Cash,
        TransactionType::Asset { asset_name: "ACME".to_string(), position: 2_500_000 },
        TransactionType::Dividend { asset_name: "ACME".to_string() },
        TransactionType::Interest { asset_name: "BOND".to_string() },
        TransactionType::Tax { transaction_ref: Some(77) },
        TransactionType::Fee { transaction_ref: None },
    ];
    for (i, kind) in kinds.into_iter().enumerate() {
        let id = (i as u128) + 1;
        let t = Transaction {
            id,
            transaction_type: kind.clone(),
            cash_flow: cash_flow(-1_234),
            note: Some(format!("note {}", i)),
        };
        db.insert_transaction("L", &t).unwrap();
        let got = db.get_transaction_by_id("L", id).unwrap();
        assert_eq!(got.id, id);
        assert_eq!(got.note, Some(format!("note {}", i)));
        assert_eq!(got.cash_flow.amount.amount, -1_234);
        assert_eq!(got.cash_flow.amount.currency, Currency::USD);
        assert_eq!(got.cash_flow.date, Date { year: 2020, month: 4, day: 17 });
        match (&kind, &got.transaction_type) {
            (TransactionType::Cash, TransactionType::Cash) => {}
            (
                TransactionType::Asset { asset_name: a, position: p },
                TransactionType::Asset { asset_name: b, position: q },
            ) => {
                assert_eq!(a, b);
                assert_eq!(p, q);
            }
            (
                TransactionType::Dividend { asset_name: a },
                TransactionType::Dividend { asset_name: b },
            ) => assert_eq!(a, b),
            (
                TransactionType::Interest { asset_name: a },
                TransactionType::Interest { asset_name: b },
            ) => assert_eq!(a, b),
            (
                TransactionType::Tax { transaction_ref: a },
                TransactionType::Tax { transaction_ref: b },
            ) => assert_eq!(a, b),
            (
                TransactionType::Fee { transaction_ref: a },
                TransactionType::Fee { transaction_ref: b },
            ) => assert_eq!(a, b),
            (expected, got) => panic!("kind changed: {:?} became {:?}", expected, got),
        }
    }
}

#[test]
fn partition_isolation_interleaved_ids() {
    let mut db = KvStore::new();
    // Numerically interleaved ids across two partitions.
    db.insert_transaction("A", &txn(1, TransactionType::Cash, 10)).unwrap();
    db.insert_transaction("B", &txn(2, TransactionType::Cash, 20)).unwrap();
    db.insert_transaction("A", &txn(3, TransactionType::Cash, 30)).unwrap();
    db.insert_transaction("B", &txn(4, TransactionType::Cash, 40)).unwrap();

    let mut cb = db.transaction_cursor_forward("B", 0);
    let ids: Vec<u128> = [cb.next(), cb.next(), cb.next()]
        .into_iter()
        .flatten()
        .map(|t| t.id)
        .collect();
    assert_eq!(ids, vec![2, 4]);

    assert_eq!(db.get_latest_transaction("B").unwrap().id, 4);
    assert_eq!(db.get_oldest_transaction("B").unwrap().id, 2);
    assert_eq!(db.get_latest_transaction("A").unwrap().id, 3);
    assert_eq!(db.get_oldest_transaction("A").unwrap().id, 1);
    assert!(db.get_latest_transaction("C").is_none());
    match db.get_transaction_by_id("B", 1) {
        Err(DataError::NotFound) => {}
        other => panic!("expected NotFound across partitions, got {:?}", other),
    }
}

#[test]
fn transaction_cursor_order_and_reverse() {
    let mut db = KvStore::new();
    for id in [5u128, 1, 9, 3] {
        db.insert_transaction("P", &txn(id, TransactionType::Cash, id as i64)).unwrap();
    }
    let mut f = db.transaction_cursor_forward("P", 0);
    let ids: Vec<u128> = [f.next(), f.next(), f.next(), f.next(), f.next()]
        .into_iter()
        .flatten()
        .map(|t| t.id)
        .collect();
    assert_eq!(ids, vec![1, 3, 5, 9]);
    let mut r = db.transaction_cursor_reverse("P", u128::MAX);
    let ids: Vec<u128> = [r.next(), r.next(), r.next(), r.next(), r.next()]
        .into_iter()
        .flatten()
        .map(|t| t.id)
        .collect();
    assert_eq!(ids, vec![9, 5, 3, 1]);
}

#[test]
fn transaction_update_and_delete() {
    let mut db = KvStore::new();
    let t = txn(11, TransactionType::Cash, 100);
    db.insert_transaction("P", &t).unwrap();
    let t2 = Transaction { cash_flow: cash_flow(200), ..t.clone() };
    db.update_transaction("P", &t2).unwrap();
    assert_eq!(db.get_transaction_by_id("P", 11).unwrap().cash_flow.amount.amount, 200);
    db.delete_transaction("P", &t2).unwrap();
    match db.get_transaction_by_id("P", 11) {
        Err(DataError::NotFound) => {}
        other => panic!("expected NotFound after delete, got {:?}", other),
    }
}

#[test]
fn transaction_new_sets_fields_from_clock() {
    let t = Transaction::new(
        TransactionType::Dividend { asset_name: "ACME".to_string() },
        cash_flow(500),
        Some("dividend".to_string()),
    )
    .unwrap();
    assert!(matches!(t.transaction_type, TransactionType::Dividend { .. }));
    assert_eq!(t.cash_flow.amount.amount, 500);
    assert_eq!(t.note, Some("dividend".to_string()));
    assert!(t.id > 0);
}

#[test]
fn set_asset_name_only_where_it_applies() {
    let mut t = txn(1, TransactionType::Asset { asset_name: "OLD".to_string(), position: 1 }, 0);
    t.set_asset_name("NEW".to_string());
    assert!(matches!(&t.transaction_type,
        TransactionType::Asset { asset_name, .. } if asset_name == "NEW"));
    let mut c = txn(2, TransactionType::Cash, 0);
    c.set_asset_name("NEW".to_string());
    assert!(matches!(c.transaction_type, TransactionType::Cash));
}

#[test]
fn set_transaction_ref_only_where_it_applies() {
    let mut t = txn(1, TransactionType::Tax { transaction_ref: None }, 0);
    t.set_transaction_ref(99);
    assert!(matches!(t.transaction_type, TransactionType::Tax { transaction_ref: Some(99) }));
    let mut f = txn(2, TransactionType::Fee { transaction_ref: Some(1) }, 0);
    f.set_transaction_ref(100);
    assert!(matches!(f.transaction_type, TransactionType::Fee { transaction_ref: Some(100) }));
    let mut c = txn(3, TransactionType::Cash, 0);
    c.set_transaction_ref(5);
    assert!(matches!(c.transaction_type, TransactionType::Cash));
}

#[test]
fn cash_amount_add_sub() {
    let mut a = CashAmount { amount: 1_000, currency: Currency::EUR };
    a.add(CashAmount { amount: 250, currency: Currency::EUR }).unwrap();
    assert_eq!(a.amount, 1_250);
    a.sub(CashAmount { amount: 2_000, currency: Currency::EUR }).unwrap();
    assert_eq!(a.amount, -750);
    match a.add(CashAmount { amount: 1, currency: Currency::USD }) {
        Err(DataError::InvalidTransaction) => {}
        other => panic!("expected InvalidTransaction on currency mismatch, got {:?}", other),
    }
    assert_eq!(a.amount, -750);
}

#[test]
fn cash_flow_aggregatable_and_fuzzy_compare() {
    let d = Date { year: 2021, month: 1, day: 2 };
    let c1 = CashFlow::new(1_000, Currency::EUR, d);
    let c2 = CashFlow::new(1_004, Currency::EUR, d);
    let c3 = CashFlow::new(1_000, Currency::USD, d);
    let c4 = CashFlow::new(1_000, Currency::EUR, Date { year: 2021, month: 1, day: 3 });
    assert!(c1.aggregatable(&c2));
    assert!(!c1.aggregatable(&c3));
    assert!(!c1.aggregatable(&c4));
    assert!(c1.fuzzy_cash_flows_cmp_eq(&c2, 5));
    assert!(!c1.fuzzy_cash_flows_cmp_eq(&c2, 3));
    assert!(!c1.fuzzy_cash_flows_cmp_eq(&c3, 5));
}

#[test]
fn currency_codes_roundtrip() {
    for c in [Currency::EUR, Currency::USD, Currency::AED, Currency::ZMW, Currency::JPY] {
        let code = ticky::fiat::currency_code(c);
        assert_eq!(ticky::fiat::currency_from_code(code), Some(c));
    }
    assert_eq!(ticky::fiat::currency_from_code(250), None);
}

#[test]
fn negate_flips_amounts() {
    let a = CashAmount { amount: 750, currency: Currency::EUR };
    let n = a.negate();
    assert_eq!(n.amount, -750);
    assert_eq!(n.currency, Currency::EUR);
    let cf = cash_flow(-40).negate();
    assert_eq!(cf.amount.amount, 40);
    assert_eq!(cf.date, Date { year: 2020, month: 4, day: 17 });
}

#[test]
fn from_clock_nanos_fixes_the_id() {
    let t = Transaction::from_clock_nanos(42, TransactionType::Cash, cash_flow(1), None);
    assert_eq!(t.id, 42);
    assert!(matches!(t.transaction_type, TransactionType::Cash));
    assert_eq!(t.cash_flow.amount.amount, 1);
    assert_eq!(t.note, None);
}

#[test]
fn fuzzy_compare_negative_tolerance_is_false() {
    let d = Date { year: 2021, month: 1, day: 2 };
    let c = CashFlow::new(1_000, Currency::EUR, d);
    // No difference lies within a negative tolerance, not even zero.
    assert!(!c.fuzzy_cash_flows_cmp_eq(&c, -1));
    assert!(c.fuzzy_cash_flows_cmp_eq(&c, 0));
}
