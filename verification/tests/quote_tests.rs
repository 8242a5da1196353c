use ticky::data_handler::{kind_code, AssetHandler, DataError, DataType, QuoteHandler};
use ticky::fiat::Currency;
use ticky::keys::build_quote_key;
use ticky::quote::{Quote, Ticker};
use ticky::store::KvStore;

fn quote(ticker: &str, id: Option<i64>, price: i64, time: i64) -> Quote {
    Quote { id, ticker: ticker.to_string(), price, time, volume: None }
}

#[test]
fn ticker_roundtrip() {
    let mut db = KvStore::new();
    let t = Ticker {
        name: "ACME.X".to_string(),
        asset: "ACME".to_string(),
        currency: Currency::EUR,
        priority: -3,
        factor: 1_000_000,
    };
    db.insert_ticker(&t).unwrap();
    let got = db.get_ticker_by_name("ACME.X").unwrap();
    assert_eq!(got.name, "ACME.X");
    assert_eq!(got.asset, "ACME");
    assert_eq!(got.currency, Currency::EUR);
    assert_eq!(got.priority, -3);
    assert_eq!(got.factor, 1_000_000);
}

#[test]
fn ticker_not_found_and_delete() {
    let mut db = KvStore::new();
    match db.get_ticker_by_name("none") {
        Err(DataError::NotFound) => {}
        other => panic!("expected NotFound, got {:?}", other),
    }
    let t = Ticker {
        name: "T".to_string(),
        asset: "A".to_string(),
        currency: Currency::USD,
        priority: 0,
        factor: 1,
    };
    db.insert_ticker(&t).unwrap();
    db.delete_ticker(&t).unwrap();
    match db.get_ticker_by_name("T") {
        Err(DataError::NotFound) => {}
        other => panic!("expected NotFound after delete, got {:?}", other),
    }
}

/// The scenario: quotes at t1 < t2 < t3 priced 10.0, 10.5, 11.0 (stored in
/// millionths), scanned forward from each anchor, backward from the top,
/// and through the latest/oldest queries.
#[test]
fn scenario_three_quotes() {
    let mut db = KvStore::new();
    let (t1, t2, t3) = (1_000i64, 2_000i64, 3_000i64);
    db.insert_quote(&quote("ACME", Some(1), 10_000_000, t1)).unwrap();
    db.insert_quote(&quote("ACME", Some(2), 10_500_000, t2)).unwrap();
    db.insert_quote(&quote("ACME", Some(3), 11_000_000, t3)).unwrap();

    let mut fwd = db.quote_cursor_forward("ACME", t1);
    let prices: Vec<i64> = [fwd.next(), fwd.next(), fwd.next(), fwd.next()]
        .into_iter()
        .flatten()
        .map(|q| q.price)
        .collect();
    assert_eq!(prices, vec![10_000_000, 10_500_000, 11_000_000]);

    let mut mid = db.quote_cursor_forward("ACME", t2);
    let prices: Vec<i64> = [mid.next(), mid.next(), mid.next()]
        .into_iter()
        .flatten()
        .map(|q| q.price)
        .collect();
    assert_eq!(prices, vec![10_500_000, 11_000_000]);

    let mut rev = db.quote_cursor_reverse("ACME", t3);
    let prices: Vec<i64> = [rev.next(), rev.next(), rev.next(), rev.next()]
        .into_iter()
        .flatten()
        .map(|q| q.price)
        .collect();
    assert_eq!(prices, vec![11_000_000, 10_500_000, 10_000_000]);

    assert_eq!(db.get_latest_quote("ACME").unwrap().price, 11_000_000);
    assert_eq!(db.get_oldest_quote("ACME").unwrap().price, 10_000_000);
}

#[test]
fn tie_breaking_same_timestamp() {
    let mut db = KvStore::new();
    let t: i64 = 42;
    db.insert_quote(&quote("TIE", Some(2), 200, t)).unwrap();
    db.insert_quote(&quote("TIE", Some(1), 100, t)).unwrap();
    // Both quotes survive, and come back in sequence-id order.
    let mut c = db.quote_cursor_forward("TIE", t);
    let a = c.next().unwrap();
    let b = c.next().unwrap();
    assert!(c.next().is_none());
    assert_eq!((a.id, a.price), (Some(1), 100));
    assert_eq!((b.id, b.price), (Some(2), 200));
}

#[test]
fn boundary_anchor_is_inclusive() {
    let mut db = KvStore::new();
    db.insert_quote(&quote("B", Some(1), 1, 10)).unwrap();
    db.insert_quote(&quote("B", Some(1), 2, 20)).unwrap();
    db.insert_quote(&quote("B", Some(1), 3, 30)).unwrap();
    // A forward cursor anchored exactly at an existing order key starts
    // with that record; so does a reverse cursor anchored there.
    let mut f = db.quote_cursor_forward("B", 20);
    assert_eq!(f.next().unwrap().price, 2);
    let mut r = db.quote_cursor_reverse("B", 20);
    assert_eq!(r.next().unwrap().price, 2);
}

#[test]
fn decode_failure_is_skipped_not_fatal() {
    let mut db = KvStore::new();
    db.insert_quote(&quote("RES", Some(1), 1, 100)).unwrap();
    db.insert_quote(&quote("RES", Some(1), 3, 300)).unwrap();
    // Plant a value in the middle of the partition that cannot decode.
    let corrupt_key = build_quote_key("RES", 200, 1);
    db.put(corrupt_key, vec![0xde, 0xad]);
    let mut c = db.quote_cursor_forward("RES", 100);
    let prices: Vec<i64> = [c.next(), c.next(), c.next()]
        .into_iter()
        .flatten()
        .map(|q| q.price)
        .collect();
    // The two decodable quotes still arrive, in order, with no error.
    assert_eq!(prices, vec![1, 3]);
    // A corrupt entry above every real quote does not break the latest
    // query either.
    let high_corrupt = build_quote_key("RES", 400, 1);
    db.put(high_corrupt, vec![0xff]);
    assert_eq!(db.get_latest_quote("RES").unwrap().price, 3);
}

#[test]
fn quote_partitions_do_not_bleed() {
    let mut db = KvStore::new();
    // "AA" and "AAB" are lexicographically adjacent ticker names; the key
    // terminator keeps their partitions disjoint.
    db.insert_quote(&quote("AA", Some(1), 1, 50)).unwrap();
    db.insert_quote(&quote("AAB", Some(1), 2, 10)).unwrap();
    let mut c = db.quote_cursor_forward("AA", i64::MIN);
    assert_eq!(c.next().unwrap().price, 1);
    assert!(c.next().is_none());
    assert_eq!(db.get_latest_quote("AA").unwrap().price, 1);
    assert_eq!(db.get_oldest_quote("AAB").unwrap().price, 2);
    assert!(db.get_latest_quote("AAC").is_none());
}

#[test]
fn quote_update_and_delete() {
    let mut db = KvStore::new();
    let q = quote("U", Some(5), 77, 123);
    db.insert_quote(&q).unwrap();
    let q2 = Quote { price: 88, ..q.clone() };
    db.update_quote(&q2).unwrap();
    assert_eq!(db.get_latest_quote("U").unwrap().price, 88);
    db.delete_quote(&q2).unwrap();
    assert!(db.get_latest_quote("U").is_none());
    assert!(db.get_oldest_quote("U").is_none());
}

#[test]
fn quote_negative_time_and_missing_id() {
    let mut db = KvStore::new();
    let q = Quote {
        id: None,
        ticker: "N".to_string(),
        price: 9,
        time: -1_000,
        volume: Some(500),
    };
    db.insert_quote(&q).unwrap();
    db.insert_quote(&quote("N", Some(1), 10, 1_000)).unwrap();
    // The negative timestamp sorts below the positive one.
    let oldest = db.get_oldest_quote("N").unwrap();
    assert_eq!(oldest.price, 9);
    assert_eq!(oldest.id, None);
    assert_eq!(oldest.volume, Some(500));
}

#[test]
fn cursor_on_empty_partition_is_empty() {
    let db = KvStore::new();
    let mut c = db.quote_cursor_forward("NONE", 0);
    assert!(c.next().is_none());
    let mut r = db.quote_cursor_reverse("NONE", 0);
    assert!(r.next().is_none());
}

#[test]
fn kinds_do_not_collide() {
    // An asset, a ticker and a quote partition all named alike stay apart:
    // the kind discriminant separates their keyspaces.
    let mut db = KvStore::new();
    let a = ticky::asset::Asset::new("SAME", None, None, None);
    db.insert_asset(&a).unwrap();
    let t = Ticker {
        name: "SAME".to_string(),
        asset: "SAME".to_string(),
        currency: Currency::CHF,
        priority: 0,
        factor: 1,
    };
    db.insert_ticker(&t).unwrap();
    db.insert_quote(&quote("SAME", Some(1), 4, 4)).unwrap();
    assert_eq!(db.len(), 3);
    assert_eq!(db.get_asset_by_name("SAME").unwrap().name, "SAME");
    assert_eq!(db.get_ticker_by_name("SAME").unwrap().asset, "SAME");
    assert_eq!(db.get_latest_quote("SAME").unwrap().price, 4);
    let _ = kind_code(DataType::Ticker);
}
