//! The refresh protocol against the store: clear, identities with
//! their platform rows, then listings under the foreign-key rule.

use coin_market_cap::store::Store;
use coin_market_cap::wire::{decode_listing_bytes, decode_map_bytes};

fn ts() -> &'static str {
    "2018-06-02T22:51:28.209Z"
}

fn map_record_json(id: u32, with_platform: bool) -> String {
    let platform = if with_platform {
        format!(
            r#"{{"id": {}, "name": "Ethereum", "symbol": "ETH", "slug": "ethereum", "token_address": "0x05f4a42e251f2d52b8ed15e9fedaacfcef1fad27"}}"#,
            1027
        )
    } else {
        "null".to_string()
    };
    format!(
        r#"{{"id": {id}, "name": "Coin {id}", "symbol": "C{id}", "slug": "coin-{id}", "rank": {id}, "is_active": 1, "first_historical_data": "{t}", "last_historical_data": "{t}", "platform": {platform}}}"#,
        id = id,
        t = ts(),
        platform = platform
    )
}

fn map_json(n: u32) -> String {
    let records: Vec<String> = (1..=n).map(|i| map_record_json(i, i % 2 == 0)).collect();
    format!(
        r#"{{"data": [{}], "status": {{"timestamp": "{t}", "error_code": 0, "error_message": null, "elapsed": 10, "credit_count": 1, "notice": null}}}}"#,
        records.join(", "),
        t = ts()
    )
}

fn listing_record_json(id: u32) -> String {
    format!(
        r#"{{"id": {id}, "name": "Coin {id}", "symbol": "C{id}", "slug": "coin-{id}", "num_market_pairs": 500, "date_added": "{t}", "tags": ["mineable"], "max_supply": null, "circulating_supply": 17199862, "total_supply": 17199862, "platform": null, "cmc_rank": {id}, "last_updated": "{t}", "quote": {{"USD": {{"price": 9283.92, "volume_24h": 7155680000.0, "volume_change_24h": -0.15, "percent_change_1h": -0.15, "percent_change_24h": 0.51, "percent_change_7d": 0.98, "percent_change_30d": 9.3, "percent_change_60d": 10.2, "percent_change_90d": 11.0, "market_cap": 158055024432.0, "market_cap_dominance": 60.5, "fully_diluted_market_cap": 195023651956.0, "last_updated": "{t}"}}}}}}"#,
        id = id,
        t = ts()
    )
}

fn listing_json(n: u32) -> String {
    let records: Vec<String> = (1..=n).map(listing_record_json).collect();
    format!(
        r#"{{"data": [{}], "status": {{"timestamp": "{t}", "error_code": 0, "error_message": null, "elapsed": 10, "credit_count": 1, "notice": null, "total_count": 500}}}}"#,
        records.join(", "),
        t = ts()
    )
}

#[test]
fn update_crypto_map_db_1() {
    let str_json = map_json(50);
    let response = decode_map_bytes(str_json.as_bytes()).expect("Failed to parse input!");
    assert!(
        response.data.len() == 50,
        "Error parsing `cryptocurrency_map_50.json` (wrong data number)"
    );

    let mut store = Store::new();
    store.clear_all().unwrap();
    let n = store.upsert_identities(&response.data).unwrap();
    assert_eq!(n, 50);
    assert_eq!(store.crypto_map.len(), 50);
}

#[test]
fn update_crypto_listing_db_1() {
    let str_json = listing_json(50);
    let response = decode_listing_bytes(str_json.as_bytes()).expect("Failed to parse input!");
    assert!(
        response.data.len() == 50,
        "Error parsing `cryptocurrency_listing_latest_50.json` (wrong data number)"
    );

    let mut store = Store::new();
    store.clear_all().unwrap();

    // For consistency (the foreign-key rule), the identifier table must
    // be populated first.
    let str_json = map_json(50);
    let response_map = decode_map_bytes(str_json.as_bytes()).expect("Failed to parse input!");
    assert!(
        response_map.data.len() == 50,
        "Error parsing `cryptocurrency_map_50.json` (wrong data number)"
    );
    store.upsert_identities(&response_map.data).unwrap();

    // Now the listing rows can land.
    store.upsert_listings(&response.data).unwrap();
    assert_eq!(store.crypto_listing.len(), 50);
}

#[test]
fn update_crypto_populate_db_100_items() {
    let map_json_text = map_json(100);
    let listings_json = listing_json(100);
    let response_map =
        decode_map_bytes(map_json_text.as_bytes()).expect("Failed to parse input!");
    assert!(
        response_map.data.len() == 100,
        "Error parsing `cryptocurrency_map_100_ranked.json` (wrong data number)"
    );

    let response_listings =
        decode_listing_bytes(listings_json.as_bytes()).expect("Failed to parse input!");
    assert!(
        response_listings.data.len() == 100,
        "Error parsing `cryptocurrency_listing_100.json` (wrong data number)"
    );

    let mut store = Store::new();
    store.clear_all().unwrap();
    store.upsert_identities(&response_map.data).unwrap();
    store.upsert_listings(&response_listings.data).unwrap();

    assert_eq!(store.crypto_map.len(), 100);
    assert_eq!(store.crypto_listing.len(), 100);
}
