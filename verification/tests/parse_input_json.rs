//! Decoding both endpoint payloads, including the unknown-field report.

use coin_market_cap::listing_decoder;
use coin_market_cap::map_decoder;
use coin_market_cap::wire::{decode_listing_bytes, decode_listing_bytes_with_ignored, decode_map_bytes};

fn ts() -> &'static str {
    "2018-06-02T22:51:28.209Z"
}

fn platform_json(base_id: u32) -> String {
    format!(
        r#"{{"id": {}, "name": "Ethereum", "symbol": "ETH", "slug": "ethereum", "token_address": "0x05f4a42e251f2d52b8ed15e9fedaacfcef1fad27"}}"#,
        base_id
    )
}

fn map_record_json(id: u32, with_platform: bool) -> String {
    let platform = if with_platform {
        platform_json(1027)
    } else {
        "null".to_string()
    };
    format!(
        r#"{{"id": {id}, "name": "Coin {id}", "symbol": "C{id}", "slug": "coin-{id}", "rank": {id}, "is_active": 1, "first_historical_data": "{t}", "last_historical_data": "{t}", "platform": {platform}}}"#,
        id = id,
        t = ts(),
        platform = platform
    )
}

fn map_status_json() -> String {
    format!(
        r#"{{"timestamp": "{t}", "error_code": 0, "error_message": null, "elapsed": 10, "credit_count": 1, "notice": null}}"#,
        t = ts()
    )
}

fn map_json(n: u32) -> String {
    let records: Vec<String> = (1..=n).map(|i| map_record_json(i, i % 2 == 0)).collect();
    format!(
        r#"{{"data": [{}], "status": {}}}"#,
        records.join(", "),
        map_status_json()
    )
}

fn quote_json(extra: &str) -> String {
    format!(
        r#"{{"USD": {{"price": 9283.92, "volume_24h": 7155680000.0, "volume_change_24h": -0.152774, "percent_change_1h": -0.152774, "percent_change_24h": 0.518894, "percent_change_7d": 0.986573, "percent_change_30d": 9.3, "percent_change_60d": 10.2, "percent_change_90d": 11.0, "market_cap": 158055024432.0, "market_cap_dominance": 60.5, "fully_diluted_market_cap": 195023651956.0, "last_updated": "{t}"{extra}}}}}"#,
        t = ts(),
        extra = extra
    )
}

fn listing_record_json(id: u32, extra_field: &str, quote_extra: &str) -> String {
    format!(
        r#"{{"id": {id}, "name": "Coin {id}", "symbol": "C{id}", "slug": "coin-{id}", "num_market_pairs": 500, "date_added": "{t}", "tags": ["mineable", "pow"], "max_supply": 21000000, "circulating_supply": 17199862, "total_supply": 17199862, "platform": null, "cmc_rank": {id}, "last_updated": "{t}"{extra}, "quote": {quote}}}"#,
        id = id,
        t = ts(),
        extra = extra_field,
        quote = quote_json(quote_extra)
    )
}

fn listing_status_json(extra: &str) -> String {
    format!(
        r#"{{"timestamp": "{t}", "error_code": 0, "error_message": null, "elapsed": 10, "credit_count": 1, "notice": null, "total_count": 500{extra}}}"#,
        t = ts(),
        extra = extra
    )
}

fn listing_json(n: u32) -> String {
    let records: Vec<String> =
        (1..=n).map(|i| listing_record_json(i, "", "")).collect();
    format!(
        r#"{{"data": [{}], "status": {}}}"#,
        records.join(", "),
        listing_status_json("")
    )
}

#[test]
fn parse_crypto_listing_1() {
    let str_json = listing_json(1);
    let response: listing_decoder::Response =
        decode_listing_bytes(str_json.as_bytes()).expect("Failed to parse input!");
    assert!(
        response.data.len() == 1,
        "Error parsing `cryptocurrency_listing_1.json`"
    );
}

#[test]
fn parse_crypto_listing_50() {
    let str_json = listing_json(50);
    let response: listing_decoder::Response =
        decode_listing_bytes(str_json.as_bytes()).expect("Failed to parse input!");
    assert!(
        response.data.len() == 50,
        "Error parsing `cryptocurrency_listing_50.json`"
    );
}

#[test]
fn parse_crypto_listing_ignored_fields() {
    // Two records; one unknown field in the status block, one in the
    // first record, one inside the second record's USD quote block.
    let records = format!(
        "{}, {}",
        listing_record_json(1, r#", "ignored_field_2": 5"#, ""),
        listing_record_json(2, "", r#", "ignored_field_3": "x""#)
    );
    let str_json = format!(
        r#"{{"data": [{}], "status": {}}}"#,
        records,
        listing_status_json(r#", "ignored_field_1": true"#)
    );

    let (response, ignored) =
        decode_listing_bytes_with_ignored(str_json.as_bytes()).expect("Failed to parse input!");

    assert!(
        response.data.len() == 2,
        "Error parsing `cryptocurrency_listing_ignored_fields.json`"
    );

    let mut unused: Vec<String> = ignored
        .into_iter()
        .map(|p| String::from_utf8(p).unwrap())
        .collect();
    unused.sort();
    let mut expected = vec![
        "status.ignored_field_1".to_string(),
        "data.0.ignored_field_2".to_string(),
        "data.1.quote.USD.ignored_field_3".to_string(),
    ];
    expected.sort();
    assert_eq!(unused, expected);
}

#[test]
fn parse_crypto_listing_ignored_fields_fails() {
    let str_json = listing_json(100);
    let (response, unused) =
        decode_listing_bytes_with_ignored(str_json.as_bytes()).expect("Failed to parse input!");
    assert!(
        response.data.len() == 100,
        "Error parsing `cryptocurrency_listing_100.json`"
    );
    assert!(unused.is_empty(), "The json file contains ignored fields!");
}

#[test]
fn parse_crypto_map_50() {
    let str_json = map_json(50);
    let response: map_decoder::Response =
        decode_map_bytes(str_json.as_bytes()).expect("Failed to parse input!");
    assert!(
        response.data.len() == 50,
        "Error parsing `cryptocurrency_map.json`"
    );
}

#[test]
fn parse_crypto_map_0() {
    let str_json = map_json(0);
    let response: map_decoder::Response =
        decode_map_bytes(str_json.as_bytes()).expect("Failed to parse input!");
    assert!(response.data.len() == 0, "Error parsing empty response data");
}
