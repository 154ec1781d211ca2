//! The stated properties of the pipeline: order and id preservation,
//! the active-flag rule, foreign-key classification, platform row
//! counts, exact decimal round-trips, refresh idempotence, and the
//! poll state machine.

use coin_market_cap::config::{ConfigError, Configuration, AppConfig, CoinMarketConfig, DbConfig, Env};
use coin_market_cap::cycle::{check_status, persist_payloads, Action, CmcError, Event, FetchError,
    Orchestrator, Phase};
use coin_market_cap::decode::{parse_u32, DecodeError};
use coin_market_cap::num::{parse_dec, render_dec, Dec};
use coin_market_cap::route::crypto_listing;
use coin_market_cap::route::crypto_map;
use coin_market_cap::store::{Store, StoreErrorKind};
use coin_market_cap::tstamp::{parse_ts, render_ts};
use coin_market_cap::wire::{decode_listing_bytes, decode_map_bytes};

fn ts() -> &'static str {
    "2018-06-02T22:51:28.209Z"
}

fn map_record_json(id: u32, with_platform: bool, is_active: &str) -> String {
    let platform = if with_platform {
        format!(
            r#"{{"id": 1027, "name": "Ethereum", "symbol": "ETH", "slug": "ethereum", "token_address": "0x05f4a42e251f2d52b8ed15e9fedaacfcef1fad27"}}"#
        )
    } else {
        "null".to_string()
    };
    format!(
        r#"{{"id": {id}, "name": "Coin {id}", "symbol": "C{id}", "slug": "coin-{id}", "rank": {id}, "is_active": {a}, "first_historical_data": "{t}", "last_historical_data": "{t}", "platform": {platform}}}"#,
        id = id,
        a = is_active,
        t = ts(),
        platform = platform
    )
}

fn map_json_of(records: Vec<String>) -> String {
    format!(
        r#"{{"data": [{}], "status": {{"timestamp": "{t}", "error_code": 0, "error_message": null, "elapsed": 10, "credit_count": 1, "notice": null}}}}"#,
        records.join(", "),
        t = ts()
    )
}

fn listing_record_json(id: u32, supply: &str) -> String {
    format!(
        r#"{{"id": {id}, "name": "Coin {id}", "symbol": "C{id}", "slug": "coin-{id}", "num_market_pairs": 500, "date_added": "{t}", "tags": ["mineable"], "max_supply": null, "circulating_supply": {s}, "total_supply": {s}, "platform": null, "cmc_rank": {id}, "last_updated": "{t}", "quote": {{"USD": {{"price": 9283.92, "volume_24h": 7155680000.0, "volume_change_24h": -0.15, "percent_change_1h": -0.15, "percent_change_24h": 0.51, "percent_change_7d": 0.98, "percent_change_30d": 9.3, "percent_change_60d": 10.2, "percent_change_90d": 11.0, "market_cap": 158055024432.0, "market_cap_dominance": 60.5, "fully_diluted_market_cap": 195023651956.0, "last_updated": "{t}"}}}}}}"#,
        id = id,
        s = supply,
        t = ts()
    )
}

fn listing_json_of(records: Vec<String>) -> String {
    format!(
        r#"{{"data": [{}], "status": {{"timestamp": "{t}", "error_code": 0, "error_message": null, "elapsed": 10, "credit_count": 1, "notice": null, "total_count": 500}}}}"#,
        records.join(", "),
        t = ts()
    )
}

#[test]
fn map_decoder_preserves_count_order_and_ids() {
    let ids = [7u32, 3, 9];
    let records: Vec<String> = ids.iter().map(|i| map_record_json(*i, false, "1")).collect();
    let resp = decode_map_bytes(map_json_of(records).as_bytes()).unwrap();
    assert_eq!(resp.data.len(), 3);
    for (i, id) in ids.iter().enumerate() {
        assert_eq!(resp.data[i].id, *id);
    }
}

#[test]
fn is_active_zero_and_one_decode() {
    let records = vec![map_record_json(1, false, "0"), map_record_json(2, false, "1")];
    let resp = decode_map_bytes(map_json_of(records).as_bytes()).unwrap();
    assert!(!resp.data[0].is_active);
    assert!(resp.data[1].is_active);
}

#[test]
fn is_active_other_integers_fail() {
    for bad in ["2", "-1", "300", "7"] {
        let records = vec![map_record_json(1, false, bad)];
        let err = decode_map_bytes(map_json_of(records).as_bytes()).unwrap_err();
        assert_eq!(
            err,
            DecodeError::InvalidEnumValue(b"data.0.is_active".to_vec()),
            "integer {} must be rejected",
            bad
        );
    }
}

#[test]
fn is_active_non_integer_is_wrong_type() {
    let records = vec![map_record_json(1, false, "1.5")];
    let err = decode_map_bytes(map_json_of(records).as_bytes()).unwrap_err();
    assert_eq!(err, DecodeError::WrongType(b"data.0.is_active".to_vec()));
}

#[test]
fn decode_error_names_first_missing_field() {
    // a record without a name
    let record = format!(
        r#"{{"id": 1, "symbol": "C1", "slug": "coin-1", "rank": 1, "is_active": 1, "first_historical_data": "{t}", "last_historical_data": "{t}", "platform": null}}"#,
        t = ts()
    );
    let err = decode_map_bytes(map_json_of(vec![record]).as_bytes()).unwrap_err();
    assert_eq!(err, DecodeError::Missing(b"data.0.name".to_vec()));
}

#[test]
fn decode_rejects_bad_timestamp() {
    let record = map_record_json(1, false, "1").replace(ts(), "2018-06-02 22:51:28");
    let err = decode_map_bytes(map_json_of(vec![record]).as_bytes()).unwrap_err();
    assert_eq!(
        err,
        DecodeError::InvalidTimestamp(b"data.0.first_historical_data".to_vec())
    );
}

#[test]
fn decode_rejects_non_json() {
    let err = decode_map_bytes(b"{not json").unwrap_err();
    assert_eq!(err, DecodeError::Syntax);
}

#[test]
fn listing_fk_violation_is_classified() {
    let map_records: Vec<String> =
        (1..=3).map(|i| map_record_json(i, false, "1")).collect();
    let map_resp = decode_map_bytes(map_json_of(map_records).as_bytes()).unwrap();

    let listing_records = vec![listing_record_json(2, "17199862"), listing_record_json(99, "5")];
    let listing_resp =
        decode_listing_bytes(listing_json_of(listing_records).as_bytes()).unwrap();

    let mut store = Store::new();
    store.upsert_identities(&map_resp.data).unwrap();
    let err = store.upsert_listings(&listing_resp.data).unwrap_err();
    assert_eq!(err.kind, StoreErrorKind::ForeignKey);
    assert_eq!(err.rows_done, 1);
    // the row that landed before the violation stays
    assert_eq!(store.crypto_listing.len(), 1);
    assert_eq!(store.crypto_listing[0].id, 2);
}

#[test]
fn platform_rows_match_declaring_identities() {
    let with_platform = [2u32, 4];
    let records: Vec<String> = (1..=5)
        .map(|i| map_record_json(i, with_platform.contains(&i), "1"))
        .collect();
    let resp = decode_map_bytes(map_json_of(records).as_bytes()).unwrap();

    let mut store = Store::new();
    let n = store.upsert_identities(&resp.data).unwrap();
    assert_eq!(n, 5);
    assert_eq!(store.crypto_map.len(), 5);
    assert_eq!(store.platforms.len(), 2);
    // a platform row is keyed by its owner's id and points at the base chain
    assert_eq!(store.platforms[0].id, 2);
    assert_eq!(store.platforms[0].platform, 1027);
    assert_eq!(store.platforms[1].id, 4);
    // the identity row's platform column carries the owner's own id
    assert_eq!(store.crypto_map[1].platform, Some(2));
    assert_eq!(store.crypto_map[0].platform, None);
}

#[test]
fn duplicate_identity_reports_rows_done() {
    let records = vec![
        map_record_json(1, false, "1"),
        map_record_json(2, false, "1"),
        map_record_json(2, false, "1"),
    ];
    let resp = decode_map_bytes(map_json_of(records).as_bytes()).unwrap();
    let mut store = Store::new();
    let err = store.upsert_identities(&resp.data).unwrap_err();
    assert_eq!(err.kind, StoreErrorKind::DuplicateKey);
    assert_eq!(err.rows_done, 2);
    assert_eq!(store.crypto_map.len(), 2);
}

#[test]
fn decimal_fields_round_trip_exactly() {
    let source = "123456789.123456789012345678";
    let records = vec![listing_record_json(1, source)];
    let map_records = vec![map_record_json(1, false, "1")];
    let map_resp = decode_map_bytes(map_json_of(map_records).as_bytes()).unwrap();
    let listing_resp = decode_listing_bytes(listing_json_of(records).as_bytes()).unwrap();

    let mut store = Store::new();
    store.upsert_identities(&map_resp.data).unwrap();
    store.upsert_listings(&listing_resp.data).unwrap();

    let stored = store.crypto_listing[0].circulating_supply;
    assert_eq!(render_dec(stored), source.as_bytes().to_vec());
}

#[test]
fn decimal_parse_exact_values() {
    assert_eq!(
        parse_dec(b"1.10"),
        Some(Dec { neg: false, mant: 110, scale: 2 })
    );
    assert_eq!(parse_dec(b"1e2"), Some(Dec { neg: false, mant: 100, scale: 0 }));
    assert_eq!(
        parse_dec(b"-12.5e-1"),
        Some(Dec { neg: true, mant: 125, scale: 2 })
    );
    assert_eq!(parse_dec(b"-0"), Some(Dec { neg: false, mant: 0, scale: 0 }));
    assert_eq!(parse_dec(b"0.00"), Some(Dec { neg: false, mant: 0, scale: 2 }));
    // beyond capacity or malformed
    assert_eq!(parse_dec(b"1e40"), None);
    assert_eq!(parse_dec(b"01"), None);
    assert_eq!(parse_dec(b"1."), None);
    assert_eq!(parse_dec(b""), None);
    assert_eq!(parse_dec(b"79228162514264337593543950335"), Some(Dec {
        neg: false,
        mant: 79228162514264337593543950335,
        scale: 0
    }));
    assert_eq!(parse_dec(b"79228162514264337593543950336"), None);
}

#[test]
fn decimal_render_then_parse_is_identity() {
    for d in [
        Dec { neg: false, mant: 0, scale: 0 },
        Dec { neg: false, mant: 0, scale: 2 },
        Dec { neg: true, mant: 1, scale: 9 },
        Dec { neg: false, mant: 110, scale: 2 },
        Dec { neg: true, mant: 79228162514264337593543950335, scale: 28 },
    ] {
        assert_eq!(parse_dec(&render_dec(d)), Some(d));
    }
}

#[test]
fn rerunning_cycle_leaves_identical_state() {
    let map_a = map_json_of((1..=4).map(|i| map_record_json(i, i == 2, "1")).collect());
    let listing_a =
        listing_json_of((1..=4).map(|i| listing_record_json(i, "17199862")).collect());
    let map_b = map_json_of(vec![map_record_json(9, false, "1")]);
    let listing_b = listing_json_of(vec![listing_record_json(9, "5")]);

    // one store starts fresh, the other holds the leftovers of another cycle
    let mut fresh = Store::new();
    let mut reused = Store::new();
    persist_payloads(&mut reused, map_b.as_bytes(), listing_b.as_bytes()).unwrap();

    persist_payloads(&mut fresh, map_a.as_bytes(), listing_a.as_bytes()).unwrap();
    persist_payloads(&mut reused, map_a.as_bytes(), listing_a.as_bytes()).unwrap();
    assert_eq!(fresh, reused);

    // running the very same cycle again changes nothing
    let snapshot = fresh.clone();
    persist_payloads(&mut fresh, map_a.as_bytes(), listing_a.as_bytes()).unwrap();
    assert_eq!(fresh, snapshot);
}

#[test]
fn decode_fault_leaves_store_untouched() {
    let map_a = map_json_of(vec![map_record_json(1, false, "1")]);
    let listing_a = listing_json_of(vec![listing_record_json(1, "5")]);
    let mut store = Store::new();
    persist_payloads(&mut store, map_a.as_bytes(), listing_a.as_bytes()).unwrap();
    let snapshot = store.clone();

    let err = persist_payloads(&mut store, b"{bad", listing_a.as_bytes()).unwrap_err();
    assert!(matches!(err, CmcError::Decode(DecodeError::Syntax)));
    assert_eq!(store, snapshot);
}

#[test]
fn orchestrator_walks_the_cycle() {
    let mut orch = Orchestrator::new(1, 100, 300);
    assert_eq!(orch.phase, Phase::Idle);
    assert_eq!(orch.step(Event::Started), Action::FetchPages { start: 1, limit: 100 });
    assert_eq!(orch.phase, Phase::Fetching);
    assert_eq!(orch.step(Event::PagesFetched), Action::Decode);
    assert_eq!(orch.phase, Phase::Mapping);
    assert_eq!(orch.step(Event::Decoded), Action::Persist);
    assert_eq!(orch.phase, Phase::Persisting);
    assert_eq!(orch.step(Event::Persisted), Action::Sleep { secs: 300 });
    assert_eq!(orch.phase, Phase::Sleeping);
    assert_eq!(orch.step(Event::Woke), Action::FetchPages { start: 1, limit: 100 });
    assert_eq!(orch.phase, Phase::Fetching);
}

#[test]
fn orchestrator_skips_cycle_on_faults() {
    let mut orch = Orchestrator::new(1, 100, 60);
    orch.step(Event::Started);
    assert_eq!(orch.step(Event::FetchFailed), Action::Sleep { secs: 60 });
    assert_eq!(orch.phase, Phase::Sleeping);
    orch.step(Event::Woke);
    orch.step(Event::PagesFetched);
    assert_eq!(orch.step(Event::DecodeFailed), Action::Sleep { secs: 60 });
    assert_eq!(orch.phase, Phase::Sleeping);
    // an event that does not belong to the phase changes nothing
    assert_eq!(orch.step(Event::Persisted), Action::Wait);
    assert_eq!(orch.phase, Phase::Sleeping);
}

#[test]
fn fetch_status_classification() {
    assert!(check_status(200).is_ok());
    assert!(check_status(299).is_ok());
    assert_eq!(check_status(404), Err(FetchError::Status(404)));
    assert_eq!(check_status(500), Err(FetchError::Status(500)));
    assert_eq!(check_status(199), Err(FetchError::Status(199)));
}

#[test]
fn env_parse_and_name() {
    assert!(matches!(Env::try_from("dev"), Ok(Env::Development)));
    assert!(matches!(Env::try_from("DEV"), Ok(Env::Development)));
    assert!(matches!(Env::try_from("Prod"), Ok(Env::Production)));
    assert!(matches!(
        Env::try_from("staging"),
        Err(ConfigError::UnknownEnvironment)
    ));
    assert_eq!(Env::Development.as_str(), "dev");
    assert_eq!(Env::Production.as_str(), "prod");
}

fn good_config() -> Configuration {
    Configuration {
        database: DbConfig {
            username: "postgres".to_string(),
            password: "secret".to_string(),
            port: 5432,
            host: "localhost".to_string(),
            database_name: "crypto".to_string(),
        },
        application: AppConfig {
            port: 8080,
            host: "127.0.0.1".to_string(),
            base_url: "http://127.0.0.1".to_string(),
        },
        coin_market: CoinMarketConfig {
            base_url: "https://pro-api.coinmarketcap.com".to_string(),
            api_key: "k".to_string(),
        },
    }
}

#[test]
fn config_validation_names_first_broken_rule() {
    assert!(good_config().validate().is_ok());

    let mut c = good_config();
    c.database.username = String::new();
    assert_eq!(c.validate(), Err(ConfigError::EmptyDbUsername));

    let mut c = good_config();
    c.database.port = 0;
    assert_eq!(c.validate(), Err(ConfigError::ZeroDbPort));

    let mut c = good_config();
    c.database.database_name = String::new();
    assert_eq!(c.validate(), Err(ConfigError::EmptyDbName));

    let mut c = good_config();
    c.coin_market.api_key = String::new();
    assert_eq!(c.validate(), Err(ConfigError::EmptyApiKey));
}

#[test]
fn route_lookup_survives_empty_tables() {
    let rows = Vec::new();
    let params = crypto_map::Params { cmc_id: 1 };
    assert!(crypto_map::lookup_map_row(&rows, &params).is_none());

    let lrows = Vec::new();
    let lparams = crypto_listing::Params { cmc_rank: 3 };
    assert!(crypto_listing::lookup_listing_row(&lrows, &lparams).is_none());
}

#[test]
fn route_lookup_is_one_based() {
    let records = vec![map_record_json(5, false, "1"), map_record_json(6, false, "1")];
    let resp = decode_map_bytes(map_json_of(records).as_bytes()).unwrap();
    let mut store = Store::new();
    store.upsert_identities(&resp.data).unwrap();

    let row = crypto_map::lookup_map_row(&store.crypto_map, &crypto_map::Params { cmc_id: 2 })
        .unwrap();
    assert_eq!(row.id, 6);
    assert!(crypto_map::lookup_map_row(&store.crypto_map, &crypto_map::Params { cmc_id: 0 })
        .is_none());
    assert!(crypto_map::lookup_map_row(&store.crypto_map, &crypto_map::Params { cmc_id: 3 })
        .is_none());
}

#[test]
fn timestamp_fields_and_fraction_survive() {
    let t = parse_ts(b"2018-06-02T22:51:28.209Z").unwrap();
    assert_eq!(t.year, 2018);
    assert_eq!(t.month, 6);
    assert_eq!(t.day, 2);
    assert_eq!(t.hour, 22);
    assert_eq!(t.minute, 51);
    assert_eq!(t.second, 28);
    assert_eq!(t.frac_digits, 3);
    assert_eq!(t.frac, 209);

    let t = parse_ts(b"2018-06-02T22:51:28Z").unwrap();
    assert_eq!(t.frac_digits, 0);

    assert!(parse_ts(b"2018-13-02T22:51:28Z").is_none());
    assert!(parse_ts(b"2018-06-02 22:51:28Z").is_none());
    assert!(parse_ts(b"2018-06-02T22:51:28.Z").is_none());
    assert!(parse_ts(b"2018-06-02T22:51:28").is_none());
}

#[test]
fn timestamp_round_trips_exactly() {
    for text in [
        "2018-06-02T22:51:28.209Z",
        "2018-06-02T22:51:28Z",
        "0001-01-01T00:00:00.000000001Z",
        "9999-12-31T23:59:59.9Z",
    ] {
        let t = parse_ts(text.as_bytes()).unwrap();
        assert_eq!(render_ts(t), text.as_bytes().to_vec());
    }
}

#[test]
fn u32_fields_parse_strictly() {
    assert_eq!(parse_u32(b"0"), Some(0));
    assert_eq!(parse_u32(b"4294967295"), Some(u32::MAX));
    assert_eq!(parse_u32(b"4294967296"), None);
    assert_eq!(parse_u32(b"007"), None);
    assert_eq!(parse_u32(b"-1"), None);
    assert_eq!(parse_u32(b""), None);
}
