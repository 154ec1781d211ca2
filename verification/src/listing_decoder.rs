//! Decoder for the market-listing endpoint: a `status` block plus a
//! sequence of per-currency records carrying market metrics.  Supply
//! and percentage figures decode as exact decimals; the quote block is
//! keyed by currency code and this decoder reads the USD quote only,
//! ignoring other currency keys.  Unknown fields never fail a decode;
//! a separate scan reports their dotted paths.

use vstd::prelude::*;
use vstd::string::StringSliceAdditionalSpecFns;

use crate::bytes::lit;
use crate::decode::{
    collect_unknown, get_dec, get_opt_dec, get_opt_str, get_opt_u32, get_str, get_ts, get_u32,
    join_path, make_path, paths_view, spec_get_dec, spec_get_opt_dec, spec_get_opt_str,
    spec_get_opt_u32, spec_get_str, spec_get_ts, spec_get_u32, spec_unknown, name_in,
    DecodeError, DecodeErrorV,
};
use crate::json::{copy_bytes, lookup, obj_get, Json};
use crate::map_decoder::{
    decode_platform, make_platform_prefix, make_record_prefix, platform_keys, platform_keys_list,
    record_prefix, top_keys, top_keys_list, Platform, PlatformV,
};
use crate::num::Dec;
use crate::tstamp::UtcStamp;

verus! {

/// The USD quote block: market metrics in one conversion currency.
#[derive(Clone, Copy, PartialEq, Eq, Structural, Debug)]
pub struct Changes {
    pub price: Dec,
    pub volume_24h: Dec,
    pub volume_change_24h: Dec,
    pub percent_change_1h: Dec,
    pub percent_change_24h: Dec,
    pub percent_change_7d: Dec,
    pub percent_change_30d: Dec,
    pub percent_change_60d: Dec,
    pub percent_change_90d: Dec,
    pub market_cap: Dec,
    pub market_cap_dominance: Dec,
    pub fully_diluted_market_cap: Dec,
    pub last_updated: UtcStamp,
}

/// The quote member: this design reads the USD entry only.
#[derive(Clone, Copy, PartialEq, Eq, Structural, Debug)]
pub struct Usd {
    pub usd: Changes,
}

/// One decoded market-listing record.
#[derive(Debug, Clone, PartialEq, Eq)]
pub struct Data {
    pub id: u32,
    pub name: Vec<u8>,
    pub symbol: Vec<u8>,
    pub slug: Vec<u8>,
    pub num_market_pairs: u32,
    pub date_added: UtcStamp,
    pub tags: Vec<Vec<u8>>,
    pub max_supply: Option<Dec>,
    pub circulating_supply: Dec,
    pub total_supply: Dec,
    pub platform: Option<Platform>,
    pub cmc_rank: u32,
    pub last_updated: UtcStamp,
    pub quote: Usd,
}

/// The mathematical image of a record.
pub struct DataV {
    pub id: u32,
    pub name: Seq<u8>,
    pub symbol: Seq<u8>,
    pub slug: Seq<u8>,
    pub num_market_pairs: u32,
    pub date_added: UtcStamp,
    pub tags: Seq<Seq<u8>>,
    pub max_supply: Option<Dec>,
    pub circulating_supply: Dec,
    pub total_supply: Dec,
    pub platform: Option<PlatformV>,
    pub cmc_rank: u32,
    pub last_updated: UtcStamp,
    pub quote: Usd,
}

impl View for Data {
    type V = DataV;

    open spec fn view(&self) -> DataV {
        DataV {
            id: self.id,
            name: self.name@,
            symbol: self.symbol@,
            slug: self.slug@,
            num_market_pairs: self.num_market_pairs,
            date_added: self.date_added,
            tags: self.tags@.map_values(|t: Vec<u8>| t@),
            max_supply: self.max_supply,
            circulating_supply: self.circulating_supply,
            total_supply: self.total_supply,
            platform: match self.platform {
                Some(ref p) => Some(p@),
                None => None,
            },
            cmc_rank: self.cmc_rank,
            last_updated: self.last_updated,
            quote: self.quote,
        }
    }
}

/// The status block of the listing endpoint.
#[derive(Debug, Clone, PartialEq, Eq)]
pub struct Status {
    pub timestamp: UtcStamp,
    pub error_code: u32,
    pub error_message: Option<Vec<u8>>,
    pub elapsed: u32,
    pub credit_count: u32,
    pub notice: Option<u32>,
    pub total_count: u32,
}

/// The mathematical image of a `Status`.
pub struct StatusV {
    pub timestamp: UtcStamp,
    pub error_code: u32,
    pub error_message: Option<Seq<u8>>,
    pub elapsed: u32,
    pub credit_count: u32,
    pub notice: Option<u32>,
    pub total_count: u32,
}

impl View for Status {
    type V = StatusV;

    open spec fn view(&self) -> StatusV {
        StatusV {
            timestamp: self.timestamp,
            error_code: self.error_code,
            error_message: match self.error_message {
                Some(ref m) => Some(m@),
                None => None,
            },
            elapsed: self.elapsed,
            credit_count: self.credit_count,
            notice: self.notice,
            total_count: self.total_count,
        }
    }
}

/// A decoded listing-endpoint response.
#[derive(Debug, Clone, PartialEq, Eq)]
pub struct Response {
    pub data: Vec<Data>,
    pub status: Status,
}

/// The mathematical image of a `Response`.
pub struct ResponseV {
    pub data: Seq<DataV>,
    pub status: StatusV,
}

impl View for Response {
    type V = ResponseV;

    open spec fn view(&self) -> ResponseV {
        ResponseV { data: datas_view(self.data@), status: self.status@ }
    }
}

/// The views of a list of records.
pub open spec fn datas_view(s: Seq<Data>) -> Seq<DataV> {
    s.map_values(|d: Data| d@)
}

// ----- the spec decoders -----

/// What decoding the tag array from position `i` on yields.
pub open spec fn spec_decode_tags(items: Seq<Json>, i: int, path: Seq<u8>) -> Result<
    Seq<Seq<u8>>,
    DecodeErrorV,
>
    decreases items.len() - i,
{
    if i < 0 || i >= items.len() {
        Ok(Seq::empty())
    } else {
        match items[i] {
            Json::Str(s) => match spec_decode_tags(items, i + 1, path) {
                Err(e) => Err(e),
                Ok(rest) => Ok(seq![s@] + rest),
            },
            _ => Err(DecodeErrorV::WrongType(path)),
        }
    }
}

/// What decoding the required tag-array member yields.
pub open spec fn spec_get_tags(fields: Seq<(Vec<u8>, Json)>, path: Seq<u8>) -> Result<
    Seq<Seq<u8>>,
    DecodeErrorV,
> {
    match obj_get(fields, "tags".spec_bytes()) {
        None => Err(DecodeErrorV::Missing(path)),
        Some(Json::Arr(items)) => spec_decode_tags(items@, 0, path),
        Some(_) => Err(DecodeErrorV::WrongType(path)),
    }
}

/// What decoding the USD quote block yields.
#[verifier::opaque]
pub open spec fn spec_decode_changes(j: Json, prefix: Seq<u8>) -> Result<Changes, DecodeErrorV> {
    match j {
        Json::Obj(fields) => {
            let f = fields@;
            match spec_get_dec(f, "price".spec_bytes(), join_path(prefix, "price".spec_bytes())) {
                Err(e) => Err(e),
                Ok(price) => match spec_get_dec(
                    f,
                    "volume_24h".spec_bytes(),
                    join_path(prefix, "volume_24h".spec_bytes()),
                ) {
                    Err(e) => Err(e),
                    Ok(volume_24h) => match spec_get_dec(
                        f,
                        "volume_change_24h".spec_bytes(),
                        join_path(prefix, "volume_change_24h".spec_bytes()),
                    ) {
                        Err(e) => Err(e),
                        Ok(volume_change_24h) => match spec_get_dec(
                            f,
                            "percent_change_1h".spec_bytes(),
                            join_path(prefix, "percent_change_1h".spec_bytes()),
                        ) {
                            Err(e) => Err(e),
                            Ok(percent_change_1h) => match spec_get_dec(
                                f,
                                "percent_change_24h".spec_bytes(),
                                join_path(prefix, "percent_change_24h".spec_bytes()),
                            ) {
                                Err(e) => Err(e),
                                Ok(percent_change_24h) => match spec_get_dec(
                                    f,
                                    "percent_change_7d".spec_bytes(),
                                    join_path(prefix, "percent_change_7d".spec_bytes()),
                                ) {
                                    Err(e) => Err(e),
                                    Ok(percent_change_7d) => match spec_get_dec(
                                        f,
                                        "percent_change_30d".spec_bytes(),
                                        join_path(prefix, "percent_change_30d".spec_bytes()),
                                    ) {
                                        Err(e) => Err(e),
                                        Ok(percent_change_30d) => match spec_get_dec(
                                            f,
                                            "percent_change_60d".spec_bytes(),
                                            join_path(prefix, "percent_change_60d".spec_bytes()),
                                        ) {
                                            Err(e) => Err(e),
                                            Ok(percent_change_60d) => match spec_get_dec(
                                                f,
                                                "percent_change_90d".spec_bytes(),
                                                join_path(
                                                    prefix,
                                                    "percent_change_90d".spec_bytes(),
                                                ),
                                            ) {
                                                Err(e) => Err(e),
                                                Ok(percent_change_90d) => match spec_get_dec(
                                                    f,
                                                    "market_cap".spec_bytes(),
                                                    join_path(prefix, "market_cap".spec_bytes()),
                                                ) {
                                                    Err(e) => Err(e),
                                                    Ok(market_cap) => match spec_get_dec(
                                                        f,
                                                        "market_cap_dominance".spec_bytes(),
                                                        join_path(
                                                            prefix,
                                                            "market_cap_dominance".spec_bytes(),
                                                        ),
                                                    ) {
                                                        Err(e) => Err(e),
                                                        Ok(market_cap_dominance) => match
                                                        spec_get_dec(
                                                            f,
                                                            "fully_diluted_market_cap".spec_bytes(),
                                                            join_path(
                                                                prefix,
                                                                "fully_diluted_market_cap".spec_bytes(),
                                                            ),
                                                        ) {
                                                            Err(e) => Err(e),
                                                            Ok(fully_diluted_market_cap) => match
                                                            spec_get_ts(
                                                                f,
                                                                "last_updated".spec_bytes(),
                                                                join_path(
                                                                    prefix,
                                                                    "last_updated".spec_bytes(),
                                                                ),
                                                            ) {
                                                                Err(e) => Err(e),
                                                                Ok(last_updated) => Ok(
                                                                    Changes {
                                                                        price,
                                                                        volume_24h,
                                                                        volume_change_24h,
                                                                        percent_change_1h,
                                                                        percent_change_24h,
                                                                        percent_change_7d,
                                                                        percent_change_30d,
                                                                        percent_change_60d,
                                                                        percent_change_90d,
                                                                        market_cap,
                                                                        market_cap_dominance,
                                                                        fully_diluted_market_cap,
                                                                        last_updated,
                                                                    },
                                                                ),
                                                            },
                                                        },
                                                    },
                                                },
                                            },
                                        },
                                    },
                                },
                            },
                        },
                    },
                },
            }
        },
        _ => Err(DecodeErrorV::WrongType(prefix)),
    }
}

/// What decoding the required quote member yields: the USD entry.
pub open spec fn spec_get_quote(fields: Seq<(Vec<u8>, Json)>, prefix: Seq<u8>) -> Result<
    Usd,
    DecodeErrorV,
> {
    let qpath = join_path(prefix, "quote".spec_bytes());
    let upath = join_path(qpath, "USD".spec_bytes());
    match obj_get(fields, "quote".spec_bytes()) {
        None => Err(DecodeErrorV::Missing(qpath)),
        Some(Json::Obj(qf)) => match obj_get(qf@, "USD".spec_bytes()) {
            None => Err(DecodeErrorV::Missing(upath)),
            Some(uj) => match spec_decode_changes(uj, upath) {
                Err(e) => Err(e),
                Ok(usd) => Ok(Usd { usd }),
            },
        },
        Some(_) => Err(DecodeErrorV::WrongType(qpath)),
    }
}

/// What decoding one market-listing record yields.
#[verifier::opaque]
pub open spec fn spec_decode_record(j: Json, prefix: Seq<u8>) -> Result<DataV, DecodeErrorV> {
    match j {
        Json::Obj(fields) => {
            let f = fields@;
            match spec_get_u32(f, "id".spec_bytes(), join_path(prefix, "id".spec_bytes())) {
                Err(e) => Err(e),
                Ok(id) => match spec_get_str(
                    f,
                    "name".spec_bytes(),
                    join_path(prefix, "name".spec_bytes()),
                ) {
                    Err(e) => Err(e),
                    Ok(name) => match spec_get_str(
                        f,
                        "symbol".spec_bytes(),
                        join_path(prefix, "symbol".spec_bytes()),
                    ) {
                        Err(e) => Err(e),
                        Ok(symbol) => match spec_get_str(
                            f,
                            "slug".spec_bytes(),
                            join_path(prefix, "slug".spec_bytes()),
                        ) {
                            Err(e) => Err(e),
                            Ok(slug) => match spec_get_u32(
                                f,
                                "num_market_pairs".spec_bytes(),
                                join_path(prefix, "num_market_pairs".spec_bytes()),
                            ) {
                                Err(e) => Err(e),
                                Ok(num_market_pairs) => match spec_get_ts(
                                    f,
                                    "date_added".spec_bytes(),
                                    join_path(prefix, "date_added".spec_bytes()),
                                ) {
                                    Err(e) => Err(e),
                                    Ok(date_added) => match spec_get_tags(
                                        f,
                                        join_path(prefix, "tags".spec_bytes()),
                                    ) {
                                        Err(e) => Err(e),
                                        Ok(tags) => match spec_get_opt_dec(
                                            f,
                                            "max_supply".spec_bytes(),
                                            join_path(prefix, "max_supply".spec_bytes()),
                                        ) {
                                            Err(e) => Err(e),
                                            Ok(max_supply) => match spec_get_dec(
                                                f,
                                                "circulating_supply".spec_bytes(),
                                                join_path(
                                                    prefix,
                                                    "circulating_supply".spec_bytes(),
                                                ),
                                            ) {
                                                Err(e) => Err(e),
                                                Ok(circulating_supply) => match spec_get_dec(
                                                    f,
                                                    "total_supply".spec_bytes(),
                                                    join_path(prefix, "total_supply".spec_bytes()),
                                                ) {
                                                    Err(e) => Err(e),
                                                    Ok(total_supply) => match
                                                    crate::map_decoder::spec_decode_opt_platform(
                                                        f,
                                                        prefix,
                                                    ) {
                                                        Err(e) => Err(e),
                                                        Ok(platform) => match spec_get_u32(
                                                            f,
                                                            "cmc_rank".spec_bytes(),
                                                            join_path(
                                                                prefix,
                                                                "cmc_rank".spec_bytes(),
                                                            ),
                                                        ) {
                                                            Err(e) => Err(e),
                                                            Ok(cmc_rank) => match spec_get_ts(
                                                                f,
                                                                "last_updated".spec_bytes(),
                                                                join_path(
                                                                    prefix,
                                                                    "last_updated".spec_bytes(),
                                                                ),
                                                            ) {
                                                                Err(e) => Err(e),
                                                                Ok(last_updated) => match
                                                                spec_get_quote(f, prefix) {
                                                                    Err(e) => Err(e),
                                                                    Ok(quote) => Ok(
                                                                        DataV {
                                                                            id,
                                                                            name,
                                                                            symbol,
                                                                            slug,
                                                                            num_market_pairs,
                                                                            date_added,
                                                                            tags,
                                                                            max_supply,
                                                                            circulating_supply,
                                                                            total_supply,
                                                                            platform,
                                                                            cmc_rank,
                                                                            last_updated,
                                                                            quote,
                                                                        },
                                                                    ),
                                                                },
                                                            },
                                                        },
                                                    },
                                                },
                                            },
                                        },
                                    },
                                },
                            },
                        },
                    },
                },
            }
        },
        _ => Err(DecodeErrorV::WrongType(prefix)),
    }
}

/// What decoding the records from position `i` on yields, in order.
pub open spec fn spec_decode_records(items: Seq<Json>, i: int) -> Result<Seq<DataV>, DecodeErrorV>
    decreases items.len() - i,
{
    if i < 0 || i >= items.len() {
        Ok(Seq::empty())
    } else {
        match spec_decode_record(items[i], record_prefix(i)) {
            Err(e) => Err(e),
            Ok(d) => match spec_decode_records(items, i + 1) {
                Err(e) => Err(e),
                Ok(rest) => Ok(seq![d] + rest),
            },
        }
    }
}

/// What decoding the status block yields.
#[verifier::opaque]
pub open spec fn spec_decode_status(f: Seq<(Vec<u8>, Json)>) -> Result<StatusV, DecodeErrorV> {
    let prefix = "status".spec_bytes();
    match spec_get_ts(f, "timestamp".spec_bytes(), join_path(prefix, "timestamp".spec_bytes())) {
        Err(e) => Err(e),
        Ok(timestamp) => match spec_get_u32(
            f,
            "error_code".spec_bytes(),
            join_path(prefix, "error_code".spec_bytes()),
        ) {
            Err(e) => Err(e),
            Ok(error_code) => match spec_get_opt_str(
                f,
                "error_message".spec_bytes(),
                join_path(prefix, "error_message".spec_bytes()),
            ) {
                Err(e) => Err(e),
                Ok(error_message) => match spec_get_u32(
                    f,
                    "elapsed".spec_bytes(),
                    join_path(prefix, "elapsed".spec_bytes()),
                ) {
                    Err(e) => Err(e),
                    Ok(elapsed) => match spec_get_u32(
                        f,
                        "credit_count".spec_bytes(),
                        join_path(prefix, "credit_count".spec_bytes()),
                    ) {
                        Err(e) => Err(e),
                        Ok(credit_count) => match spec_get_opt_u32(
                            f,
                            "notice".spec_bytes(),
                            join_path(prefix, "notice".spec_bytes()),
                        ) {
                            Err(e) => Err(e),
                            Ok(notice) => match spec_get_u32(
                                f,
                                "total_count".spec_bytes(),
                                join_path(prefix, "total_count".spec_bytes()),
                            ) {
                                Err(e) => Err(e),
                                Ok(total_count) => Ok(
                                    StatusV {
                                        timestamp,
                                        error_code,
                                        error_message,
                                        elapsed,
                                        credit_count,
                                        notice,
                                        total_count,
                                    },
                                ),
                            },
                        },
                    },
                },
            },
        },
    }
}

/// What decoding a whole listing-endpoint document yields.
pub open spec fn spec_decode_listing(j: Json) -> Result<ResponseV, DecodeErrorV> {
    match j {
        Json::Obj(fields) => {
            let f = fields@;
            match obj_get(f, "data".spec_bytes()) {
                None => Err(DecodeErrorV::Missing("data".spec_bytes())),
                Some(Json::Arr(items)) => match spec_decode_records(items@, 0) {
                    Err(e) => Err(e),
                    Ok(data) => match obj_get(f, "status".spec_bytes()) {
                        None => Err(DecodeErrorV::Missing("status".spec_bytes())),
                        Some(Json::Obj(sf)) => match spec_decode_status(sf@) {
                            Err(e) => Err(e),
                            Ok(status) => Ok(ResponseV { data, status }),
                        },
                        Some(_) => Err(DecodeErrorV::WrongType("status".spec_bytes())),
                    },
                },
                Some(_) => Err(DecodeErrorV::WrongType("data".spec_bytes())),
            }
        },
        _ => Err(DecodeErrorV::WrongType(Seq::empty())),
    }
}

// ----- the executable decoders -----

fn decode_tags_at(items: &Vec<Json>, i: usize, path: &[u8]) -> (r: Result<
    Vec<Vec<u8>>,
    DecodeError,
>)
    requires
        i <= items@.len(),
    ensures
        match r {
            Ok(v) => spec_decode_tags(items@, i as int, path@) == Ok::<Seq<Seq<u8>>, DecodeErrorV>(
                paths_view(v@),
            ),
            Err(e) => spec_decode_tags(items@, i as int, path@) == Err::<
                Seq<Seq<u8>>,
                DecodeErrorV,
            >(e@),
        },
    decreases items@.len() - i,
{
    if i == items.len() {
        let empty: Vec<Vec<u8>> = Vec::new();
        assert(paths_view(empty@) =~= Seq::<Seq<u8>>::empty());
        return Ok(empty);
    }
    match &items[i] {
        Json::Str(s) => {
            let t = copy_bytes(s.as_slice());
            let mut rest = match decode_tags_at(items, i + 1, path) {
                Ok(v) => v,
                Err(e) => {
                    return Err(e);
                },
            };
            let ghost restv = paths_view(rest@);
            let ghost tv = t@;
            rest.insert(0, t);
            assert(paths_view(rest@) =~= seq![tv] + restv);
            Ok(rest)
        },
        _ => Err(DecodeError::WrongType(copy_bytes(path))),
    }
}

fn get_tags(fields: &Vec<(Vec<u8>, Json)>, prefix: &[u8]) -> (r: Result<Vec<Vec<u8>>, DecodeError>)
    ensures
        match r {
            Ok(v) => spec_get_tags(fields@, join_path(prefix@, "tags".spec_bytes())) == Ok::<
                Seq<Seq<u8>>,
                DecodeErrorV,
            >(paths_view(v@)),
            Err(e) => spec_get_tags(fields@, join_path(prefix@, "tags".spec_bytes())) == Err::<
                Seq<Seq<u8>>,
                DecodeErrorV,
            >(e@),
        },
{
    let k = lit("tags");
    let path = make_path(prefix, k.as_slice());
    match lookup(fields, k.as_slice()) {
        None => Err(DecodeError::Missing(path)),
        Some(Json::Arr(items)) => decode_tags_at(items, 0, path.as_slice()),
        Some(_) => Err(DecodeError::WrongType(path)),
    }
}

fn decode_changes(j: &Json, prefix: &[u8]) -> (r: Result<Changes, DecodeError>)
    ensures
        match r {
            Ok(c) => spec_decode_changes(*j, prefix@) == Ok::<Changes, DecodeErrorV>(c),
            Err(e) => spec_decode_changes(*j, prefix@) == Err::<Changes, DecodeErrorV>(e@),
        },
{
    proof {
        reveal(spec_decode_changes);
    }
    match j {
        Json::Obj(fields) => {
            let k = lit("price");
            let price = match get_dec(fields, k.as_slice(), prefix) {
                Ok(v) => v,
                Err(e) => {
                    return Err(e);
                },
            };
            let k = lit("volume_24h");
            let volume_24h = match get_dec(fields, k.as_slice(), prefix) {
                Ok(v) => v,
                Err(e) => {
                    return Err(e);
                },
            };
            let k = lit("volume_change_24h");
            let volume_change_24h = match get_dec(fields, k.as_slice(), prefix) {
                Ok(v) => v,
                Err(e) => {
                    return Err(e);
                },
            };
            let k = lit("percent_change_1h");
            let percent_change_1h = match get_dec(fields, k.as_slice(), prefix) {
                Ok(v) => v,
                Err(e) => {
                    return Err(e);
                },
            };
            let k = lit("percent_change_24h");
            let percent_change_24h = match get_dec(fields, k.as_slice(), prefix) {
                Ok(v) => v,
                Err(e) => {
                    return Err(e);
                },
            };
            let k = lit("percent_change_7d");
            let percent_change_7d = match get_dec(fields, k.as_slice(), prefix) {
                Ok(v) => v,
                Err(e) => {
                    return Err(e);
                },
            };
            let k = lit("percent_change_30d");
            let percent_change_30d = match get_dec(fields, k.as_slice(), prefix) {
                Ok(v) => v,
                Err(e) => {
                    return Err(e);
                },
            };
            let k = lit("percent_change_60d");
            let percent_change_60d = match get_dec(fields, k.as_slice(), prefix) {
                Ok(v) => v,
                Err(e) => {
                    return Err(e);
                },
            };
            let k = lit("percent_change_90d");
            let percent_change_90d = match get_dec(fields, k.as_slice(), prefix) {
                Ok(v) => v,
                Err(e) => {
                    return Err(e);
                },
            };
            let k = lit("market_cap");
            let market_cap = match get_dec(fields, k.as_slice(), prefix) {
                Ok(v) => v,
                Err(e) => {
                    return Err(e);
                },
            };
            let k = lit("market_cap_dominance");
            let market_cap_dominance = match get_dec(fields, k.as_slice(), prefix) {
                Ok(v) => v,
                Err(e) => {
                    return Err(e);
                },
            };
            let k = lit("fully_diluted_market_cap");
            let fully_diluted_market_cap = match get_dec(fields, k.as_slice(), prefix) {
                Ok(v) => v,
                Err(e) => {
                    return Err(e);
                },
            };
            let k = lit("last_updated");
            let last_updated = match get_ts(fields, k.as_slice(), prefix) {
                Ok(v) => v,
                Err(e) => {
                    return Err(e);
                },
            };
            Ok(
                Changes {
                    price,
                    volume_24h,
                    volume_change_24h,
                    percent_change_1h,
                    percent_change_24h,
                    percent_change_7d,
                    percent_change_30d,
                    percent_change_60d,
                    percent_change_90d,
                    market_cap,
                    market_cap_dominance,
                    fully_diluted_market_cap,
                    last_updated,
                },
            )
        },
        _ => Err(DecodeError::WrongType(copy_bytes(prefix))),
    }
}

fn get_quote(fields: &Vec<(Vec<u8>, Json)>, prefix: &[u8]) -> (r: Result<Usd, DecodeError>)
    ensures
        match r {
            Ok(u) => spec_get_quote(fields@, prefix@) == Ok::<Usd, DecodeErrorV>(u),
            Err(e) => spec_get_quote(fields@, prefix@) == Err::<Usd, DecodeErrorV>(e@),
        },
{
    let k = lit("quote");
    let qpath = make_path(prefix, k.as_slice());
    match lookup(fields, k.as_slice()) {
        None => Err(DecodeError::Missing(qpath)),
        Some(Json::Obj(qf)) => {
            let uk = lit("USD");
            let upath = make_path(qpath.as_slice(), uk.as_slice());
            match lookup(qf, uk.as_slice()) {
                None => Err(DecodeError::Missing(upath)),
                Some(uj) => match decode_changes(uj, upath.as_slice()) {
                    Ok(usd) => Ok(Usd { usd }),
                    Err(e) => Err(e),
                },
            }
        },
        Some(_) => Err(DecodeError::WrongType(qpath)),
    }
}

fn decode_record(j: &Json, prefix: &[u8]) -> (r: Result<Data, DecodeError>)
    ensures
        match r {
            Ok(d) => spec_decode_record(*j, prefix@) == Ok::<DataV, DecodeErrorV>(d@),
            Err(e) => spec_decode_record(*j, prefix@) == Err::<DataV, DecodeErrorV>(e@),
        },
{
    proof {
        reveal(spec_decode_record);
    }
    match j {
        Json::Obj(fields) => {
            let k = lit("id");
            let id = match get_u32(fields, k.as_slice(), prefix) {
                Ok(v) => v,
                Err(e) => {
                    return Err(e);
                },
            };
            let k = lit("name");
            let name = match get_str(fields, k.as_slice(), prefix) {
                Ok(v) => v,
                Err(e) => {
                    return Err(e);
                },
            };
            let k = lit("symbol");
            let symbol = match get_str(fields, k.as_slice(), prefix) {
                Ok(v) => v,
                Err(e) => {
                    return Err(e);
                },
            };
            let k = lit("slug");
            let slug = match get_str(fields, k.as_slice(), prefix) {
                Ok(v) => v,
                Err(e) => {
                    return Err(e);
                },
            };
            let k = lit("num_market_pairs");
            let num_market_pairs = match get_u32(fields, k.as_slice(), prefix) {
                Ok(v) => v,
                Err(e) => {
                    return Err(e);
                },
            };
            let k = lit("date_added");
            let date_added = match get_ts(fields, k.as_slice(), prefix) {
                Ok(v) => v,
                Err(e) => {
                    return Err(e);
                },
            };
            let tags = match get_tags(fields, prefix) {
                Ok(v) => v,
                Err(e) => {
                    return Err(e);
                },
            };
            let k = lit("max_supply");
            let max_supply = match get_opt_dec(fields, k.as_slice(), prefix) {
                Ok(v) => v,
                Err(e) => {
                    return Err(e);
                },
            };
            let k = lit("circulating_supply");
            let circulating_supply = match get_dec(fields, k.as_slice(), prefix) {
                Ok(v) => v,
                Err(e) => {
                    return Err(e);
                },
            };
            let k = lit("total_supply");
            let total_supply = match get_dec(fields, k.as_slice(), prefix) {
                Ok(v) => v,
                Err(e) => {
                    return Err(e);
                },
            };
            let k = lit("platform");
            let platform = match lookup(fields, k.as_slice()) {
                None => None,
                Some(Json::Null) => None,
                Some(pj) => {
                    let pp = make_platform_prefix(prefix);
                    match decode_platform(pj, pp.as_slice()) {
                        Ok(p) => Some(p),
                        Err(e) => {
                            return Err(e);
                        },
                    }
                },
            };
            let k = lit("cmc_rank");
            let cmc_rank = match get_u32(fields, k.as_slice(), prefix) {
                Ok(v) => v,
                Err(e) => {
                    return Err(e);
                },
            };
            let k = lit("last_updated");
            let last_updated = match get_ts(fields, k.as_slice(), prefix) {
                Ok(v) => v,
                Err(e) => {
                    return Err(e);
                },
            };
            let quote = match get_quote(fields, prefix) {
                Ok(v) => v,
                Err(e) => {
                    return Err(e);
                },
            };
            Ok(
                Data {
                    id,
                    name,
                    symbol,
                    slug,
                    num_market_pairs,
                    date_added,
                    tags,
                    max_supply,
                    circulating_supply,
                    total_supply,
                    platform,
                    cmc_rank,
                    last_updated,
                    quote,
                },
            )
        },
        _ => Err(DecodeError::WrongType(copy_bytes(prefix))),
    }
}

fn decode_records(items: &Vec<Json>, i: usize) -> (r: Result<Vec<Data>, DecodeError>)
    requires
        i <= items@.len(),
    ensures
        match r {
            Ok(v) => spec_decode_records(items@, i as int) == Ok::<Seq<DataV>, DecodeErrorV>(
                datas_view(v@),
            ),
            Err(e) => spec_decode_records(items@, i as int) == Err::<Seq<DataV>, DecodeErrorV>(
                e@,
            ),
        },
    decreases items@.len() - i,
{
    if i == items.len() {
        let empty: Vec<Data> = Vec::new();
        assert(datas_view(empty@) =~= Seq::<DataV>::empty());
        return Ok(empty);
    }
    let p = make_record_prefix(i);
    let d = match decode_record(&items[i], p.as_slice()) {
        Ok(d) => d,
        Err(e) => {
            return Err(e);
        },
    };
    let mut rest = match decode_records(items, i + 1) {
        Ok(v) => v,
        Err(e) => {
            return Err(e);
        },
    };
    let ghost restv = datas_view(rest@);
    let ghost dv = d@;
    rest.insert(0, d);
    assert(datas_view(rest@) =~= seq![dv] + restv);
    Ok(rest)
}

fn decode_status(fields: &Vec<(Vec<u8>, Json)>) -> (r: Result<Status, DecodeError>)
    ensures
        match r {
            Ok(s) => spec_decode_status(fields@) == Ok::<StatusV, DecodeErrorV>(s@),
            Err(e) => spec_decode_status(fields@) == Err::<StatusV, DecodeErrorV>(e@),
        },
{
    proof {
        reveal(spec_decode_status);
    }
    let prefix = lit("status");
    let k = lit("timestamp");
    let timestamp = match get_ts(fields, k.as_slice(), prefix.as_slice()) {
        Ok(v) => v,
        Err(e) => {
            return Err(e);
        },
    };
    let k = lit("error_code");
    let error_code = match get_u32(fields, k.as_slice(), prefix.as_slice()) {
        Ok(v) => v,
        Err(e) => {
            return Err(e);
        },
    };
    let k = lit("error_message");
    let error_message = match get_opt_str(fields, k.as_slice(), prefix.as_slice()) {
        Ok(v) => v,
        Err(e) => {
            return Err(e);
        },
    };
    let k = lit("elapsed");
    let elapsed = match get_u32(fields, k.as_slice(), prefix.as_slice()) {
        Ok(v) => v,
        Err(e) => {
            return Err(e);
        },
    };
    let k = lit("credit_count");
    let credit_count = match get_u32(fields, k.as_slice(), prefix.as_slice()) {
        Ok(v) => v,
        Err(e) => {
            return Err(e);
        },
    };
    let k = lit("notice");
    let notice = match get_opt_u32(fields, k.as_slice(), prefix.as_slice()) {
        Ok(v) => v,
        Err(e) => {
            return Err(e);
        },
    };
    let k = lit("total_count");
    let total_count = match get_u32(fields, k.as_slice(), prefix.as_slice()) {
        Ok(v) => v,
        Err(e) => {
            return Err(e);
        },
    };
    Ok(Status { timestamp, error_code, error_message, elapsed, credit_count, notice, total_count })
}

// ----- unknown-field scan -----

/// The member names the decoder knows in a record.
pub open spec fn record_keys() -> Seq<Seq<u8>> {
    seq![
        "id".spec_bytes(),
        "name".spec_bytes(),
        "symbol".spec_bytes(),
        "slug".spec_bytes(),
        "num_market_pairs".spec_bytes(),
        "date_added".spec_bytes(),
        "tags".spec_bytes(),
        "max_supply".spec_bytes(),
        "circulating_supply".spec_bytes(),
        "total_supply".spec_bytes(),
        "platform".spec_bytes(),
        "cmc_rank".spec_bytes(),
        "last_updated".spec_bytes(),
        "quote".spec_bytes(),
    ]
}

/// The currency codes the decoder reads from the quote member.
pub open spec fn quote_keys() -> Seq<Seq<u8>> {
    seq!["USD".spec_bytes()]
}

/// The member names the decoder knows in a USD quote block.
pub open spec fn changes_keys() -> Seq<Seq<u8>> {
    seq![
        "price".spec_bytes(),
        "volume_24h".spec_bytes(),
        "volume_change_24h".spec_bytes(),
        "percent_change_1h".spec_bytes(),
        "percent_change_24h".spec_bytes(),
        "percent_change_7d".spec_bytes(),
        "percent_change_30d".spec_bytes(),
        "percent_change_60d".spec_bytes(),
        "percent_change_90d".spec_bytes(),
        "market_cap".spec_bytes(),
        "market_cap_dominance".spec_bytes(),
        "fully_diluted_market_cap".spec_bytes(),
        "last_updated".spec_bytes(),
    ]
}

/// The member names the decoder knows in the status block.
pub open spec fn status_keys() -> Seq<Seq<u8>> {
    seq![
        "timestamp".spec_bytes(),
        "error_code".spec_bytes(),
        "error_message".spec_bytes(),
        "elapsed".spec_bytes(),
        "credit_count".spec_bytes(),
        "notice".spec_bytes(),
        "total_count".spec_bytes(),
    ]
}

fn record_keys_list() -> (r: Vec<Vec<u8>>)
    ensures
        paths_view(r@) == record_keys(),
{
    let mut v: Vec<Vec<u8>> = Vec::new();
    v.push(lit("id"));
    v.push(lit("name"));
    v.push(lit("symbol"));
    v.push(lit("slug"));
    v.push(lit("num_market_pairs"));
    v.push(lit("date_added"));
    v.push(lit("tags"));
    v.push(lit("max_supply"));
    v.push(lit("circulating_supply"));
    v.push(lit("total_supply"));
    v.push(lit("platform"));
    v.push(lit("cmc_rank"));
    v.push(lit("last_updated"));
    v.push(lit("quote"));
    assert(paths_view(v@) =~= record_keys());
    v
}

fn quote_keys_list() -> (r: Vec<Vec<u8>>)
    ensures
        paths_view(r@) == quote_keys(),
{
    let mut v: Vec<Vec<u8>> = Vec::new();
    v.push(lit("USD"));
    assert(paths_view(v@) =~= quote_keys());
    v
}

fn changes_keys_list() -> (r: Vec<Vec<u8>>)
    ensures
        paths_view(r@) == changes_keys(),
{
    let mut v: Vec<Vec<u8>> = Vec::new();
    v.push(lit("price"));
    v.push(lit("volume_24h"));
    v.push(lit("volume_change_24h"));
    v.push(lit("percent_change_1h"));
    v.push(lit("percent_change_24h"));
    v.push(lit("percent_change_7d"));
    v.push(lit("percent_change_30d"));
    v.push(lit("percent_change_60d"));
    v.push(lit("percent_change_90d"));
    v.push(lit("market_cap"));
    v.push(lit("market_cap_dominance"));
    v.push(lit("fully_diluted_market_cap"));
    v.push(lit("last_updated"));
    assert(paths_view(v@) =~= changes_keys());
    v
}

fn status_keys_list() -> (r: Vec<Vec<u8>>)
    ensures
        paths_view(r@) == status_keys(),
{
    let mut v: Vec<Vec<u8>> = Vec::new();
    v.push(lit("timestamp"));
    v.push(lit("error_code"));
    v.push(lit("error_message"));
    v.push(lit("elapsed"));
    v.push(lit("credit_count"));
    v.push(lit("notice"));
    v.push(lit("total_count"));
    assert(paths_view(v@) =~= status_keys());
    v
}

/// The unknown-field paths under a record's platform member.
pub open spec fn spec_platform_unknown(o: Option<Json>, pfx: Seq<u8>) -> Seq<Seq<u8>> {
    match o {
        Some(Json::Obj(pf)) => spec_unknown(pf@, platform_keys(), pfx, 0),
        _ => Seq::empty(),
    }
}

/// The unknown-field paths under a USD quote block.
pub open spec fn spec_changes_unknown(o: Option<Json>, pfx: Seq<u8>) -> Seq<Seq<u8>> {
    match o {
        Some(Json::Obj(cf)) => spec_unknown(cf@, changes_keys(), pfx, 0),
        _ => Seq::empty(),
    }
}

/// The unknown-field paths under a record's quote member: currency
/// codes other than USD, then unknown fields inside the USD block.
pub open spec fn spec_quote_unknown(o: Option<Json>, pfx: Seq<u8>) -> Seq<Seq<u8>> {
    match o {
        Some(Json::Obj(qf)) => spec_unknown(qf@, quote_keys(), pfx, 0) + spec_changes_unknown(
            obj_get(qf@, "USD".spec_bytes()),
            join_path(pfx, "USD".spec_bytes()),
        ),
        _ => Seq::empty(),
    }
}

/// The unknown-field paths of one record.
pub open spec fn spec_record_unknown(j: Json, pfx: Seq<u8>) -> Seq<Seq<u8>> {
    match j {
        Json::Obj(f) => spec_unknown(f@, record_keys(), pfx, 0) + spec_platform_unknown(
            obj_get(f@, "platform".spec_bytes()),
            join_path(pfx, "platform".spec_bytes()),
        ) + spec_quote_unknown(
            obj_get(f@, "quote".spec_bytes()),
            join_path(pfx, "quote".spec_bytes()),
        ),
        _ => Seq::empty(),
    }
}

/// The unknown-field paths of the records from position `i` on.
pub open spec fn spec_records_unknown(items: Seq<Json>, i: int) -> Seq<Seq<u8>>
    decreases items.len() - i,
{
    if i < 0 || i >= items.len() {
        Seq::empty()
    } else {
        spec_record_unknown(items[i], record_prefix(i)) + spec_records_unknown(items, i + 1)
    }
}

/// Every unknown-field path of a listing-endpoint document.
pub open spec fn spec_listing_unknown(j: Json) -> Seq<Seq<u8>> {
    match j {
        Json::Obj(f) => spec_unknown(f@, top_keys(), Seq::empty(), 0) + (match obj_get(
            f@,
            "data".spec_bytes(),
        ) {
            Some(Json::Arr(items)) => spec_records_unknown(items@, 0),
            _ => Seq::empty(),
        }) + (match obj_get(f@, "status".spec_bytes()) {
            Some(Json::Obj(sf)) => spec_unknown(sf@, status_keys(), "status".spec_bytes(), 0),
            _ => Seq::empty(),
        }),
        _ => Seq::empty(),
    }
}

fn scan_record_unknown(j: &Json, pfx: &[u8], out: &mut Vec<Vec<u8>>)
    ensures
        paths_view(final(out)@) == paths_view(old(out)@) + spec_record_unknown(*j, pfx@),
{
    match j {
        Json::Obj(f) => {
            let rk = record_keys_list();
            collect_unknown(f, &rk, pfx, out);
            let k = lit("platform");
            match lookup(f, k.as_slice()) {
                Some(Json::Obj(pf)) => {
                    let pk = platform_keys_list();
                    let pp = make_platform_prefix(pfx);
                    collect_unknown(pf, &pk, pp.as_slice(), out);
                },
                _ => {},
            }
            let k = lit("quote");
            match lookup(f, k.as_slice()) {
                Some(Json::Obj(qf)) => {
                    let qk = quote_keys_list();
                    let qp = make_path(pfx, k.as_slice());
                    collect_unknown(qf, &qk, qp.as_slice(), out);
                    let uk = lit("USD");
                    match lookup(qf, uk.as_slice()) {
                        Some(Json::Obj(cf)) => {
                            let ck = changes_keys_list();
                            let up = make_path(qp.as_slice(), uk.as_slice());
                            collect_unknown(cf, &ck, up.as_slice(), out);
                        },
                        _ => {},
                    }
                },
                _ => {},
            }
            assert(paths_view(final(out)@) =~= paths_view(old(out)@) + spec_record_unknown(
                *j,
                pfx@,
            ));
        },
        _ => {
            assert(paths_view(final(out)@) =~= paths_view(old(out)@) + spec_record_unknown(
                *j,
                pfx@,
            ));
        },
    }
}

fn scan_records_unknown(items: &Vec<Json>, i: usize, out: &mut Vec<Vec<u8>>)
    requires
        i <= items@.len(),
    ensures
        paths_view(final(out)@) == paths_view(old(out)@) + spec_records_unknown(
            items@,
            i as int,
        ),
    decreases items@.len() - i,
{
    if i == items.len() {
        assert(paths_view(final(out)@) =~= paths_view(old(out)@) + spec_records_unknown(
            items@,
            i as int,
        ));
        return ;
    }
    let p = make_record_prefix(i);
    scan_record_unknown(&items[i], p.as_slice(), out);
    scan_records_unknown(items, i + 1, out);
    assert(paths_view(final(out)@) =~= paths_view(old(out)@) + spec_records_unknown(
        items@,
        i as int,
    ));
}

/// Reports the dotted path of every unknown field in a listing-endpoint
/// document, a diagnostic companion to `decode_listing`.
pub fn scan_listing_unknown(j: &Json) -> (r: Vec<Vec<u8>>)
    ensures
        paths_view(r@) == spec_listing_unknown(*j),
{
    let mut out: Vec<Vec<u8>> = Vec::new();
    match j {
        Json::Obj(f) => {
            let tk = top_keys_list();
            let empty_prefix: Vec<u8> = Vec::new();
            collect_unknown(f, &tk, empty_prefix.as_slice(), &mut out);
            let k = lit("data");
            match lookup(f, k.as_slice()) {
                Some(Json::Arr(items)) => {
                    scan_records_unknown(items, 0, &mut out);
                },
                _ => {},
            }
            let k = lit("status");
            match lookup(f, k.as_slice()) {
                Some(Json::Obj(sf)) => {
                    let sk = status_keys_list();
                    let sp = lit("status");
                    collect_unknown(sf, &sk, sp.as_slice(), &mut out);
                },
                _ => {},
            }
            assert(paths_view(out@) =~= spec_listing_unknown(*j));
        },
        _ => {
            assert(paths_view(out@) =~= spec_listing_unknown(*j));
        },
    }
    out
}

/// Decodes a listing-endpoint document and also reports the dotted
/// paths of the fields the decoder ignored.
pub fn decode_listing_with_ignored(j: &Json) -> (r: Result<
    (Response, Vec<Vec<u8>>),
    DecodeError,
>)
    ensures
        match r {
            Ok(pair) => spec_decode_listing(*j) == Ok::<ResponseV, DecodeErrorV>(pair.0@)
                && paths_view(pair.1@) == spec_listing_unknown(*j),
            Err(e) => spec_decode_listing(*j) == Err::<ResponseV, DecodeErrorV>(e@),
        },
{
    match decode_listing(j) {
        Ok(resp) => Ok((resp, scan_listing_unknown(j))),
        Err(e) => Err(e),
    }
}

// ----- laws -----

#[verifier::rlimit(100)]
proof fn lemma_records_index(items: Seq<Json>, i: int, out: Seq<DataV>)
    requires
        0 <= i <= items.len(),
        spec_decode_records(items, i) == Ok::<Seq<DataV>, DecodeErrorV>(out),
    ensures
        out.len() == items.len() - i,
        forall|k: int|
            i <= k < items.len() ==> spec_decode_record(items[k], record_prefix(k)) == Ok::<
                DataV,
                DecodeErrorV,
            >(#[trigger] out[k - i]),
    decreases items.len() - i,
{
    if i < items.len() {
        let d = match spec_decode_record(items[i], record_prefix(i)) {
            Ok(d) => d,
            Err(_) => arbitrary(),
        };
        let rest = match spec_decode_records(items, i + 1) {
            Ok(rest) => rest,
            Err(_) => arbitrary(),
        };
        assert(out == seq![d] + rest);
        lemma_records_index(items, i + 1, rest);
        assert forall|k: int| i <= k < items.len() implies spec_decode_record(
            items[k],
            record_prefix(k),
        ) == Ok::<DataV, DecodeErrorV>(#[trigger] out[k - i]) by {
            if k == i {
                assert((seq![d] + rest)[0] == d);
                assert(out[0] == d);
            } else {
                assert((seq![d] + rest)[k - i] == rest[k - i - 1]);
                assert(out[k - i] == rest[k - i - 1]);
                assert(spec_decode_record(items[k], record_prefix(k)) == Ok::<
                    DataV,
                    DecodeErrorV,
                >(rest[k - (i + 1)]));
            }
        }
    }
}

/// For every well-decoded listing payload the decoder yields exactly
/// one market record per wire record, in wire order, each decoded from
/// the record at its own position.
#[verifier::rlimit(100)]
pub proof fn lemma_listing_preserves_records(j: Json, resp: ResponseV)
    requires
        spec_decode_listing(j) == Ok::<ResponseV, DecodeErrorV>(resp),
    ensures
        j is Obj,
        obj_get(j->Obj_0@, "data".spec_bytes()) is Some,
        obj_get(j->Obj_0@, "data".spec_bytes()).unwrap() is Arr,
        resp.data.len() == obj_get(j->Obj_0@, "data".spec_bytes()).unwrap()->Arr_0@.len(),
        forall|i: int|
            0 <= i < resp.data.len() ==> spec_decode_record(
                obj_get(j->Obj_0@, "data".spec_bytes()).unwrap()->Arr_0@[i],
                record_prefix(i),
            ) == Ok::<DataV, DecodeErrorV>(#[trigger] resp.data[i]),
{
    let items = obj_get(j->Obj_0@, "data".spec_bytes()).unwrap()->Arr_0@;
    lemma_records_index(items, 0, resp.data);
    assert forall|i: int| 0 <= i < resp.data.len() implies spec_decode_record(
        items[i],
        record_prefix(i),
    ) == Ok::<DataV, DecodeErrorV>(#[trigger] resp.data[i]) by {
        assert(spec_decode_record(items[i], record_prefix(i)) == Ok::<DataV, DecodeErrorV>(
            resp.data[i - 0],
        ));
    }
}

/// The decoder reads only the members its schema names: two records
/// that agree on every known member decode alike, whatever unknown
/// members either of them carries besides.
#[verifier::rlimit(100)]
pub proof fn lemma_record_reads_known_only(j1: Json, j2: Json, prefix: Seq<u8>)
    requires
        j1 is Obj,
        j2 is Obj,
        forall|k: Seq<u8>|
            name_in(record_keys(), k) ==> obj_get(j1->Obj_0@, k) == obj_get(j2->Obj_0@, k),
    ensures
        spec_decode_record(j1, prefix) == spec_decode_record(j2, prefix),
{
    reveal(spec_decode_record);
    let f = j1->Obj_0@;
    let g = j2->Obj_0@;
    assert(record_keys()[0] == "id".spec_bytes());
    assert(name_in(record_keys(), "id".spec_bytes()));
    assert(record_keys()[1] == "name".spec_bytes());
    assert(name_in(record_keys(), "name".spec_bytes()));
    assert(record_keys()[2] == "symbol".spec_bytes());
    assert(name_in(record_keys(), "symbol".spec_bytes()));
    assert(record_keys()[3] == "slug".spec_bytes());
    assert(name_in(record_keys(), "slug".spec_bytes()));
    assert(record_keys()[4] == "num_market_pairs".spec_bytes());
    assert(name_in(record_keys(), "num_market_pairs".spec_bytes()));
    assert(record_keys()[5] == "date_added".spec_bytes());
    assert(name_in(record_keys(), "date_added".spec_bytes()));
    assert(record_keys()[6] == "tags".spec_bytes());
    assert(name_in(record_keys(), "tags".spec_bytes()));
    assert(record_keys()[7] == "max_supply".spec_bytes());
    assert(name_in(record_keys(), "max_supply".spec_bytes()));
    assert(record_keys()[8] == "circulating_supply".spec_bytes());
    assert(name_in(record_keys(), "circulating_supply".spec_bytes()));
    assert(record_keys()[9] == "total_supply".spec_bytes());
    assert(name_in(record_keys(), "total_supply".spec_bytes()));
    assert(record_keys()[10] == "platform".spec_bytes());
    assert(name_in(record_keys(), "platform".spec_bytes()));
    assert(record_keys()[11] == "cmc_rank".spec_bytes());
    assert(name_in(record_keys(), "cmc_rank".spec_bytes()));
    assert(record_keys()[12] == "last_updated".spec_bytes());
    assert(name_in(record_keys(), "last_updated".spec_bytes()));
    assert(record_keys()[13] == "quote".spec_bytes());
    assert(name_in(record_keys(), "quote".spec_bytes()));
    assert(obj_get(f, "id".spec_bytes()) == obj_get(g, "id".spec_bytes()));
    assert(obj_get(f, "name".spec_bytes()) == obj_get(g, "name".spec_bytes()));
    assert(obj_get(f, "symbol".spec_bytes()) == obj_get(g, "symbol".spec_bytes()));
    assert(obj_get(f, "slug".spec_bytes()) == obj_get(g, "slug".spec_bytes()));
    assert(obj_get(f, "num_market_pairs".spec_bytes()) == obj_get(
        g,
        "num_market_pairs".spec_bytes(),
    ));
    assert(obj_get(f, "date_added".spec_bytes()) == obj_get(g, "date_added".spec_bytes()));
    assert(obj_get(f, "tags".spec_bytes()) == obj_get(g, "tags".spec_bytes()));
    assert(obj_get(f, "max_supply".spec_bytes()) == obj_get(g, "max_supply".spec_bytes()));
    assert(obj_get(f, "circulating_supply".spec_bytes()) == obj_get(
        g,
        "circulating_supply".spec_bytes(),
    ));
    assert(obj_get(f, "total_supply".spec_bytes()) == obj_get(g, "total_supply".spec_bytes()));
    assert(obj_get(f, "platform".spec_bytes()) == obj_get(g, "platform".spec_bytes()));
    assert(obj_get(f, "cmc_rank".spec_bytes()) == obj_get(g, "cmc_rank".spec_bytes()));
    assert(obj_get(f, "last_updated".spec_bytes()) == obj_get(g, "last_updated".spec_bytes()));
    assert(obj_get(f, "quote".spec_bytes()) == obj_get(g, "quote".spec_bytes()));
}

/// Decodes a listing-endpoint document: every record in order, or the
/// first structural fault as a `DecodeError`.
pub fn decode_listing(j: &Json) -> (r: Result<Response, DecodeError>)
    ensures
        match r {
            Ok(resp) => spec_decode_listing(*j) == Ok::<ResponseV, DecodeErrorV>(resp@),
            Err(e) => spec_decode_listing(*j) == Err::<ResponseV, DecodeErrorV>(e@),
        },
{
    match j {
        Json::Obj(fields) => {
            let k = lit("data");
            let data = match lookup(fields, k.as_slice()) {
                None => {
                    return Err(DecodeError::Missing(lit("data")));
                },
                Some(Json::Arr(items)) => {
                    match decode_records(items, 0) {
                        Ok(v) => v,
                        Err(e) => {
                            return Err(e);
                        },
                    }
                },
                Some(_) => {
                    return Err(DecodeError::WrongType(lit("data")));
                },
            };
            let k = lit("status");
            let status = match lookup(fields, k.as_slice()) {
                None => {
                    return Err(DecodeError::Missing(lit("status")));
                },
                Some(Json::Obj(sf)) => {
                    match decode_status(sf) {
                        Ok(s) => s,
                        Err(e) => {
                            return Err(e);
                        },
                    }
                },
                Some(_) => {
                    return Err(DecodeError::WrongType(lit("status")));
                },
            };
            Ok(Response { data, status })
        },
        _ => {
            let p: Vec<u8> = Vec::new();
            Err(DecodeError::WrongType(p))
        },
    }
}

} // verus!
