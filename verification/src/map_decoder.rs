//! Decoder for the identifier-map endpoint: a `status` block plus a
//! sequence of per-currency records, each carrying the provider id, the
//! naming fields, the integer-coded active flag, the first/last-seen
//! timestamps and an optional blockchain platform.  Unknown fields are
//! ignored everywhere; a separate scan reports their dotted paths.

use vstd::prelude::*;
use vstd::string::StringSliceAdditionalSpecFns;

use crate::bytes::lit;
use crate::decode::{
    collect_unknown, get_active, get_str, get_ts, get_u32, join_path, paths_view, spec_get_active,
    spec_get_str, spec_get_ts, spec_get_u32, spec_get_opt_str, spec_get_opt_u32, get_opt_str,
    get_opt_u32, spec_opt_field, spec_unknown, DecodeError, DecodeErrorV,
};
use crate::json::{lookup, obj_get, Json};
use crate::num::digits_of;
use crate::tstamp::UtcStamp;

verus! {

/// A blockchain platform as the wire carries it inside a record.
#[derive(Debug, Clone, PartialEq, Eq)]
pub struct Platform {
    pub id: u32,
    pub name: Vec<u8>,
    pub symbol: Vec<u8>,
    pub slug: Vec<u8>,
    pub token_address: Vec<u8>,
}

/// The mathematical image of a `Platform`.
pub struct PlatformV {
    pub id: u32,
    pub name: Seq<u8>,
    pub symbol: Seq<u8>,
    pub slug: Seq<u8>,
    pub token_address: Seq<u8>,
}

impl View for Platform {
    type V = PlatformV;

    open spec fn view(&self) -> PlatformV {
        PlatformV {
            id: self.id,
            name: self.name@,
            symbol: self.symbol@,
            slug: self.slug@,
            token_address: self.token_address@,
        }
    }
}

/// One decoded identifier record: a crypto identity.
#[derive(Debug, Clone, PartialEq, Eq)]
pub struct Data {
    pub id: u32,
    pub name: Vec<u8>,
    pub symbol: Vec<u8>,
    pub slug: Vec<u8>,
    pub rank: u32,
    pub is_active: bool,
    pub first_historical_data: UtcStamp,
    pub last_historical_data: UtcStamp,
    pub platform: Option<Platform>,
}

/// The mathematical image of a record.
pub struct DataV {
    pub id: u32,
    pub name: Seq<u8>,
    pub symbol: Seq<u8>,
    pub slug: Seq<u8>,
    pub rank: u32,
    pub is_active: bool,
    pub first_historical_data: UtcStamp,
    pub last_historical_data: UtcStamp,
    pub platform: Option<PlatformV>,
}

impl View for Data {
    type V = DataV;

    open spec fn view(&self) -> DataV {
        DataV {
            id: self.id,
            name: self.name@,
            symbol: self.symbol@,
            slug: self.slug@,
            rank: self.rank,
            is_active: self.is_active,
            first_historical_data: self.first_historical_data,
            last_historical_data: self.last_historical_data,
            platform: match self.platform {
                Some(ref p) => Some(p@),
                None => None,
            },
        }
    }
}

/// The status block of the map endpoint.
#[derive(Debug, Clone, PartialEq, Eq)]
pub struct Status {
    pub timestamp: UtcStamp,
    pub error_code: u32,
    pub error_message: Option<Vec<u8>>,
    pub elapsed: u32,
    pub credit_count: u32,
    pub notice: Option<u32>,
}

/// The mathematical image of a `Status`.
pub struct StatusV {
    pub timestamp: UtcStamp,
    pub error_code: u32,
    pub error_message: Option<Seq<u8>>,
    pub elapsed: u32,
    pub credit_count: u32,
    pub notice: Option<u32>,
}

impl View for Status {
    type V = StatusV;

    open spec fn view(&self) -> StatusV {
        StatusV {
            timestamp: self.timestamp,
            error_code: self.error_code,
            error_message: match self.error_message {
                Some(ref m) => Some(m@),
                None => None,
            },
            elapsed: self.elapsed,
            credit_count: self.credit_count,
            notice: self.notice,
        }
    }
}

/// A decoded map-endpoint response.
#[derive(Debug, Clone, PartialEq, Eq)]
pub struct Response {
    pub data: Vec<Data>,
    pub status: Status,
}

/// The mathematical image of a `Response`.
pub struct ResponseV {
    pub data: Seq<DataV>,
    pub status: StatusV,
}

impl View for Response {
    type V = ResponseV;

    open spec fn view(&self) -> ResponseV {
        ResponseV { data: datas_view(self.data@), status: self.status@ }
    }
}

/// The views of a list of records.
pub open spec fn datas_view(s: Seq<Data>) -> Seq<DataV> {
    s.map_values(|d: Data| d@)
}

// ----- the spec decoders -----

/// What decoding a platform sub-object yields.
#[verifier::opaque]
pub open spec fn spec_decode_platform(j: Json, prefix: Seq<u8>) -> Result<
    PlatformV,
    DecodeErrorV,
> {
    match j {
        Json::Obj(fields) => {
            let f = fields@;
            match spec_get_u32(f, "id".spec_bytes(), join_path(prefix, "id".spec_bytes())) {
                Err(e) => Err(e),
                Ok(id) => match spec_get_str(
                    f,
                    "name".spec_bytes(),
                    join_path(prefix, "name".spec_bytes()),
                ) {
                    Err(e) => Err(e),
                    Ok(name) => match spec_get_str(
                        f,
                        "symbol".spec_bytes(),
                        join_path(prefix, "symbol".spec_bytes()),
                    ) {
                        Err(e) => Err(e),
                        Ok(symbol) => match spec_get_str(
                            f,
                            "slug".spec_bytes(),
                            join_path(prefix, "slug".spec_bytes()),
                        ) {
                            Err(e) => Err(e),
                            Ok(slug) => match spec_get_str(
                                f,
                                "token_address".spec_bytes(),
                                join_path(prefix, "token_address".spec_bytes()),
                            ) {
                                Err(e) => Err(e),
                                Ok(token_address) => Ok(
                                    PlatformV { id, name, symbol, slug, token_address },
                                ),
                            },
                        },
                    },
                },
            }
        },
        _ => Err(DecodeErrorV::WrongType(prefix)),
    }
}

/// What decoding the optional platform member of a record yields.
pub open spec fn spec_decode_opt_platform(
    fields: Seq<(Vec<u8>, Json)>,
    prefix: Seq<u8>,
) -> Result<Option<PlatformV>, DecodeErrorV> {
    match spec_opt_field(fields, "platform".spec_bytes()) {
        None => Ok(None),
        Some(pj) => match spec_decode_platform(
            pj,
            join_path(prefix, "platform".spec_bytes()),
        ) {
            Ok(p) => Ok(Some(p)),
            Err(e) => Err(e),
        },
    }
}

/// What decoding one identifier record yields.
#[verifier::opaque]
pub open spec fn spec_decode_record(j: Json, prefix: Seq<u8>) -> Result<DataV, DecodeErrorV> {
    match j {
        Json::Obj(fields) => {
            let f = fields@;
            match spec_get_u32(f, "id".spec_bytes(), join_path(prefix, "id".spec_bytes())) {
                Err(e) => Err(e),
                Ok(id) => match spec_get_str(
                    f,
                    "name".spec_bytes(),
                    join_path(prefix, "name".spec_bytes()),
                ) {
                    Err(e) => Err(e),
                    Ok(name) => match spec_get_str(
                        f,
                        "symbol".spec_bytes(),
                        join_path(prefix, "symbol".spec_bytes()),
                    ) {
                        Err(e) => Err(e),
                        Ok(symbol) => match spec_get_str(
                            f,
                            "slug".spec_bytes(),
                            join_path(prefix, "slug".spec_bytes()),
                        ) {
                            Err(e) => Err(e),
                            Ok(slug) => match spec_get_u32(
                                f,
                                "rank".spec_bytes(),
                                join_path(prefix, "rank".spec_bytes()),
                            ) {
                                Err(e) => Err(e),
                                Ok(rank) => match spec_get_active(
                                    f,
                                    "is_active".spec_bytes(),
                                    join_path(prefix, "is_active".spec_bytes()),
                                ) {
                                    Err(e) => Err(e),
                                    Ok(is_active) => match spec_get_ts(
                                        f,
                                        "first_historical_data".spec_bytes(),
                                        join_path(prefix, "first_historical_data".spec_bytes()),
                                    ) {
                                        Err(e) => Err(e),
                                        Ok(first_historical_data) => match spec_get_ts(
                                            f,
                                            "last_historical_data".spec_bytes(),
                                            join_path(prefix, "last_historical_data".spec_bytes()),
                                        ) {
                                            Err(e) => Err(e),
                                            Ok(last_historical_data) => match
                                            spec_decode_opt_platform(f, prefix) {
                                                Err(e) => Err(e),
                                                Ok(platform) => Ok(
                                                    DataV {
                                                        id,
                                                        name,
                                                        symbol,
                                                        slug,
                                                        rank,
                                                        is_active,
                                                        first_historical_data,
                                                        last_historical_data,
                                                        platform,
                                                    },
                                                ),
                                            },
                                        },
                                    },
                                },
                            },
                        },
                    },
                },
            }
        },
        _ => Err(DecodeErrorV::WrongType(prefix)),
    }
}

/// The dotted prefix of the record at `i`: `data.i`.
pub open spec fn record_prefix(i: int) -> Seq<u8> {
    "data".spec_bytes() + seq![46u8] + digits_of(i as nat)
}

/// What decoding the records from position `i` on yields, in order.
pub open spec fn spec_decode_records(items: Seq<Json>, i: int) -> Result<Seq<DataV>, DecodeErrorV>
    decreases items.len() - i,
{
    if i < 0 || i >= items.len() {
        Ok(Seq::empty())
    } else {
        match spec_decode_record(items[i], record_prefix(i)) {
            Err(e) => Err(e),
            Ok(d) => match spec_decode_records(items, i + 1) {
                Err(e) => Err(e),
                Ok(rest) => Ok(seq![d] + rest),
            },
        }
    }
}

/// What decoding the status block yields.
#[verifier::opaque]
pub open spec fn spec_decode_status(f: Seq<(Vec<u8>, Json)>) -> Result<StatusV, DecodeErrorV> {
    let prefix = "status".spec_bytes();
    match spec_get_ts(f, "timestamp".spec_bytes(), join_path(prefix, "timestamp".spec_bytes())) {
        Err(e) => Err(e),
        Ok(timestamp) => match spec_get_u32(
            f,
            "error_code".spec_bytes(),
            join_path(prefix, "error_code".spec_bytes()),
        ) {
            Err(e) => Err(e),
            Ok(error_code) => match spec_get_opt_str(
                f,
                "error_message".spec_bytes(),
                join_path(prefix, "error_message".spec_bytes()),
            ) {
                Err(e) => Err(e),
                Ok(error_message) => match spec_get_u32(
                    f,
                    "elapsed".spec_bytes(),
                    join_path(prefix, "elapsed".spec_bytes()),
                ) {
                    Err(e) => Err(e),
                    Ok(elapsed) => match spec_get_u32(
                        f,
                        "credit_count".spec_bytes(),
                        join_path(prefix, "credit_count".spec_bytes()),
                    ) {
                        Err(e) => Err(e),
                        Ok(credit_count) => match spec_get_opt_u32(
                            f,
                            "notice".spec_bytes(),
                            join_path(prefix, "notice".spec_bytes()),
                        ) {
                            Err(e) => Err(e),
                            Ok(notice) => Ok(
                                StatusV {
                                    timestamp,
                                    error_code,
                                    error_message,
                                    elapsed,
                                    credit_count,
                                    notice,
                                },
                            ),
                        },
                    },
                },
            },
        },
    }
}

/// What decoding a whole map-endpoint document yields.
pub open spec fn spec_decode_map(j: Json) -> Result<ResponseV, DecodeErrorV> {
    match j {
        Json::Obj(fields) => {
            let f = fields@;
            match obj_get(f, "data".spec_bytes()) {
                None => Err(DecodeErrorV::Missing("data".spec_bytes())),
                Some(Json::Arr(items)) => match spec_decode_records(items@, 0) {
                    Err(e) => Err(e),
                    Ok(data) => match obj_get(f, "status".spec_bytes()) {
                        None => Err(DecodeErrorV::Missing("status".spec_bytes())),
                        Some(Json::Obj(sf)) => match spec_decode_status(sf@) {
                            Err(e) => Err(e),
                            Ok(status) => Ok(ResponseV { data, status }),
                        },
                        Some(_) => Err(DecodeErrorV::WrongType("status".spec_bytes())),
                    },
                },
                Some(_) => Err(DecodeErrorV::WrongType("data".spec_bytes())),
            }
        },
        _ => Err(DecodeErrorV::WrongType(Seq::empty())),
    }
}

// ----- the executable decoders -----

pub(crate) fn decode_platform(j: &Json, prefix: &[u8]) -> (r: Result<Platform, DecodeError>)
    ensures
        match r {
            Ok(p) => spec_decode_platform(*j, prefix@) == Ok::<PlatformV, DecodeErrorV>(p@),
            Err(e) => spec_decode_platform(*j, prefix@) == Err::<PlatformV, DecodeErrorV>(e@),
        },
{
    proof {
        reveal(spec_decode_platform);
    }
    match j {
        Json::Obj(fields) => {
            let k = lit("id");
            let id = match get_u32(fields, k.as_slice(), prefix) {
                Ok(v) => v,
                Err(e) => {
                    return Err(e);
                },
            };
            let k = lit("name");
            let name = match get_str(fields, k.as_slice(), prefix) {
                Ok(v) => v,
                Err(e) => {
                    return Err(e);
                },
            };
            let k = lit("symbol");
            let symbol = match get_str(fields, k.as_slice(), prefix) {
                Ok(v) => v,
                Err(e) => {
                    return Err(e);
                },
            };
            let k = lit("slug");
            let slug = match get_str(fields, k.as_slice(), prefix) {
                Ok(v) => v,
                Err(e) => {
                    return Err(e);
                },
            };
            let k = lit("token_address");
            let token_address = match get_str(fields, k.as_slice(), prefix) {
                Ok(v) => v,
                Err(e) => {
                    return Err(e);
                },
            };
            Ok(Platform { id, name, symbol, slug, token_address })
        },
        _ => Err(DecodeError::WrongType(crate::json::copy_bytes(prefix))),
    }
}

fn decode_record(j: &Json, prefix: &[u8]) -> (r: Result<Data, DecodeError>)
    ensures
        match r {
            Ok(d) => spec_decode_record(*j, prefix@) == Ok::<DataV, DecodeErrorV>(d@),
            Err(e) => spec_decode_record(*j, prefix@) == Err::<DataV, DecodeErrorV>(e@),
        },
{
    proof {
        reveal(spec_decode_record);
    }
    match j {
        Json::Obj(fields) => {
            let k = lit("id");
            let id = match get_u32(fields, k.as_slice(), prefix) {
                Ok(v) => v,
                Err(e) => {
                    return Err(e);
                },
            };
            let k = lit("name");
            let name = match get_str(fields, k.as_slice(), prefix) {
                Ok(v) => v,
                Err(e) => {
                    return Err(e);
                },
            };
            let k = lit("symbol");
            let symbol = match get_str(fields, k.as_slice(), prefix) {
                Ok(v) => v,
                Err(e) => {
                    return Err(e);
                },
            };
            let k = lit("slug");
            let slug = match get_str(fields, k.as_slice(), prefix) {
                Ok(v) => v,
                Err(e) => {
                    return Err(e);
                },
            };
            let k = lit("rank");
            let rank = match get_u32(fields, k.as_slice(), prefix) {
                Ok(v) => v,
                Err(e) => {
                    return Err(e);
                },
            };
            let k = lit("is_active");
            let is_active = match get_active(fields, k.as_slice(), prefix) {
                Ok(v) => v,
                Err(e) => {
                    return Err(e);
                },
            };
            let k = lit("first_historical_data");
            let first_historical_data = match get_ts(fields, k.as_slice(), prefix) {
                Ok(v) => v,
                Err(e) => {
                    return Err(e);
                },
            };
            let k = lit("last_historical_data");
            let last_historical_data = match get_ts(fields, k.as_slice(), prefix) {
                Ok(v) => v,
                Err(e) => {
                    return Err(e);
                },
            };
            let k = lit("platform");
            let platform = match lookup(fields, k.as_slice()) {
                None => None,
                Some(Json::Null) => None,
                Some(pj) => {
                    let pp = make_platform_prefix(prefix);
                    match decode_platform(pj, pp.as_slice()) {
                        Ok(p) => Some(p),
                        Err(e) => {
                            return Err(e);
                        },
                    }
                },
            };
            Ok(
                Data {
                    id,
                    name,
                    symbol,
                    slug,
                    rank,
                    is_active,
                    first_historical_data,
                    last_historical_data,
                    platform,
                },
            )
        },
        _ => Err(DecodeError::WrongType(crate::json::copy_bytes(prefix))),
    }
}

pub(crate) fn make_platform_prefix(prefix: &[u8]) -> (r: Vec<u8>)
    ensures
        r@ == join_path(prefix@, "platform".spec_bytes()),
{
    let k = lit("platform");
    crate::decode::make_path(prefix, k.as_slice())
}

/// The dotted prefix of the record at `i`, as bytes.
pub(crate) fn make_record_prefix(i: usize) -> (r: Vec<u8>)
    ensures
        r@ == record_prefix(i as int),
{
    let mut p = lit("data");
    p.push(46);
    crate::num::push_digits(&mut p, i as u128);
    assert(p@ =~= record_prefix(i as int));
    p
}

fn decode_records(items: &Vec<Json>, i: usize) -> (r: Result<Vec<Data>, DecodeError>)
    requires
        i <= items@.len(),
    ensures
        match r {
            Ok(v) => spec_decode_records(items@, i as int) == Ok::<Seq<DataV>, DecodeErrorV>(
                datas_view(v@),
            ),
            Err(e) => spec_decode_records(items@, i as int) == Err::<Seq<DataV>, DecodeErrorV>(
                e@,
            ),
        },
    decreases items@.len() - i,
{
    if i == items.len() {
        let empty: Vec<Data> = Vec::new();
        assert(datas_view(empty@) =~= Seq::<DataV>::empty());
        return Ok(empty);
    }
    let p = make_record_prefix(i);
    let d = match decode_record(&items[i], p.as_slice()) {
        Ok(d) => d,
        Err(e) => {
            return Err(e);
        },
    };
    let mut rest = match decode_records(items, i + 1) {
        Ok(v) => v,
        Err(e) => {
            return Err(e);
        },
    };
    let ghost restv = datas_view(rest@);
    let ghost dv = d@;
    rest.insert(0, d);
    assert(datas_view(rest@) =~= seq![dv] + restv);
    Ok(rest)
}

fn decode_status(fields: &Vec<(Vec<u8>, Json)>) -> (r: Result<Status, DecodeError>)
    ensures
        match r {
            Ok(s) => spec_decode_status(fields@) == Ok::<StatusV, DecodeErrorV>(s@),
            Err(e) => spec_decode_status(fields@) == Err::<StatusV, DecodeErrorV>(e@),
        },
{
    proof {
        reveal(spec_decode_status);
    }
    let prefix = lit("status");
    let k = lit("timestamp");
    let timestamp = match get_ts(fields, k.as_slice(), prefix.as_slice()) {
        Ok(v) => v,
        Err(e) => {
            return Err(e);
        },
    };
    let k = lit("error_code");
    let error_code = match get_u32(fields, k.as_slice(), prefix.as_slice()) {
        Ok(v) => v,
        Err(e) => {
            return Err(e);
        },
    };
    let k = lit("error_message");
    let error_message = match get_opt_str(fields, k.as_slice(), prefix.as_slice()) {
        Ok(v) => v,
        Err(e) => {
            return Err(e);
        },
    };
    let k = lit("elapsed");
    let elapsed = match get_u32(fields, k.as_slice(), prefix.as_slice()) {
        Ok(v) => v,
        Err(e) => {
            return Err(e);
        },
    };
    let k = lit("credit_count");
    let credit_count = match get_u32(fields, k.as_slice(), prefix.as_slice()) {
        Ok(v) => v,
        Err(e) => {
            return Err(e);
        },
    };
    let k = lit("notice");
    let notice = match get_opt_u32(fields, k.as_slice(), prefix.as_slice()) {
        Ok(v) => v,
        Err(e) => {
            return Err(e);
        },
    };
    Ok(Status { timestamp, error_code, error_message, elapsed, credit_count, notice })
}

// ----- unknown-field scan -----

/// The member names the decoder knows at the top level.
pub open spec fn top_keys() -> Seq<Seq<u8>> {
    seq!["data".spec_bytes(), "status".spec_bytes()]
}

/// The member names the decoder knows in a record.
pub open spec fn record_keys() -> Seq<Seq<u8>> {
    seq![
        "id".spec_bytes(),
        "name".spec_bytes(),
        "symbol".spec_bytes(),
        "slug".spec_bytes(),
        "rank".spec_bytes(),
        "is_active".spec_bytes(),
        "first_historical_data".spec_bytes(),
        "last_historical_data".spec_bytes(),
        "platform".spec_bytes(),
    ]
}

/// The member names the decoder knows in a platform sub-object.
pub open spec fn platform_keys() -> Seq<Seq<u8>> {
    seq![
        "id".spec_bytes(),
        "name".spec_bytes(),
        "symbol".spec_bytes(),
        "slug".spec_bytes(),
        "token_address".spec_bytes(),
    ]
}

/// The member names the decoder knows in the status block.
pub open spec fn status_keys() -> Seq<Seq<u8>> {
    seq![
        "timestamp".spec_bytes(),
        "error_code".spec_bytes(),
        "error_message".spec_bytes(),
        "elapsed".spec_bytes(),
        "credit_count".spec_bytes(),
        "notice".spec_bytes(),
    ]
}

pub(crate) fn top_keys_list() -> (r: Vec<Vec<u8>>)
    ensures
        paths_view(r@) == top_keys(),
{
    let mut v: Vec<Vec<u8>> = Vec::new();
    v.push(lit("data"));
    v.push(lit("status"));
    assert(paths_view(v@) =~= top_keys());
    v
}

fn record_keys_list() -> (r: Vec<Vec<u8>>)
    ensures
        paths_view(r@) == record_keys(),
{
    let mut v: Vec<Vec<u8>> = Vec::new();
    v.push(lit("id"));
    v.push(lit("name"));
    v.push(lit("symbol"));
    v.push(lit("slug"));
    v.push(lit("rank"));
    v.push(lit("is_active"));
    v.push(lit("first_historical_data"));
    v.push(lit("last_historical_data"));
    v.push(lit("platform"));
    assert(paths_view(v@) =~= record_keys());
    v
}

pub(crate) fn platform_keys_list() -> (r: Vec<Vec<u8>>)
    ensures
        paths_view(r@) == platform_keys(),
{
    let mut v: Vec<Vec<u8>> = Vec::new();
    v.push(lit("id"));
    v.push(lit("name"));
    v.push(lit("symbol"));
    v.push(lit("slug"));
    v.push(lit("token_address"));
    assert(paths_view(v@) =~= platform_keys());
    v
}

fn status_keys_list() -> (r: Vec<Vec<u8>>)
    ensures
        paths_view(r@) == status_keys(),
{
    let mut v: Vec<Vec<u8>> = Vec::new();
    v.push(lit("timestamp"));
    v.push(lit("error_code"));
    v.push(lit("error_message"));
    v.push(lit("elapsed"));
    v.push(lit("credit_count"));
    v.push(lit("notice"));
    assert(paths_view(v@) =~= status_keys());
    v
}

/// The unknown-field paths under a record's platform member.
pub open spec fn spec_platform_unknown(o: Option<Json>, pfx: Seq<u8>) -> Seq<Seq<u8>> {
    match o {
        Some(Json::Obj(pf)) => spec_unknown(pf@, platform_keys(), pfx, 0),
        _ => Seq::empty(),
    }
}

/// The unknown-field paths of one record.
pub open spec fn spec_record_unknown(j: Json, pfx: Seq<u8>) -> Seq<Seq<u8>> {
    match j {
        Json::Obj(f) => spec_unknown(f@, record_keys(), pfx, 0) + spec_platform_unknown(
            obj_get(f@, "platform".spec_bytes()),
            join_path(pfx, "platform".spec_bytes()),
        ),
        _ => Seq::empty(),
    }
}

/// The unknown-field paths of the records from position `i` on.
pub open spec fn spec_records_unknown(items: Seq<Json>, i: int) -> Seq<Seq<u8>>
    decreases items.len() - i,
{
    if i < 0 || i >= items.len() {
        Seq::empty()
    } else {
        spec_record_unknown(items[i], record_prefix(i)) + spec_records_unknown(items, i + 1)
    }
}

/// Every unknown-field path of a map-endpoint document: the top level,
/// then each record with its platform, then the status block.
pub open spec fn spec_map_unknown(j: Json) -> Seq<Seq<u8>> {
    match j {
        Json::Obj(f) => spec_unknown(f@, top_keys(), Seq::empty(), 0) + (match obj_get(
            f@,
            "data".spec_bytes(),
        ) {
            Some(Json::Arr(items)) => spec_records_unknown(items@, 0),
            _ => Seq::empty(),
        }) + (match obj_get(f@, "status".spec_bytes()) {
            Some(Json::Obj(sf)) => spec_unknown(sf@, status_keys(), "status".spec_bytes(), 0),
            _ => Seq::empty(),
        }),
        _ => Seq::empty(),
    }
}

fn scan_record_unknown(j: &Json, pfx: &[u8], out: &mut Vec<Vec<u8>>)
    ensures
        paths_view(final(out)@) == paths_view(old(out)@) + spec_record_unknown(*j, pfx@),
{
    match j {
        Json::Obj(f) => {
            let rk = record_keys_list();
            collect_unknown(f, &rk, pfx, out);
            let k = lit("platform");
            match lookup(f, k.as_slice()) {
                Some(Json::Obj(pf)) => {
                    let pk = platform_keys_list();
                    let pp = make_platform_prefix(pfx);
                    collect_unknown(pf, &pk, pp.as_slice(), out);
                },
                _ => {},
            }
            assert(paths_view(final(out)@) =~= paths_view(old(out)@) + spec_record_unknown(
                *j,
                pfx@,
            ));
        },
        _ => {
            assert(paths_view(final(out)@) =~= paths_view(old(out)@) + spec_record_unknown(
                *j,
                pfx@,
            ));
        },
    }
}

fn scan_records_unknown(items: &Vec<Json>, i: usize, out: &mut Vec<Vec<u8>>)
    requires
        i <= items@.len(),
    ensures
        paths_view(final(out)@) == paths_view(old(out)@) + spec_records_unknown(
            items@,
            i as int,
        ),
    decreases items@.len() - i,
{
    if i == items.len() {
        assert(paths_view(final(out)@) =~= paths_view(old(out)@) + spec_records_unknown(
            items@,
            i as int,
        ));
        return ;
    }
    let p = make_record_prefix(i);
    scan_record_unknown(&items[i], p.as_slice(), out);
    scan_records_unknown(items, i + 1, out);
    assert(paths_view(final(out)@) =~= paths_view(old(out)@) + spec_records_unknown(
        items@,
        i as int,
    ));
}

/// Reports the dotted path of every unknown field in a map-endpoint
/// document, a diagnostic companion to `decode_map`.
pub fn scan_map_unknown(j: &Json) -> (r: Vec<Vec<u8>>)
    ensures
        paths_view(r@) == spec_map_unknown(*j),
{
    let mut out: Vec<Vec<u8>> = Vec::new();
    match j {
        Json::Obj(f) => {
            let tk = top_keys_list();
            let empty_prefix: Vec<u8> = Vec::new();
            collect_unknown(f, &tk, empty_prefix.as_slice(), &mut out);
            let k = lit("data");
            match lookup(f, k.as_slice()) {
                Some(Json::Arr(items)) => {
                    scan_records_unknown(items, 0, &mut out);
                },
                _ => {},
            }
            let k = lit("status");
            match lookup(f, k.as_slice()) {
                Some(Json::Obj(sf)) => {
                    let sk = status_keys_list();
                    let sp = lit("status");
                    collect_unknown(sf, &sk, sp.as_slice(), &mut out);
                },
                _ => {},
            }
            assert(paths_view(out@) =~= spec_map_unknown(*j));
        },
        _ => {
            assert(paths_view(out@) =~= spec_map_unknown(*j));
        },
    }
    out
}

/// Decodes a map-endpoint document and also reports the dotted paths
/// of the fields the decoder ignored.
pub fn decode_map_with_ignored(j: &Json) -> (r: Result<(Response, Vec<Vec<u8>>), DecodeError>)
    ensures
        match r {
            Ok(pair) => spec_decode_map(*j) == Ok::<ResponseV, DecodeErrorV>(pair.0@)
                && paths_view(pair.1@) == spec_map_unknown(*j),
            Err(e) => spec_decode_map(*j) == Err::<ResponseV, DecodeErrorV>(e@),
        },
{
    match decode_map(j) {
        Ok(resp) => Ok((resp, scan_map_unknown(j))),
        Err(e) => Err(e),
    }
}

// ----- laws -----

#[verifier::rlimit(100)]
proof fn lemma_records_index(items: Seq<Json>, i: int, out: Seq<DataV>)
    requires
        0 <= i <= items.len(),
        spec_decode_records(items, i) == Ok::<Seq<DataV>, DecodeErrorV>(out),
    ensures
        out.len() == items.len() - i,
        forall|k: int|
            i <= k < items.len() ==> spec_decode_record(items[k], record_prefix(k)) == Ok::<
                DataV,
                DecodeErrorV,
            >(#[trigger] out[k - i]),
    decreases items.len() - i,
{
    if i < items.len() {
        let d = match spec_decode_record(items[i], record_prefix(i)) {
            Ok(d) => d,
            Err(_) => arbitrary(),
        };
        let rest = match spec_decode_records(items, i + 1) {
            Ok(rest) => rest,
            Err(_) => arbitrary(),
        };
        assert(out == seq![d] + rest);
        lemma_records_index(items, i + 1, rest);
        assert forall|k: int| i <= k < items.len() implies spec_decode_record(
            items[k],
            record_prefix(k),
        ) == Ok::<DataV, DecodeErrorV>(#[trigger] out[k - i]) by {
            if k == i {
                assert((seq![d] + rest)[0] == d);
                assert(out[0] == d);
            } else {
                assert((seq![d] + rest)[k - i] == rest[k - i - 1]);
                assert(out[k - i] == rest[k - i - 1]);
                assert(spec_decode_record(items[k], record_prefix(k)) == Ok::<
                    DataV,
                    DecodeErrorV,
                >(rest[k - (i + 1)]));
            }
        }
    }
}

/// For every well-decoded map payload the decoder yields exactly one
/// identity per wire record, in wire order; each identity decodes from
/// the record at its own position, so every id is the wire id.
#[verifier::rlimit(100)]
pub proof fn lemma_map_preserves_records(j: Json, resp: ResponseV)
    requires
        spec_decode_map(j) == Ok::<ResponseV, DecodeErrorV>(resp),
    ensures
        j is Obj,
        obj_get(j->Obj_0@, "data".spec_bytes()) is Some,
        obj_get(j->Obj_0@, "data".spec_bytes()).unwrap() is Arr,
        resp.data.len() == obj_get(j->Obj_0@, "data".spec_bytes()).unwrap()->Arr_0@.len(),
        forall|i: int|
            0 <= i < resp.data.len() ==> spec_decode_record(
                obj_get(j->Obj_0@, "data".spec_bytes()).unwrap()->Arr_0@[i],
                record_prefix(i),
            ) == Ok::<DataV, DecodeErrorV>(#[trigger] resp.data[i]),
{
    let items = obj_get(j->Obj_0@, "data".spec_bytes()).unwrap()->Arr_0@;
    lemma_records_index(items, 0, resp.data);
    assert forall|i: int| 0 <= i < resp.data.len() implies spec_decode_record(
        items[i],
        record_prefix(i),
    ) == Ok::<DataV, DecodeErrorV>(#[trigger] resp.data[i]) by {
        assert(spec_decode_record(items[i], record_prefix(i)) == Ok::<DataV, DecodeErrorV>(
            resp.data[i - 0],
        ));
    }
}

/// A record that decodes carries the id its wire record carries.
pub proof fn lemma_record_keeps_id(j: Json, prefix: Seq<u8>, d: DataV)
    requires
        spec_decode_record(j, prefix) == Ok::<DataV, DecodeErrorV>(d),
    ensures
        j is Obj,
        spec_get_u32(j->Obj_0@, "id".spec_bytes(), join_path(prefix, "id".spec_bytes())) == Ok::<
            u32,
            DecodeErrorV,
        >(d.id),
{
    reveal(spec_decode_record);
}

/// An active flag that is an integer other than zero or one always
/// fails the record's decoding.
pub proof fn lemma_bad_active_fails(j: Json, prefix: Seq<u8>)
    requires
        j is Obj,
        obj_get(j->Obj_0@, "is_active".spec_bytes()) is Some,
        obj_get(j->Obj_0@, "is_active".spec_bytes()).unwrap() is Num,
        crate::decode::is_int_text(obj_get(j->Obj_0@, "is_active".spec_bytes()).unwrap()->Num_0@),
        obj_get(j->Obj_0@, "is_active".spec_bytes()).unwrap()->Num_0@ != seq![48u8],
        obj_get(j->Obj_0@, "is_active".spec_bytes()).unwrap()->Num_0@ != seq![49u8],
    ensures
        spec_decode_record(j, prefix) is Err,
{
    reveal(spec_decode_record);
    let f = j->Obj_0@;
    assert(spec_get_active(
        f,
        "is_active".spec_bytes(),
        join_path(prefix, "is_active".spec_bytes()),
    ) is Err);
}

/// Decodes a map-endpoint document: every record in order, or the
/// first structural fault as a `DecodeError`.
pub fn decode_map(j: &Json) -> (r: Result<Response, DecodeError>)
    ensures
        match r {
            Ok(resp) => spec_decode_map(*j) == Ok::<ResponseV, DecodeErrorV>(resp@),
            Err(e) => spec_decode_map(*j) == Err::<ResponseV, DecodeErrorV>(e@),
        },
{
    match j {
        Json::Obj(fields) => {
            let k = lit("data");
            let data = match lookup(fields, k.as_slice()) {
                None => {
                    return Err(DecodeError::Missing(lit("data")));
                },
                Some(Json::Arr(items)) => {
                    match decode_records(items, 0) {
                        Ok(v) => v,
                        Err(e) => {
                            return Err(e);
                        },
                    }
                },
                Some(_) => {
                    return Err(DecodeError::WrongType(lit("data")));
                },
            };
            let k = lit("status");
            let status = match lookup(fields, k.as_slice()) {
                None => {
                    return Err(DecodeError::Missing(lit("status")));
                },
                Some(Json::Obj(sf)) => {
                    match decode_status(sf) {
                        Ok(s) => s,
                        Err(e) => {
                            return Err(e);
                        },
                    }
                },
                Some(_) => {
                    return Err(DecodeError::WrongType(lit("status")));
                },
            };
            Ok(Response { data, status })
        },
        _ => {
            let p: Vec<u8> = Vec::new();
            Err(DecodeError::WrongType(p))
        },
    }
}

} // verus!
