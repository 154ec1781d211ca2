//! Row-shaped entities for the three tables, and the pure schema
//! mapper that turns decoded records into rows.  The mapper invents no
//! identifiers: every id that reaches a row is the provider-assigned id
//! of the decoded record, and a platform row is keyed by its owner's id.

use vstd::prelude::*;
use vstd::string::StringSliceAdditionalSpecFns;

use crate::bytes::lit;
use crate::json::copy_bytes;
use crate::listing_decoder;
use crate::map_decoder;
use crate::num::Dec;
use crate::tstamp::UtcStamp;

verus! {

/// A row of the platforms table: the owning identity's id, the base
/// chain's own id, and the token contract address.
#[derive(Debug, Clone, PartialEq, Eq)]
pub struct CryptoPlatform {
    pub id: u32,
    pub platform: u32,
    pub token_address: Vec<u8>,
}

/// The mathematical image of a platform row.
pub struct CryptoPlatformV {
    pub id: u32,
    pub platform: u32,
    pub token_address: Seq<u8>,
}

impl View for CryptoPlatform {
    type V = CryptoPlatformV;

    open spec fn view(&self) -> CryptoPlatformV {
        CryptoPlatformV {
            id: self.id,
            platform: self.platform,
            token_address: self.token_address@,
        }
    }
}

/// A row of the identifier-map table.
#[derive(Debug, Clone, PartialEq, Eq)]
pub struct CryptoMap {
    pub id: u32,
    pub name: Vec<u8>,
    pub symbol: Vec<u8>,
    pub slug: Vec<u8>,
    pub rank: u32,
    pub is_active: bool,
    pub first_historical_data: UtcStamp,
    pub last_historical_data: UtcStamp,
    pub platform: Option<u32>,
}

/// The mathematical image of an identifier row.
pub struct CryptoMapV {
    pub id: u32,
    pub name: Seq<u8>,
    pub symbol: Seq<u8>,
    pub slug: Seq<u8>,
    pub rank: u32,
    pub is_active: bool,
    pub first_historical_data: UtcStamp,
    pub last_historical_data: UtcStamp,
    pub platform: Option<u32>,
}

impl View for CryptoMap {
    type V = CryptoMapV;

    open spec fn view(&self) -> CryptoMapV {
        CryptoMapV {
            id: self.id,
            name: self.name@,
            symbol: self.symbol@,
            slug: self.slug@,
            rank: self.rank,
            is_active: self.is_active,
            first_historical_data: self.first_historical_data,
            last_historical_data: self.last_historical_data,
            platform: self.platform,
        }
    }
}

/// A row of the market-listing table, the quote block flattened in.
#[derive(Debug, Clone, PartialEq, Eq)]
pub struct CryptoListing {
    pub id: u32,
    pub num_market_pairs: u32,
    pub tags: Vec<Vec<u8>>,
    pub max_supply: Option<Dec>,
    pub circulating_supply: Dec,
    pub total_supply: Dec,
    pub platform: Option<u32>,
    pub cmc_rank: u32,
    pub quote: Vec<u8>,
    pub price: Dec,
    pub volume_24h: Dec,
    pub volume_change_24h: Dec,
    pub percent_change_1h: Dec,
    pub percent_change_24h: Dec,
    pub percent_change_7d: Dec,
    pub percent_change_30d: Dec,
    pub percent_change_60d: Dec,
    pub percent_change_90d: Dec,
    pub market_cap: Dec,
    pub market_cap_dominance: Dec,
    pub fully_diluted_market_cap: Dec,
    pub last_updated: UtcStamp,
}

/// The mathematical image of a listing row.
pub struct CryptoListingV {
    pub id: u32,
    pub num_market_pairs: u32,
    pub tags: Seq<Seq<u8>>,
    pub max_supply: Option<Dec>,
    pub circulating_supply: Dec,
    pub total_supply: Dec,
    pub platform: Option<u32>,
    pub cmc_rank: u32,
    pub quote: Seq<u8>,
    pub price: Dec,
    pub volume_24h: Dec,
    pub volume_change_24h: Dec,
    pub percent_change_1h: Dec,
    pub percent_change_24h: Dec,
    pub percent_change_7d: Dec,
    pub percent_change_30d: Dec,
    pub percent_change_60d: Dec,
    pub percent_change_90d: Dec,
    pub market_cap: Dec,
    pub market_cap_dominance: Dec,
    pub fully_diluted_market_cap: Dec,
    pub last_updated: UtcStamp,
}

impl View for CryptoListing {
    type V = CryptoListingV;

    open spec fn view(&self) -> CryptoListingV {
        CryptoListingV {
            id: self.id,
            num_market_pairs: self.num_market_pairs,
            tags: self.tags@.map_values(|t: Vec<u8>| t@),
            max_supply: self.max_supply,
            circulating_supply: self.circulating_supply,
            total_supply: self.total_supply,
            platform: self.platform,
            cmc_rank: self.cmc_rank,
            quote: self.quote@,
            price: self.price,
            volume_24h: self.volume_24h,
            volume_change_24h: self.volume_change_24h,
            percent_change_1h: self.percent_change_1h,
            percent_change_24h: self.percent_change_24h,
            percent_change_7d: self.percent_change_7d,
            percent_change_30d: self.percent_change_30d,
            percent_change_60d: self.percent_change_60d,
            percent_change_90d: self.percent_change_90d,
            market_cap: self.market_cap,
            market_cap_dominance: self.market_cap_dominance,
            fully_diluted_market_cap: self.fully_diluted_market_cap,
            last_updated: self.last_updated,
        }
    }
}

// ----- the schema mapper -----

/// The platform row an identity yields: present exactly when the
/// identity declares a platform, keyed by the identity's own id.
pub open spec fn spec_platform_row(d: map_decoder::DataV) -> Option<CryptoPlatformV> {
    match d.platform {
        Some(p) => Some(
            CryptoPlatformV { id: d.id, platform: p.id, token_address: p.token_address },
        ),
        None => None,
    }
}

/// The identifier row an identity yields; its platform column carries
/// the identity's own id exactly when a platform is declared.
pub open spec fn spec_map_row(d: map_decoder::DataV) -> CryptoMapV {
    CryptoMapV {
        id: d.id,
        name: d.name,
        symbol: d.symbol,
        slug: d.slug,
        rank: d.rank,
        is_active: d.is_active,
        first_historical_data: d.first_historical_data,
        last_historical_data: d.last_historical_data,
        platform: match d.platform {
            Some(_) => Some(d.id),
            None => None,
        },
    }
}

/// The listing row a market record yields, quote block flattened, the
/// quote currency fixed to USD.
pub open spec fn spec_listing_row(d: listing_decoder::DataV) -> CryptoListingV {
    CryptoListingV {
        id: d.id,
        num_market_pairs: d.num_market_pairs,
        tags: d.tags,
        max_supply: d.max_supply,
        circulating_supply: d.circulating_supply,
        total_supply: d.total_supply,
        platform: match d.platform {
            Some(_) => Some(d.id),
            None => None,
        },
        cmc_rank: d.cmc_rank,
        quote: "USD".spec_bytes(),
        price: d.quote.usd.price,
        volume_24h: d.quote.usd.volume_24h,
        volume_change_24h: d.quote.usd.volume_change_24h,
        percent_change_1h: d.quote.usd.percent_change_1h,
        percent_change_24h: d.quote.usd.percent_change_24h,
        percent_change_7d: d.quote.usd.percent_change_7d,
        percent_change_30d: d.quote.usd.percent_change_30d,
        percent_change_60d: d.quote.usd.percent_change_60d,
        percent_change_90d: d.quote.usd.percent_change_90d,
        market_cap: d.quote.usd.market_cap,
        market_cap_dominance: d.quote.usd.market_cap_dominance,
        fully_diluted_market_cap: d.quote.usd.fully_diluted_market_cap,
        last_updated: d.quote.usd.last_updated,
    }
}

/// Maps one decoded identity onto its platform row, if any, and its
/// identifier row.
pub fn map_identity_rows(d: &map_decoder::Data) -> (r: (Option<CryptoPlatform>, CryptoMap))
    ensures
        match r.0 {
            Some(p) => spec_platform_row(d@) == Some(p@),
            None => spec_platform_row(d@) is None,
        },
        r.1@ == spec_map_row(d@),
{
    let platform_row = match &d.platform {
        Some(p) => Some(
            CryptoPlatform {
                id: d.id,
                platform: p.id,
                token_address: copy_bytes(p.token_address.as_slice()),
            },
        ),
        None => None,
    };
    let map_row = CryptoMap {
        id: d.id,
        name: copy_bytes(d.name.as_slice()),
        symbol: copy_bytes(d.symbol.as_slice()),
        slug: copy_bytes(d.slug.as_slice()),
        rank: d.rank,
        is_active: d.is_active,
        first_historical_data: d.first_historical_data,
        last_historical_data: d.last_historical_data,
        platform: match &d.platform {
            Some(_) => Some(d.id),
            None => None,
        },
    };
    (platform_row, map_row)
}

fn copy_tags_at(tags: &Vec<Vec<u8>>, i: usize) -> (r: Vec<Vec<u8>>)
    requires
        i <= tags@.len(),
    ensures
        crate::decode::paths_view(r@) == crate::decode::paths_view(tags@).skip(i as int),
    decreases tags@.len() - i,
{
    if i == tags.len() {
        let empty: Vec<Vec<u8>> = Vec::new();
        assert(crate::decode::paths_view(empty@) =~= crate::decode::paths_view(tags@).skip(
            i as int,
        ));
        return empty;
    }
    let t = copy_bytes(tags[i].as_slice());
    let mut rest = copy_tags_at(tags, i + 1);
    let ghost restv = crate::decode::paths_view(rest@);
    let ghost tv = t@;
    rest.insert(0, t);
    assert(crate::decode::paths_view(rest@) =~= seq![tv] + restv);
    assert(crate::decode::paths_view(rest@) =~= crate::decode::paths_view(tags@).skip(i as int));
    rest
}

fn copy_tags(tags: &Vec<Vec<u8>>) -> (r: Vec<Vec<u8>>)
    ensures
        r@.map_values(|t: Vec<u8>| t@) == tags@.map_values(|t: Vec<u8>| t@),
{
    let r = copy_tags_at(tags, 0);
    assert(crate::decode::paths_view(tags@).skip(0) =~= crate::decode::paths_view(tags@));
    r
}

/// Maps one decoded market record onto its listing row.
pub fn map_listing_row(d: &listing_decoder::Data) -> (r: CryptoListing)
    ensures
        r@ == spec_listing_row(d@),
{
    CryptoListing {
        id: d.id,
        num_market_pairs: d.num_market_pairs,
        tags: copy_tags(&d.tags),
        max_supply: d.max_supply,
        circulating_supply: d.circulating_supply,
        total_supply: d.total_supply,
        platform: match &d.platform {
            Some(_) => Some(d.id),
            None => None,
        },
        cmc_rank: d.cmc_rank,
        quote: lit("USD"),
        price: d.quote.usd.price,
        volume_24h: d.quote.usd.volume_24h,
        volume_change_24h: d.quote.usd.volume_change_24h,
        percent_change_1h: d.quote.usd.percent_change_1h,
        percent_change_24h: d.quote.usd.percent_change_24h,
        percent_change_7d: d.quote.usd.percent_change_7d,
        percent_change_30d: d.quote.usd.percent_change_30d,
        percent_change_60d: d.quote.usd.percent_change_60d,
        percent_change_90d: d.quote.usd.percent_change_90d,
        market_cap: d.quote.usd.market_cap,
        market_cap_dominance: d.quote.usd.market_cap_dominance,
        fully_diluted_market_cap: d.quote.usd.fully_diluted_market_cap,
        last_updated: d.quote.usd.last_updated,
    }
}

} // verus!
