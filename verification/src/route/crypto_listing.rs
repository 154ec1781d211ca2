//! Lookup of one listing row by its one-based rank position.

use vstd::prelude::*;

use crate::rows::CryptoListing;

verus! {

/// Query parameters of the listing lookup.
pub struct Params {
    pub cmc_rank: usize,
}

/// The listing row at the one-based position `cmc_rank`, or nothing
/// when the position is zero or past the table, as on an empty table
/// mid-refresh.
pub fn lookup_listing_row<'a>(rows: &'a Vec<CryptoListing>, params: &Params) -> (r: Option<
    &'a CryptoListing,
>)
    ensures
        match r {
            Some(row) => 1 <= params.cmc_rank <= rows@.len() && *row == rows@[params.cmc_rank - 1],
            None => params.cmc_rank == 0 || params.cmc_rank > rows@.len(),
        },
{
    if params.cmc_rank == 0 || params.cmc_rank > rows.len() {
        None
    } else {
        Some(&rows[params.cmc_rank - 1])
    }
}

} // verus!
