//! Lookup of one identifier row by its one-based position.

use vstd::prelude::*;

use crate::rows::CryptoMap;

verus! {

/// Query parameters of the identifier lookup.
pub struct Params {
    pub cmc_id: usize,
}

/// The identifier row at the one-based position `cmc_id`, or nothing
/// when the position is zero or past the table, as on an empty table
/// mid-refresh.
pub fn lookup_map_row<'a>(rows: &'a Vec<CryptoMap>, params: &Params) -> (r: Option<&'a CryptoMap>)
    ensures
        match r {
            Some(row) => 1 <= params.cmc_id <= rows@.len() && *row == rows@[params.cmc_id - 1],
            None => params.cmc_id == 0 || params.cmc_id > rows@.len(),
        },
{
    if params.cmc_id == 0 || params.cmc_id > rows.len() {
        None
    } else {
        Some(&rows[params.cmc_id - 1])
    }
}

} // verus!
