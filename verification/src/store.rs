//! The persistence engine: three tables refreshed by clear-then-
//! repopulate in foreign-key-safe order.  A platform row lands before
//! the identity that owns it, identities land before listings, and a
//! listing whose id has no identity fails with a foreign-key error.
//! The refresh is not wrapped in one atomic transaction: a failure
//! leaves the rows inserted so far, and the error says how many
//! records went through.

use vstd::prelude::*;

use crate::listing_decoder;
use crate::map_decoder;
use crate::rows::{
    map_identity_rows, map_listing_row, spec_listing_row, spec_map_row, spec_platform_row,
    CryptoListing, CryptoListingV, CryptoMap, CryptoMapV, CryptoPlatform, CryptoPlatformV,
};

verus! {

/// How an insert failed.
#[derive(Clone, Copy, PartialEq, Eq, Structural, Debug)]
pub enum StoreErrorKind {
    /// The referenced identity id is not in the store.
    ForeignKey,
    /// A row with the same primary key is already in the store.
    DuplicateKey,
}

/// A failed statement: what went wrong and how many input records had
/// fully landed before it.
#[derive(Clone, Copy, PartialEq, Eq, Structural, Debug)]
pub struct StoreError {
    pub kind: StoreErrorKind,
    pub rows_done: usize,
}

/// The three tables.
#[derive(Debug, Clone, PartialEq, Eq)]
pub struct Store {
    pub platforms: Vec<CryptoPlatform>,
    pub crypto_map: Vec<CryptoMap>,
    pub crypto_listing: Vec<CryptoListing>,
}

/// The mathematical image of the store.
pub struct StoreV {
    pub platforms: Seq<CryptoPlatformV>,
    pub crypto_map: Seq<CryptoMapV>,
    pub crypto_listing: Seq<CryptoListingV>,
}

impl View for Store {
    type V = StoreV;

    open spec fn view(&self) -> StoreV {
        StoreV {
            platforms: self.platforms@.map_values(|r: CryptoPlatform| r@),
            crypto_map: self.crypto_map@.map_values(|r: CryptoMap| r@),
            crypto_listing: self.crypto_listing@.map_values(|r: CryptoListing| r@),
        }
    }
}

/// Whether an identity row with this id is in the table.
pub open spec fn map_has_id(rows: Seq<CryptoMapV>, id: u32) -> bool {
    exists|i: int| 0 <= i < rows.len() && rows[i].id == id
}

/// Whether a platform row with this id is in the table.
pub open spec fn plat_has_id(rows: Seq<CryptoPlatformV>, id: u32) -> bool {
    exists|i: int| 0 <= i < rows.len() && rows[i].id == id
}

/// The empty store.
pub open spec fn empty_store() -> StoreV {
    StoreV {
        platforms: Seq::empty(),
        crypto_map: Seq::empty(),
        crypto_listing: Seq::empty(),
    }
}

// ----- spec mirrors of the refresh statements -----

/// What inserting the identities from position `i` on does: for each
/// one, its platform row first, then its identity row; a duplicate key
/// stops the run, keeping everything inserted up to that statement.
pub open spec fn spec_apply_identities(
    s: StoreV,
    ids: Seq<map_decoder::DataV>,
    i: int,
) -> (StoreV, Option<(StoreErrorKind, int)>)
    decreases ids.len() - i,
{
    if i < 0 || i >= ids.len() {
        (s, None)
    } else {
        let d = ids[i];
        let after_plat = match spec_platform_row(d) {
            Some(p) => if plat_has_id(s.platforms, p.id) {
                None
            } else {
                Some(StoreV { platforms: s.platforms.push(p), ..s })
            },
            None => Some(s),
        };
        match after_plat {
            None => (s, Some((StoreErrorKind::DuplicateKey, i))),
            Some(s1) => if map_has_id(s1.crypto_map, d.id) {
                (s1, Some((StoreErrorKind::DuplicateKey, i)))
            } else {
                let s2 = StoreV { crypto_map: s1.crypto_map.push(spec_map_row(d)), ..s1 };
                spec_apply_identities(s2, ids, i + 1)
            },
        }
    }
}

/// What inserting the listings from position `i` on does: each row
/// must reference an identity already in the store, else the run stops
/// with a foreign-key error, keeping everything inserted so far.
pub open spec fn spec_apply_listings(
    s: StoreV,
    ls: Seq<listing_decoder::DataV>,
    i: int,
) -> (StoreV, Option<(StoreErrorKind, int)>)
    decreases ls.len() - i,
{
    if i < 0 || i >= ls.len() {
        (s, None)
    } else {
        let d = ls[i];
        if !map_has_id(s.crypto_map, d.id) {
            (s, Some((StoreErrorKind::ForeignKey, i)))
        } else {
            let s2 = StoreV {
                crypto_listing: s.crypto_listing.push(spec_listing_row(d)),
                ..s
            };
            spec_apply_listings(s2, ls, i + 1)
        }
    }
}

/// What one full refresh does to any store: the outcome depends on the
/// decoded payloads alone, never on what the tables held before.
pub open spec fn spec_refresh(
    ids: Seq<map_decoder::DataV>,
    ls: Seq<listing_decoder::DataV>,
) -> (StoreV, Option<(StoreErrorKind, int)>) {
    match spec_apply_identities(empty_store(), ids, 0) {
        (s1, Some(f)) => (s1, Some(f)),
        (s1, None) => spec_apply_listings(s1, ls, 0),
    }
}

// ----- executable store -----

spec fn plat_rows_has(rows: Seq<CryptoPlatform>, id: u32, i: int) -> bool {
    exists|k: int| #![trigger rows[k]] i <= k < rows.len() && rows[k]@.id == id
}

spec fn map_rows_has(rows: Seq<CryptoMap>, id: u32, i: int) -> bool {
    exists|k: int| #![trigger rows[k]] i <= k < rows.len() && rows[k]@.id == id
}

proof fn lemma_plat_bridge(rows: Seq<CryptoPlatform>, id: u32)
    ensures
        plat_rows_has(rows, id, 0) == plat_has_id(rows.map_values(|x: CryptoPlatform| x@), id),
{
    let m = rows.map_values(|x: CryptoPlatform| x@);
    if plat_rows_has(rows, id, 0) {
        let k = choose|k: int| #![trigger rows[k]] 0 <= k < rows.len() && rows[k]@.id == id;
        assert(m[k].id == id);
    }
    if plat_has_id(m, id) {
        let k = choose|k: int| 0 <= k < m.len() && m[k].id == id;
        assert(rows[k]@.id == id);
    }
}

proof fn lemma_map_bridge(rows: Seq<CryptoMap>, id: u32)
    ensures
        map_rows_has(rows, id, 0) == map_has_id(rows.map_values(|x: CryptoMap| x@), id),
{
    let m = rows.map_values(|x: CryptoMap| x@);
    if map_rows_has(rows, id, 0) {
        let k = choose|k: int| #![trigger rows[k]] 0 <= k < rows.len() && rows[k]@.id == id;
        assert(m[k].id == id);
    }
    if map_has_id(m, id) {
        let k = choose|k: int| 0 <= k < m.len() && m[k].id == id;
        assert(rows[k]@.id == id);
    }
}

fn plat_contains(rows: &Vec<CryptoPlatform>, id: u32, i: usize) -> (r: bool)
    requires
        i <= rows@.len(),
    ensures
        r == plat_rows_has(rows@, id, i as int),
    decreases rows@.len() - i,
{
    if i == rows.len() {
        false
    } else if rows[i].id == id {
        assert(rows@[i as int]@.id == id);
        true
    } else {
        plat_contains(rows, id, i + 1)
    }
}

fn map_contains(rows: &Vec<CryptoMap>, id: u32, i: usize) -> (r: bool)
    requires
        i <= rows@.len(),
    ensures
        r == map_rows_has(rows@, id, i as int),
    decreases rows@.len() - i,
{
    if i == rows.len() {
        false
    } else if rows[i].id == id {
        assert(rows@[i as int]@.id == id);
        true
    } else {
        map_contains(rows, id, i + 1)
    }
}

impl Store {
    /// A store with all three tables empty.
    pub fn new() -> (r: Store)
        ensures
            r@ == empty_store(),
    {
        let r = Store { platforms: Vec::new(), crypto_map: Vec::new(), crypto_listing: Vec::new() };
        assert(r@.platforms =~= empty_store().platforms);
        assert(r@.crypto_map =~= empty_store().crypto_map);
        assert(r@.crypto_listing =~= empty_store().crypto_listing);
        r
    }

    /// Whether an identity row with this id is present.
    pub fn has_identity(&self, id: u32) -> (r: bool)
        ensures
            r == map_has_id(self@.crypto_map, id),
    {
        proof {
            lemma_map_bridge(self.crypto_map@, id);
        }
        map_contains(&self.crypto_map, id, 0)
    }

    /// Removes every row from the three tables, children before
    /// parents: listings, then identities, then platforms.
    pub fn clear_all(&mut self) -> (r: Result<(), StoreError>)
        ensures
            r is Ok,
            final(self)@ == empty_store(),
    {
        self.crypto_listing = Vec::new();
        self.crypto_map = Vec::new();
        self.platforms = Vec::new();
        assert(self@.platforms =~= empty_store().platforms);
        assert(self@.crypto_map =~= empty_store().crypto_map);
        assert(self@.crypto_listing =~= empty_store().crypto_listing);
        Ok(())
    }

    /// Inserts the identities in order, each platform row before its
    /// identity row.  Stops at the first duplicate key, reporting how
    /// many identities had fully landed; rows inserted before the
    /// failure stay.
    pub fn upsert_identities(&mut self, identities: &Vec<map_decoder::Data>) -> (r: Result<
        usize,
        StoreError,
    >)
        ensures
            ({
                let (s2, fail) = spec_apply_identities(
                    old(self)@,
                    map_decoder::datas_view(identities@),
                    0,
                );
                &&& final(self)@ == s2
                &&& match r {
                    Ok(n) => fail is None && n == identities@.len(),
                    Err(e) => fail == Some((e.kind, e.rows_done as int)),
                }
            }),
    {
        let ghost ids = map_decoder::datas_view(identities@);
        let mut i: usize = 0;
        while i < identities.len()
            invariant
                i <= identities@.len(),
                ids == map_decoder::datas_view(identities@),
                spec_apply_identities(old(self)@, ids, 0) == spec_apply_identities(
                    self@,
                    ids,
                    i as int,
                ),
            decreases identities@.len() - i,
        {
            let d = &identities[i];
            assert(ids[i as int] == d@);
            let (plat_row, map_row) = map_identity_rows(d);
            let ghost s_at = self@;
            match plat_row {
                Some(p) => {
                    proof {
                        lemma_plat_bridge(self.platforms@, p.id);
                    }
                    if plat_contains(&self.platforms, p.id, 0) {
                        assert(plat_has_id(s_at.platforms, p.id));
                        return Err(StoreError { kind: StoreErrorKind::DuplicateKey, rows_done: i });
                    }
                    assert(!plat_has_id(s_at.platforms, p.id));
                    let ghost pv = p@;
                    self.platforms.push(p);
                    assert(self@.platforms =~= s_at.platforms.push(pv));
                    assert(self@.crypto_map =~= s_at.crypto_map);
                    assert(self@.crypto_listing =~= s_at.crypto_listing);
                },
                None => {},
            }
            let ghost s1 = self@;
            proof {
                lemma_map_bridge(self.crypto_map@, map_row.id);
            }
            if map_contains(&self.crypto_map, map_row.id, 0) {
                assert(map_has_id(s1.crypto_map, map_row.id));
                return Err(StoreError { kind: StoreErrorKind::DuplicateKey, rows_done: i });
            }
            assert(!map_has_id(s1.crypto_map, map_row.id));
            let ghost mv = map_row@;
            self.crypto_map.push(map_row);
            assert(self@.crypto_map =~= s1.crypto_map.push(mv));
            assert(self@.platforms =~= s1.platforms);
            assert(self@.crypto_listing =~= s1.crypto_listing);
            proof {
                let d_v = ids[i as int];
                assert(mv == spec_map_row(d_v));
                assert(self@ == StoreV { crypto_map: s1.crypto_map.push(spec_map_row(d_v)), ..s1 });
            }
            i += 1;
        }
        Ok(identities.len())
    }

    /// Inserts the listings in order.  A listing whose id has no
    /// identity in the store stops the run with a foreign-key error,
    /// reporting how many listings had landed; rows inserted before
    /// the failure stay.
    pub fn upsert_listings(&mut self, listings: &Vec<listing_decoder::Data>) -> (r: Result<
        usize,
        StoreError,
    >)
        ensures
            ({
                let (s2, fail) = spec_apply_listings(
                    old(self)@,
                    listing_decoder::datas_view(listings@),
                    0,
                );
                &&& final(self)@ == s2
                &&& match r {
                    Ok(n) => fail is None && n == listings@.len(),
                    Err(e) => fail == Some((e.kind, e.rows_done as int)),
                }
            }),
    {
        let ghost ls = listing_decoder::datas_view(listings@);
        let mut i: usize = 0;
        while i < listings.len()
            invariant
                i <= listings@.len(),
                ls == listing_decoder::datas_view(listings@),
                spec_apply_listings(old(self)@, ls, 0) == spec_apply_listings(
                    self@,
                    ls,
                    i as int,
                ),
            decreases listings@.len() - i,
        {
            let d = &listings[i];
            assert(ls[i as int] == d@);
            let ghost s_at = self@;
            proof {
                lemma_map_bridge(self.crypto_map@, d.id);
            }
            if !map_contains(&self.crypto_map, d.id, 0) {
                assert(!map_has_id(s_at.crypto_map, d.id));
                return Err(StoreError { kind: StoreErrorKind::ForeignKey, rows_done: i });
            }
            assert(map_has_id(s_at.crypto_map, d.id));
            let row = map_listing_row(d);
            let ghost rv = row@;
            self.crypto_listing.push(row);
            assert(self@.crypto_listing =~= s_at.crypto_listing.push(rv));
            assert(self@.platforms =~= s_at.platforms);
            assert(self@.crypto_map =~= s_at.crypto_map);
            proof {
                assert(rv == spec_listing_row(ls[i as int]));
                assert(self@ == StoreV {
                    crypto_listing: s_at.crypto_listing.push(spec_listing_row(ls[i as int])),
                    ..s_at
                });
            }
            i += 1;
        }
        Ok(listings.len())
    }

    /// One full refresh: clear all three tables, land the identities,
    /// then the listings, in that strict order.  The state it leaves
    /// is `spec_refresh` of the payloads, which never mentions the old
    /// tables: re-running the same cycle, on this store or any other,
    /// ends in the identical state.
    pub fn refresh(
        &mut self,
        identities: &Vec<map_decoder::Data>,
        listings: &Vec<listing_decoder::Data>,
    ) -> (r: Result<(), StoreError>)
        ensures
            ({
                let (s2, fail) = spec_cycle(
                    old(self)@,
                    map_decoder::datas_view(identities@),
                    listing_decoder::datas_view(listings@),
                );
                &&& final(self)@ == s2
                &&& match r {
                    Ok(_) => fail is None,
                    Err(e) => fail == Some((e.kind, e.rows_done as int)),
                }
            }),
    {
        match self.clear_all() {
            Ok(_) => {},
            Err(e) => {
                return Err(e);
            },
        }
        match self.upsert_identities(identities) {
            Ok(_) => {},
            Err(e) => {
                return Err(e);
            },
        }
        match self.upsert_listings(listings) {
            Ok(_) => Ok(()),
            Err(e) => Err(e),
        }
    }
}

// ----- laws -----

/// How many of the identities from position `i` on declare a platform.
pub open spec fn count_with_platform(ids: Seq<map_decoder::DataV>, i: int) -> int
    decreases ids.len() - i,
{
    if i < 0 || i >= ids.len() {
        0
    } else {
        (if ids[i].platform is Some {
            1int
        } else {
            0int
        }) + count_with_platform(ids, i + 1)
    }
}

/// Persisting identities that all land yields exactly one identity row
/// each, and exactly one platform row for each identity that declares
/// a platform; the listing table is untouched.
pub proof fn lemma_identities_success_counts(
    s: StoreV,
    ids: Seq<map_decoder::DataV>,
    i: int,
)
    requires
        0 <= i <= ids.len(),
        spec_apply_identities(s, ids, i).1 is None,
    ensures
        spec_apply_identities(s, ids, i).0.crypto_map.len() == s.crypto_map.len() + ids.len() - i,
        spec_apply_identities(s, ids, i).0.platforms.len() == s.platforms.len()
            + count_with_platform(ids, i),
        spec_apply_identities(s, ids, i).0.crypto_listing == s.crypto_listing,
    decreases ids.len() - i,
{
    if i < ids.len() {
        let d = ids[i];
        if d.platform is Some {
            let p = spec_platform_row(d).unwrap();
            let s1 = StoreV { platforms: s.platforms.push(p), ..s };
            let s2 = StoreV { crypto_map: s1.crypto_map.push(spec_map_row(d)), ..s1 };
            lemma_identities_success_counts(s2, ids, i + 1);
        } else {
            let s2 = StoreV { crypto_map: s.crypto_map.push(spec_map_row(d)), ..s };
            lemma_identities_success_counts(s2, ids, i + 1);
        }
    }
}

/// Persisting listings that all land appends exactly one row per
/// listing and touches no other table.
pub proof fn lemma_listings_success_counts(
    s: StoreV,
    ls: Seq<listing_decoder::DataV>,
    i: int,
)
    requires
        0 <= i <= ls.len(),
        spec_apply_listings(s, ls, i).1 is None,
    ensures
        spec_apply_listings(s, ls, i).0.crypto_listing.len() == s.crypto_listing.len() + ls.len()
            - i,
        spec_apply_listings(s, ls, i).0.crypto_map == s.crypto_map,
        spec_apply_listings(s, ls, i).0.platforms == s.platforms,
    decreases ls.len() - i,
{
    if i < ls.len() {
        let s2 = StoreV { crypto_listing: s.crypto_listing.push(spec_listing_row(ls[i])), ..s };
        lemma_listings_success_counts(s2, ls, i + 1);
    }
}

/// Inserting listings never changes which identity ids are present.
proof fn lemma_listings_keep_map(s: StoreV, ls: Seq<listing_decoder::DataV>, i: int)
    requires
        0 <= i <= ls.len(),
    ensures
        spec_apply_listings(s, ls, i).0.crypto_map == s.crypto_map,
    decreases ls.len() - i,
{
    if i < ls.len() {
        if map_has_id(s.crypto_map, ls[i].id) {
            let s2 = StoreV { crypto_listing: s.crypto_listing.push(spec_listing_row(ls[i])), ..s };
            lemma_listings_keep_map(s2, ls, i + 1);
        }
    }
}

/// Persisting a listing whose id has no identity in the store always
/// fails, and the failure is classified as a foreign-key error: the
/// run succeeds exactly when every listing's id is present.
pub proof fn lemma_listing_fk(s: StoreV, ls: Seq<listing_decoder::DataV>, i: int)
    requires
        0 <= i <= ls.len(),
    ensures
        spec_apply_listings(s, ls, i).1 is None <==> (forall|k: int|
            i <= k < ls.len() ==> map_has_id(s.crypto_map, #[trigger] ls[k].id)),
        spec_apply_listings(s, ls, i).1 is Some ==> spec_apply_listings(s, ls, i).1.unwrap().0
            == StoreErrorKind::ForeignKey,
    decreases ls.len() - i,
{
    if i < ls.len() {
        if map_has_id(s.crypto_map, ls[i].id) {
            let s2 = StoreV { crypto_listing: s.crypto_listing.push(spec_listing_row(ls[i])), ..s };
            lemma_listings_keep_map(s2, ls, i + 1);
            lemma_listing_fk(s2, ls, i + 1);
            assert(s2.crypto_map == s.crypto_map);
        }
    }
}

/// Referential integrity of the listing table: every listing row's id
/// has its identity row.
pub open spec fn store_fk_ok(s: StoreV) -> bool {
    forall|i: int|
        0 <= i < s.crypto_listing.len() ==> map_has_id(
            s.crypto_map,
            #[trigger] s.crypto_listing[i].id,
        )
}

/// Referential integrity of the platform column: every identity row
/// that points at a platform has its platform row.
pub open spec fn map_platform_ok(s: StoreV) -> bool {
    forall|i: int|
        0 <= i < s.crypto_map.len() ==> match #[trigger] s.crypto_map[i].platform {
            Some(pid) => plat_has_id(s.platforms, pid),
            None => true,
        }
}

proof fn lemma_map_has_id_push(rows: Seq<CryptoMapV>, r: CryptoMapV, id: u32)
    requires
        map_has_id(rows, id),
    ensures
        map_has_id(rows.push(r), id),
{
    let k = choose|k: int| 0 <= k < rows.len() && rows[k].id == id;
    assert(rows.push(r)[k].id == id);
}

proof fn lemma_plat_has_id_push(rows: Seq<CryptoPlatformV>, r: CryptoPlatformV, id: u32)
    requires
        plat_has_id(rows, id),
    ensures
        plat_has_id(rows.push(r), id),
{
    let k = choose|k: int| 0 <= k < rows.len() && rows[k].id == id;
    assert(rows.push(r)[k].id == id);
}

proof fn lemma_identities_keep_integrity(s: StoreV, ids: Seq<map_decoder::DataV>, i: int)
    requires
        0 <= i <= ids.len(),
        store_fk_ok(s),
        map_platform_ok(s),
    ensures
        store_fk_ok(spec_apply_identities(s, ids, i).0),
        map_platform_ok(spec_apply_identities(s, ids, i).0),
    decreases ids.len() - i,
{
    if i < ids.len() {
        let d = ids[i];
        let after_plat = match spec_platform_row(d) {
            Some(p) => if plat_has_id(s.platforms, p.id) {
                None
            } else {
                Some(StoreV { platforms: s.platforms.push(p), ..s })
            },
            None => Some(s),
        };
        match after_plat {
            None => {},
            Some(s1) => {
                assert(store_fk_ok(s1));
                assert(map_platform_ok(s1)) by {
                    assert forall|k: int|
                        0 <= k < s1.crypto_map.len() implies match #[trigger] s1.crypto_map[k]
                        .platform {
                        Some(pid) => plat_has_id(s1.platforms, pid),
                        None => true,
                    } by {
                        assert(s1.crypto_map[k] == s.crypto_map[k]);
                        match s.crypto_map[k].platform {
                            Some(pid) => {
                                if d.platform is Some {
                                    lemma_plat_has_id_push(
                                        s.platforms,
                                        spec_platform_row(d).unwrap(),
                                        pid,
                                    );
                                }
                            },
                            None => {},
                        }
                    }
                }
                if !map_has_id(s1.crypto_map, d.id) {
                    let row = spec_map_row(d);
                    let s2 = StoreV { crypto_map: s1.crypto_map.push(row), ..s1 };
                    assert(store_fk_ok(s2)) by {
                        assert forall|k: int|
                            0 <= k < s2.crypto_listing.len() implies map_has_id(
                            s2.crypto_map,
                            #[trigger] s2.crypto_listing[k].id,
                        ) by {
                            lemma_map_has_id_push(s1.crypto_map, row, s1.crypto_listing[k].id);
                        }
                    }
                    assert(map_platform_ok(s2)) by {
                        assert forall|k: int|
                            0 <= k < s2.crypto_map.len() implies match #[trigger] s2.crypto_map[k]
                            .platform {
                            Some(pid) => plat_has_id(s2.platforms, pid),
                            None => true,
                        } by {
                            if k < s1.crypto_map.len() {
                                assert(s2.crypto_map[k] == s1.crypto_map[k]);
                            } else {
                                assert(s2.crypto_map[k] == row);
                                match row.platform {
                                    Some(pid) => {
                                        assert(pid == d.id);
                                        assert(d.platform is Some);
                                        assert(spec_platform_row(d).unwrap().id == d.id);
                                        assert(s2.platforms == s.platforms.push(
                                            spec_platform_row(d).unwrap(),
                                        ));
                                        assert(s2.platforms[s.platforms.len() as int].id == d.id);
                                    },
                                    None => {},
                                }
                            }
                        }
                    }
                    lemma_identities_keep_integrity(s2, ids, i + 1);
                }
            },
        }
    }
}

proof fn lemma_listings_keep_integrity(s: StoreV, ls: Seq<listing_decoder::DataV>, i: int)
    requires
        0 <= i <= ls.len(),
        store_fk_ok(s),
        map_platform_ok(s),
    ensures
        store_fk_ok(spec_apply_listings(s, ls, i).0),
        map_platform_ok(spec_apply_listings(s, ls, i).0),
    decreases ls.len() - i,
{
    if i < ls.len() {
        let d = ls[i];
        if map_has_id(s.crypto_map, d.id) {
            let row = spec_listing_row(d);
            let s2 = StoreV { crypto_listing: s.crypto_listing.push(row), ..s };
            assert(store_fk_ok(s2)) by {
                assert forall|k: int|
                    0 <= k < s2.crypto_listing.len() implies map_has_id(
                    s2.crypto_map,
                    #[trigger] s2.crypto_listing[k].id,
                ) by {
                    if k < s.crypto_listing.len() {
                        assert(s2.crypto_listing[k] == s.crypto_listing[k]);
                    } else {
                        assert(s2.crypto_listing[k] == row);
                        assert(row.id == d.id);
                    }
                }
            }
            lemma_listings_keep_integrity(s2, ls, i + 1);
        }
    }
}

/// Referential integrity: whatever payloads a refresh is given and
/// however far it gets — success, duplicate key, or foreign-key fault —
/// the tables it leaves satisfy the foreign keys: every listing row's
/// id has its identity row, and every identity row that points at a
/// platform has its platform row.
pub proof fn lemma_refresh_keeps_integrity(
    ids: Seq<map_decoder::DataV>,
    ls: Seq<listing_decoder::DataV>,
)
    ensures
        store_fk_ok(spec_refresh(ids, ls).0),
        map_platform_ok(spec_refresh(ids, ls).0),
{
    lemma_identities_keep_integrity(empty_store(), ids, 0);
    let (s1, f1) = spec_apply_identities(empty_store(), ids, 0);
    if f1 is None {
        lemma_listings_keep_integrity(s1, ls, 0);
    }
}

/// What one cycle does to a store in state `s`: the protocol clears
/// first, and `clear_all` erases every table whatever it held, so the
/// statements that follow see the empty store and the outcome is
/// `spec_refresh` of the payloads, with `s` playing no part.
pub open spec fn spec_cycle(
    s: StoreV,
    ids: Seq<map_decoder::DataV>,
    ls: Seq<listing_decoder::DataV>,
) -> (StoreV, Option<(StoreErrorKind, int)>) {
    spec_refresh(ids, ls)
}

/// Re-running the full cycle with identical payloads leaves the tables
/// in an identical state: a second cycle, started from whatever state
/// the first one left, ends exactly where the first one ended.
pub proof fn lemma_cycle_idempotent(
    s: StoreV,
    ids: Seq<map_decoder::DataV>,
    ls: Seq<listing_decoder::DataV>,
)
    ensures
        spec_cycle(spec_cycle(s, ids, ls).0, ids, ls) == spec_cycle(s, ids, ls),
{
}

/// A full refresh on a fixture in which every identity lands and every
/// listing references an identity yields exactly one identifier row
/// per identity and one listing row per listing.
pub proof fn lemma_refresh_counts(
    ids: Seq<map_decoder::DataV>,
    ls: Seq<listing_decoder::DataV>,
)
    requires
        spec_refresh(ids, ls).1 is None,
    ensures
        spec_refresh(ids, ls).0.crypto_map.len() == ids.len(),
        spec_refresh(ids, ls).0.crypto_listing.len() == ls.len(),
        spec_refresh(ids, ls).0.platforms.len() == count_with_platform(ids, 0),
{
    let (s1, f1) = spec_apply_identities(empty_store(), ids, 0);
    assert(f1 is None);
    lemma_identities_success_counts(empty_store(), ids, 0);
    let (s2, f2) = spec_apply_listings(s1, ls, 0);
    assert(f2 is None);
    lemma_listings_success_counts(s1, ls, 0);
}

} // verus!
