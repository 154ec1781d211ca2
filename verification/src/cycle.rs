//! The ingestion orchestrator: the cyclic poll state machine, and the
//! payload-to-store refresh it drives.  Outside work — the HTTP fetch,
//! the real statements, the sleep — is performed by the caller; this
//! module decides what to do next and carries the decoded payloads
//! into the store in the strict order the foreign keys demand.

use vstd::prelude::*;

use crate::config::ConfigError;
use crate::decode::{DecodeError, DecodeErrorV};
use crate::store::{spec_refresh, Store, StoreError, StoreV};
use crate::wire::{
    decode_listing_bytes, decode_map_bytes, spec_decode_listing_bytes, spec_decode_map_bytes,
};

verus! {

/// An HTTP fetch that did not deliver a payload.
#[derive(Clone, Copy, PartialEq, Eq, Structural, Debug)]
pub enum FetchError {
    /// The request never completed.
    Network,
    /// The server answered with a status outside the 200 range.
    Status(u16),
}

/// Everything the ingestion pipeline can fail with.
#[derive(Debug, Clone, PartialEq, Eq)]
pub enum CmcError {
    /// Missing or invalid configuration: fatal at startup.
    LoadConfig(ConfigError),
    /// The fetch failed: the cycle is skipped.
    Request(FetchError),
    /// A payload violated the wire schema: the cycle is skipped.
    Decode(DecodeError),
    /// A statement failed: the cycle is aborted, tables possibly
    /// part-refreshed.
    DbQuery(StoreError),
}

/// The mathematical image of a `CmcError`.
pub enum CmcErrorV {
    LoadConfig(ConfigError),
    Request(FetchError),
    Decode(DecodeErrorV),
    DbQuery(StoreError),
}

impl View for CmcError {
    type V = CmcErrorV;

    open spec fn view(&self) -> CmcErrorV {
        match self {
            CmcError::LoadConfig(e) => CmcErrorV::LoadConfig(*e),
            CmcError::Request(e) => CmcErrorV::Request(*e),
            CmcError::Decode(e) => CmcErrorV::Decode(e@),
            CmcError::DbQuery(e) => CmcErrorV::DbQuery(*e),
        }
    }
}

/// A fetch outcome is accepted exactly when the status is in the 200
/// range; anything else aborts the cycle as a fetch error.
pub fn check_status(status: u16) -> (r: Result<(), FetchError>)
    ensures
        r is Ok <==> 200 <= status < 300,
        r is Err ==> r == Err::<(), FetchError>(FetchError::Status(status)),
{
    if 200 <= status && status < 300 {
        Ok(())
    } else {
        Err(FetchError::Status(status))
    }
}

// ----- one cycle over the store -----

/// What one cycle does with raw payloads: decode both, then clear and
/// repopulate.  A decode fault aborts before any statement runs and
/// leaves the store as it was; once the refresh starts, the outcome
/// depends on the payloads alone.
pub open spec fn spec_persist_payloads(s0: StoreV, mb: Seq<u8>, lb: Seq<u8>) -> (
    StoreV,
    Result<(), CmcErrorV>,
) {
    match spec_decode_map_bytes(mb) {
        Err(e) => (s0, Err(CmcErrorV::Decode(e))),
        Ok(m) => match spec_decode_listing_bytes(lb) {
            Err(e) => (s0, Err(CmcErrorV::Decode(e))),
            Ok(l) => match spec_refresh(m.data, l.data) {
                (s, None) => (s, Ok(())),
                (s, Some((kind, done))) => (
                    s,
                    Err(
                        CmcErrorV::DbQuery(
                            StoreError { kind, rows_done: done as usize },
                        ),
                    ),
                ),
            },
        },
    }
}

/// Decodes both payloads and refreshes the store: clear, identities,
/// then listings, in that strict order.  On a decode fault the store
/// is untouched; on a statement fault the tables keep what had landed.
pub fn persist_payloads(store: &mut Store, map_bytes: &[u8], listing_bytes: &[u8]) -> (r: Result<
    (),
    CmcError,
>)
    ensures
        ({
            let (s2, verdict) = spec_persist_payloads(old(store)@, map_bytes@, listing_bytes@);
            &&& final(store)@ == s2
            &&& match r {
                Ok(_) => verdict is Ok,
                Err(e) => verdict == Err::<(), CmcErrorV>(e@),
            }
        }),
{
    let map_resp = match decode_map_bytes(map_bytes) {
        Ok(resp) => resp,
        Err(e) => {
            return Err(CmcError::Decode(e));
        },
    };
    let listing_resp = match decode_listing_bytes(listing_bytes) {
        Ok(resp) => resp,
        Err(e) => {
            return Err(CmcError::Decode(e));
        },
    };
    match store.refresh(&map_resp.data, &listing_resp.data) {
        Ok(_) => Ok(()),
        Err(e) => Err(CmcError::DbQuery(e)),
    }
}

/// Once both payloads decode, a cycle leaves the tables referentially
/// intact whatever the refresh outcome: every listing row's id has its
/// identity row, every platform pointer has its platform row.
pub proof fn lemma_cycle_keeps_integrity(s0: StoreV, mb: Seq<u8>, lb: Seq<u8>)
    requires
        spec_decode_map_bytes(mb) is Ok,
        spec_decode_listing_bytes(lb) is Ok,
    ensures
        crate::store::store_fk_ok(spec_persist_payloads(s0, mb, lb).0),
        crate::store::map_platform_ok(spec_persist_payloads(s0, mb, lb).0),
{
    let m = spec_decode_map_bytes(mb)->Ok_0;
    let l = spec_decode_listing_bytes(lb)->Ok_0;
    crate::store::lemma_refresh_keeps_integrity(m.data, l.data);
}

// ----- the poll state machine -----

/// Where the poll loop stands.
#[derive(Clone, Copy, PartialEq, Eq, Structural, Debug)]
pub enum Phase {
    Idle,
    Fetching,
    Mapping,
    Persisting,
    Sleeping,
}

/// What the loop driver reports back to the machine.
#[derive(Clone, Copy, PartialEq, Eq, Structural, Debug)]
pub enum Event {
    Started,
    PagesFetched,
    FetchFailed,
    Decoded,
    DecodeFailed,
    Persisted,
    PersistFailed,
    Woke,
}

/// What the loop driver must do next.
#[derive(Clone, Copy, PartialEq, Eq, Structural, Debug)]
pub enum Action {
    /// Fetch one page of the map endpoint and one of the listing
    /// endpoint.
    FetchPages { start: u32, limit: u32 },
    /// Run both payloads through their decoders and the mapper.
    Decode,
    /// Clear and repopulate the tables from the decoded records.
    Persist,
    /// Sleep for the fixed poll interval.
    Sleep { secs: u64 },
    /// Nothing: the event does not belong to this phase.
    Wait,
}

/// The transition table: a cycle walks fetch, decode, persist, sleep;
/// a fetch, decode or persist fault skips the rest of the cycle and
/// sleeps until the next one.  No event halts the loop.
pub open spec fn spec_step(phase: Phase, event: Event, start: u32, limit: u32, secs: u64) -> (
    Phase,
    Action,
) {
    match (phase, event) {
        (Phase::Idle, Event::Started) => (Phase::Fetching, Action::FetchPages { start, limit }),
        (Phase::Fetching, Event::PagesFetched) => (Phase::Mapping, Action::Decode),
        (Phase::Fetching, Event::FetchFailed) => (Phase::Sleeping, Action::Sleep { secs }),
        (Phase::Mapping, Event::Decoded) => (Phase::Persisting, Action::Persist),
        (Phase::Mapping, Event::DecodeFailed) => (Phase::Sleeping, Action::Sleep { secs }),
        (Phase::Persisting, Event::Persisted) => (Phase::Sleeping, Action::Sleep { secs }),
        (Phase::Persisting, Event::PersistFailed) => (Phase::Sleeping, Action::Sleep { secs }),
        (Phase::Sleeping, Event::Woke) => (
            Phase::Fetching,
            Action::FetchPages { start, limit },
        ),
        _ => (phase, Action::Wait),
    }
}

/// The poll loop's head: its phase and its fixed parameters.
pub struct Orchestrator {
    pub phase: Phase,
    pub start: u32,
    pub limit: u32,
    pub interval_secs: u64,
}

impl Orchestrator {
    /// A fresh loop, idle, with the page window and poll interval it
    /// will use on every cycle.
    pub fn new(start: u32, limit: u32, interval_secs: u64) -> (r: Orchestrator)
        ensures
            r.phase == Phase::Idle,
            r.start == start,
            r.limit == limit,
            r.interval_secs == interval_secs,
    {
        Orchestrator { phase: Phase::Idle, start, limit, interval_secs }
    }

    /// Feeds one event to the machine; the returned action is what the
    /// driver performs before reporting the next event.
    pub fn step(&mut self, event: Event) -> (r: Action)
        ensures
            (final(self).phase, r) == spec_step(
                old(self).phase,
                event,
                old(self).start,
                old(self).limit,
                old(self).interval_secs,
            ),
            final(self).start == old(self).start,
            final(self).limit == old(self).limit,
            final(self).interval_secs == old(self).interval_secs,
    {
        let (phase, action) = match (self.phase, event) {
            (Phase::Idle, Event::Started) => (
                Phase::Fetching,
                Action::FetchPages { start: self.start, limit: self.limit },
            ),
            (Phase::Fetching, Event::PagesFetched) => (Phase::Mapping, Action::Decode),
            (Phase::Fetching, Event::FetchFailed) => (
                Phase::Sleeping,
                Action::Sleep { secs: self.interval_secs },
            ),
            (Phase::Mapping, Event::Decoded) => (Phase::Persisting, Action::Persist),
            (Phase::Mapping, Event::DecodeFailed) => (
                Phase::Sleeping,
                Action::Sleep { secs: self.interval_secs },
            ),
            (Phase::Persisting, Event::Persisted) => (
                Phase::Sleeping,
                Action::Sleep { secs: self.interval_secs },
            ),
            (Phase::Persisting, Event::PersistFailed) => (
                Phase::Sleeping,
                Action::Sleep { secs: self.interval_secs },
            ),
            (Phase::Sleeping, Event::Woke) => (
                Phase::Fetching,
                Action::FetchPages { start: self.start, limit: self.limit },
            ),
            _ => (self.phase, Action::Wait),
        };
        self.phase = phase;
        action
    }
}

} // verus!
