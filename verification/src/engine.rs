//! The lookup engine: classify the address, consult the cache under the
//! freshness rule, and fold in the outcome of a remote fetch.
//!
//! The remote request itself is the caller's to perform: `begin_lookup`
//! decides whether a fetch is needed, and `commit_fetch` judges what came
//! back, persists a successful record, and surfaces a failure without
//! touching the store.

use crate::cache::CacheStore;
use crate::ip;
use crate::ip::spec_is_non_routable;
use crate::record::{IpRecord, RecordModel};
use crate::{is_fresh, spec_is_fresh, str_eq};
use vstd::prelude::*;
use vstd::string::StringExecFns;

verus! {

/// What the remote service answered, already decoded into plain values.
/// Latitude and longitude are carried as floating-point bit patterns.
pub struct RemoteResponse {
    pub status: String,
    pub message: Option<String>,
    pub query: String,
    pub country: String,
    pub region_name: String,
    pub city: String,
    pub isp: String,
    pub org: String,
    pub asn: String,
    pub timezone: String,
    pub lat_bits: u64,
    pub lon_bits: u64,
}

/// The mathematical image of a response.
pub struct ResponseModel {
    pub status: Seq<char>,
    pub message: Option<Seq<char>>,
    pub query: Seq<char>,
    pub country: Seq<char>,
    pub region_name: Seq<char>,
    pub city: Seq<char>,
    pub isp: Seq<char>,
    pub org: Seq<char>,
    pub asn: Seq<char>,
    pub timezone: Seq<char>,
    pub lat_bits: u64,
    pub lon_bits: u64,
}

impl View for RemoteResponse {
    type V = ResponseModel;

    open spec fn view(&self) -> ResponseModel {
        ResponseModel {
            status: self.status@,
            message: match self.message {
                Some(m) => Some(m@),
                None => None,
            },
            query: self.query@,
            country: self.country@,
            region_name: self.region_name@,
            city: self.city@,
            isp: self.isp@,
            org: self.org@,
            asn: self.asn@,
            timezone: self.timezone@,
            lat_bits: self.lat_bits,
            lon_bits: self.lon_bits,
        }
    }
}

/// The outcome of one remote fetch attempt, as plain values.
pub enum FetchOutcome {
    /// The request could not be made, or its body could not be read or
    /// decoded; the carried text describes the failure.
    Transport(String),
    /// A response that decoded into plain values.
    Response(RemoteResponse),
}

/// Why a lookup ended without a record.
#[derive(Debug)]
pub enum LookupError {
    /// Transport failure on the single fetch attempt.
    Network(String),
    /// The service answered with a non-success status; its message, if any,
    /// is carried.
    Upstream(Option<String>),
}

/// First phase of a lookup.
pub enum LookupPhase {
    /// The address is non-routable, reserved or unparseable: rejected
    /// before any cache or network access.
    Rejected,
    /// A fresh record was found in the store.
    Hit(IpRecord),
    /// Nothing fresh is stored: the caller must perform the remote fetch
    /// and hand the outcome to `commit_fetch`.
    NeedsFetch,
}

/// What a cache read yields at time `now`: the stored record when one
/// exists and is fresh, nothing otherwise. A stale record is treated
/// exactly as an absent one.
pub open spec fn spec_cache_lookup(
    m: Map<Seq<char>, RecordModel>,
    address: Seq<char>,
    now: i64,
) -> Option<RecordModel> {
    if m.contains_key(address) && spec_is_fresh(m[address].fetched_at, now) {
        Some(m[address])
    } else {
        None
    }
}

/// Whether a decoded response reports success.
pub open spec fn spec_success(resp: ResponseModel) -> bool {
    resp.status == "success"@
}

/// The record a successful response becomes, stamped at `now`: the address
/// is the service's echoed query field, not the caller's input text.
pub open spec fn spec_fetched_record(resp: ResponseModel, now: i64) -> RecordModel {
    RecordModel {
        address: resp.query,
        country: resp.country,
        region_name: resp.region_name,
        city: resp.city,
        isp: resp.isp,
        org: resp.org,
        asn: resp.asn,
        timezone: resp.timezone,
        lat_bits: resp.lat_bits,
        lon_bits: resp.lon_bits,
        fetched_at: now,
    }
}

/// Reads the record stored for `address`, if it is fresh at `now`. A stale
/// or absent record yields `None`; the store is not consulted for
/// freshness policy anywhere else.
pub fn get_from_cache(store: &CacheStore, address: &str, now: i64) -> (r: Option<IpRecord>)
    requires
        store.wf(),
    ensures
        match r {
            Some(rec) => spec_cache_lookup(store@, address@, now) == Some(rec@),
            None => spec_cache_lookup(store@, address@, now) is None,
        },
{
    match store.get(address) {
        Some(rec) => {
            if is_fresh(rec.fetched_at, now) {
                Some(rec.duplicate())
            } else {
                None
            }
        },
        None => None,
    }
}

/// Writes the record, stamped `fetched_at = now` at write time; whatever
/// the caller put in that field is not trusted.
pub fn save_to_cache(store: &mut CacheStore, record: IpRecord, now: i64)
    requires
        old(store).wf(),
    ensures
        final(store).wf(),
        final(store)@ == old(store)@.insert(
            record@.address,
            RecordModel { fetched_at: now, ..record@ },
        ),
{
    let mut stamped = record;
    stamped.fetched_at = now;
    store.put(stamped);
}

/// Classifies the address and consults the cache: a non-routable address is
/// rejected before any store access; a fresh record is returned as is; and
/// otherwise — absent or stale — a remote fetch is called for.
pub fn begin_lookup(store: &CacheStore, address: &str, now: i64) -> (r: LookupPhase)
    requires
        store.wf(),
    ensures
        match r {
            LookupPhase::Rejected => spec_is_non_routable(address@),
            LookupPhase::Hit(rec) => !spec_is_non_routable(address@) && spec_cache_lookup(
                store@,
                address@,
                now,
            ) == Some(rec@),
            LookupPhase::NeedsFetch => !spec_is_non_routable(address@) && spec_cache_lookup(
                store@,
                address@,
                now,
            ) is None,
        },
{
    if ip::is_non_routable(address) {
        return LookupPhase::Rejected;
    }
    match get_from_cache(store, address, now) {
        Some(rec) => LookupPhase::Hit(rec),
        None => LookupPhase::NeedsFetch,
    }
}

/// Folds the outcome of the remote fetch into the store. A successful
/// response becomes a record stamped at `now`, fully replaces whatever was
/// stored under its address, and is returned. Any failure leaves the store
/// untouched: a transport failure surfaces as `Network`, a non-success
/// response as `Upstream` with the service's message.
pub fn commit_fetch(store: &mut CacheStore, outcome: FetchOutcome, now: i64) -> (r: Result<
    IpRecord,
    LookupError,
>)
    requires
        old(store).wf(),
    ensures
        final(store).wf(),
        match r {
            Ok(rec) => outcome matches FetchOutcome::Response(resp) && spec_success(resp@) && rec@
                == spec_fetched_record(resp@, now) && final(store)@ == old(store)@.insert(
                resp.query@,
                rec@,
            ),
            Err(e) => final(store)@ == old(store)@ && match e {
                LookupError::Network(m) => outcome matches FetchOutcome::Transport(t) && m == t,
                LookupError::Upstream(m) => outcome matches FetchOutcome::Response(resp)
                    && !spec_success(resp@) && m == resp.message,
            },
        },
{
    match outcome {
        FetchOutcome::Transport(m) => Err(LookupError::Network(m)),
        FetchOutcome::Response(resp) => {
            if str_eq(resp.status.as_str(), "success") {
                let rec = IpRecord {
                    address: resp.query,
                    country: resp.country,
                    region_name: resp.region_name,
                    city: resp.city,
                    isp: resp.isp,
                    org: resp.org,
                    asn: resp.asn,
                    timezone: resp.timezone,
                    lat_bits: resp.lat_bits,
                    lon_bits: resp.lon_bits,
                    fetched_at: now,
                };
                let stored = rec.duplicate();
                save_to_cache(store, stored, now);
                Ok(rec)
            } else {
                Err(LookupError::Upstream(resp.message))
            }
        },
    }
}

/// The descriptive text of a rejection, as the caller reports it.
pub fn non_routable_message(address: &str) -> (m: String)
    ensures
        m@ == address@ + " is non-routable or reserved"@,
{
    let s = String::from_str(address);
    s.concat(" is non-routable or reserved")
}

/// Relies on chrono::Utc::now for the current civil time; its `timestamp`
/// gives Unix seconds as some i64.
#[verifier::external_body]
pub fn current_unix_time() -> (now: i64) {
    chrono::Utc::now().timestamp()
}

/// `begin_lookup` at the current time: the returned timestamp is the one
/// the decision was made at.
pub fn begin_lookup_now(store: &CacheStore, address: &str) -> (r: (LookupPhase, i64))
    requires
        store.wf(),
    ensures
        match r.0 {
            LookupPhase::Rejected => spec_is_non_routable(address@),
            LookupPhase::Hit(rec) => !spec_is_non_routable(address@) && spec_cache_lookup(
                store@,
                address@,
                r.1,
            ) == Some(rec@),
            LookupPhase::NeedsFetch => !spec_is_non_routable(address@) && spec_cache_lookup(
                store@,
                address@,
                r.1,
            ) is None,
        },
{
    let now = current_unix_time();
    (begin_lookup(store, address, now), now)
}

/// `commit_fetch` at the current time: the returned timestamp is the one
/// the record was stamped with.
pub fn commit_fetch_now(store: &mut CacheStore, outcome: FetchOutcome) -> (r: (
    Result<IpRecord, LookupError>,
    i64,
))
    requires
        old(store).wf(),
    ensures
        final(store).wf(),
        match r.0 {
            Ok(rec) => outcome matches FetchOutcome::Response(resp) && spec_success(resp@) && rec@
                == spec_fetched_record(resp@, r.1) && final(store)@ == old(store)@.insert(
                resp.query@,
                rec@,
            ),
            Err(e) => final(store)@ == old(store)@ && match e {
                LookupError::Network(m) => outcome matches FetchOutcome::Transport(t) && m == t,
                LookupError::Upstream(m) => outcome matches FetchOutcome::Response(resp)
                    && !spec_success(resp@) && m == resp.message,
            },
        },
{
    let now = current_unix_time();
    (commit_fetch(store, outcome, now), now)
}

/// Within the TTL window the lookup is idempotent: with no write in
/// between, a second read of the same address at a no-earlier time at which
/// the record is still fresh returns the identical record.
pub proof fn lemma_lookup_idempotent(
    m: Map<Seq<char>, RecordModel>,
    address: Seq<char>,
    now1: i64,
    now2: i64,
    rec: RecordModel,
)
    requires
        spec_cache_lookup(m, address, now1) == Some(rec),
        now1 <= now2,
        spec_is_fresh(rec.fetched_at, now2),
    ensures
        spec_cache_lookup(m, address, now2) == Some(rec),
{
}

} // verus!
