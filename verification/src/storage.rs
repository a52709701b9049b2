//! The storage engine: a key/value record table with per-entry metadata,
//! expiration and compare-and-swap semantics.
//!
//! The table is held in a `dashmap::DashMap` so that callers sharing one
//! engine contend only per shard; the map is specified here through a small
//! set of trusted wrappers over an abstract `Map` of its contents.
//!
//! Expiration values are absolute timestamps in whole seconds; a record is
//! expired once the clock has passed a nonzero expiration, and `0` means the
//! record never expires. Every operation takes the current time `now` as an
//! argument, which keeps the clock substitutable. Every successful store-like
//! mutation stamps the record with a fresh compare-and-swap token drawn from a
//! counter, so tokens are never reused by later mutations.

use vstd::prelude::*;
use crate::binary::MAX_KEY_LEN;
use crate::error::{StorageError, StorageResult};

verus! {

/// Per-record metadata: last-touch timestamp in seconds, compare-and-swap
/// token, client flags and absolute expiration (0 = never).
#[derive(Clone, Copy, Debug, PartialEq, Eq, Structural)]
pub struct Header {
    pub timestamp: u64,
    pub cas: u64,
    pub flags: u32,
    pub expiration: u32,
}

impl Header {
    /// A header with the given token, flags and expiration, not yet stamped
    /// with a time.
    pub fn new(cas: u64, flags: u32, expiration: u32) -> (h: Header)
        ensures
            h == (Header { timestamp: 0, cas, flags, expiration }),
    {
        Header { timestamp: 0, cas, flags, expiration }
    }
}

/// The payload of a value record: opaque client bytes.
#[derive(Clone, Debug)]
pub struct ValueData {
    pub header: Header,
    pub value: Vec<u8>,
}

/// The payload of a counter record backing increment and decrement: the
/// current numeric value and the delta of the last arithmetic step.
#[derive(Clone, Copy, Debug)]
pub struct CounterData {
    pub header: Header,
    pub value: u64,
    pub delta: u64,
}

/// One stored record: either opaque bytes or a 64-bit counter.
#[derive(Clone, Debug)]
pub enum Record {
    Value(ValueData),
    Counter(CounterData),
}

/// The mathematical shape of a record, with the payload as a byte sequence.
pub ghost enum RecordModel {
    Value { header: Header, value: Seq<u8> },
    Counter { header: Header, value: u64, delta: u64 },
}

impl View for Record {
    type V = RecordModel;

    open spec fn view(&self) -> RecordModel {
        match self {
            Record::Value(d) => RecordModel::Value { header: d.header, value: d.value@ },
            Record::Counter(d) => RecordModel::Counter {
                header: d.header,
                value: d.value,
                delta: d.delta,
            },
        }
    }
}

/// The metadata header of a record, whichever kind it is.
pub open spec fn rec_header(r: RecordModel) -> Header {
    match r {
        RecordModel::Value { header, .. } => header,
        RecordModel::Counter { header, .. } => header,
    }
}

impl Record {
    /// A fresh value record carrying the given payload and metadata.
    pub fn new(value: Vec<u8>, cas: u64, flags: u32, expiration: u32) -> (r: Record)
        ensures
            r@ == (RecordModel::Value {
                header: Header { timestamp: 0, cas, flags, expiration },
                value: value@,
            }),
    {
        let header = Header::new(cas, flags, expiration);
        Record::Value(ValueData { header, value })
    }

    /// The record's metadata header.
    pub fn header(&self) -> (h: Header)
        ensures
            h == rec_header(self@),
    {
        match self {
            Record::Value(d) => d.header,
            Record::Counter(d) => d.header,
        }
    }
}

/// Arguments of an increment: the amount to add and the value that seeds a
/// counter created by the operation.
#[derive(Clone, Copy, Debug)]
pub struct IncrementParam {
    pub delta: u64,
    pub value: u64,
}

pub type DecrementParam = IncrementParam;

/// What a `dashmap::DashMap<Vec<u8>, Record>` holds, as a map from key bytes
/// to record models.
pub uninterp spec fn table_contents(t: dashmap::DashMap<Vec<u8>, Record>) -> Map<
    Seq<u8>,
    RecordModel,
>;

#[verifier::external_type_specification]
#[verifier::external_body]
#[verifier::reject_recursive_types(K)]
#[verifier::reject_recursive_types(V)]
#[verifier::reject_recursive_types(S)]
pub struct ExDashMap<K, V, S>(dashmap::DashMap<K, V, S>);

/// Relies on `dashmap::DashMap::new`: a freshly created map holds nothing.
#[verifier::external_body]
fn table_new() -> (t: dashmap::DashMap<Vec<u8>, Record>)
    ensures
        forall|k: Seq<u8>| !table_contents(t).contains_key(k),
{
    dashmap::DashMap::new()
}

/// Relies on `dashmap::DashMap::get`: yields the entry whose key equals the
/// probe, or nothing when no such entry exists. The record is cloned out of
/// the shard guard before it is returned.
#[verifier::external_body]
fn table_get(t: &dashmap::DashMap<Vec<u8>, Record>, key: &Vec<u8>) -> (r: Option<Record>)
    ensures
        match r {
            Some(rec) => table_contents(*t).contains_key(key@) && rec@ == table_contents(*t)[key@],
            None => !table_contents(*t).contains_key(key@),
        },
{
    t.get(key).map(|e| e.value().clone())
}

/// Relies on `dashmap::DashMap::insert`: stores the value under the key,
/// replacing any previous entry for that key.
#[verifier::external_body]
fn table_insert(t: &mut dashmap::DashMap<Vec<u8>, Record>, key: &Vec<u8>, rec: Record)
    ensures
        table_contents(*final(t)) == table_contents(*old(t)).insert(key@, rec@),
{
    t.insert(key.clone(), rec);
}

/// Relies on `dashmap::DashMap::remove`: drops the entry stored under the
/// key, if one exists.
#[verifier::external_body]
fn table_remove(t: &mut dashmap::DashMap<Vec<u8>, Record>, key: &Vec<u8>)
    ensures
        table_contents(*final(t)) == table_contents(*old(t)).remove(key@),
{
    t.remove(key);
}

/// Relies on `dashmap::DashMap::clear`: removes every entry.
#[verifier::external_body]
fn table_clear(t: &mut dashmap::DashMap<Vec<u8>, Record>)
    ensures
        forall|k: Seq<u8>| !table_contents(*final(t)).contains_key(k),
{
    t.clear();
}

/// The abstract state of the engine: the table contents and the counter that
/// yields the next compare-and-swap token.
#[verifier::ext_equal]
pub ghost struct StorageModel {
    pub entries: Map<Seq<u8>, RecordModel>,
    pub next_cas: u64,
}

/// Well-formedness of the abstract state: tokens start at 1, every stored key
/// respects the key-length limit, and every stored token is nonzero and below
/// the counter, so a token drawn from the counter is always fresh.
pub open spec fn spec_wf(s: StorageModel) -> bool {
    &&& s.next_cas >= 1
    &&& forall|k: Seq<u8>| #[trigger] s.entries.contains_key(k) ==> k.len() <= MAX_KEY_LEN
    &&& forall|k: Seq<u8>| #[trigger]
        s.entries.contains_key(k) ==> 0 < rec_header(s.entries[k]).cas < s.next_cas
}

/// True when the record's nonzero expiration has passed.
pub open spec fn spec_expired(r: RecordModel, now: u64) -> bool {
    rec_header(r).expiration != 0 && now > rec_header(r).expiration
}

/// A key is live when a record is stored under it that has not expired.
pub open spec fn spec_live(s: StorageModel, key: Seq<u8>, now: u64) -> bool {
    s.entries.contains_key(key) && !spec_expired(s.entries[key], now)
}

/// The record a read of `key` observes: the stored record when live, nothing
/// otherwise.
pub open spec fn spec_lookup(s: StorageModel, key: Seq<u8>, now: u64) -> Option<RecordModel> {
    if spec_live(s, key, now) {
        Some(s.entries[key])
    } else {
        None
    }
}

/// The token counter after one token has been issued.
pub open spec fn spec_bump(c: u64) -> u64 {
    if c < u64::MAX {
        (c + 1) as u64
    } else {
        0
    }
}

/// The record restamped with the given time and token, payload unchanged.
pub open spec fn spec_stamp(r: RecordModel, now: u64, cas: u64) -> RecordModel {
    match r {
        RecordModel::Value { header, value } => RecordModel::Value {
            header: Header { timestamp: now, cas, flags: header.flags, expiration: header.expiration },
            value,
        },
        RecordModel::Counter { header, value, delta } => RecordModel::Counter {
            header: Header { timestamp: now, cas, flags: header.flags, expiration: header.expiration },
            value,
            delta,
        },
    }
}

/// The state after storing `r` under `key` with a fresh token: the entry is
/// inserted and the token counter advances.
pub open spec fn spec_put(s: StorageModel, key: Seq<u8>, r: RecordModel) -> StorageModel {
    StorageModel { entries: s.entries.insert(key, r), next_cas: spec_bump(s.next_cas) }
}

/// The state after an unsuccessful access under `key` evicted an expired
/// record: the entry is gone if one was stored, and nothing else changes.
pub open spec fn spec_evict(s: StorageModel, key: Seq<u8>) -> StorageModel {
    if s.entries.contains_key(key) {
        StorageModel { entries: s.entries.remove(key), next_cas: s.next_cas }
    } else {
        s
    }
}

/// Effect of `set`: stores unconditionally under a fresh token, failing only
/// on an oversized key.
pub open spec fn spec_set(s: StorageModel, key: Seq<u8>, r: RecordModel, now: u64) -> (
    StorageModel,
    StorageResult<u64>,
) {
    if key.len() > MAX_KEY_LEN {
        (s, Err(StorageError::KeyTooLarge))
    } else {
        (spec_put(s, key, spec_stamp(r, now, s.next_cas)), Ok(s.next_cas))
    }
}

/// Effect of `add`: stores only where no live record exists.
pub open spec fn spec_add(s: StorageModel, key: Seq<u8>, r: RecordModel, now: u64) -> (
    StorageModel,
    StorageResult<u64>,
) {
    if spec_live(s, key, now) {
        (s, Err(StorageError::KeyExists))
    } else if key.len() > MAX_KEY_LEN {
        (s, Err(StorageError::KeyTooLarge))
    } else {
        (spec_put(s, key, spec_stamp(r, now, s.next_cas)), Ok(s.next_cas))
    }
}

/// Effect of `replace`: stores only where a live record exists; an expired
/// record is evicted and reported as absent.
pub open spec fn spec_replace(s: StorageModel, key: Seq<u8>, r: RecordModel, now: u64) -> (
    StorageModel,
    StorageResult<u64>,
) {
    if spec_live(s, key, now) {
        (spec_put(s, key, spec_stamp(r, now, s.next_cas)), Ok(s.next_cas))
    } else {
        (spec_evict(s, key), Err(StorageError::NotFound))
    }
}

/// Effect of `append`/`prepend`: concatenates onto a live value record,
/// keeping its flags and expiration and issuing a fresh token.
pub open spec fn spec_splice(
    s: StorageModel,
    key: Seq<u8>,
    more: Seq<u8>,
    now: u64,
    at_end: bool,
) -> (StorageModel, StorageResult<u64>) {
    match spec_lookup(s, key, now) {
        Some(RecordModel::Value { header, value }) => {
            let joined = if at_end {
                value + more
            } else {
                more + value
            };
            let rec = RecordModel::Value {
                header: Header {
                    timestamp: now,
                    cas: s.next_cas,
                    flags: header.flags,
                    expiration: header.expiration,
                },
                value: joined,
            };
            (spec_put(s, key, rec), Ok(s.next_cas))
        },
        Some(RecordModel::Counter { .. }) => (s, Err(StorageError::TypeMismatch)),
        None => (spec_evict(s, key), Err(StorageError::NotFound)),
    }
}

/// Effect of `cas`: stores only where a live record exists whose token equals
/// the caller's.
pub open spec fn spec_cas(
    s: StorageModel,
    key: Seq<u8>,
    r: RecordModel,
    token: u64,
    now: u64,
) -> (StorageModel, StorageResult<u64>) {
    match spec_lookup(s, key, now) {
        Some(stored) => if rec_header(stored).cas == token {
            (spec_put(s, key, spec_stamp(r, now, s.next_cas)), Ok(s.next_cas))
        } else {
            (s, Err(StorageError::CasMismatch))
        },
        None => (spec_evict(s, key), Err(StorageError::NotFound)),
    }
}

/// Effect of `increment`/`decrement`: steps a live counter, seeds a new one
/// with the given initial value where the key is absent, and reports a live
/// value record as absent. Increment wraps on 64-bit overflow; decrement
/// floors at zero.
pub open spec fn spec_arith(
    s: StorageModel,
    key: Seq<u8>,
    delta: u64,
    initial: u64,
    expiration: u32,
    now: u64,
    up: bool,
) -> (StorageModel, StorageResult<u64>) {
    match spec_lookup(s, key, now) {
        Some(RecordModel::Counter { header, value, .. }) => {
            let stepped = if up {
                vstd::wrapping::u64_specs::wrapping_add(value, delta)
            } else if delta > value {
                0
            } else {
                (value - delta) as u64
            };
            let rec = RecordModel::Counter {
                header: Header {
                    timestamp: now,
                    cas: s.next_cas,
                    flags: header.flags,
                    expiration: header.expiration,
                },
                value: stepped,
                delta,
            };
            (spec_put(s, key, rec), Ok(stepped))
        },
        Some(RecordModel::Value { .. }) => (s, Err(StorageError::NotFound)),
        None => if key.len() > MAX_KEY_LEN {
            (s, Err(StorageError::KeyTooLarge))
        } else {
            let rec = RecordModel::Counter {
                header: Header { timestamp: now, cas: s.next_cas, flags: 0, expiration },
                value: initial,
                delta,
            };
            (spec_put(s, key, rec), Ok(initial))
        },
    }
}

/// Effect of `delete`: removes a live record; an expired one is evicted and
/// reported as absent.
pub open spec fn spec_delete(s: StorageModel, key: Seq<u8>, now: u64) -> (
    StorageModel,
    StorageResult<()>,
) {
    if spec_live(s, key, now) {
        (StorageModel { entries: s.entries.remove(key), next_cas: s.next_cas }, Ok(()))
    } else {
        (spec_evict(s, key), Err(StorageError::NotFound))
    }
}

/// Effect of `touch`: rewrites the expiration and timestamp of a live record,
/// leaving value, flags and token unchanged.
pub open spec fn spec_touch(s: StorageModel, key: Seq<u8>, expiration: u32, now: u64) -> (
    StorageModel,
    StorageResult<()>,
) {
    if spec_live(s, key, now) {
        let stored = s.entries[key];
        let touched = match stored {
            RecordModel::Value { header, value } => RecordModel::Value {
                header: Header { timestamp: now, cas: header.cas, flags: header.flags, expiration },
                value,
            },
            RecordModel::Counter { header, value, delta } => RecordModel::Counter {
                header: Header { timestamp: now, cas: header.cas, flags: header.flags, expiration },
                value,
                delta,
            },
        };
        (StorageModel { entries: s.entries.insert(key, touched), next_cas: s.next_cas }, Ok(()))
    } else {
        (spec_evict(s, key), Err(StorageError::NotFound))
    }
}

/// The concurrent record table plus the token counter.
pub struct Storage {
    memory: dashmap::DashMap<Vec<u8>, Record>,
    cas_counter: u64,
}

impl View for Storage {
    type V = StorageModel;

    closed spec fn view(&self) -> StorageModel {
        StorageModel { entries: table_contents(self.memory), next_cas: self.cas_counter }
    }
}

/// Storing a record stamped with the current token preserves well-formedness.
proof fn lemma_wf_put_fresh(s: StorageModel, key: Seq<u8>, r: RecordModel)
    requires
        spec_wf(s),
        key.len() <= MAX_KEY_LEN,
        s.next_cas < u64::MAX,
        rec_header(r).cas == s.next_cas,
    ensures
        spec_wf(spec_put(s, key, r)),
{
    let s2 = spec_put(s, key, r);
    assert forall|k: Seq<u8>| #[trigger] s2.entries.contains_key(k) implies k.len() <= MAX_KEY_LEN
        && 0 < rec_header(s2.entries[k]).cas < s2.next_cas by {
        if k != key {
            assert(s.entries.contains_key(k));
        }
    }
}

/// Rewriting a stored record without changing its token preserves
/// well-formedness.
proof fn lemma_wf_keep_token(s: StorageModel, key: Seq<u8>, r: RecordModel)
    requires
        spec_wf(s),
        s.entries.contains_key(key),
        rec_header(r).cas == rec_header(s.entries[key]).cas,
    ensures
        spec_wf(StorageModel { entries: s.entries.insert(key, r), next_cas: s.next_cas }),
{
    let s2 = StorageModel { entries: s.entries.insert(key, r), next_cas: s.next_cas };
    assert forall|k: Seq<u8>| #[trigger] s2.entries.contains_key(k) implies k.len() <= MAX_KEY_LEN
        && 0 < rec_header(s2.entries[k]).cas < s2.next_cas by {
        if k != key {
            assert(s.entries.contains_key(k));
        } else {
            assert(s.entries.contains_key(key));
        }
    }
}

/// Removing an entry preserves well-formedness.
proof fn lemma_wf_remove(s: StorageModel, key: Seq<u8>)
    requires
        spec_wf(s),
    ensures
        spec_wf(StorageModel { entries: s.entries.remove(key), next_cas: s.next_cas }),
        spec_wf(spec_evict(s, key)),
{
    let s2 = StorageModel { entries: s.entries.remove(key), next_cas: s.next_cas };
    assert forall|k: Seq<u8>| #[trigger] s2.entries.contains_key(k) implies k.len() <= MAX_KEY_LEN
        && 0 < rec_header(s2.entries[k]).cas < s2.next_cas by {
        assert(s.entries.contains_key(k));
    }
}

impl Storage {
    /// A fresh, empty engine whose first issued token will be 1.
    pub fn new() -> (s: Storage)
        ensures
            s.wf(),
            s@.entries == Map::<Seq<u8>, RecordModel>::empty(),
            s@.next_cas == 1,
    {
        let memory = table_new();
        proof {
            assert(table_contents(memory) =~= Map::<Seq<u8>, RecordModel>::empty());
        }
        Storage { memory, cas_counter: 1 }
    }

    /// Well-formedness of the engine's abstract state.
    pub open spec fn wf(&self) -> bool {
        spec_wf(self@)
    }

    /// Restamps a record with the engine's current token and the given time,
    /// stores it, and advances the token counter.
    fn put_fresh(&mut self, key: Vec<u8>, record: Record, now: u64) -> (token: u64)
        requires
            old(self).wf(),
            old(self)@.next_cas < u64::MAX,
            key@.len() <= MAX_KEY_LEN,
        ensures
            final(self).wf(),
            final(self)@ == spec_put(old(self)@, key@, spec_stamp(record@, now, old(self)@.next_cas)),
            token == old(self)@.next_cas,
    {
        proof {
            lemma_wf_put_fresh(
                self@,
                key@,
                spec_stamp(record@, now, self@.next_cas),
            );
        }
        let token = self.cas_counter;
        let stamped = match record {
            Record::Value(d) => Record::Value(
                ValueData {
                    header: Header {
                        timestamp: now,
                        cas: token,
                        flags: d.header.flags,
                        expiration: d.header.expiration,
                    },
                    value: d.value,
                },
            ),
            Record::Counter(d) => Record::Counter(
                CounterData {
                    header: Header {
                        timestamp: now,
                        cas: token,
                        flags: d.header.flags,
                        expiration: d.header.expiration,
                    },
                    value: d.value,
                    delta: d.delta,
                },
            ),
        };
        table_insert(&mut self.memory, &key, stamped);
        self.cas_counter = self.cas_counter + 1;
        token
    }

    /// Whether the token counter can still advance.
    pub fn has_token_headroom(&self) -> (r: bool)
        ensures
            r == (self@.next_cas < u64::MAX),
    {
        self.cas_counter < u64::MAX
    }

    /// Looks up the live record under `key`, cloned out of the table; an
    /// absent or expired record reads as nothing. The read mutates no state.
    pub fn get(&self, key: &Vec<u8>, now: u64) -> (r: Option<Record>)
        ensures
            match r {
                Some(rec) => spec_lookup(self@, key@, now) == Some(rec@),
                None => spec_lookup(self@, key@, now) is None,
            },
    {
        self.get_by_key(key, now)
    }

    /// The lookup behind `get`.
    fn get_by_key(&self, key: &Vec<u8>, now: u64) -> (r: Option<Record>)
        ensures
            match r {
                Some(rec) => spec_lookup(self@, key@, now) == Some(rec@),
                None => spec_lookup(self@, key@, now) is None,
            },
    {
        match table_get(&self.memory, key) {
            None => None,
            Some(rec) => {
                let h = rec.header();
                if h.expiration != 0 && now > h.expiration as u64 {
                    None
                } else {
                    Some(rec)
                }
            },
        }
    }

    /// Removes the entry under `key` if it is stored but expired, so that a
    /// miss also reclaims the slot.
    fn evict_if_expired(&mut self, key: &Vec<u8>, now: u64)
        requires
            old(self).wf(),
        ensures
            final(self).wf(),
            final(self)@ == if spec_live(old(self)@, key@, now) {
                old(self)@
            } else {
                spec_evict(old(self)@, key@)
            },
    {
        proof {
            lemma_wf_remove(self@, key@);
        }
        match table_get(&self.memory, key) {
            None => (),
            Some(rec) => {
                let h = rec.header();
                if h.expiration != 0 && now > h.expiration as u64 {
                    table_remove(&mut self.memory, key);
                }
            },
        }
    }

    /// Stores a record under `key` unconditionally, stamping it with the
    /// current time and a fresh token; fails only on an oversized key.
    pub fn set(&mut self, key: Vec<u8>, record: Record, now: u64) -> (r: StorageResult<u64>)
        requires
            old(self).wf(),
            old(self)@.next_cas < u64::MAX,
        ensures
            final(self).wf(),
            (final(self)@, r) == spec_set(old(self)@, key@, record@, now),
    {
        if key.len() > MAX_KEY_LEN {
            return Err(StorageError::KeyTooLarge);
        }
        let token = self.put_fresh(key, record, now);
        Ok(token)
    }

    /// Stores a record only where no live record exists; otherwise reports
    /// `KeyExists`.
    pub fn add(&mut self, key: Vec<u8>, record: Record, now: u64) -> (r: StorageResult<u64>)
        requires
            old(self).wf(),
            old(self)@.next_cas < u64::MAX,
        ensures
            final(self).wf(),
            (final(self)@, r) == spec_add(old(self)@, key@, record@, now),
    {
        if self.get_by_key(&key, now).is_some() {
            return Err(StorageError::KeyExists);
        }
        if key.len() > MAX_KEY_LEN {
            return Err(StorageError::KeyTooLarge);
        }
        let token = self.put_fresh(key, record, now);
        Ok(token)
    }

    /// Stores a record only where a live record exists; an absent or expired
    /// key reports `NotFound`, and an expired record is evicted.
    pub fn replace(&mut self, key: Vec<u8>, record: Record, now: u64) -> (r: StorageResult<u64>)
        requires
            old(self).wf(),
            old(self)@.next_cas < u64::MAX,
        ensures
            final(self).wf(),
            (final(self)@, r) == spec_replace(old(self)@, key@, record@, now),
    {
        if self.get_by_key(&key, now).is_none() {
            self.evict_if_expired(&key, now);
            return Err(StorageError::NotFound);
        }
        let token = self.put_fresh(key, record, now);
        Ok(token)
    }

    /// Concatenates bytes after the payload of a live value record, keeping
    /// its flags and expiration.
    pub fn append(&mut self, key: Vec<u8>, more: Vec<u8>, now: u64) -> (r: StorageResult<u64>)
        requires
            old(self).wf(),
            old(self)@.next_cas < u64::MAX,
        ensures
            final(self).wf(),
            (final(self)@, r) == spec_splice(old(self)@, key@, more@, now, true),
    {
        self.splice(key, more, now, true)
    }

    /// Concatenates bytes before the payload of a live value record, keeping
    /// its flags and expiration.
    pub fn prepend(&mut self, key: Vec<u8>, more: Vec<u8>, now: u64) -> (r: StorageResult<u64>)
        requires
            old(self).wf(),
            old(self)@.next_cas < u64::MAX,
        ensures
            final(self).wf(),
            (final(self)@, r) == spec_splice(old(self)@, key@, more@, now, false),
    {
        self.splice(key, more, now, false)
    }

    /// The concatenation behind `append` and `prepend`.
    fn splice(&mut self, key: Vec<u8>, more: Vec<u8>, now: u64, at_end: bool) -> (r: StorageResult<
        u64,
    >)
        requires
            old(self).wf(),
            old(self)@.next_cas < u64::MAX,
        ensures
            final(self).wf(),
            (final(self)@, r) == spec_splice(old(self)@, key@, more@, now, at_end),
    {
        match self.get_by_key(&key, now) {
            None => {
                self.evict_if_expired(&key, now);
                Err(StorageError::NotFound)
            },
            Some(Record::Counter(_)) => Err(StorageError::TypeMismatch),
            Some(Record::Value(d)) => {
                let joined = if at_end {
                    crate::wire::vec_concat(&d.value, &more)
                } else {
                    crate::wire::vec_concat(&more, &d.value)
                };
                let rec = Record::Value(ValueData { header: d.header, value: joined });
                let token = self.put_fresh(key, rec, now);
                Ok(token)
            },
        }
    }

    /// Stores a record only where a live record exists whose token equals
    /// `token`; a differing token reports `CasMismatch` and changes nothing.
    pub fn cas(&mut self, key: Vec<u8>, record: Record, token: u64, now: u64) -> (r: StorageResult<
        u64,
    >)
        requires
            old(self).wf(),
            old(self)@.next_cas < u64::MAX,
        ensures
            final(self).wf(),
            (final(self)@, r) == spec_cas(old(self)@, key@, record@, token, now),
    {
        match self.get_by_key(&key, now) {
            None => {
                self.evict_if_expired(&key, now);
                Err(StorageError::NotFound)
            },
            Some(stored) => {
                let h = stored.header();
                if h.cas != token {
                    return Err(StorageError::CasMismatch);
                }
                let fresh = self.put_fresh(key, record, now);
                Ok(fresh)
            },
        }
    }

    /// Adds `increment.delta` to a live counter, wrapping on overflow; seeds
    /// an absent key with `increment.value`; a live value record reports
    /// `NotFound`.
    pub fn increment(
        &mut self,
        key: Vec<u8>,
        increment: IncrementParam,
        expiration: u32,
        now: u64,
    ) -> (r: StorageResult<u64>)
        requires
            old(self).wf(),
            old(self)@.next_cas < u64::MAX,
        ensures
            final(self).wf(),
            (final(self)@, r) == spec_arith(
                old(self)@,
                key@,
                increment.delta,
                increment.value,
                expiration,
                now,
                true,
            ),
    {
        self.arith(key, increment, expiration, now, true)
    }

    /// Subtracts `decrement.delta` from a live counter, flooring at zero;
    /// seeds an absent key with `decrement.value`; a live value record
    /// reports `NotFound`.
    pub fn decrement(
        &mut self,
        key: Vec<u8>,
        decrement: DecrementParam,
        expiration: u32,
        now: u64,
    ) -> (r: StorageResult<u64>)
        requires
            old(self).wf(),
            old(self)@.next_cas < u64::MAX,
        ensures
            final(self).wf(),
            (final(self)@, r) == spec_arith(
                old(self)@,
                key@,
                decrement.delta,
                decrement.value,
                expiration,
                now,
                false,
            ),
    {
        self.arith(key, decrement, expiration, now, false)
    }

    /// The arithmetic step behind `increment` and `decrement`.
    fn arith(&mut self, key: Vec<u8>, param: IncrementParam, expiration: u32, now: u64, up: bool) -> (r:
        StorageResult<u64>)
        requires
            old(self).wf(),
            old(self)@.next_cas < u64::MAX,
        ensures
            final(self).wf(),
            (final(self)@, r) == spec_arith(
                old(self)@,
                key@,
                param.delta,
                param.value,
                expiration,
                now,
                up,
            ),
    {
        match self.get_by_key(&key, now) {
            Some(Record::Value(_)) => Err(StorageError::NotFound),
            Some(Record::Counter(d)) => {
                let stepped = if up {
                    d.value.wrapping_add(param.delta)
                } else if param.delta > d.value {
                    0
                } else {
                    d.value - param.delta
                };
                let rec = Record::Counter(
                    CounterData { header: d.header, value: stepped, delta: param.delta },
                );
                self.put_fresh(key, rec, now);
                Ok(stepped)
            },
            None => {
                if key.len() > MAX_KEY_LEN {
                    return Err(StorageError::KeyTooLarge);
                }
                let rec = Record::Counter(
                    CounterData {
                        header: Header { timestamp: 0, cas: 0, flags: 0, expiration },
                        value: param.value,
                        delta: param.delta,
                    },
                );
                self.put_fresh(key, rec, now);
                Ok(param.value)
            },
        }
    }

    /// Removes the live record under `key`; an absent or expired key reports
    /// `NotFound`, and an expired record is still evicted.
    pub fn delete(&mut self, key: &Vec<u8>, now: u64) -> (r: StorageResult<()>)
        requires
            old(self).wf(),
        ensures
            final(self).wf(),
            (final(self)@, r) == spec_delete(old(self)@, key@, now),
    {
        proof {
            lemma_wf_remove(self@, key@);
        }
        match self.get_by_key(key, now) {
            None => {
                self.evict_if_expired(key, now);
                Err(StorageError::NotFound)
            },
            Some(_) => {
                table_remove(&mut self.memory, key);
                Ok(())
            },
        }
    }

    /// Removes every record as one logical event.
    pub fn flush(&mut self)
        requires
            old(self).wf(),
        ensures
            final(self).wf(),
            final(self)@ == (StorageModel {
                entries: Map::<Seq<u8>, RecordModel>::empty(),
                next_cas: old(self)@.next_cas,
            }),
    {
        table_clear(&mut self.memory);
        proof {
            assert(self@.entries =~= Map::<Seq<u8>, RecordModel>::empty());
        }
    }

    /// Rewrites the expiration of a live record, stamping the time but
    /// keeping value, flags and token; an absent or expired key reports
    /// `NotFound`.
    pub fn touch(&mut self, key: &Vec<u8>, expiration: u32, now: u64) -> (r: StorageResult<()>)
        requires
            old(self).wf(),
        ensures
            final(self).wf(),
            (final(self)@, r) == spec_touch(old(self)@, key@, expiration, now),
    {
        match self.get_by_key(key, now) {
            None => {
                self.evict_if_expired(key, now);
                Err(StorageError::NotFound)
            },
            Some(stored) => {
                proof {
                    lemma_wf_keep_token(
                        self@,
                        key@,
                        spec_touch(self@, key@, expiration, now).0.entries[key@],
                    );
                }
                let touched = match stored {
                    Record::Value(d) => Record::Value(
                        ValueData {
                            header: Header {
                                timestamp: now,
                                cas: d.header.cas,
                                flags: d.header.flags,
                                expiration,
                            },
                            value: d.value,
                        },
                    ),
                    Record::Counter(d) => Record::Counter(
                        CounterData {
                            header: Header {
                                timestamp: now,
                                cas: d.header.cas,
                                flags: d.header.flags,
                                expiration,
                            },
                            value: d.value,
                            delta: d.delta,
                        },
                    ),
                };
                table_insert(&mut self.memory, key, touched);
                Ok(())
            },
        }
    }
}


/// Key isolation: storing under two different keys never lets one key's
/// record shadow the other's — after storing `r1` under `a` and then `r2`
/// under `b`, `a` still holds `r1`'s payload and `b` holds `r2`'s.
pub proof fn lemma_key_isolation(
    s: StorageModel,
    a: Seq<u8>,
    b: Seq<u8>,
    r1: RecordModel,
    r2: RecordModel,
    now: u64,
)
    requires
        spec_wf(s),
        a != b,
        a.len() <= MAX_KEY_LEN,
        b.len() <= MAX_KEY_LEN,
    ensures
        ({
            let s1 = spec_set(s, a, r1, now).0;
            let s2 = spec_set(s1, b, r2, now).0;
            &&& s2.entries[a] == spec_stamp(r1, now, s.next_cas)
            &&& s2.entries[b] == spec_stamp(r2, now, s1.next_cas)
        }),
{
}

/// Compare-and-swap semantics: `cas` succeeds exactly when a live record
/// exists under the key and its stored token equals the caller's.
pub proof fn lemma_cas_succeeds_iff(
    s: StorageModel,
    key: Seq<u8>,
    r: RecordModel,
    token: u64,
    now: u64,
)
    ensures
        (spec_cas(s, key, r, token, now).1 is Ok) <==> (spec_live(s, key, now) && rec_header(
            s.entries[key],
        ).cas == token),
{
}

/// Token freshness: any of the four token-issuing mutations that succeeds on
/// a stored key leaves a compare-and-swap token different from the one the
/// key held before.
pub proof fn lemma_mutation_changes_token(
    s: StorageModel,
    key: Seq<u8>,
    r: RecordModel,
    token: u64,
    now: u64,
)
    requires
        spec_wf(s),
        s.entries.contains_key(key),
    ensures
        ({
            let (s2, res) = spec_set(s, key, r, now);
            res is Ok ==> rec_header(s2.entries[key]).cas != rec_header(s.entries[key]).cas
        }),
        ({
            let (s2, res) = spec_add(s, key, r, now);
            res is Ok ==> rec_header(s2.entries[key]).cas != rec_header(s.entries[key]).cas
        }),
        ({
            let (s2, res) = spec_replace(s, key, r, now);
            res is Ok ==> rec_header(s2.entries[key]).cas != rec_header(s.entries[key]).cas
        }),
        ({
            let (s2, res) = spec_cas(s, key, r, token, now);
            res is Ok ==> rec_header(s2.entries[key]).cas != rec_header(s.entries[key]).cas
        }),
{
    assert(s.entries.contains_key(key));
    assert(0 < rec_header(s.entries[key]).cas < s.next_cas);
}

/// Expiration: a stored record whose nonzero expiration has passed is absent
/// to a read and reported `NotFound` by replace, append and compare-and-swap,
/// though it was never deleted.
pub proof fn lemma_expired_record_absent(
    s: StorageModel,
    key: Seq<u8>,
    r: RecordModel,
    more: Seq<u8>,
    token: u64,
    now: u64,
)
    requires
        s.entries.contains_key(key),
        rec_header(s.entries[key]).expiration != 0,
        now > rec_header(s.entries[key]).expiration,
    ensures
        spec_lookup(s, key, now) is None,
        spec_replace(s, key, r, now).1 == Err::<u64, StorageError>(StorageError::NotFound),
        spec_splice(s, key, more, now, true).1 == Err::<u64, StorageError>(StorageError::NotFound),
        spec_cas(s, key, r, token, now).1 == Err::<u64, StorageError>(StorageError::NotFound),
{
}

/// `n` increments by one, applied one after another in any interleaving of
/// callers the engine serializes.
pub open spec fn spec_iter_increment(s: StorageModel, key: Seq<u8>, n: nat, now: u64) -> StorageModel
    decreases n,
{
    if n == 0 {
        s
    } else {
        spec_arith(spec_iter_increment(s, key, (n - 1) as nat, now), key, 1, 0, 0, now, true).0
    }
}

/// No lost updates: `n` increments of one against a live counter holding `v`
/// leave it at exactly `v + n`, as long as neither the counter value nor the
/// token counter overflows.
pub proof fn lemma_increments_accumulate(
    s: StorageModel,
    key: Seq<u8>,
    n: nat,
    v: u64,
    now: u64,
)
    requires
        spec_wf(s),
        spec_live(s, key, now),
        s.entries[key] matches RecordModel::Counter { value, .. } && value == v,
        v + n <= u64::MAX,
        s.next_cas + n <= u64::MAX,
    ensures
        ({
            let s2 = spec_iter_increment(s, key, n, now);
            &&& spec_wf(s2)
            &&& spec_live(s2, key, now)
            &&& (s2.entries[key] matches RecordModel::Counter { value, .. } && value == v + n)
            &&& s2.next_cas == s.next_cas + n
        }),
    decreases n,
{
    if n > 0 {
        lemma_increments_accumulate(s, key, (n - 1) as nat, v, now);
        let s1 = spec_iter_increment(s, key, (n - 1) as nat, now);
        let stored = s1.entries[key];
        assert(vstd::wrapping::u64_specs::wrapping_add(rec_value(stored), 1) == rec_value(stored)
            + 1);
        lemma_wf_put_fresh(s1, key, spec_arith(s1, key, 1, 0, 0, now, true).0.entries[key]);
    }
}

/// The numeric value of a counter record (zero for a value record, which
/// holds no number).
pub open spec fn rec_value(r: RecordModel) -> u64 {
    match r {
        RecordModel::Counter { value, .. } => value,
        RecordModel::Value { .. } => 0,
    }
}

} // verus!
