//! The key-value cache that plugins see: one bucket of entries that expire.
//! Every operation first drops the entries whose time has come. Instants
//! and durations are milliseconds.

use vstd::prelude::*;
use vstd::string::StrSliceExecFns;
use crate::sequences::{filter_of_nothing, filter_one_more, filter_origin};

verus! {

/// How long a preset entry lives unless the builder is told otherwise: a day.
pub const DEFAULT_TTL: u64 = 86400000;

/// How long an entry lives after it is set: an hour.
pub const SET_TTL: u64 = 3600000;

/// Why the cache refused an operation.
#[derive(Debug, PartialEq, Eq)]
pub enum Error {
    NoSuchStore,
    AccessDenied,
    Other(String),
}

/// One entry of the cache.
#[derive(Debug, PartialEq, Eq)]
pub struct CacheEntry {
    pub key: String,
    pub value: Vec<u8>,
    pub expires_at: u64,
}

/// A handle on the one bucket.
#[derive(Debug, PartialEq, Eq)]
pub struct Bucket {
    pub identifier: String,
}

/// Collects what a cache starts with.
#[derive(Debug, PartialEq, Eq)]
pub struct WasiKeyValueCtxBuilder {
    pub in_memory_data: Vec<(String, Vec<u8>)>,
    pub ttl: u64,
}

/// The cache: entries with distinct keys, kept in a list so that they can
/// be walked to drop what has expired and to list the keys.
#[derive(Debug, PartialEq, Eq)]
pub struct WasiKeyValueCtx {
    pub entries: Vec<CacheEntry>,
}

/// One page of keys.
#[derive(Debug, PartialEq, Eq)]
pub struct KeyResponse {
    pub keys: Vec<String>,
    pub cursor: Option<u64>,
}

/// No two entries have the same key.
pub open spec fn keys_distinct(entries: Seq<CacheEntry>) -> bool {
    forall|i: int, j: int|
        0 <= i < j < entries.len() ==> (#[trigger] entries[i]).key@ != (#[trigger] entries[j]).key@
}

/// Whether an entry is still alive at `now`.
pub open spec fn alive(entry: CacheEntry, now: u64) -> bool {
    entry.expires_at > now
}

/// The test for being alive at `now`.
pub open spec fn alive_at(now: u64) -> spec_fn(CacheEntry) -> bool {
    |entry: CacheEntry| alive(entry, now)
}

/// The entries that are alive at `now`.
pub open spec fn swept(entries: Seq<CacheEntry>, now: u64) -> Seq<CacheEntry> {
    entries.filter(alive_at(now))
}

/// Whether an entry has the key.
pub open spec fn holds_key(entries: Seq<CacheEntry>, key: Seq<char>) -> bool {
    exists|i: int| 0 <= i < entries.len() && (#[trigger] entries[i]).key@ == key
}

/// The instant `span` after `now`, held to the range of instants.
pub open spec fn expiry(now: u64, span: u64) -> u64 {
    if now + span > u64::MAX {
        u64::MAX
    } else {
        (now + span) as u64
    }
}

/// The keys of the entries, in their order.
pub open spec fn keys_of(entries: Seq<CacheEntry>) -> Seq<Seq<char>> {
    entries.map_values(|entry: CacheEntry| entry.key@)
}

/// The texts of the strings, in their order.
pub open spec fn texts_of(strings: Seq<String>) -> Seq<Seq<char>> {
    strings.map_values(|text: String| text@)
}

/// The start of a page: the cursor, or the beginning, held to the number of keys.
pub open spec fn page_start(cursor: Option<u64>, count: int) -> int {
    match cursor {
        None => 0,
        Some(at) => if at <= count {
            at as int
        } else {
            count
        },
    }
}

/// What the entries hold: for each key its value and the instant at which
/// it expires.
pub open spec fn held(entries: Seq<CacheEntry>) -> Map<Seq<char>, (Seq<u8>, u64)> {
    Map::new(
        |key: Seq<char>| holds_key(entries, key),
        |key: Seq<char>|
            {
                let i = choose|i: int| 0 <= i < entries.len() && (#[trigger] entries[i]).key@ == key;
                (entries[i].value@, entries[i].expires_at)
            },
    )
}

/// What is left of a cache at `now`: the keys that have not expired.
pub open spec fn live(cache: Map<Seq<char>, (Seq<u8>, u64)>, now: u64) -> Map<
    Seq<char>,
    (Seq<u8>, u64),
> {
    Map::new(
        |key: Seq<char>| cache.dom().contains(key) && cache[key].1 > now,
        |key: Seq<char>| cache[key],
    )
}

/// An entry is held under its key.
pub proof fn held_at(entries: Seq<CacheEntry>, i: int)
    requires
        keys_distinct(entries),
        0 <= i < entries.len(),
    ensures
        held(entries).dom().contains(entries[i].key@),
        held(entries)[entries[i].key@] == (entries[i].value@, entries[i].expires_at),
{
    let key = entries[i].key@;
    assert(holds_key(entries, key));
    let j = choose|j: int| 0 <= j < entries.len() && (#[trigger] entries[j]).key@ == key;
    if j < i {
        assert(entries[j].key@ != entries[i].key@);
    } else if i < j {
        assert(entries[i].key@ != entries[j].key@);
    }
}

/// Replacing the entry of a key holds the new value under the key.
pub proof fn held_after_update(entries: Seq<CacheEntry>, i: int, entry: CacheEntry)
    requires
        keys_distinct(entries),
        0 <= i < entries.len(),
        entries[i].key@ == entry.key@,
    ensures
        keys_distinct(entries.update(i, entry)),
        held(entries.update(i, entry)) == held(entries).insert(
            entry.key@,
            (entry.value@, entry.expires_at),
        ),
{
    let after = entries.update(i, entry);
    assert forall|a: int, b: int| 0 <= a < b < after.len() implies (#[trigger] after[a]).key@ != (
    #[trigger] after[b]).key@ by {
        assert(after[a].key@ == entries[a].key@);
        assert(after[b].key@ == entries[b].key@);
    }
    let wanted = held(entries).insert(entry.key@, (entry.value@, entry.expires_at));
    assert forall|key: Seq<char>| held(after).dom().contains(key) <==> wanted.dom().contains(
        key,
    ) by {
        if holds_key(after, key) {
            let j = choose|j: int| 0 <= j < after.len() && (#[trigger] after[j]).key@ == key;
            assert(entries[j].key@ == key);
        }
        if holds_key(entries, key) {
            let j = choose|j: int| 0 <= j < entries.len() && (#[trigger] entries[j]).key@ == key;
            assert(after[j].key@ == key);
        }
        if key == entry.key@ {
            assert(after[i].key@ == key);
        }
    }
    assert forall|key: Seq<char>| held(after).dom().contains(key) implies held(after)[key]
        == wanted[key] by {
        let j = choose|j: int| 0 <= j < after.len() && (#[trigger] after[j]).key@ == key;
        held_at(after, j);
        if key != entry.key@ {
            assert(j != i);
            assert(after[j] == entries[j]);
            held_at(entries, j);
        } else {
            held_at(after, i);
        }
    }
    assert(held(after) =~= wanted);
}

/// Appending an entry with a new key holds its value under the key.
pub proof fn held_after_push(entries: Seq<CacheEntry>, entry: CacheEntry)
    requires
        keys_distinct(entries),
        !holds_key(entries, entry.key@),
    ensures
        keys_distinct(entries.push(entry)),
        held(entries.push(entry)) == held(entries).insert(
            entry.key@,
            (entry.value@, entry.expires_at),
        ),
{
    let after = entries.push(entry);
    let last = entries.len() as int;
    assert forall|a: int, b: int| 0 <= a < b < after.len() implies (#[trigger] after[a]).key@ != (
    #[trigger] after[b]).key@ by {
        assert(after[a] == entries[a]);
        if b < last {
            assert(after[b] == entries[b]);
        }
    }
    let wanted = held(entries).insert(entry.key@, (entry.value@, entry.expires_at));
    assert forall|key: Seq<char>| held(after).dom().contains(key) <==> wanted.dom().contains(
        key,
    ) by {
        if holds_key(after, key) {
            let j = choose|j: int| 0 <= j < after.len() && (#[trigger] after[j]).key@ == key;
            if j < last {
                assert(entries[j].key@ == key);
            }
        }
        if holds_key(entries, key) {
            let j = choose|j: int| 0 <= j < entries.len() && (#[trigger] entries[j]).key@ == key;
            assert(after[j].key@ == key);
        }
        if key == entry.key@ {
            assert(after[last].key@ == key);
        }
    }
    assert forall|key: Seq<char>| held(after).dom().contains(key) implies held(after)[key]
        == wanted[key] by {
        let j = choose|j: int| 0 <= j < after.len() && (#[trigger] after[j]).key@ == key;
        held_at(after, j);
        if key != entry.key@ {
            assert(j < last);
            assert(after[j] == entries[j]);
            held_at(entries, j);
        } else {
            held_at(after, last);
        }
    }
    assert(held(after) =~= wanted);
}

/// Removing an entry removes its key and nothing else.
pub proof fn held_after_remove(entries: Seq<CacheEntry>, i: int)
    requires
        keys_distinct(entries),
        0 <= i < entries.len(),
    ensures
        keys_distinct(entries.remove(i)),
        held(entries.remove(i)) == held(entries).remove(entries[i].key@),
{
    removal_keeps_keys_distinct(entries, i);
    let after = entries.remove(i);
    let gone = entries[i].key@;
    let wanted = held(entries).remove(gone);
    assert forall|key: Seq<char>| held(after).dom().contains(key) <==> wanted.dom().contains(
        key,
    ) by {
        if holds_key(after, key) {
            let j = choose|j: int| 0 <= j < after.len() && (#[trigger] after[j]).key@ == key;
            let x = if j < i { j } else { j + 1 };
            assert(after[j] == entries[x]);
            assert(entries[x].key@ == key);
        }
        if holds_key(entries, key) && key != gone {
            let x = choose|x: int| 0 <= x < entries.len() && (#[trigger] entries[x]).key@ == key;
            let j = if x < i { x } else { x - 1 };
            assert(after[j] == entries[x]);
            assert(after[j].key@ == key);
        }
    }
    assert forall|key: Seq<char>| held(after).dom().contains(key) implies held(after)[key]
        == wanted[key] by {
        let j = choose|j: int| 0 <= j < after.len() && (#[trigger] after[j]).key@ == key;
        let x = if j < i { j } else { j + 1 };
        assert(after[j] == entries[x]);
        held_at(after, j);
        held_at(entries, x);
    }
    assert(held(after) =~= wanted);
}

/// Sweeping keeps exactly the keys that have not expired, with what they held.
pub proof fn held_after_sweep(entries: Seq<CacheEntry>, now: u64)
    requires
        keys_distinct(entries),
    ensures
        keys_distinct(swept(entries, now)),
        held(swept(entries, now)) == live(held(entries), now),
{
    let after = swept(entries, now);
    let origin = filter_origin(entries, alive_at(now));
    assert forall|a: int, b: int| 0 <= a < b < after.len() implies (#[trigger] after[a]).key@ != (
    #[trigger] after[b]).key@ by {
        assert(after[a] == entries[origin[a]]);
        assert(after[b] == entries[origin[b]]);
        assert(origin[a] < origin[b]);
    }
    let wanted = live(held(entries), now);
    assert forall|key: Seq<char>| held(after).dom().contains(key) <==> wanted.dom().contains(
        key,
    ) by {
        if holds_key(after, key) {
            let a = choose|a: int| 0 <= a < after.len() && (#[trigger] after[a]).key@ == key;
            assert(after[a] == entries[origin[a]]);
            held_at(entries, origin[a]);
            assert(alive(entries[origin[a]], now));
        }
        if holds_key(entries, key) && held(entries)[key].1 > now {
            let j = choose|j: int| 0 <= j < entries.len() && (#[trigger] entries[j]).key@ == key;
            held_at(entries, j);
            assert(alive_at(now)(entries[j]));
            let a = choose|a: int| 0 <= a < origin.len() && #[trigger] origin[a] == j;
            assert(after[a] == entries[j]);
            assert(after[a].key@ == key);
        }
    }
    assert forall|key: Seq<char>| held(after).dom().contains(key) implies held(after)[key]
        == wanted[key] by {
        let a = choose|a: int| 0 <= a < after.len() && (#[trigger] after[a]).key@ == key;
        assert(after[a] == entries[origin[a]]);
        held_at(after, a);
        held_at(entries, origin[a]);
    }
    assert(held(after) =~= wanted);
}

/// Whether one of the first `upto` preset pairs has the key.
pub open spec fn preset_before(data: Seq<(String, Vec<u8>)>, upto: int, key: Seq<char>) -> bool {
    exists|j: int| 0 <= j < upto && (#[trigger] data[j]).0@ == key
}

/// Whether pair `j` is the last of the first `upto` preset pairs with the
/// key of `entry`, and `entry` holds its value.
pub open spec fn is_last_preset(
    data: Seq<(String, Vec<u8>)>,
    upto: int,
    j: int,
    entry: CacheEntry,
) -> bool {
    &&& 0 <= j < upto
    &&& data[j].0@ == entry.key@
    &&& data[j].1@ == entry.value@
    &&& forall|later: int| j < later < upto ==> (#[trigger] data[later]).0@ != entry.key@
}

/// Whether `entry` holds what was preset last for its key among the first
/// `upto` pairs.
pub open spec fn last_preset_before(
    data: Seq<(String, Vec<u8>)>,
    upto: int,
    entry: CacheEntry,
) -> bool {
    exists|j: int| is_last_preset(data, upto, j, entry)
}

/// Removing one entry leaves the keys distinct.
pub proof fn removal_keeps_keys_distinct(entries: Seq<CacheEntry>, i: int)
    requires
        keys_distinct(entries),
        0 <= i < entries.len(),
    ensures
        keys_distinct(entries.remove(i)),
        forall|j: int|
            0 <= j < entries.remove(i).len() ==> (#[trigger] entries.remove(i)[j]).key@
                != entries[i].key@,
{
    let after = entries.remove(i);
    assert forall|a: int, b: int| 0 <= a < b < after.len() implies (#[trigger] after[a]).key@ != (
    #[trigger] after[b]).key@ by {
        let x = if a < i { a } else { a + 1 };
        let y = if b < i { b } else { b + 1 };
        assert(after[a] == entries[x]);
        assert(after[b] == entries[y]);
    }
    assert forall|j: int| 0 <= j < after.len() implies (#[trigger] after[j]).key@
        != entries[i].key@ by {
        let x = if j < i { j } else { j + 1 };
        assert(after[j] == entries[x]);
    }
}

/// A copy of the bytes.
pub fn copy_bytes(bytes: &Vec<u8>) -> (copy: Vec<u8>)
    ensures
        copy@ == bytes@,
{
    let mut copy: Vec<u8> = Vec::new();
    let mut i: usize = 0;
    while i < bytes.len()
        invariant
            i <= bytes@.len(),
            copy@ == bytes@.take(i as int),
        decreases bytes@.len() - i,
    {
        copy.push(bytes[i]);
        assert(bytes@.take(i + 1) =~= bytes@.take(i as int).push(bytes@[i as int]));
        i += 1;
    }
    assert(bytes@.take(bytes@.len() as int) =~= bytes@);
    copy
}

/// The instant `span` after `now`, held to the range of instants.
pub fn expires_after(now: u64, span: u64) -> (at: u64)
    ensures
        at == expiry(now, span),
{
    if now > u64::MAX - span {
        u64::MAX
    } else {
        now + span
    }
}

/// Drops the entries whose time has come at `now`.
pub fn cleanup_expired_entries(data: &mut Vec<CacheEntry>, now: u64)
    ensures
        final(data)@ == swept(old(data)@, now),
        keys_distinct(old(data)@) ==> keys_distinct(final(data)@),
        forall|key: Seq<char>| holds_key(final(data)@, key) ==> holds_key(old(data)@, key),
{
    let ghost before = data@;
    let ghost mut seen: int = 0;
    let mut i: usize = 0;
    proof {
        filter_of_nothing(before, alive_at(now));
        assert(data@ =~= before.take(0).filter(alive_at(now)) + before.skip(0));
        assert forall|a: int| 0 <= a < data@.len() implies before.contains(#[trigger] data@[a]) by {
            assert(before[a] == data@[a]);
        }
    }
    while i < data.len()
        invariant
            0 <= seen <= before.len(),
            i <= data@.len(),
            i == before.take(seen).filter(alive_at(now)).len(),
            data@ == before.take(seen).filter(alive_at(now)) + before.skip(seen),
            keys_distinct(before) ==> keys_distinct(data@),
            forall|a: int| 0 <= a < data@.len() ==> before.contains(#[trigger] data@[a]),
        decreases data@.len() - i,
    {
        let ghost kept = before.take(seen).filter(alive_at(now));
        let ghost current = data@;
        proof {
            assert(seen < before.len());
            assert(data@[i as int] == before.skip(seen)[0]);
            filter_one_more(before, seen, alive_at(now));
        }
        if data[i].expires_at > now {
            proof {
                assert(current =~= kept.push(before[seen]) + before.skip(seen + 1));
                seen = seen + 1;
            }
            i += 1;
        } else {
            let gone = data.remove(i);
            proof {
                assert(data@ =~= kept + before.skip(seen + 1));
                if keys_distinct(before) {
                    removal_keeps_keys_distinct(current, i as int);
                }
                assert forall|a: int| 0 <= a < data@.len() implies before.contains(
                    #[trigger] data@[a],
                ) by {
                    let x = if a < i { a } else { a + 1 };
                    assert(data@[a] == current[x]);
                    assert(before.contains(current[x]));
                }
                seen = seen + 1;
            }
        }
    }
    proof {
        assert(seen == before.len()) by {
            if seen < before.len() {
                assert(data@.len() == i + (before.len() - seen));
            }
        }
        assert(before.take(seen) =~= before);
        assert(data@ =~= before.filter(alive_at(now)));
        assert forall|key: Seq<char>| holds_key(data@, key) implies holds_key(before, key) by {
            let a = choose|a: int| 0 <= a < data@.len() && (#[trigger] data@[a]).key@ == key;
            assert(before.contains(data@[a]));
            let b = choose|b: int| 0 <= b < before.len() && before[b] == data@[a];
            assert(before[b].key@ == key);
        }
    }
}

impl WasiKeyValueCtxBuilder {
    /// A builder with nothing preset and a time to live of one day.
    pub fn new() -> (builder: Self)
        ensures
            builder.ttl == DEFAULT_TTL,
            builder.in_memory_data@.len() == 0,
    {
        WasiKeyValueCtxBuilder { in_memory_data: Vec::new(), ttl: DEFAULT_TTL }
    }

    /// Sets how long the preset entries live.
    pub fn ttl(self, duration: u64) -> (builder: Self)
        ensures
            builder.ttl == duration,
            builder.in_memory_data == self.in_memory_data,
    {
        WasiKeyValueCtxBuilder { in_memory_data: self.in_memory_data, ttl: duration }
    }

    /// Presets the entries of the cache, in place of any preset before.
    pub fn in_memory_data(self, data: Vec<(String, Vec<u8>)>) -> (builder: Self)
        ensures
            builder.in_memory_data == data,
            builder.ttl == self.ttl,
    {
        WasiKeyValueCtxBuilder { in_memory_data: data, ttl: self.ttl }
    }

    /// Builds the cache at `now`: every preset key is held once, with the
    /// value that was preset last for it, and lives for the time to live.
    pub fn build(self, now: u64) -> (ctx: WasiKeyValueCtx)
        ensures
            ctx.well_formed(),
            ctx.entries@.len() <= self.in_memory_data@.len(),
            forall|i: int|
                0 <= i < ctx.entries@.len() ==> (#[trigger] ctx.entries@[i]).expires_at == expiry(
                    now,
                    self.ttl,
                ),
            forall|key: Seq<char>|
                holds_key(ctx.entries@, key) <==> preset_before(
                    self.in_memory_data@,
                    self.in_memory_data@.len() as int,
                    key,
                ),
            forall|i: int|
                0 <= i < ctx.entries@.len() ==> last_preset_before(
                    self.in_memory_data@,
                    self.in_memory_data@.len() as int,
                    #[trigger] ctx.entries@[i],
                ),
    {
        let expires_at = expires_after(now, self.ttl);
        let mut ctx = WasiKeyValueCtx { entries: Vec::new() };
        let mut k: usize = 0;
        let data = self.in_memory_data;
        while k < data.len()
            invariant
                k <= data@.len(),
                expires_at == expiry(now, self.ttl),
                ctx.well_formed(),
                ctx.entries@.len() <= k,
                forall|i: int|
                    0 <= i < ctx.entries@.len() ==> (#[trigger] ctx.entries@[i]).expires_at
                        == expires_at,
                forall|key: Seq<char>|
                    holds_key(ctx.entries@, key) <==> preset_before(data@, k as int, key),
                forall|i: int|
                    0 <= i < ctx.entries@.len() ==> last_preset_before(
                        data@,
                        k as int,
                        #[trigger] ctx.entries@[i],
                    ),
            decreases data@.len() - k,
        {
            let ghost before = ctx.entries@;
            let key = data[k].0.clone();
            let value = copy_bytes(&data[k].1);
            ctx.put(key, value, expires_at);
            proof {
                let after = ctx.entries@;
                let fresh_key = data@[k as int].0@;
                assert forall|other: Seq<char>| holds_key(after, other) <==> preset_before(
                    data@,
                    k + 1,
                    other,
                ) by {
                    if holds_key(after, other) {
                        if other == fresh_key {
                            assert(data@[k as int].0@ == other);
                        } else {
                            assert(holds_key(before, other));
                            assert(preset_before(data@, k as int, other));
                            let j = choose|j: int| 0 <= j < k && (#[trigger] data@[j]).0@ == other;
                            assert(0 <= j < k + 1 && data@[j].0@ == other);
                        }
                    }
                    if preset_before(data@, k + 1, other) {
                        let j = choose|j: int| 0 <= j < k + 1 && (#[trigger] data@[j]).0@ == other;
                        if other != fresh_key {
                            assert(0 <= j < k && data@[j].0@ == other);
                            assert(preset_before(data@, k as int, other));
                        }
                    }
                }
                assert forall|i: int| 0 <= i < after.len() implies last_preset_before(
                    data@,
                    k + 1,
                    #[trigger] after[i],
                ) by {
                    if after[i].key@ == fresh_key {
                        if holds_key(before, fresh_key) {
                            let at = choose|at: int|
                                0 <= at < before.len() && (#[trigger] before[at]).key@ == fresh_key
                                    && after == before.update(
                                    at,
                                    CacheEntry { key, value, expires_at },
                                );
                            if i != at {
                                assert(after[i] == before[i]);
                                assert(false);
                            }
                        } else {
                            if i < before.len() {
                                assert(after[i] == before[i]);
                                assert(false);
                            }
                        }
                        assert(is_last_preset(data@, k + 1, k as int, after[i]));
                    } else {
                        if holds_key(before, fresh_key) {
                            let at = choose|at: int|
                                0 <= at < before.len() && (#[trigger] before[at]).key@ == fresh_key
                                    && after == before.update(
                                    at,
                                    CacheEntry { key, value, expires_at },
                                );
                            assert(i != at);
                            assert(after[i] == before[i]);
                        } else {
                            assert(i < before.len());
                            assert(after[i] == before[i]);
                        }
                        assert(last_preset_before(data@, k as int, before[i]));
                        let j = choose|j: int| is_last_preset(data@, k as int, j, before[i]);
                        assert(is_last_preset(data@, k + 1, j, after[i]));
                    }
                }
            }
            k += 1;
        }
        ctx
    }
}

impl View for WasiKeyValueCtx {
    type V = Map<Seq<char>, (Seq<u8>, u64)>;

    /// What the cache holds: for each key its value and the instant at
    /// which it expires.
    open spec fn view(&self) -> Map<Seq<char>, (Seq<u8>, u64)> {
        held(self.entries@)
    }
}

impl WasiKeyValueCtx {
    /// What holds of the cache after every operation.
    pub open spec fn well_formed(&self) -> bool {
        keys_distinct(self.entries@)
    }

    /// Whether no two entries have the same key.
    pub fn is_well_formed(&self) -> (ok: bool)
        ensures
            ok == self.well_formed(),
    {
        let n: usize = self.entries.len();
        let mut i: usize = 0;
        while i < n
            invariant
                i <= n,
                n == self.entries@.len(),
                forall|a: int, b: int|
                    0 <= a < b < i ==> (#[trigger] self.entries@[a]).key@ != (
                    #[trigger] self.entries@[b]).key@,
            decreases n - i,
        {
            let mut j: usize = 0;
            while j < i
                invariant
                    j <= i < n,
                    n == self.entries@.len(),
                    forall|a: int|
                        0 <= a < j ==> (#[trigger] self.entries@[a]).key@
                            != self.entries@[i as int].key@,
                decreases i - j,
            {
                if self.entries[j].key == self.entries[i].key {
                    assert(!keys_distinct(self.entries@)) by {
                        if keys_distinct(self.entries@) {
                            assert(self.entries@[j as int].key@ != self.entries@[i as int].key@);
                        }
                    }
                    return false;
                }
                j += 1;
            }
            i += 1;
        }
        true
    }

    /// A builder with default parameters.
    pub fn builder() -> (builder: WasiKeyValueCtxBuilder)
        ensures
            builder.ttl == DEFAULT_TTL,
            builder.in_memory_data@.len() == 0,
    {
        WasiKeyValueCtxBuilder::new()
    }

    /// Where the entry with the key stands.
    pub fn position(&self, key: &String) -> (found: Option<usize>)
        ensures
            match found {
                Some(i) => i < self.entries@.len() && self.entries@[i as int].key@ == key@,
                None => !holds_key(self.entries@, key@),
            },
    {
        let mut i: usize = 0;
        while i < self.entries.len()
            invariant
                i <= self.entries@.len(),
                forall|j: int| 0 <= j < i ==> (#[trigger] self.entries@[j]).key@ != key@,
            decreases self.entries@.len() - i,
        {
            if self.entries[i].key == *key {
                return Some(i);
            }
            i += 1;
        }
        None
    }

    /// Holds `value` under `key` until `expires_at`, in place of what was
    /// held under the key.
    fn put(&mut self, key: String, value: Vec<u8>, expires_at: u64)
        requires
            old(self).well_formed(),
        ensures
            final(self).well_formed(),
            match holds_key(old(self).entries@, key@) {
                true => exists|i: int|
                    0 <= i < old(self).entries@.len() && (#[trigger] old(self).entries@[i]).key@
                        == key@ && final(self).entries@ == old(self).entries@.update(
                        i,
                        CacheEntry { key, value, expires_at },
                    ),
                false => final(self).entries@ == old(self).entries@.push(
                    CacheEntry { key, value, expires_at },
                ),
            },
            forall|other: Seq<char>|
                holds_key(final(self).entries@, other) <==> (other == key@ || holds_key(
                    old(self).entries@,
                    other,
                )),
            final(self)@ == old(self)@.insert(key@, (value@, expires_at)),
    {
        let ghost before = self.entries@;
        let found = self.position(&key);
        let entry = CacheEntry { key, value, expires_at };
        proof {
            match found {
                Some(i) => held_after_update(before, i as int, entry),
                None => held_after_push(before, entry),
            }
        }
        match found {
            Some(i) => {
                self.entries.set(i, entry);
                proof {
                    let after = self.entries@;
                    assert(holds_key(before, key@));
                    assert forall|a: int, b: int| 0 <= a < b < after.len() implies (
                    #[trigger] after[a]).key@ != (#[trigger] after[b]).key@ by {
                        assert(after[a].key@ == before[a].key@);
                        assert(after[b].key@ == before[b].key@);
                    }
                    assert forall|other: Seq<char>| holds_key(after, other) <==> (other == key@
                        || holds_key(before, other)) by {
                        if holds_key(after, other) {
                            let a = choose|a: int|
                                0 <= a < after.len() && (#[trigger] after[a]).key@ == other;
                            assert(before[a].key@ == other);
                        }
                        if other == key@ {
                            assert(after[i as int].key@ == other);
                        } else if holds_key(before, other) {
                            let a = choose|a: int|
                                0 <= a < before.len() && (#[trigger] before[a]).key@ == other;
                            assert(after[a].key@ == other);
                        }
                    }
                }
            },
            None => {
                self.entries.push(entry);
                proof {
                    let after = self.entries@;
                    assert forall|a: int, b: int| 0 <= a < b < after.len() implies (
                    #[trigger] after[a]).key@ != (#[trigger] after[b]).key@ by {
                        assert(after[a] == before[a]);
                        if b < before.len() {
                            assert(after[b] == before[b]);
                        }
                    }
                    assert forall|other: Seq<char>| holds_key(after, other) <==> (other == key@
                        || holds_key(before, other)) by {
                        if holds_key(after, other) {
                            let a = choose|a: int|
                                0 <= a < after.len() && (#[trigger] after[a]).key@ == other;
                            if a < before.len() {
                                assert(before[a].key@ == other);
                            }
                        }
                        if other == key@ {
                            assert(after[before.len() as int].key@ == other);
                        } else if holds_key(before, other) {
                            let a = choose|a: int|
                                0 <= a < before.len() && (#[trigger] before[a]).key@ == other;
                            assert(after[a].key@ == other);
                        }
                    }
                }
            },
        }
    }

    /// Opens the bucket named `identifier`. Only the bucket with the empty
    /// name exists.
    pub fn open(&self, identifier: String) -> (result: Result<Bucket, Error>)
        ensures
            match result {
                Ok(bucket) => identifier@.len() == 0 && bucket.identifier == identifier,
                Err(error) => identifier@.len() != 0 && error is NoSuchStore,
            },
    {
        if identifier.as_str().unicode_len() == 0 {
            Ok(Bucket { identifier })
        } else {
            Err(Error::NoSuchStore)
        }
    }

    /// The value held under `key` at `now`.
    pub fn get(&mut self, key: &String, now: u64) -> (value: Option<Vec<u8>>)
        requires
            old(self).well_formed(),
        ensures
            final(self).well_formed(),
            final(self).entries@ == swept(old(self).entries@, now),
            final(self)@ == live(old(self)@, now),
            match value {
                Some(bytes) => final(self)@.dom().contains(key@) && final(self)@[key@].0 == bytes@,
                None => !final(self)@.dom().contains(key@),
            },
    {
        proof {
            held_after_sweep(self.entries@, now);
        }
        cleanup_expired_entries(&mut self.entries, now);
        match self.position(key) {
            Some(i) => {
                proof {
                    held_at(self.entries@, i as int);
                }
                Some(copy_bytes(&self.entries[i].value))
            },
            None => None,
        }
    }

    /// Holds `value` under `key` for an hour from `now`.
    pub fn set(&mut self, key: String, value: Vec<u8>, now: u64)
        requires
            old(self).well_formed(),
        ensures
            final(self).well_formed(),
            match holds_key(swept(old(self).entries@, now), key@) {
                true => exists|i: int|
                    0 <= i < swept(old(self).entries@, now).len() && (#[trigger] swept(
                        old(self).entries@,
                        now,
                    )[i]).key@ == key@ && final(self).entries@ == swept(
                        old(self).entries@,
                        now,
                    ).update(i, CacheEntry { key, value, expires_at: expiry(now, SET_TTL) }),
                false => final(self).entries@ == swept(old(self).entries@, now).push(
                    CacheEntry { key, value, expires_at: expiry(now, SET_TTL) },
                ),
            },
            final(self)@ == live(old(self)@, now).insert(key@, (value@, expiry(now, SET_TTL))),
    {
        proof {
            held_after_sweep(self.entries@, now);
        }
        cleanup_expired_entries(&mut self.entries, now);
        let expires_at = expires_after(now, SET_TTL);
        self.put(key, value, expires_at);
    }

    /// Drops what is held under `key`.
    pub fn delete(&mut self, key: &String, now: u64)
        requires
            old(self).well_formed(),
        ensures
            final(self).well_formed(),
            !holds_key(final(self).entries@, key@),
            match holds_key(swept(old(self).entries@, now), key@) {
                true => exists|i: int|
                    0 <= i < swept(old(self).entries@, now).len() && (#[trigger] swept(
                        old(self).entries@,
                        now,
                    )[i]).key@ == key@ && final(self).entries@ == swept(
                        old(self).entries@,
                        now,
                    ).remove(i),
                false => final(self).entries@ == swept(old(self).entries@, now),
            },
            final(self)@ == live(old(self)@, now).remove(key@),
    {
        proof {
            held_after_sweep(self.entries@, now);
        }
        cleanup_expired_entries(&mut self.entries, now);
        let ghost kept = self.entries@;
        match self.position(key) {
            Some(i) => {
                let gone = self.entries.remove(i);
                proof {
                    assert(holds_key(kept, key@));
                    removal_keeps_keys_distinct(kept, i as int);
                    held_after_remove(kept, i as int);
                }
            },
            None => {
                assert(held(kept) =~= held(kept).remove(key@));
            },
        }
    }

    /// Whether something is held under `key` at `now`.
    pub fn has_key(&mut self, key: &String, now: u64) -> (held: bool)
        requires
            old(self).well_formed(),
        ensures
            final(self).well_formed(),
            final(self).entries@ == swept(old(self).entries@, now),
            final(self)@ == live(old(self)@, now),
            held == final(self)@.dom().contains(key@),
    {
        proof {
            held_after_sweep(self.entries@, now);
        }
        cleanup_expired_entries(&mut self.entries, now);
        match self.position(key) {
            Some(i) => {
                assert(holds_key(self.entries@, key@));
                true
            },
            None => false,
        }
    }

    /// The keys held at `now`, from the cursor on. There is no further page.
    pub fn list_keys(&mut self, cursor: Option<u64>, now: u64) -> (page: KeyResponse)
        requires
            old(self).well_formed(),
        ensures
            final(self).well_formed(),
            final(self).entries@ == swept(old(self).entries@, now),
            final(self)@ == live(old(self)@, now),
            page.cursor.is_none(),
            texts_of(page.keys@) == keys_of(final(self).entries@).skip(
                page_start(cursor, final(self).entries@.len() as int),
            ),
    {
        proof {
            held_after_sweep(self.entries@, now);
        }
        cleanup_expired_entries(&mut self.entries, now);
        let n: usize = self.entries.len();
        let start: usize = match cursor {
            None => 0,
            Some(at) => if at <= n as u64 {
                at as usize
            } else {
                n
            },
        };
        let mut keys: Vec<String> = Vec::new();
        let mut i: usize = start;
        proof {
            assert(texts_of(keys@) =~= keys_of(self.entries@).subrange(start as int, i as int));
        }
        while i < n
            invariant
                start <= i <= n,
                n == self.entries@.len(),
                texts_of(keys@) == keys_of(self.entries@).subrange(start as int, i as int),
            decreases n - i,
        {
            let ghost earlier = keys@;
            keys.push(self.entries[i].key.clone());
            proof {
                assert(texts_of(keys@) =~= texts_of(earlier).push(self.entries@[i as int].key@));
                assert(texts_of(keys@) =~= keys_of(self.entries@).subrange(
                    start as int,
                    i + 1,
                ));
            }
            i += 1;
        }
        proof {
            assert(keys_of(self.entries@).subrange(start as int, n as int) =~= keys_of(
                self.entries@,
            ).skip(start as int));
        }
        KeyResponse { keys, cursor: None }
    }
}

} // verus!
