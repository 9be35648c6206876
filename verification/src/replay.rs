//! Durable per-device "last seen" state and the replay/clock-skew guard.
//!
//! The store holds two independent keyed tables with upsert-by-primary-key
//! semantics: `timestamps` (wall-clock and tag-clock of the last accepted
//! token per device) and `restarts` (a reserved restart counter; its schema
//! is kept for forward compatibility, no pipeline step consumes it yet).
//! An absent row reads as the zero record.

use vstd::prelude::*;
use vstd::wrapping::u32_specs;
use vstd::wrapping::u64_specs;

use crate::error::{Error, ErrorKind};

verus! {

/// The per-device replay state: wall clock and tag clock at the last
/// monotonic advance. An absent row is equivalent to the zero record.
#[derive(Clone, Copy, Debug, PartialEq, Eq, Structural)]
pub struct ReplayRecord {
    /// Epoch seconds of the local wall clock.
    pub last_seen_local: u64,
    /// Device-local clock seconds carried by the last accepted token.
    pub last_seen: u32,
}

/// The reserved per-device restart counter. Unused by pipeline logic today;
/// the schema stays for a future rollback-detection feature.
#[derive(Clone, Copy, Debug, PartialEq, Eq, Structural)]
pub struct RestartRecord {
    pub counter: u16,
}

/// The keyed map that a table of rows denotes: a later row with the same key
/// would win, though well-formed tables have unique keys.
pub open spec fn entries_map<R>(s: Seq<(String, R)>) -> Map<Seq<char>, R>
    decreases s.len(),
{
    if s.len() == 0 {
        Map::empty()
    } else {
        entries_map(s.drop_last()).insert(s.last().0@, s.last().1)
    }
}

/// No two rows share a key.
pub open spec fn unique_keys<R>(s: Seq<(String, R)>) -> bool {
    forall|i: int, j: int| 0 <= i < j < s.len() ==> s[i].0@ != s[j].0@
}

proof fn lemma_entries_map_contains<R>(s: Seq<(String, R)>, k: Seq<char>)
    ensures
        entries_map(s).contains_key(k) <==> exists|i: int| 0 <= i < s.len() && s[i].0@ == k,
    decreases s.len(),
{
    if s.len() > 0 {
        lemma_entries_map_contains(s.drop_last(), k);
        if entries_map(s).contains_key(k) && s.last().0@ != k {
            let i = choose|i: int| 0 <= i < s.drop_last().len() && s.drop_last()[i].0@ == k;
            assert(s[i].0@ == k);
        }
        if exists|i: int| 0 <= i < s.len() && s[i].0@ == k {
            let i = choose|i: int| 0 <= i < s.len() && s[i].0@ == k;
            if i < s.len() - 1 {
                assert(s.drop_last()[i].0@ == k);
            }
        }
    }
}

proof fn lemma_entries_map_at<R>(s: Seq<(String, R)>, i: int)
    requires
        unique_keys(s),
        0 <= i < s.len(),
    ensures
        entries_map(s).contains_key(s[i].0@),
        entries_map(s)[s[i].0@] == s[i].1,
    decreases s.len(),
{
    if i == s.len() - 1 {
    } else {
        assert(s.drop_last()[i] == s[i]);
        lemma_entries_map_at(s.drop_last(), i);
        assert(s.last().0@ != s[i].0@);
    }
}

proof fn lemma_entries_map_update<R>(s: Seq<(String, R)>, i: int, p: (String, R))
    requires
        unique_keys(s),
        0 <= i < s.len(),
        p.0@ == s[i].0@,
    ensures
        entries_map(s.update(i, p)) =~= entries_map(s).insert(p.0@, p.1),
        unique_keys(s.update(i, p)),
    decreases s.len(),
{
    let su = s.update(i, p);
    assert(forall|m: int, n: int| 0 <= m < n < su.len() ==> su[m].0@ != su[n].0@);
    if i == s.len() - 1 {
        assert(su.drop_last() =~= s.drop_last());
    } else {
        assert(su.drop_last() =~= s.drop_last().update(i, p));
        lemma_entries_map_update(s.drop_last(), i, p);
        assert(su.last() == s.last());
        assert(s.last().0@ != p.0@);
    }
}

/// The replay store: two keyed tables, each with unique device keys.
pub struct ReplayStore {
    timestamps: Vec<(String, ReplayRecord)>,
    restarts: Vec<(String, RestartRecord)>,
}

/// The record stored under `k`, or the zero record if no row exists.
pub open spec fn record_or_zero(m: Map<Seq<char>, ReplayRecord>, k: Seq<char>) -> ReplayRecord {
    if m.contains_key(k) {
        m[k]
    } else {
        ReplayRecord { last_seen_local: 0, last_seen: 0 }
    }
}

impl ReplayStore {
    /// Both tables are well-formed: one row per device.
    pub closed spec fn inv(&self) -> bool {
        unique_keys(self.timestamps@) && unique_keys(self.restarts@)
    }

    /// The `timestamps` table as a map from device to record.
    pub closed spec fn times(&self) -> Map<Seq<char>, ReplayRecord> {
        entries_map(self.timestamps@)
    }

    /// The `restarts` table as a map from device to record.
    pub closed spec fn restart_counters(&self) -> Map<Seq<char>, RestartRecord> {
        entries_map(self.restarts@)
    }

    /// An empty store.
    pub fn new() -> (s: ReplayStore)
        ensures
            s.inv(),
            s.times() == Map::<Seq<char>, ReplayRecord>::empty(),
            s.restart_counters() == Map::<Seq<char>, RestartRecord>::empty(),
    {
        ReplayStore { timestamps: Vec::new(), restarts: Vec::new() }
    }

    /// Reads the replay record of `device`; an absent row is the zero record.
    pub fn get_times(&self, device: &String) -> (r: ReplayRecord)
        requires
            self.inv(),
        ensures
            r == record_or_zero(self.times(), device@),
    {
        let n = self.timestamps.len();
        let mut i: usize = 0;
        while i < n
            invariant
                self.inv(),
                n == self.timestamps@.len(),
                i <= n,
                forall|j: int| 0 <= j < i ==> self.timestamps@[j].0@ != device@,
            decreases n - i,
        {
            if self.timestamps[i].0.eq(device) {
                proof {
                    lemma_entries_map_at(self.timestamps@, i as int);
                }
                return self.timestamps[i].1;
            }
            i += 1;
        }
        proof {
            lemma_entries_map_contains(self.timestamps@, device@);
        }
        ReplayRecord { last_seen_local: 0, last_seen: 0 }
    }

    /// Upserts the replay record of `device`.
    pub fn store_times(&mut self, device: &String, last_seen_local: u64, last_seen: u32)
        requires
            old(self).inv(),
        ensures
            final(self).inv(),
            final(self).times() == old(self).times().insert(
                device@,
                ReplayRecord { last_seen_local, last_seen },
            ),
            final(self).restart_counters() == old(self).restart_counters(),
    {
        let rec = ReplayRecord { last_seen_local, last_seen };
        let n = self.timestamps.len();
        let mut i: usize = 0;
        while i < n
            invariant
                self.inv(),
                self.timestamps@ == old(self).timestamps@,
                self.restarts@ == old(self).restarts@,
                rec == (ReplayRecord { last_seen_local, last_seen }),
                n == self.timestamps@.len(),
                i <= n,
                forall|j: int| 0 <= j < i ==> self.timestamps@[j].0@ != device@,
            decreases n - i,
        {
            if self.timestamps[i].0.eq(device) {
                let key = self.timestamps[i].0.clone();
                let ghost snap = self.timestamps@;
                let ghost p = (key, rec);
                proof {
                    lemma_entries_map_update(snap, i as int, p);
                }
                self.timestamps[i] = (key, rec);
                return ;
            }
            i += 1;
        }
        let key = device.clone();
        proof {
            lemma_entries_map_contains(self.timestamps@, device@);
            assert(self.timestamps@.push((key, rec)).drop_last() =~= self.timestamps@);
        }
        self.timestamps.push((key, rec));
    }

    /// Reads the reserved restart counter of `device`; absent reads as zero.
    pub fn get_restarts(&self, device: &String) -> (r: RestartRecord)
        requires
            self.inv(),
        ensures
            r == if self.restart_counters().contains_key(device@) {
                self.restart_counters()[device@]
            } else {
                RestartRecord { counter: 0 }
            },
    {
        let n = self.restarts.len();
        let mut i: usize = 0;
        while i < n
            invariant
                self.inv(),
                n == self.restarts@.len(),
                i <= n,
                forall|j: int| 0 <= j < i ==> self.restarts@[j].0@ != device@,
            decreases n - i,
        {
            if self.restarts[i].0.eq(device) {
                proof {
                    lemma_entries_map_at(self.restarts@, i as int);
                }
                return self.restarts[i].1;
            }
            i += 1;
        }
        proof {
            lemma_entries_map_contains(self.restarts@, device@);
        }
        RestartRecord { counter: 0 }
    }

    /// Upserts the reserved restart counter of `device`.
    pub fn store_restarts(&mut self, device: &String, counter: u16)
        requires
            old(self).inv(),
        ensures
            final(self).inv(),
            final(self).restart_counters() == old(self).restart_counters().insert(
                device@,
                RestartRecord { counter },
            ),
            final(self).times() == old(self).times(),
    {
        let rec = RestartRecord { counter };
        let n = self.restarts.len();
        let mut i: usize = 0;
        while i < n
            invariant
                self.inv(),
                self.timestamps@ == old(self).timestamps@,
                self.restarts@ == old(self).restarts@,
                rec == (RestartRecord { counter }),
                n == self.restarts@.len(),
                i <= n,
                forall|j: int| 0 <= j < i ==> self.restarts@[j].0@ != device@,
            decreases n - i,
        {
            if self.restarts[i].0.eq(device) {
                let key = self.restarts[i].0.clone();
                let ghost snap = self.restarts@;
                let ghost p = (key, rec);
                proof {
                    lemma_entries_map_update(snap, i as int, p);
                }
                self.restarts[i] = (key, rec);
                return ;
            }
            i += 1;
        }
        let key = device.clone();
        proof {
            lemma_entries_map_contains(self.restarts@, device@);
            assert(self.restarts@.push((key, rec)).drop_last() =~= self.restarts@);
        }
        self.restarts.push((key, rec));
    }
}

/// The verdict of the replay/clock-skew guard when the skew is tolerable.
#[derive(Clone, Copy, Debug, PartialEq, Eq, Structural)]
pub struct GuardVerdict {
    /// The tag timestamp strictly advanced past the stored one.
    pub fresh: bool,
    /// Wall-clock seconds elapsed since the last monotonic advance.
    pub diff_local: u64,
    /// Tag-clock seconds elapsed since the last monotonic advance.
    pub diff_tag: u32,
}

/// Wall-clock seconds elapsed since the stored record, in wrapping 64-bit
/// arithmetic (a wall clock stepped backwards wraps; it is not guarded).
pub open spec fn spec_diff_local(rec: ReplayRecord, now_wall: u64) -> u64 {
    u64_specs::wrapping_sub(now_wall, rec.last_seen_local)
}

/// Tag-clock seconds elapsed since the stored record, in wrapping 32-bit
/// arithmetic: a tag timestamp below the stored one wraps around, which is
/// the pinned-down behavior near timer rollover.
pub open spec fn spec_diff_tag(rec: ReplayRecord, tag_timestamp: u32) -> u32 {
    u32_specs::wrapping_sub(tag_timestamp, rec.last_seen)
}

/// The absolute difference of two 64-bit values.
pub open spec fn abs_diff_u64(a: u64, b: u64) -> u64 {
    if a >= b {
        (a - b) as u64
    } else {
        (b - a) as u64
    }
}

/// The divergence between locally observed elapsed time and tag-reported
/// elapsed time since the last acceptance.
pub open spec fn spec_skew(rec: ReplayRecord, tag_timestamp: u32, now_wall: u64) -> u64 {
    abs_diff_u64(spec_diff_local(rec, now_wall), spec_diff_tag(rec, tag_timestamp) as u64)
}

/// The `timestamps` table after one guard evaluation: unchanged on a skew
/// reject or a non-advancing timestamp, advanced monotonically otherwise.
pub open spec fn guard_times(
    times: Map<Seq<char>, ReplayRecord>,
    device: Seq<char>,
    tag_timestamp: u32,
    allowed_skew: u32,
    now_wall: u64,
) -> Map<Seq<char>, ReplayRecord> {
    let rec = record_or_zero(times, device);
    if spec_skew(rec, tag_timestamp, now_wall) > allowed_skew {
        times
    } else if tag_timestamp > rec.last_seen {
        times.insert(device, ReplayRecord { last_seen_local: now_wall, last_seen: tag_timestamp })
    } else {
        times
    }
}

/// The replay/clock-skew guard. Reads the device's stored record (absent is
/// the zero record), rejects when the clock skew exceeds the tolerance, and
/// otherwise advances the stored record — only monotonically. A repeated or
/// older timestamp within the tolerance is not itself a rejection; it only
/// stops the store from regressing.
pub fn evaluate(
    store: &mut ReplayStore,
    device: &String,
    tag_timestamp: u32,
    allowed_skew: u32,
    now_wall: u64,
) -> (r: Result<GuardVerdict, Error>)
    requires
        old(store).inv(),
    ensures
        final(store).inv(),
        final(store).times() == guard_times(
            old(store).times(),
            device@,
            tag_timestamp,
            allowed_skew,
            now_wall,
        ),
        final(store).restart_counters() == old(store).restart_counters(),
        ({
            let rec = record_or_zero(old(store).times(), device@);
            let skew = spec_skew(rec, tag_timestamp, now_wall);
            &&& (skew > allowed_skew <==> (r matches Err(e) && e.kind == ErrorKind::Skew))
            &&& r is Err ==> skew > allowed_skew
            &&& skew <= allowed_skew ==> r == Ok::<GuardVerdict, Error>(
                GuardVerdict {
                    fresh: tag_timestamp > rec.last_seen,
                    diff_local: spec_diff_local(rec, now_wall),
                    diff_tag: spec_diff_tag(rec, tag_timestamp),
                },
            )
        }),
{
    let rec = store.get_times(device);
    let diff_local = now_wall.wrapping_sub(rec.last_seen_local);
    let diff_tag = tag_timestamp.wrapping_sub(rec.last_seen);
    let skew = if diff_local >= diff_tag as u64 {
        diff_local - diff_tag as u64
    } else {
        diff_tag as u64 - diff_local
    };
    if skew > allowed_skew as u64 {
        return Err(Error::categorized(ErrorKind::Skew, "time was out of sync".to_owned()));
    }
    if tag_timestamp > rec.last_seen {
        store.store_times(device, now_wall, tag_timestamp);
    }
    Ok(GuardVerdict { fresh: tag_timestamp > rec.last_seen, diff_local, diff_tag })
}

/// The stored tag timestamp never regresses: whatever one guard evaluation
/// does to the `timestamps` table, every device's `last_seen` only increases.
pub proof fn lemma_guard_monotonic(
    times: Map<Seq<char>, ReplayRecord>,
    device: Seq<char>,
    tag_timestamp: u32,
    allowed_skew: u32,
    now_wall: u64,
    d: Seq<char>,
)
    ensures
        record_or_zero(guard_times(times, device, tag_timestamp, allowed_skew, now_wall), d)
            .last_seen >= record_or_zero(times, d).last_seen,
{
}

} // verus!
