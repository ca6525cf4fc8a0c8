//! The content-addressed result cache: entries keyed by the pair of content
//! hash and parameter hash, each holding the path of the cached artifact and
//! a recency timestamp. A hit refreshes the timestamp; an insert beyond
//! capacity evicts entries with the oldest timestamps, never the entry just
//! written. The caller computes the hashes and supplies the clock; the index
//! file itself is read and written through the codec at the bottom of this
//! module, and an index that cannot be read is treated as empty.
use vstd::prelude::*;

use crate::json::{JsonV, JsonValue};
use crate::str_eq;

verus! {

/// One cached transcription result.
#[derive(Debug)]
pub struct WhisperCacheEntry {
    pub audio_hash: String,
    pub params_hash: String,
    pub response_path: String,
    pub timestamp: u64,
}

pub struct WhisperCacheEntryV {
    pub audio_hash: Seq<char>,
    pub params_hash: Seq<char>,
    pub response_path: Seq<char>,
    pub timestamp: u64,
}

impl View for WhisperCacheEntry {
    type V = WhisperCacheEntryV;

    open spec fn view(&self) -> WhisperCacheEntryV {
        WhisperCacheEntryV {
            audio_hash: self.audio_hash@,
            params_hash: self.params_hash@,
            response_path: self.response_path@,
            timestamp: self.timestamp,
        }
    }
}

impl WhisperCacheEntry {
    /// A copy with the same view.
    pub fn snapshot(&self) -> (r: Self)
        ensures
            r@ == self@,
    {
        WhisperCacheEntry {
            audio_hash: self.audio_hash.clone(),
            params_hash: self.params_hash.clone(),
            response_path: self.response_path.clone(),
            timestamp: self.timestamp,
        }
    }
}

/// The on-disk shape of the cache: the bare list of entries.
#[derive(Debug)]
pub struct WhisperCacheIndex {
    pub entries: Vec<WhisperCacheEntry>,
}

pub open spec fn entries_view(s: Seq<WhisperCacheEntry>) -> Seq<WhisperCacheEntryV> {
    Seq::new(s.len(), |i: int| s[i]@)
}

pub open spec fn key_is(e: WhisperCacheEntryV, ah: Seq<char>, ph: Seq<char>) -> bool {
    e.audio_hash == ah && e.params_hash == ph
}

pub open spec fn contains_key(s: Seq<WhisperCacheEntryV>, ah: Seq<char>, ph: Seq<char>) -> bool {
    exists|i: int| 0 <= i < s.len() && key_is(#[trigger] s[i], ah, ph)
}

pub open spec fn index_of_key(s: Seq<WhisperCacheEntryV>, ah: Seq<char>, ph: Seq<char>) -> int {
    choose|i: int| 0 <= i < s.len() && key_is(#[trigger] s[i], ah, ph)
}

/// The entry under a key (meaningful only where `contains_key`).
pub open spec fn entry_for(
    s: Seq<WhisperCacheEntryV>,
    ah: Seq<char>,
    ph: Seq<char>,
) -> WhisperCacheEntryV {
    s[index_of_key(s, ah, ph)]
}

/// No key occurs twice.
pub open spec fn unique_keys(s: Seq<WhisperCacheEntryV>) -> bool {
    forall|i: int, j: int|
        0 <= i < j < s.len() ==> !(key_is(
            #[trigger] s[i],
            #[trigger] s[j].audio_hash,
            s[j].params_hash,
        ))
}

pub open spec fn value_in(s: Seq<WhisperCacheEntryV>, e: WhisperCacheEntryV) -> bool {
    exists|i: int| 0 <= i < s.len() && #[trigger] s[i] == e
}

pub open spec fn spec_new_entry(
    ah: Seq<char>,
    ph: Seq<char>,
    path: Seq<char>,
    now: u64,
) -> WhisperCacheEntryV {
    WhisperCacheEntryV { audio_hash: ah, params_hash: ph, response_path: path, timestamp: now }
}

/// What an insert leaves behind: the new entry present under its key; every
/// other surviving entry taken unchanged from before; keys still unique; any
/// entry dropped no younger than any entry kept (the eviction is
/// least-recently-used); and the length cut to capacity, except that the
/// entry just written always survives.
pub open spec fn insert_post(
    old_s: Seq<WhisperCacheEntryV>,
    new_s: Seq<WhisperCacheEntryV>,
    cap: int,
    ah: Seq<char>,
    ph: Seq<char>,
    path: Seq<char>,
    now: u64,
) -> bool {
    let ne = spec_new_entry(ah, ph, path, now);
    let after_len: int = if contains_key(old_s, ah, ph) {
        old_s.len() as int
    } else {
        old_s.len() as int + 1
    };
    &&& unique_keys(new_s)
    &&& contains_key(new_s, ah, ph)
    &&& entry_for(new_s, ah, ph) == ne
    &&& forall|i: int|
        0 <= i < new_s.len() && !key_is(#[trigger] new_s[i], ah, ph) ==> value_in(old_s, new_s[i])
    &&& forall|i: int, j: int|
        (0 <= i < old_s.len() && !key_is(#[trigger] old_s[i], ah, ph) && !value_in(
            new_s,
            old_s[i],
        ) && 0 <= j < new_s.len() && !key_is(#[trigger] new_s[j], ah, ph)) ==> old_s[i].timestamp
            <= new_s[j].timestamp
    &&& new_s.len() == if after_len <= cap {
        after_len
    } else if cap >= 1 {
        cap
    } else {
        1int
    }
}

/// The live cache: the entries and the configured capacity.
pub struct ResultCache {
    entries: Vec<WhisperCacheEntry>,
    capacity: usize,
}

impl ResultCache {
    pub closed spec fn view_entries(&self) -> Seq<WhisperCacheEntryV> {
        entries_view(self.entries@)
    }

    pub closed spec fn spec_capacity(&self) -> int {
        self.capacity as int
    }

    pub open spec fn wf(&self) -> bool {
        unique_keys(self.view_entries())
    }

    /// An empty cache with the given capacity.
    pub fn new(capacity: usize) -> (r: Self)
        ensures
            r.wf(),
            r.view_entries().len() == 0,
            r.spec_capacity() == capacity,
    {
        let r = ResultCache { entries: Vec::new(), capacity };
        proof {
            assert(r.view_entries() =~= Seq::<WhisperCacheEntryV>::empty());
        }
        r
    }

    pub fn len(&self) -> (r: usize)
        ensures
            r == self.view_entries().len(),
    {
        self.entries.len()
    }

    pub fn capacity(&self) -> (r: usize)
        ensures
            r == self.spec_capacity(),
    {
        self.capacity
    }

    fn find(&self, ah: &str, ph: &str) -> (r: Option<usize>)
        ensures
            match r {
                Some(i) => i < self.view_entries().len() && key_is(
                    self.view_entries()[i as int],
                    ah@,
                    ph@,
                ),
                None => !contains_key(self.view_entries(), ah@, ph@),
            },
    {
        let mut i: usize = 0;
        while i < self.entries.len()
            invariant
                i <= self.entries@.len(),
                self.view_entries().len() == self.entries@.len(),
                forall|k: int|
                    0 <= k < i ==> !key_is(#[trigger] self.view_entries()[k], ah@, ph@),
            decreases self.entries@.len() - i,
        {
            if str_eq(self.entries[i].audio_hash.as_str(), ah) && str_eq(
                self.entries[i].params_hash.as_str(),
                ph,
            ) {
                return Some(i);
            }
            i += 1;
        }
        None
    }

    /// A hit hands back the cached artifact and refreshes the entry's
    /// timestamp to `now`; the caller treats the artifact as a fresh
    /// computation. A miss leaves the cache as it was.
    pub fn lookup(&mut self, ah: &str, ph: &str, now: u64) -> (r: Option<WhisperCacheEntry>)
        requires
            old(self).wf(),
        ensures
            final(self).wf(),
            final(self).spec_capacity() == old(self).spec_capacity(),
            (r is Some) == contains_key(old(self).view_entries(), ah@, ph@),
            r matches Some(e) ==> {
                let k = index_of_key(old(self).view_entries(), ah@, ph@);
                &&& e@ == WhisperCacheEntryV {
                    timestamp: now,
                    ..entry_for(old(self).view_entries(), ah@, ph@)
                }
                &&& final(self).view_entries() == old(self).view_entries().update(k, e@)
            },
            r is None ==> final(self).view_entries() == old(self).view_entries(),
    {
        let ghost prev = self.view_entries();
        match self.find(ah, ph) {
            Some(i) => {
                proof {
                    let k = index_of_key(prev, ah@, ph@);
                    assert(key_is(prev[k], ah@, ph@));
                    assert(k == i as int);
                }
                let mut e = self.entries.remove(i);
                e.timestamp = now;
                let out = e.snapshot();
                self.entries.insert(i, e);
                proof {
                    assert(self.view_entries() =~= prev.update(i as int, out@));
                    assert forall|m: int, n: int|
                        0 <= m < n < self.view_entries().len() implies !(key_is(
                        #[trigger] self.view_entries()[m],
                        #[trigger] self.view_entries()[n].audio_hash,
                        self.view_entries()[n].params_hash,
                    )) by {
                        assert(key_is(self.view_entries()[m], prev[m].audio_hash, prev[m].params_hash));
                        assert(key_is(self.view_entries()[n], prev[n].audio_hash, prev[n].params_hash));
                    }
                }
                Some(out)
            },
            None => {
                proof {
                    assert(self.view_entries() =~= prev);
                }
                None
            },
        }
    }

    fn min_other(&self, ah: &str, ph: &str) -> (r: Option<usize>)
        ensures
            match r {
                Some(k) => k < self.view_entries().len() && !key_is(
                    self.view_entries()[k as int],
                    ah@,
                    ph@,
                ) && forall|j: int|
                    0 <= j < self.view_entries().len() && !key_is(
                        #[trigger] self.view_entries()[j],
                        ah@,
                        ph@,
                    ) ==> self.view_entries()[k as int].timestamp <= self.view_entries()[j].timestamp,
                None => forall|j: int|
                    0 <= j < self.view_entries().len() ==> key_is(
                        #[trigger] self.view_entries()[j],
                        ah@,
                        ph@,
                    ),
            },
    {
        let mut best: Option<usize> = None;
        let mut i: usize = 0;
        while i < self.entries.len()
            invariant
                i <= self.entries@.len(),
                self.view_entries().len() == self.entries@.len(),
                match best {
                    Some(k) => k < i && !key_is(self.view_entries()[k as int], ah@, ph@)
                        && forall|j: int|
                        0 <= j < i && !key_is(#[trigger] self.view_entries()[j], ah@, ph@)
                            ==> self.view_entries()[k as int].timestamp
                            <= self.view_entries()[j].timestamp,
                    None => forall|j: int|
                        0 <= j < i ==> key_is(#[trigger] self.view_entries()[j], ah@, ph@),
                },
            decreases self.entries@.len() - i,
        {
            let same = str_eq(self.entries[i].audio_hash.as_str(), ah) && str_eq(
                self.entries[i].params_hash.as_str(),
                ph,
            );
            if !same {
                let better = match best {
                    Some(k) => self.entries[i].timestamp < self.entries[k].timestamp,
                    None => true,
                };
                if better {
                    best = Some(i);
                }
            }
            i += 1;
        }
        best
    }

    /// Writes the artifact under its key, replacing any earlier entry with
    /// that key, then evicts least-recently-used entries until the cache is
    /// back under capacity — exactly `insert_post`.
    pub fn insert(&mut self, ah: &str, ph: &str, path: &str, now: u64)
        requires
            old(self).wf(),
        ensures
            final(self).wf(),
            final(self).spec_capacity() == old(self).spec_capacity(),
            insert_post(
                old(self).view_entries(),
                final(self).view_entries(),
                old(self).spec_capacity(),
                ah@,
                ph@,
                path@,
                now,
            ),
    {
        let ghost old_s = self.view_entries();
        let ghost ne = spec_new_entry(ah@, ph@, path@, now);
        // Replace any earlier entry with this key.
        match self.find(ah, ph) {
            Some(i) => {
                self.entries.remove(i);
                proof {
                    assert(self.view_entries() =~= old_s.remove(i as int));
                    assert forall|m: int|
                        0 <= m < self.view_entries().len() implies value_in(
                        old_s,
                        #[trigger] self.view_entries()[m],
                    ) && !key_is(self.view_entries()[m], ah@, ph@) by {
                        let m0 = if m < i as int {
                            m
                        } else {
                            m + 1
                        };
                        assert(old_s[m0] == self.view_entries()[m]);
                        if key_is(old_s[m0], ah@, ph@) {
                            assert(key_is(old_s[i as int], old_s[m0].audio_hash, old_s[m0].params_hash));
                        }
                    }
                    assert forall|m: int, n: int|
                        0 <= m < n < self.view_entries().len() implies !(key_is(
                        #[trigger] self.view_entries()[m],
                        #[trigger] self.view_entries()[n].audio_hash,
                        self.view_entries()[n].params_hash,
                    )) by {
                        let m0 = if m < i as int { m } else { m + 1 };
                        let n0 = if n < i as int { n } else { n + 1 };
                        assert(self.view_entries()[m] == old_s[m0]);
                        assert(self.view_entries()[n] == old_s[n0]);
                    }
                    assert forall|m: int|
                        0 <= m < old_s.len() && !key_is(#[trigger] old_s[m], ah@, ph@) implies
                        value_in(self.view_entries(), old_s[m]) by {
                        assert(key_is(old_s[i as int], ah@, ph@));
                        assert(m != i as int);
                        let m2 = if m < i as int { m } else { m - 1 };
                        assert(self.view_entries()[m2] == old_s[m]);
                    }
                }
            },
            None => {
                proof {
                    assert forall|m: int|
                        0 <= m < old_s.len() && !key_is(#[trigger] old_s[m], ah@, ph@) implies
                        value_in(self.view_entries(), old_s[m]) by {
                        assert(self.view_entries()[m] == old_s[m]);
                    }
                }
            },
        }
        let ghost mid = self.view_entries();
        proof {
            assert forall|m: int|
                0 <= m < mid.len() implies value_in(old_s, #[trigger] mid[m]) && !key_is(
                mid[m],
                ah@,
                ph@,
            ) by {
                if mid == old_s {
                    assert(old_s[m] == mid[m]);
                }
            }
            assert(mid.len() + 1 == if contains_key(old_s, ah@, ph@) {
                old_s.len() as int
            } else {
                old_s.len() as int + 1
            });
        }
        self.entries.push(
            WhisperCacheEntry {
                audio_hash: String::from_str(ah),
                params_hash: String::from_str(ph),
                response_path: String::from_str(path),
                timestamp: now,
            },
        );
        let ghost after = self.view_entries();
        proof {
            assert(after =~= mid.push(ne));
            assert forall|m: int, n: int|
                0 <= m < n < after.len() implies !(key_is(
                #[trigger] after[m],
                #[trigger] after[n].audio_hash,
                after[n].params_hash,
            )) by {
                if n < after.len() - 1 {
                    assert(after[m] == mid[m]);
                    assert(after[n] == mid[n]);
                } else {
                    assert(after[m] == mid[m]);
                    assert(after[n] == ne);
                }
            }
            assert forall|m: int| 0 <= m < mid.len() implies value_in(after, #[trigger] mid[m]) by {
                assert(after[m] == mid[m]);
            }
        }
        // Evict until back under capacity; the entry just written survives.
        loop
            invariant
                self.spec_capacity() == old(self).spec_capacity(),
                unique_keys(self.view_entries()),
                ne == spec_new_entry(ah@, ph@, path@, now),
                self.view_entries().len() >= 1,
                self.view_entries()[self.view_entries().len() - 1] == ne,
                forall|m: int|
                    0 <= m < mid.len() ==> value_in(old_s, #[trigger] mid[m]) && !key_is(
                        mid[m],
                        ah@,
                        ph@,
                    ),
                mid.len() + 1 == if contains_key(old_s, ah@, ph@) {
                    old_s.len() as int
                } else {
                    old_s.len() as int + 1
                },
                after == mid.push(ne),
                forall|j: int|
                    0 <= j < self.view_entries().len() - 1 ==> !key_is(
                        #[trigger] self.view_entries()[j],
                        ah@,
                        ph@,
                    ) && value_in(mid, self.view_entries()[j]),
                forall|i: int, j: int|
                    (0 <= i < mid.len() && !value_in(self.view_entries(), #[trigger] mid[i]) && 0
                        <= j < self.view_entries().len() - 1) ==> mid[i].timestamp <= (
                    #[trigger] self.view_entries()[j]).timestamp,
                self.view_entries().len() == after.len() || self.view_entries().len()
                    >= self.spec_capacity(),
                self.view_entries().len() <= after.len(),
            ensures
                self.view_entries().len() == if after.len() <= self.spec_capacity() {
                    after.len() as int
                } else if self.spec_capacity() >= 1 {
                    self.spec_capacity()
                } else {
                    1int
                },
            decreases self.view_entries().len(),
        {
            if self.entries.len() <= self.capacity {
                proof {
                    let len = self.view_entries().len() as int;
                    let cap = self.spec_capacity();
                    if after.len() <= cap {
                        assert(len == after.len());
                    } else {
                        assert(len == cap);
                        assert(cap >= 1);
                    }
                }
                break;
            }
            let victim = match self.min_other(ah, ph) {
                Some(k) => k,
                None => {
                    proof {
                        let len = self.view_entries().len() as int;
                        if len >= 2 {
                            assert(!key_is(self.view_entries()[0], ah@, ph@));
                            assert(key_is(self.view_entries()[0], ah@, ph@));
                        }
                        assert(len == 1);
                        assert(self.spec_capacity() == 0);
                        assert(after.len() >= 1);
                    }
                    break;
                },
            };
            let ghost cur = self.view_entries();
            self.entries.remove(victim);
            proof {
                assert(self.view_entries() =~= cur.remove(victim as int));
                assert(key_is(ne, ah@, ph@));
                assert(victim < cur.len() - 1);
                assert forall|m: int, n: int|
                    0 <= m < n < self.view_entries().len() implies !(key_is(
                    #[trigger] self.view_entries()[m],
                    #[trigger] self.view_entries()[n].audio_hash,
                    self.view_entries()[n].params_hash,
                )) by {
                    let m0 = if m < victim as int { m } else { m + 1 };
                    let n0 = if n < victim as int { n } else { n + 1 };
                    assert(self.view_entries()[m] == cur[m0]);
                    assert(self.view_entries()[n] == cur[n0]);
                }
                assert(self.view_entries()[self.view_entries().len() - 1] == cur[cur.len() - 1]);
                assert forall|j: int|
                    0 <= j < self.view_entries().len() - 1 implies !key_is(
                    #[trigger] self.view_entries()[j],
                    ah@,
                    ph@,
                ) && value_in(mid, self.view_entries()[j]) by {
                    let j0 = if j < victim as int { j } else { j + 1 };
                    assert(self.view_entries()[j] == cur[j0]);
                }
                assert forall|i: int, j: int|
                    (0 <= i < mid.len() && !value_in(self.view_entries(), #[trigger] mid[i]) && 0
                        <= j < self.view_entries().len() - 1) implies mid[i].timestamp <= (
                #[trigger] self.view_entries()[j]).timestamp by {
                    let j0 = if j < victim as int { j } else { j + 1 };
                    assert(self.view_entries()[j] == cur[j0]);
                    assert(!key_is(cur[j0], ah@, ph@));
                    if value_in(cur, mid[i]) {
                        let w = choose|w: int| 0 <= w < cur.len() && cur[w] == mid[i];
                        if w == victim as int {
                            assert(cur[victim as int].timestamp <= cur[j0].timestamp);
                        } else {
                            let w2 = if w < victim as int { w } else { w - 1 };
                            assert(self.view_entries()[w2] == cur[w]);
                            assert(value_in(self.view_entries(), mid[i]));
                        }
                    } else {
                        assert(mid[i].timestamp <= cur[j0].timestamp);
                    }
                }
            }
        }
        proof {
            let fin = self.view_entries();
            let k = fin.len() - 1;
            assert(key_is(fin[k], ah@, ph@));
            assert(contains_key(fin, ah@, ph@));
            let k2 = index_of_key(fin, ah@, ph@);
            assert(0 <= k2 < fin.len() && key_is(fin[k2], ah@, ph@));
            if k2 != k {
                assert(!key_is(fin[k2], ah@, ph@));
            }
            assert(entry_for(fin, ah@, ph@) == ne);
            assert forall|i: int|
                0 <= i < fin.len() && !key_is(#[trigger] fin[i], ah@, ph@) implies value_in(
                old_s,
                fin[i],
            ) by {
                assert(i < fin.len() - 1);
                assert(value_in(mid, fin[i]));
                let w = choose|w: int| 0 <= w < mid.len() && mid[w] == fin[i];
                assert(value_in(old_s, mid[w]));
            }
            assert forall|i: int, j: int|
                (0 <= i < old_s.len() && !key_is(#[trigger] old_s[i], ah@, ph@) && !value_in(
                    fin,
                    old_s[i],
                ) && 0 <= j < fin.len() && !key_is(#[trigger] fin[j], ah@, ph@)) implies old_s[i].timestamp
                <= fin[j].timestamp by {
                assert(j < fin.len() - 1);
                assert(value_in(mid, old_s[i]));
                let w = choose|w: int| 0 <= w < mid.len() && mid[w] == old_s[i];
                assert(!value_in(fin, mid[w]));
                assert(mid[w].timestamp <= fin[j].timestamp);
            }
        }
    }
}

/// What a parsed document must hold to be one index entry.
pub open spec fn spec_centry_of(v: JsonV) -> Option<WhisperCacheEntryV> {
    match v {
        JsonV::Obj(fs) => match (
            crate::types::spec_req_str(fs, "audioHash"@),
            crate::types::spec_req_str(fs, "paramsHash"@),
            crate::types::spec_req_str(fs, "responsePath"@),
            crate::types::spec_req_u64(fs, "timestamp"@),
        ) {
            (Some(a), Some(p), Some(r), Some(t)) => Some(
                WhisperCacheEntryV {
                    audio_hash: a,
                    params_hash: p,
                    response_path: r,
                    timestamp: t,
                },
            ),
            _ => None,
        },
        _ => None,
    }
}

pub open spec fn spec_centries_seq(a: Seq<JsonV>) -> Option<Seq<WhisperCacheEntryV>>
    decreases a.len(),
{
    if a.len() == 0 {
        Some(Seq::empty())
    } else {
        match (spec_centries_seq(a.drop_last()), spec_centry_of(a.last())) {
            (Some(es), Some(e)) => Some(es.push(e)),
            _ => None,
        }
    }
}

/// What a parsed document must hold to be the index: an object whose
/// `entries` field is an array of well-formed entries.
pub open spec fn spec_index_of_doc(v: JsonV) -> Option<Seq<WhisperCacheEntryV>> {
    match v {
        JsonV::Obj(fs) => match crate::json::spec_obj_lookup(fs, "entries"@) {
            Some(JsonV::Arr(a)) => spec_centries_seq(a),
            _ => None,
        },
        _ => None,
    }
}

fn centry_from_json(v: &JsonValue) -> (r: Option<WhisperCacheEntry>)
    ensures
        match r {
            Some(e) => spec_centry_of(v@) == Some(e@),
            None => spec_centry_of(v@) is None,
        },
{
    let fs = match v.as_obj() {
        Some(o) => o,
        None => { return None; },
    };
    let audio_hash = match crate::types::get_req_str(fs, "audioHash") {
        Some(x) => x,
        None => { return None; },
    };
    let params_hash = match crate::types::get_req_str(fs, "paramsHash") {
        Some(x) => x,
        None => { return None; },
    };
    let response_path = match crate::types::get_req_str(fs, "responsePath") {
        Some(x) => x,
        None => { return None; },
    };
    let timestamp = match crate::types::get_req_u64(fs, "timestamp") {
        Some(x) => x,
        None => { return None; },
    };
    Some(WhisperCacheEntry { audio_hash, params_hash, response_path, timestamp })
}

proof fn lemma_centries_seq_step(a: Seq<JsonV>, j: int)
    requires
        0 <= j < a.len(),
    ensures
        spec_centries_seq(a.take(j + 1)) == match (
            spec_centries_seq(a.take(j)),
            spec_centry_of(a[j]),
        ) {
            (Some(es), Some(e)) => Some(es.push(e)),
            _ => None::<Seq<WhisperCacheEntryV>>,
        },
{
    assert(a.take(j + 1).drop_last() =~= a.take(j));
    assert(a.take(j + 1).last() == a[j]);
}

proof fn lemma_centries_seq_prefix_none(a: Seq<JsonV>, k: int)
    requires
        0 <= k <= a.len(),
        spec_centries_seq(a.take(k)) is None,
    ensures
        spec_centries_seq(a) is None,
    decreases a.len() - k,
{
    if k == a.len() {
        assert(a.take(k) =~= a);
    } else {
        lemma_centries_seq_step(a, k);
        lemma_centries_seq_prefix_none(a, k + 1);
    }
}

/// Reads the index out of a parsed document, exactly `spec_index_of_doc`.
pub fn index_from_json(v: &JsonValue) -> (r: Option<WhisperCacheIndex>)
    ensures
        match r {
            Some(ix) => spec_index_of_doc(v@) == Some(entries_view(ix.entries@)),
            None => spec_index_of_doc(v@) is None,
        },
{
    broadcast use crate::json::lemma_jview_seq_index, crate::json::lemma_jview_seq_len;

    let fs = match v.as_obj() {
        Some(o) => o,
        None => { return None; },
    };
    let a = match crate::json::obj_get(fs, "entries") {
        Some(f) => match f.as_arr() {
            Some(a) => a,
            None => { return None; },
        },
        None => { return None; },
    };
    let ghost va = crate::json::jview_seq(a@);
    let mut out: Vec<WhisperCacheEntry> = Vec::new();
    let mut j: usize = 0;
    proof {
        assert(va.take(0) =~= Seq::<JsonV>::empty());
        assert(entries_view(out@) =~= Seq::<WhisperCacheEntryV>::empty());
    }
    while j < a.len()
        invariant
            j <= a@.len(),
            va == crate::json::jview_seq(a@),
            va.len() == a@.len(),
            spec_index_of_doc(v@) == spec_centries_seq(va),
            spec_centries_seq(va.take(j as int)) == Some(entries_view(out@)),
        decreases a@.len() - j,
    {
        let e = match centry_from_json(&a[j]) {
            Some(e) => e,
            None => {
                proof {
                    crate::json::lemma_jview_seq_index(a@, j as int);
                    lemma_centries_seq_step(va, j as int);
                    lemma_centries_seq_prefix_none(va, j + 1 as int);
                }
                return None;
            },
        };
        let ghost prev = out@;
        out.push(e);
        proof {
            crate::json::lemma_jview_seq_index(a@, j as int);
            lemma_centries_seq_step(va, j as int);
            assert(entries_view(out@) =~= entries_view(prev).push(out@.last()@));
        }
        j += 1;
    }
    proof {
        assert(va.take(va.len() as int) =~= va);
    }
    Some(WhisperCacheIndex { entries: out })
}

/// What the on-disk text must hold to decode as the index.
pub open spec fn spec_decode_index(s: Seq<char>) -> Option<Seq<WhisperCacheEntryV>> {
    match crate::json::spec_parse(s) {
        Some(v) => spec_index_of_doc(v),
        None => None,
    }
}

/// Decodes the on-disk index text, exactly `spec_decode_index`. Total: any
/// malformed or truncated index yields `None` and never a panic, so a
/// corrupt file can only ever cost the cached history, not the process.
pub fn decode_index(text: &str) -> (r: Option<WhisperCacheIndex>)
    ensures
        match r {
            Some(ix) => spec_decode_index(text@) == Some(entries_view(ix.entries@)),
            None => spec_decode_index(text@) is None,
        },
{
    match crate::json::parse_json(text) {
        Some(v) => index_from_json(&v),
        None => None,
    }
}

/// The document the index writes.
pub open spec fn spec_centry_doc(e: WhisperCacheEntryV) -> JsonV {
    JsonV::Obj(
        seq![
            ("audioHash"@, JsonV::Str(e.audio_hash)),
            ("paramsHash"@, JsonV::Str(e.params_hash)),
            ("responsePath"@, JsonV::Str(e.response_path)),
            ("timestamp"@, JsonV::Num(
                crate::json::JsonNum { neg: false, mantissa: e.timestamp, scale: 0 },
            )),
        ],
    )
}

pub open spec fn spec_centries_doc(s: Seq<WhisperCacheEntryV>) -> Seq<JsonV> {
    Seq::new(s.len(), |i: int| spec_centry_doc(s[i]))
}

pub open spec fn spec_index_doc(s: Seq<WhisperCacheEntryV>) -> JsonV {
    JsonV::Obj(seq![("entries"@, JsonV::Arr(spec_centries_doc(s)))])
}

impl WhisperCacheIndex {
    /// The index's text, exactly the text of `spec_index_doc` — what the
    /// write-through persistence puts on disk after every mutation.
    pub fn encode(&self) -> (r: String)
        ensures
            r@ == crate::json::spec_json_text(spec_index_doc(entries_view(self.entries@))),
    {
        broadcast use crate::json::lemma_jview_seq_index, crate::json::lemma_jview_seq_len;

        let mut arr: Vec<JsonValue> = Vec::new();
        let mut j: usize = 0;
        proof {
            assert(crate::json::jview_seq(arr@) =~= Seq::<JsonV>::empty());
        }
        while j < self.entries.len()
            invariant
                j <= self.entries@.len(),
                crate::json::jview_seq(arr@) =~= spec_centries_doc(
                    entries_view(self.entries@),
                ).take(j as int),
            decreases self.entries@.len() - j,
        {
            let e = &self.entries[j];
            let fields = vec![
                (String::from_str("audioHash"), JsonValue::Str(e.audio_hash.clone())),
                (String::from_str("paramsHash"), JsonValue::Str(e.params_hash.clone())),
                (String::from_str("responsePath"), JsonValue::Str(e.response_path.clone())),
                (String::from_str("timestamp"), JsonValue::Num(
                    crate::json::JsonNum { neg: false, mantissa: e.timestamp, scale: 0 },
                )),
            ];
            let doc = JsonValue::Obj(fields);
            proof {
                crate::json::lemma_jview_fields_index(doc->Obj_0@, 0);
                crate::json::lemma_jview_fields_index(doc->Obj_0@, 1);
                crate::json::lemma_jview_fields_index(doc->Obj_0@, 2);
                crate::json::lemma_jview_fields_index(doc->Obj_0@, 3);
                assert(crate::json::jview_fields(doc->Obj_0@) =~= spec_centry_doc(
                    self.entries@[j as int]@,
                )->Obj_0);
            }
            let ghost prev = arr@;
            arr.push(doc);
            proof {
                assert(arr@.drop_last() =~= prev);
                assert(crate::json::jview_seq(arr@) == crate::json::jview_seq(
                    arr@.drop_last(),
                ).push(crate::json::jview(arr@.last())));
                assert(crate::json::jview_seq(arr@) =~= spec_centries_doc(
                    entries_view(self.entries@),
                ).take(j + 1 as int));
            }
            j += 1;
        }
        let top = vec![(String::from_str("entries"), JsonValue::Arr(arr))];
        let doc = JsonValue::Obj(top);
        proof {
            assert(spec_centries_doc(entries_view(self.entries@)).take(
                self.entries@.len() as int,
            ) =~= spec_centries_doc(entries_view(self.entries@)));
            crate::json::lemma_jview_fields_index(doc->Obj_0@, 0);
            assert(crate::json::jview_fields(doc->Obj_0@) =~= spec_index_doc(
                entries_view(self.entries@),
            )->Obj_0);
        }
        crate::json::encode_json(&doc)
    }
}

/// First-occurrence deduplication: an entry is kept exactly when no earlier
/// entry carries its key.
pub open spec fn spec_dedup(s: Seq<WhisperCacheEntryV>) -> Seq<WhisperCacheEntryV>
    decreases s.len(),
{
    if s.len() == 0 {
        Seq::empty()
    } else {
        let d = spec_dedup(s.drop_last());
        if contains_key(d, s.last().audio_hash, s.last().params_hash) {
            d
        } else {
            d.push(s.last())
        }
    }
}

fn index_contains_key(v: &Vec<WhisperCacheEntry>, ah: &str, ph: &str) -> (r: bool)
    ensures
        r == contains_key(entries_view(v@), ah@, ph@),
{
    let mut i: usize = 0;
    while i < v.len()
        invariant
            i <= v@.len(),
            forall|k: int| 0 <= k < i ==> !key_is(#[trigger] entries_view(v@)[k], ah@, ph@),
        decreases v@.len() - i,
    {
        if str_eq(v[i].audio_hash.as_str(), ah) && str_eq(v[i].params_hash.as_str(), ph) {
            proof {
                assert(key_is(entries_view(v@)[i as int], ah@, ph@));
            }
            return true;
        }
        i += 1;
    }
    false
}

/// Builds the live cache from what startup read off disk. An index that
/// could not be read starts an empty cache — never a startup failure — and
/// a readable one is kept entry for entry, first occurrence winning where a
/// key repeats.
pub fn cache_from_index(idx: Option<WhisperCacheIndex>, capacity: usize) -> (r: ResultCache)
    ensures
        r.wf(),
        r.spec_capacity() == capacity,
        idx matches Some(ix) ==> r.view_entries() == spec_dedup(entries_view(ix.entries@)),
        idx is None ==> r.view_entries().len() == 0,
{
    let ix = match idx {
        Some(ix) => ix,
        None => { return ResultCache::new(capacity); },
    };
    let ghost src = entries_view(ix.entries@);
    let mut out: Vec<WhisperCacheEntry> = Vec::new();
    let mut i: usize = 0;
    proof {
        assert(src.take(0) =~= Seq::<WhisperCacheEntryV>::empty());
        assert(entries_view(out@) =~= Seq::<WhisperCacheEntryV>::empty());
    }
    while i < ix.entries.len()
        invariant
            i <= ix.entries@.len(),
            src == entries_view(ix.entries@),
            src.len() == ix.entries@.len(),
            entries_view(out@) == spec_dedup(src.take(i as int)),
            unique_keys(entries_view(out@)),
        decreases ix.entries@.len() - i,
    {
        let e = &ix.entries[i];
        proof {
            assert(src.take(i + 1 as int).drop_last() =~= src.take(i as int));
            assert(src.take(i + 1 as int).last() == src[i as int]);
        }
        if !index_contains_key(&out, e.audio_hash.as_str(), e.params_hash.as_str()) {
            let ghost prev = entries_view(out@);
            out.push(e.snapshot());
            proof {
                assert(entries_view(out@) =~= prev.push(src[i as int]));
                assert forall|m: int, n: int|
                    0 <= m < n < entries_view(out@).len() implies !(key_is(
                    #[trigger] entries_view(out@)[m],
                    #[trigger] entries_view(out@)[n].audio_hash,
                    entries_view(out@)[n].params_hash,
                )) by {
                    if n < entries_view(out@).len() - 1 {
                        assert(entries_view(out@)[m] == prev[m]);
                        assert(entries_view(out@)[n] == prev[n]);
                    } else {
                        assert(entries_view(out@)[m] == prev[m]);
                        assert(entries_view(out@)[n] == src[i as int]);
                        assert(!contains_key(prev, src[i as int].audio_hash, src[i as int].params_hash));
                    }
                }
            }
        }
        i += 1;
    }
    proof {
        assert(src.take(src.len() as int) =~= src);
    }
    let r = ResultCache { entries: out, capacity };
    r
}

/// Two requests with the same content hash and the same parameter hash are
/// served one artifact: once the first has stored its result, the entry
/// under that key holds exactly the stored artifact path, so the second
/// request's lookup returns the byte-identical payload instead of repeating
/// the external work.
pub proof fn lemma_identical_request_reuses_artifact(
    old_s: Seq<WhisperCacheEntryV>,
    new_s: Seq<WhisperCacheEntryV>,
    cap: int,
    ah: Seq<char>,
    ph: Seq<char>,
    path: Seq<char>,
    now: u64,
)
    requires
        insert_post(old_s, new_s, cap, ah, ph, path, now),
    ensures
        contains_key(new_s, ah, ph),
        entry_for(new_s, ah, ph).response_path == path,
        entry_for(new_s, ah, ph).timestamp == now,
{
}

/// Eviction is by recency: an insert at capacity drops only entries whose
/// timestamp is no younger than that of every other entry kept, and never
/// the entry just written.
pub proof fn lemma_eviction_prefers_oldest(
    old_s: Seq<WhisperCacheEntryV>,
    new_s: Seq<WhisperCacheEntryV>,
    cap: int,
    ah: Seq<char>,
    ph: Seq<char>,
    path: Seq<char>,
    now: u64,
    i: int,
    j: int,
)
    requires
        insert_post(old_s, new_s, cap, ah, ph, path, now),
        0 <= i < old_s.len(),
        !key_is(old_s[i], ah, ph),
        !value_in(new_s, old_s[i]),
        0 <= j < new_s.len(),
        !key_is(new_s[j], ah, ph),
    ensures
        old_s[i].timestamp <= new_s[j].timestamp,
        contains_key(new_s, ah, ph),
{
}

} // verus!
