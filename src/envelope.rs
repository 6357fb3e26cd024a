//! Envelopes (message metadata) and lists of them keyed by content hash.
use vstd::prelude::*;
use crate::flag::Flags;

verus! {

/// The metadata of one message as one store sees it.
#[derive(Clone, Debug, PartialEq, Eq)]
pub struct Envelope {
    /// The id that the store gave the message; another store gives the same
    /// message another id.
    pub id: String,
    /// A hash of the message content: the same message has the same hash in
    /// every store and in every run.
    pub hash: u64,
    pub flags: Flags,
    pub message_id: String,
    pub sender: String,
    pub subject: String,
    /// Seconds since the Unix epoch.
    pub date: i64,
}

impl Envelope {
    /// A field-by-field copy.
    pub fn duplicate(&self) -> (r: Envelope)
        ensures
            r == *self,
    {
        Envelope {
            id: self.id.clone(),
            hash: self.hash,
            flags: self.flags,
            message_id: self.message_id.clone(),
            sender: self.sender.clone(),
            subject: self.subject.clone(),
            date: self.date,
        }
    }

    /// The same envelope with another flag set.
    pub fn with_flags(&self, flags: Flags) -> (r: Envelope)
        ensures
            r == (Envelope { flags, ..*self }),
    {
        let mut r = self.duplicate();
        r.flags = flags;
        r
    }
}

/// No two envelopes of `s` share a hash.
pub open spec fn unique_hashes(s: Seq<Envelope>) -> bool {
    forall|i: int, j: int|
        0 <= i < s.len() && 0 <= j < s.len() && #[trigger] s[i].hash == #[trigger] s[j].hash
            ==> i == j
}

/// Some envelope of `s` has hash `h`.
pub open spec fn has_hash(s: Seq<Envelope>, h: u64) -> bool {
    exists|i: int| 0 <= i < s.len() && s[i].hash == h
}

/// The envelope of `s` with hash `h` (meaningful when `has_hash(s, h)`).
pub open spec fn by_hash(s: Seq<Envelope>, h: u64) -> Envelope {
    s[choose|i: int| 0 <= i < s.len() && s[i].hash == h]
}

/// What a list says of each message: its hash and its flags.
pub open spec fn flag_map(s: Seq<Envelope>) -> Map<u64, Flags> {
    Map::new(|h: u64| has_hash(s, h), |h: u64| by_hash(s, h).flags)
}

/// In a list without repeated hashes, an envelope is the one its hash finds.
pub proof fn lemma_by_hash(s: Seq<Envelope>, i: int)
    requires
        unique_hashes(s),
        0 <= i < s.len(),
    ensures
        has_hash(s, s[i].hash),
        by_hash(s, s[i].hash) == s[i],
        flag_map(s).contains_key(s[i].hash),
        flag_map(s)[s[i].hash] == s[i].flags,
{
    let h = s[i].hash;
    assert(has_hash(s, h));
    let k = choose|k: int| 0 <= k < s.len() && s[k].hash == h;
    assert(s[k].hash == s[i].hash);
}

/// Adding an envelope with a new hash adds its entry to the flag map.
pub proof fn lemma_push(s: Seq<Envelope>, e: Envelope)
    requires
        unique_hashes(s),
        !has_hash(s, e.hash),
    ensures
        unique_hashes(s.push(e)),
        flag_map(s.push(e)) == flag_map(s).insert(e.hash, e.flags),
{
    let t = s.push(e);
    assert forall|i: int, j: int|
        0 <= i < t.len() && 0 <= j < t.len() && #[trigger] t[i].hash == #[trigger] t[j].hash implies i == j by {
        if i < s.len() && j < s.len() {
            assert(s[i].hash == s[j].hash);
        } else if i < s.len() {
            assert(s[i].hash == e.hash);
        } else if j < s.len() {
            assert(s[j].hash == e.hash);
        }
    }
    assert forall|h: u64| has_hash(t, h) <==> (has_hash(s, h) || h == e.hash) by {
        if has_hash(s, h) {
            let i = choose|i: int| 0 <= i < s.len() && s[i].hash == h;
            assert(t[i].hash == h);
        }
        if h == e.hash {
            assert(t[s.len() as int].hash == h);
        }
        if has_hash(t, h) {
            let i = choose|i: int| 0 <= i < t.len() && t[i].hash == h;
            if i < s.len() {
                assert(s[i].hash == h);
            }
        }
    }
    assert forall|h: u64| #[trigger] has_hash(t, h) implies flag_map(t)[h] == flag_map(s).insert(
        e.hash,
        e.flags,
    )[h] by {
        let i = choose|i: int| 0 <= i < t.len() && t[i].hash == h;
        lemma_by_hash(t, i);
        if i < s.len() {
            assert(s[i] == t[i]);
            lemma_by_hash(s, i);
        }
    }
    assert(flag_map(t) =~= flag_map(s).insert(e.hash, e.flags));
}

/// Replacing an envelope by one with the same hash replaces its entry.
pub proof fn lemma_update(s: Seq<Envelope>, i: int, e: Envelope)
    requires
        unique_hashes(s),
        0 <= i < s.len(),
        e.hash == s[i].hash,
    ensures
        unique_hashes(s.update(i, e)),
        flag_map(s.update(i, e)) == flag_map(s).insert(e.hash, e.flags),
{
    let t = s.update(i, e);
    assert forall|a: int, b: int|
        0 <= a < t.len() && 0 <= b < t.len() && #[trigger] t[a].hash == #[trigger] t[b].hash implies a == b by {
        assert(t[a].hash == s[a].hash && t[b].hash == s[b].hash);
    }
    assert forall|h: u64| has_hash(t, h) <==> has_hash(s, h) by {
        if has_hash(s, h) {
            let k = choose|k: int| 0 <= k < s.len() && s[k].hash == h;
            assert(t[k].hash == h);
        }
        if has_hash(t, h) {
            let k = choose|k: int| 0 <= k < t.len() && t[k].hash == h;
            assert(s[k].hash == h);
        }
    }
    lemma_by_hash(s, i);
    assert forall|h: u64| #[trigger] has_hash(t, h) implies flag_map(t)[h] == flag_map(s).insert(
        e.hash,
        e.flags,
    )[h] by {
        let k = choose|k: int| 0 <= k < t.len() && t[k].hash == h;
        lemma_by_hash(t, k);
        if k != i {
            lemma_by_hash(s, k);
        }
    }
    assert(flag_map(t) =~= flag_map(s).insert(e.hash, e.flags));
}

/// Removing an envelope removes its entry.
pub proof fn lemma_remove(s: Seq<Envelope>, i: int)
    requires
        unique_hashes(s),
        0 <= i < s.len(),
    ensures
        unique_hashes(s.remove(i)),
        flag_map(s.remove(i)) == flag_map(s).remove(s[i].hash),
{
    let t = s.remove(i);
    let h0 = s[i].hash;
    assert forall|a: int, b: int|
        0 <= a < t.len() && 0 <= b < t.len() && #[trigger] t[a].hash == #[trigger] t[b].hash implies a == b by {
        let a2 = if a < i { a } else { a + 1 };
        let b2 = if b < i { b } else { b + 1 };
        assert(t[a] == s[a2] && t[b] == s[b2]);
    }
    assert forall|h: u64| has_hash(t, h) <==> (has_hash(s, h) && h != h0) by {
        if has_hash(s, h) && h != h0 {
            let k = choose|k: int| 0 <= k < s.len() && s[k].hash == h;
            if k < i {
                assert(t[k].hash == h);
            } else {
                assert(k != i);
                assert(t[k - 1].hash == h);
            }
        }
        if has_hash(t, h) {
            let k = choose|k: int| 0 <= k < t.len() && t[k].hash == h;
            let k2 = if k < i { k } else { k + 1 };
            assert(s[k2].hash == h);
            assert(k2 != i);
        }
    }
    assert forall|h: u64| #[trigger] has_hash(t, h) implies flag_map(t)[h] == flag_map(s)[h] by {
        let k = choose|k: int| 0 <= k < t.len() && t[k].hash == h;
        lemma_by_hash(t, k);
        let k2 = if k < i { k } else { k + 1 };
        assert(t[k] == s[k2]);
        lemma_by_hash(s, k2);
    }
    assert(flag_map(t) =~= flag_map(s).remove(h0));
}

/// The position of the envelope with hash `h`, if there is one.
pub fn find_hash(s: &Vec<Envelope>, h: u64) -> (r: Option<usize>)
    ensures
        match r {
            Some(i) => i < s@.len() && s@[i as int].hash == h,
            None => !has_hash(s@, h),
        },
{
    let mut i: usize = 0;
    while i < s.len()
        invariant
            i <= s@.len(),
            forall|j: int| 0 <= j < i ==> s@[j].hash != h,
        decreases s@.len() - i,
    {
        if s[i].hash == h {
            return Some(i);
        }
        i = i + 1;
    }
    None
}

/// Puts `e` in the list: it replaces the envelope with the same hash, or
/// is added at the end.
pub fn upsert(s: &mut Vec<Envelope>, e: Envelope)
    requires
        unique_hashes(old(s)@),
    ensures
        unique_hashes(final(s)@),
        flag_map(final(s)@) == flag_map(old(s)@).insert(e.hash, e.flags),
        exists|k: int| 0 <= k < final(s)@.len() && final(s)@[k] == e,
{
    match find_hash(s, e.hash) {
        Some(i) => {
            proof {
                lemma_update(s@, i as int, e);
            }
            s.set(i, e);
            assert(s@[i as int] == e);
        },
        None => {
            proof {
                lemma_push(s@, e);
            }
            s.push(e);
            assert(s@[s@.len() - 1] == e);
        },
    }
}

/// Takes the envelope with hash `h` out of the list, if there is one.
pub fn remove_hash(s: &mut Vec<Envelope>, h: u64)
    requires
        unique_hashes(old(s)@),
    ensures
        unique_hashes(final(s)@),
        flag_map(final(s)@) == flag_map(old(s)@).remove(h),
{
    match find_hash(s, h) {
        Some(i) => {
            proof {
                lemma_remove(s@, i as int);
            }
            s.remove(i);
        },
        None => {
            assert(flag_map(s@) =~= flag_map(s@).remove(h));
        },
    }
}

/// Sets the flags of the envelope with hash `h`, if there is one.
pub fn set_flags(s: &mut Vec<Envelope>, h: u64, flags: Flags)
    requires
        unique_hashes(old(s)@),
    ensures
        unique_hashes(final(s)@),
        flag_map(final(s)@) == if flag_map(old(s)@).contains_key(h) {
            flag_map(old(s)@).insert(h, flags)
        } else {
            flag_map(old(s)@)
        },
{
    match find_hash(s, h) {
        Some(i) => {
            let e = s[i].with_flags(flags);
            proof {
                lemma_update(s@, i as int, e);
                lemma_by_hash(s@, i as int);
            }
            s.set(i, e);
        },
        None => {},
    }
}

/// Newest first: dates never increase along the list.
pub open spec fn newest_first(s: Seq<Envelope>) -> bool {
    forall|i: int, j: int| 0 <= i < j < s.len() ==> #[trigger] s[i].date >= #[trigger] s[j].date
}

/// `r` takes its envelopes from `s` at the positions `idx`, and envelopes
/// with equal dates come in the order they have in `s`.
pub open spec fn stable_from(r: Seq<Envelope>, s: Seq<Envelope>, idx: Seq<int>) -> bool {
    &&& idx.len() == r.len()
    &&& forall|k: int| 0 <= k < r.len() ==> 0 <= #[trigger] idx[k] < s.len() && r[k] == s[idx[k]]
    &&& forall|a: int, b: int|
        0 <= a < b < r.len() && #[trigger] r[a].date == #[trigger] r[b].date ==> idx[a] < idx[b]
    &&& forall|a: int, b: int| 0 <= a < b < r.len() ==> #[trigger] idx[a] != #[trigger] idx[b]
}

/// A reordering of a list without repeated hashes has none either, and
/// says the same of each message.
pub proof fn lemma_reordered_same_map(s: Seq<Envelope>, r: Seq<Envelope>, idx: Seq<int>)
    requires
        unique_hashes(s),
        stable_from(r, s, idx),
        r.to_multiset() == s.to_multiset(),
    ensures
        unique_hashes(r),
        flag_map(r) == flag_map(s),
{
    broadcast use vstd::seq_lib::group_to_multiset_ensures;

    assert forall|a: int, b: int|
        0 <= a < r.len() && 0 <= b < r.len() && #[trigger] r[a].hash == #[trigger] r[b].hash implies a
            == b by {
        if a != b {
            assert(s[idx[a]].hash == s[idx[b]].hash);
            if a < b {
                assert(idx[a] != idx[b]);
            } else {
                assert(idx[b] != idx[a]);
            }
        }
    }
    assert forall|h: u64| has_hash(r, h) <==> has_hash(s, h) by {
        if has_hash(r, h) {
            let k = choose|k: int| 0 <= k < r.len() && r[k].hash == h;
            assert(s[idx[k]].hash == h);
        }
        if has_hash(s, h) {
            let i = choose|i: int| 0 <= i < s.len() && s[i].hash == h;
            assert(s.to_multiset().count(s[i]) > 0);
            assert(r.to_multiset().count(s[i]) > 0);
            assert(r.contains(s[i]));
            let k = choose|k: int| 0 <= k < r.len() && r[k] == s[i];
            assert(r[k].hash == h);
        }
    }
    assert forall|h: u64| #[trigger] has_hash(r, h) implies flag_map(r)[h] == flag_map(s)[h] by {
        let k = choose|k: int| 0 <= k < r.len() && r[k].hash == h;
        lemma_by_hash(r, k);
        lemma_by_hash(s, idx[k]);
    }
    assert(flag_map(r) =~= flag_map(s));
}

/// The envelopes of `s`, newest first; envelopes with equal dates keep the
/// order they have in `s`.
pub fn sort_newest_first(s: &Vec<Envelope>) -> (r: Vec<Envelope>)
    ensures
        newest_first(r@),
        r@.to_multiset() == s@.to_multiset(),
        exists|idx: Seq<int>| stable_from(r@, s@, idx),
{
    broadcast use vstd::seq_lib::group_to_multiset_ensures;

    let mut r: Vec<Envelope> = Vec::new();
    let ghost mut idx: Seq<int> = Seq::empty();
    let mut i: usize = 0;
    while i < s.len()
        invariant
            i <= s@.len(),
            newest_first(r@),
            r@.to_multiset() == s@.subrange(0, i as int).to_multiset(),
            stable_from(r@, s@, idx),
            forall|k: int| 0 <= k < idx.len() ==> #[trigger] idx[k] < i,
        decreases s@.len() - i,
    {
        let e = s[i].duplicate();
        let mut p: usize = 0;
        while p < r.len() && r[p].date >= e.date
            invariant
                p <= r@.len(),
                forall|k: int| 0 <= k < p ==> #[trigger] r@[k].date >= e.date,
            decreases r@.len() - p,
        {
            p = p + 1;
        }
        let ghost prev = r@;
        let ghost pidx = idx;
        r.insert(p, e);
        proof {
            idx = pidx.insert(p as int, i as int);
        }
        assert(newest_first(r@)) by {
            assert forall|a: int, b: int| 0 <= a < b < r@.len() implies #[trigger] r@[a].date
                >= #[trigger] r@[b].date by {
                if b < p {
                } else if b == p {
                    assert(r@[a] == prev[a]);
                } else if a < p {
                    assert(r@[b] == prev[b - 1]);
                    assert(r@[a] == prev[a]);
                } else if a == p {
                    assert(r@[b] == prev[b - 1]);
                    assert(prev[p as int].date < e.date);
                    if b - 1 > p {
                        assert(prev[p as int].date >= prev[b - 1].date);
                    }
                } else {
                    assert(r@[b] == prev[b - 1]);
                    assert(r@[a] == prev[a - 1]);
                }
            }
        }
        assert forall|k: int| 0 <= k < r@.len() implies 0 <= #[trigger] idx[k] < s@.len() && r@[k]
            == s@[idx[k]] by {
            if k < p {
                assert(r@[k] == prev[k] && idx[k] == pidx[k]);
            } else if k > p {
                assert(r@[k] == prev[k - 1] && idx[k] == pidx[k - 1]);
            }
        }
        assert forall|a: int, b: int|
            0 <= a < b < r@.len() && #[trigger] r@[a].date == #[trigger] r@[b].date implies idx[a]
                < idx[b] by {
            if b < p {
                assert(r@[a] == prev[a] && r@[b] == prev[b]);
            } else if b == p {
                assert(idx[a] == pidx[a]);
                assert(pidx[a] < i);
            } else if a < p {
                assert(r@[b] == prev[b - 1]);
                assert(r@[a] == prev[a]);
                assert(idx[a] == pidx[a] && idx[b] == pidx[b - 1]);
            } else if a == p {
                assert(r@[b] == prev[b - 1]);
                assert(prev[p as int].date < e.date);
                if b - 1 > p {
                    assert(prev[p as int].date >= prev[b - 1].date);
                }
            } else {
                assert(r@[b] == prev[b - 1]);
                assert(r@[a] == prev[a - 1]);
                assert(idx[a] == pidx[a - 1] && idx[b] == pidx[b - 1]);
            }
        }
        assert forall|a: int, b: int| 0 <= a < b < r@.len() implies #[trigger] idx[a]
            != #[trigger] idx[b] by {
            if a < p && b < p {
                assert(idx[a] == pidx[a] && idx[b] == pidx[b]);
            } else if a < p && b == p {
                assert(idx[a] == pidx[a]);
            } else if a < p {
                assert(idx[a] == pidx[a] && idx[b] == pidx[b - 1]);
            } else if a == p {
                assert(idx[b] == pidx[b - 1]);
            } else {
                assert(idx[a] == pidx[a - 1] && idx[b] == pidx[b - 1]);
            }
        }
        assert forall|k: int| 0 <= k < idx.len() implies #[trigger] idx[k] < i + 1 by {
            if k < p {
                assert(idx[k] == pidx[k]);
            } else if k > p {
                assert(idx[k] == pidx[k - 1]);
            }
        }
        assert(s@.subrange(0, i + 1) =~= s@.subrange(0, i as int).push(s@[i as int]));
        proof {
            vstd::seq_lib::to_multiset_insert(prev, p as int, e);
            vstd::seq_lib::to_multiset_build(s@.subrange(0, i as int), s@[i as int]);
        }
        i = i + 1;
    }
    assert(s@.subrange(0, s@.len() as int) =~= s@);
    r
}

} // verus!
