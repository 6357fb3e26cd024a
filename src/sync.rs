//! Three-way reconciliation of one folder between a local and a remote
//! store, with a cache of the last reconciled state of each side as the
//! common ancestor.
use vstd::prelude::*;
use crate::envelope::{
    find_hash, flag_map, has_hash, lemma_by_hash, remove_hash, set_flags, unique_hashes, upsert,
    Envelope,
};
use crate::flag::Flags;

verus! {

/// One of the two stores.
#[derive(Clone, Copy, Debug, PartialEq, Eq, Structural)]
pub enum Side {
    Local,
    Remote,
}

/// The store that is not `side`.
pub open spec fn other(side: Side) -> Side {
    match side {
        Side::Local => Side::Remote,
        Side::Remote => Side::Local,
    }
}

/// One operation of a patch, on a store or on the cache.
#[derive(Clone, Debug, PartialEq, Eq)]
pub enum PatchOp {
    /// Copy the message `envelope` of store `from` into the other store.
    Copy { from: Side, envelope: Envelope },
    /// Set the flags of message `id` (hash `hash`) in store `side`.
    UpdateFlags { side: Side, hash: u64, id: String, flags: Flags },
    /// Delete message `id` (hash `hash`) from store `side`.
    Delete { side: Side, hash: u64, id: String },
    /// Make the cache row of (`side`, `hash`) what store `side` now holds.
    CacheRefresh { side: Side, hash: u64 },
    /// Drop the cache row of (`side`, `hash`).
    CacheRemove { side: Side, hash: u64 },
}

/// What reconciliation looks at: for each store and for the cache of each
/// store, the flags of each message, keyed by content hash.
pub struct SyncView {
    pub local: Map<u64, Flags>,
    pub local_cache: Map<u64, Flags>,
    pub remote: Map<u64, Flags>,
    pub remote_cache: Map<u64, Flags>,
}

/// What store `side` holds.
pub open spec fn live(v: SyncView, side: Side) -> Map<u64, Flags> {
    match side {
        Side::Local => v.local,
        Side::Remote => v.remote,
    }
}

/// What the cache holds for `side`.
pub open spec fn cached(v: SyncView, side: Side) -> Map<u64, Flags> {
    match side {
        Side::Local => v.local_cache,
        Side::Remote => v.remote_cache,
    }
}

/// `v` with store `side` holding `m`.
pub open spec fn with_live(v: SyncView, side: Side, m: Map<u64, Flags>) -> SyncView {
    match side {
        Side::Local => SyncView { local: m, ..v },
        Side::Remote => SyncView { remote: m, ..v },
    }
}

/// `v` with the cache of `side` holding `m`.
pub open spec fn with_cached(v: SyncView, side: Side, m: Map<u64, Flags>) -> SyncView {
    match side {
        Side::Local => SyncView { local_cache: m, ..v },
        Side::Remote => SyncView { remote_cache: m, ..v },
    }
}

/// The message an operation is about.
pub open spec fn op_hash(op: PatchOp) -> u64 {
    match op {
        PatchOp::Copy { envelope, .. } => envelope.hash,
        PatchOp::UpdateFlags { hash, .. } => hash,
        PatchOp::Delete { hash, .. } => hash,
        PatchOp::CacheRefresh { hash, .. } => hash,
        PatchOp::CacheRemove { hash, .. } => hash,
    }
}

/// The effect of one operation.
pub open spec fn apply_op(v: SyncView, op: PatchOp) -> SyncView {
    match op {
        PatchOp::Copy { from, envelope } => with_live(
            v,
            other(from),
            live(v, other(from)).insert(envelope.hash, envelope.flags),
        ),
        PatchOp::UpdateFlags { side, hash, flags, .. } => if live(v, side).contains_key(hash) {
            with_live(v, side, live(v, side).insert(hash, flags))
        } else {
            v
        },
        PatchOp::Delete { side, hash, .. } => with_live(v, side, live(v, side).remove(hash)),
        PatchOp::CacheRefresh { side, hash } => if live(v, side).contains_key(hash) {
            with_cached(v, side, cached(v, side).insert(hash, live(v, side)[hash]))
        } else {
            with_cached(v, side, cached(v, side).remove(hash))
        },
        PatchOp::CacheRemove { side, hash } => with_cached(
            v,
            side,
            cached(v, side).remove(hash),
        ),
    }
}

/// The effect of a patch, applied in order.
pub open spec fn apply_ops(v: SyncView, ops: Seq<PatchOp>) -> SyncView
    decreases ops.len(),
{
    if ops.len() == 0 {
        v
    } else {
        apply_op(apply_ops(v, ops.drop_last()), ops.last())
    }
}

/// Whether the message with hash `h` survives reconciliation: it is on
/// both stores, or it is new on one store (the other store never had it
/// in its cache, so it was not deleted there).
pub open spec fn keeps(v: SyncView, h: u64) -> bool {
    let l = v.local.contains_key(h);
    let r = v.remote.contains_key(h);
    (l && r) || (l && !r && !v.remote_cache.contains_key(h)) || (!l && r
        && !v.local_cache.contains_key(h))
}

/// The flags that a surviving message ends with. On both stores, the local
/// flags win only when the remote flags are those of the remote cache (the
/// remote side did not change them); otherwise the remote flags win.
pub open spec fn target_flags(v: SyncView, h: u64) -> Flags {
    if v.local.contains_key(h) && v.remote.contains_key(h) {
        if v.remote_cache.contains_key(h) && v.remote_cache[h] == v.remote[h] {
            v.local[h]
        } else {
            v.remote[h]
        }
    } else if v.local.contains_key(h) {
        v.local[h]
    } else {
        v.remote[h]
    }
}

/// The reconciled message set: what both stores and both caches hold after
/// a sync.
pub open spec fn target(v: SyncView) -> Map<u64, Flags> {
    Map::new(|h: u64| keeps(v, h), |h: u64| target_flags(v, h))
}

/// The state after a sync.
pub open spec fn synced(v: SyncView) -> SyncView {
    SyncView { local: target(v), local_cache: target(v), remote: target(v), remote_cache: target(v) }
}

/// Both stores and both caches agree.
pub open spec fn settled(v: SyncView) -> bool {
    v.local == v.remote && v.local == v.local_cache && v.local == v.remote_cache
}

/// The four maps of `v` and of `w` agree at `h`.
pub open spec fn agrees_at(v: SyncView, w: SyncView, h: u64) -> bool {
    &&& v.local.contains_key(h) == w.local.contains_key(h)
    &&& v.remote.contains_key(h) == w.remote.contains_key(h)
    &&& v.local_cache.contains_key(h) == w.local_cache.contains_key(h)
    &&& v.remote_cache.contains_key(h) == w.remote_cache.contains_key(h)
    &&& v.local.contains_key(h) ==> v.local[h] == w.local[h]
    &&& v.remote.contains_key(h) ==> v.remote[h] == w.remote[h]
    &&& v.local_cache.contains_key(h) ==> v.local_cache[h] == w.local_cache[h]
    &&& v.remote_cache.contains_key(h) ==> v.remote_cache[h] == w.remote_cache[h]
}

/// `m` with the entry at `h` reconciled as in `v`.
pub open spec fn settle_map(m: Map<u64, Flags>, v: SyncView, h: u64) -> Map<u64, Flags> {
    if keeps(v, h) {
        m.insert(h, target_flags(v, h))
    } else {
        m.remove(h)
    }
}

/// `v` with message `h` reconciled and every other message left alone.
pub open spec fn settle_at(v: SyncView, h: u64) -> SyncView {
    SyncView {
        local: settle_map(v.local, v, h),
        local_cache: settle_map(v.local_cache, v, h),
        remote: settle_map(v.remote, v, h),
        remote_cache: settle_map(v.remote_cache, v, h),
    }
}

/// `m` with the messages of `d` reconciled as in `v`.
pub open spec fn settle_map_set(m: Map<u64, Flags>, v: SyncView, d: Set<u64>) -> Map<u64, Flags> {
    Map::new(
        |h: u64|
            if d.contains(h) {
                keeps(v, h)
            } else {
                m.contains_key(h)
            },
        |h: u64|
            if d.contains(h) {
                target_flags(v, h)
            } else {
                m[h]
            },
    )
}

/// `v` with the messages of `d` reconciled.
pub open spec fn settle_set(v: SyncView, d: Set<u64>) -> SyncView {
    SyncView {
        local: settle_map_set(v.local, v, d),
        local_cache: settle_map_set(v.local_cache, v, d),
        remote: settle_map_set(v.remote, v, d),
        remote_cache: settle_map_set(v.remote_cache, v, d),
    }
}

/// The first `i` elements of `hs`, as a set.
pub open spec fn prefix_set(hs: Seq<u64>, i: int) -> Set<u64> {
    Set::new(|h: u64| exists|j: int| 0 <= j < i && hs[j] == h)
}

proof fn lemma_apply_push(v: SyncView, ops: Seq<PatchOp>, op: PatchOp)
    ensures
        apply_ops(v, ops.push(op)) == apply_op(apply_ops(v, ops), op),
{
    assert(ops.push(op).drop_last() =~= ops);
}

proof fn lemma_apply_concat(v: SyncView, a: Seq<PatchOp>, b: Seq<PatchOp>)
    ensures
        apply_ops(v, a + b) == apply_ops(apply_ops(v, a), b),
    decreases b.len(),
{
    if b.len() == 0 {
        assert(a + b =~= a);
    } else {
        lemma_apply_concat(v, a, b.drop_last());
        assert((a + b).drop_last() =~= a + b.drop_last());
        assert((a + b).last() == b.last());
    }
}

proof fn lemma_agrees_same_target(v: SyncView, w: SyncView, h: u64)
    requires
        agrees_at(v, w, h),
    ensures
        keeps(v, h) == keeps(w, h),
        keeps(v, h) ==> target_flags(v, h) == target_flags(w, h),
{
}

proof fn lemma_settle_step(v: SyncView, d: Set<u64>, h: u64)
    requires
        !d.contains(h),
    ensures
        agrees_at(settle_set(v, d), v, h),
        settle_at(settle_set(v, d), h) == settle_set(v, d.insert(h)),
{
    let w = settle_set(v, d);
    lemma_agrees_same_target(w, v, h);
    assert(settle_map(w.local, w, h) =~= settle_map_set(v.local, v, d.insert(h)));
    assert(settle_map(w.remote, w, h) =~= settle_map_set(v.remote, v, d.insert(h)));
    assert(settle_map(w.local_cache, w, h) =~= settle_map_set(v.local_cache, v, d.insert(h)));
    assert(settle_map(w.remote_cache, w, h) =~= settle_map_set(v.remote_cache, v, d.insert(h)));
}

/// The local and remote envelopes and the cache rows of each side, for one
/// folder.
pub struct FolderState {
    pub local: Vec<Envelope>,
    pub local_cache: Vec<Envelope>,
    pub remote: Vec<Envelope>,
    pub remote_cache: Vec<Envelope>,
}

impl FolderState {
    /// No list holds two envelopes with the same hash.
    pub open spec fn wf(&self) -> bool {
        &&& unique_hashes(self.local@)
        &&& unique_hashes(self.local_cache@)
        &&& unique_hashes(self.remote@)
        &&& unique_hashes(self.remote_cache@)
    }

    /// The envelopes that store `side` holds.
    pub open spec fn live_list(&self, side: Side) -> Seq<Envelope> {
        match side {
            Side::Local => self.local@,
            Side::Remote => self.remote@,
        }
    }

    /// The flags of each message in each store and each cache.
    pub open spec fn view(&self) -> SyncView {
        SyncView {
            local: flag_map(self.local@),
            local_cache: flag_map(self.local_cache@),
            remote: flag_map(self.remote@),
            remote_cache: flag_map(self.remote_cache@),
        }
    }
}

/// The four maps of `v` agree at `h`: nothing is left to do for message `h`.
pub open spec fn settled_at(v: SyncView, h: u64) -> bool {
    &&& v.local.contains_key(h) == v.remote.contains_key(h)
    &&& v.local.contains_key(h) == v.local_cache.contains_key(h)
    &&& v.local.contains_key(h) == v.remote_cache.contains_key(h)
    &&& v.local.contains_key(h) ==> {
        &&& v.local[h] == v.remote[h]
        &&& v.local[h] == v.local_cache[h]
        &&& v.local[h] == v.remote_cache[h]
    }
}

fn push_op(r: &mut Vec<PatchOp>, op: PatchOp, Ghost(w): Ghost<SyncView>)
    requires
        forall|k: int| 0 <= k < old(r)@.len() ==> op_hash(#[trigger] old(r)@[k]) == op_hash(op),
    ensures
        forall|k: int| 0 <= k < final(r)@.len() ==> op_hash(#[trigger] final(r)@[k]) == op_hash(op),
        final(r)@ == old(r)@.push(op),
        apply_ops(w, final(r)@) == apply_op(apply_ops(w, old(r)@), op),
{
    proof {
        lemma_apply_push(w, r@, op);
    }
    r.push(op);
}

/// Whether the envelope at `k` (if any) of `s` has flags `f`.
fn flags_at_are(s: &Vec<Envelope>, k: Option<usize>, f: Flags) -> (r: bool)
    requires
        match k {
            Some(i) => i < s@.len(),
            None => true,
        },
    ensures
        r == match k {
            Some(i) => s@[i as int].flags == f,
            None => false,
        },
{
    match k {
        Some(i) => s[i].flags == f,
        None => false,
    }
}

/// The operations that reconcile message `h`.
fn plan_hash(st: &FolderState, h: u64, Ghost(w): Ghost<SyncView>) -> (r: Vec<PatchOp>)
    requires
        st.wf(),
        agrees_at(st.view(), w, h),
    ensures
        apply_ops(w, r@) == settle_at(w, h),
        settled_at(st.view(), h) ==> r@.len() == 0,
        forall|k: int| 0 <= k < r@.len() ==> op_hash(#[trigger] r@[k]) == h,
{
    let li = find_hash(&st.local, h);
    let ri = find_hash(&st.remote, h);
    let lci = find_hash(&st.local_cache, h);
    let rci = find_hash(&st.remote_cache, h);
    proof {
        match li {
            Some(i) => lemma_by_hash(st.local@, i as int),
            None => {},
        }
        match ri {
            Some(i) => lemma_by_hash(st.remote@, i as int),
            None => {},
        }
        match lci {
            Some(i) => lemma_by_hash(st.local_cache@, i as int),
            None => {},
        }
        match rci {
            Some(i) => lemma_by_hash(st.remote_cache@, i as int),
            None => {},
        }
    }
    let mut r: Vec<PatchOp> = Vec::new();
    assert(apply_ops(w, r@) == w);
    match li {
        Some(i) => {
            let l = &st.local[i];
            match ri {
                Some(j) => {
                    let rm = &st.remote[j];
                    let remote_unchanged = flags_at_are(&st.remote_cache, rci, rm.flags);
                    let tf = if remote_unchanged {
                        l.flags
                    } else {
                        rm.flags
                    };
                    assert(tf == target_flags(w, h));
                    if l.flags != tf {
                        push_op(
                            &mut r,
                            PatchOp::UpdateFlags { side: Side::Local, hash: h, id: l.id.clone(), flags: tf },
                            Ghost(w),
                        );
                    }
                    if rm.flags != tf {
                        push_op(
                            &mut r,
                            PatchOp::UpdateFlags { side: Side::Remote, hash: h, id: rm.id.clone(), flags: tf },
                            Ghost(w),
                        );
                    }
                    if !flags_at_are(&st.local_cache, lci, tf) {
                        push_op(&mut r, PatchOp::CacheRefresh { side: Side::Local, hash: h }, Ghost(w));
                    }
                    if !flags_at_are(&st.remote_cache, rci, tf) {
                        push_op(&mut r, PatchOp::CacheRefresh { side: Side::Remote, hash: h }, Ghost(w));
                    }
                },
                None => {
                    if rci.is_some() {
                        push_op(
                            &mut r,
                            PatchOp::Delete { side: Side::Local, hash: h, id: l.id.clone() },
                            Ghost(w),
                        );
                        if lci.is_some() {
                            push_op(&mut r, PatchOp::CacheRemove { side: Side::Local, hash: h }, Ghost(w));
                        }
                        push_op(&mut r, PatchOp::CacheRemove { side: Side::Remote, hash: h }, Ghost(w));
                    } else {
                        push_op(
                            &mut r,
                            PatchOp::Copy { from: Side::Local, envelope: l.duplicate() },
                            Ghost(w),
                        );
                        if !flags_at_are(&st.local_cache, lci, l.flags) {
                            push_op(&mut r, PatchOp::CacheRefresh { side: Side::Local, hash: h }, Ghost(w));
                        }
                        push_op(&mut r, PatchOp::CacheRefresh { side: Side::Remote, hash: h }, Ghost(w));
                    }
                },
            }
        },
        None => {
            match ri {
                Some(j) => {
                    let rm = &st.remote[j];
                    if lci.is_some() {
                        push_op(
                            &mut r,
                            PatchOp::Delete { side: Side::Remote, hash: h, id: rm.id.clone() },
                            Ghost(w),
                        );
                        push_op(&mut r, PatchOp::CacheRemove { side: Side::Local, hash: h }, Ghost(w));
                        if rci.is_some() {
                            push_op(&mut r, PatchOp::CacheRemove { side: Side::Remote, hash: h }, Ghost(w));
                        }
                    } else {
                        push_op(
                            &mut r,
                            PatchOp::Copy { from: Side::Remote, envelope: rm.duplicate() },
                            Ghost(w),
                        );
                        push_op(&mut r, PatchOp::CacheRefresh { side: Side::Local, hash: h }, Ghost(w));
                        if !flags_at_are(&st.remote_cache, rci, rm.flags) {
                            push_op(&mut r, PatchOp::CacheRefresh { side: Side::Remote, hash: h }, Ghost(w));
                        }
                    }
                },
                None => {
                    if lci.is_some() {
                        push_op(&mut r, PatchOp::CacheRemove { side: Side::Local, hash: h }, Ghost(w));
                    }
                    if rci.is_some() {
                        push_op(&mut r, PatchOp::CacheRemove { side: Side::Remote, hash: h }, Ghost(w));
                    }
                },
            }
        },
    }
    let ghost got = apply_ops(w, r@);
    let ghost want = settle_at(w, h);
    assert(got.local =~= want.local);
    assert(got.remote =~= want.remote);
    assert(got.local_cache =~= want.local_cache);
    assert(got.remote_cache =~= want.remote_cache);
    r
}

/// Whether `x` is in `s`.
fn contains_u64(s: &Vec<u64>, x: u64) -> (r: bool)
    ensures
        r == s@.contains(x),
{
    let mut i: usize = 0;
    while i < s.len()
        invariant
            i <= s@.len(),
            forall|j: int| 0 <= j < i ==> s@[j] != x,
        decreases s@.len() - i,
    {
        if s[i] == x {
            assert(s@[i as int] == x);
            return true;
        }
        i = i + 1;
    }
    false
}

/// Adds to `hs` the hashes of `s` that it does not hold yet.
fn add_hashes(hs: &mut Vec<u64>, s: &Vec<Envelope>)
    requires
        old(hs)@.no_duplicates(),
    ensures
        final(hs)@.no_duplicates(),
        forall|h: u64|
            #[trigger] final(hs)@.contains(h) <==> (old(hs)@.contains(h) || has_hash(s@, h)),
{
    let ghost start = hs@;
    let mut i: usize = 0;
    while i < s.len()
        invariant
            i <= s@.len(),
            hs@.no_duplicates(),
            forall|h: u64|
                #[trigger] hs@.contains(h) <==> (start.contains(h) || exists|j: int|
                    0 <= j < i && s@[j].hash == h),
        decreases s@.len() - i,
    {
        let h = s[i].hash;
        let ghost prev = hs@;
        assert forall|x: u64|
            #[trigger] prev.contains(x) <==> (start.contains(x) || exists|j: int|
                0 <= j < i && s@[j].hash == x) by {}
        if !contains_u64(hs, h) {
            hs.push(h);
            assert forall|x: u64| hs@.contains(x) <==> (prev.contains(x) || x == h) by {
                if hs@.contains(x) {
                    let k = choose|k: int| 0 <= k < hs@.len() && hs@[k] == x;
                    if k < prev.len() {
                        assert(prev[k] == x);
                    }
                }
                if prev.contains(x) {
                    let k = choose|k: int| 0 <= k < prev.len() && prev[k] == x;
                    assert(hs@[k] == x);
                }
                if x == h {
                    assert(hs@[prev.len() as int] == x);
                }
            }
        }
        i = i + 1;
        assert(forall|x: u64| hs@.contains(x) <==> (prev.contains(x) || x == h));
        assert forall|x: u64|
            #[trigger] hs@.contains(x) <==> (start.contains(x) || exists|j: int|
                0 <= j < i && s@[j].hash == x) by {
            if exists|j: int| 0 <= j < i && s@[j].hash == x {
                let j = choose|j: int| 0 <= j < i && s@[j].hash == x;
                if j < i - 1 {
                    assert(exists|j: int| 0 <= j < i - 1 && s@[j].hash == x);
                    assert(prev.contains(x));
                } else {
                    assert(x == h);
                }
            }
            if start.contains(x) {
                assert(prev.contains(x));
            }
            if hs@.contains(x) {
                if x == h {
                    assert(s@[i - 1].hash == x);
                } else {
                    assert(prev.contains(x));
                    if !start.contains(x) {
                        let j = choose|j: int| 0 <= j < i - 1 && s@[j].hash == x;
                        assert(0 <= j < i && s@[j].hash == x);
                    }
                }
            }
        }
    }
}

/// A synced state is settled, and syncing it again changes nothing.
pub proof fn lemma_sync_idempotent(v: SyncView)
    ensures
        settled(synced(v)),
        synced(synced(v)) == synced(v),
{
    let s = synced(v);
    assert(target(s) =~= target(v));
}

/// The patch that reconciles one folder: applied in order, it brings both
/// stores and both caches to the reconciled message set. It is empty
/// exactly when nothing is left to reconcile.
pub fn plan(st: &FolderState) -> (r: Vec<PatchOp>)
    requires
        st.wf(),
    ensures
        apply_ops(st.view(), r@) == synced(st.view()),
        settled(st.view()) <==> r@.len() == 0,
        forall|k: int| 0 <= k < r@.len() ==> !settled_at(st.view(), op_hash(#[trigger] r@[k])),
{
    let ghost v0 = st.view();
    let mut hs: Vec<u64> = Vec::new();
    add_hashes(&mut hs, &st.remote);
    add_hashes(&mut hs, &st.local);
    add_hashes(&mut hs, &st.remote_cache);
    add_hashes(&mut hs, &st.local_cache);
    let mut ops: Vec<PatchOp> = Vec::new();
    assert(settle_set(v0, prefix_set(hs@, 0)) == v0) by {
        assert(settle_set(v0, prefix_set(hs@, 0)).local =~= v0.local);
        assert(settle_set(v0, prefix_set(hs@, 0)).remote =~= v0.remote);
        assert(settle_set(v0, prefix_set(hs@, 0)).local_cache =~= v0.local_cache);
        assert(settle_set(v0, prefix_set(hs@, 0)).remote_cache =~= v0.remote_cache);
    }
    let mut i: usize = 0;
    while i < hs.len()
        invariant
            st.wf(),
            v0 == st.view(),
            i <= hs@.len(),
            hs@.no_duplicates(),
            forall|h: u64|
                #[trigger] hs@.contains(h) <==> (has_hash(st.remote@, h) || has_hash(st.local@, h)
                    || has_hash(st.remote_cache@, h) || has_hash(st.local_cache@, h)),
            apply_ops(v0, ops@) == settle_set(v0, prefix_set(hs@, i as int)),
            settled(v0) ==> ops@.len() == 0,
            forall|k: int| 0 <= k < ops@.len() ==> !settled_at(v0, op_hash(#[trigger] ops@[k])),
        decreases hs@.len() - i,
    {
        let h = hs[i];
        let ghost d = prefix_set(hs@, i as int);
        assert(!d.contains(h)) by {
            if d.contains(h) {
                let j = choose|j: int| 0 <= j < i && hs@[j] == h;
                assert(hs@[j] == hs@[i as int]);
            }
        }
        let ghost w = settle_set(v0, d);
        proof {
            lemma_settle_step(v0, d, h);
        }
        let mut r = plan_hash(st, h, Ghost(w));
        proof {
            lemma_apply_concat(v0, ops@, r@);
        }
        let ghost before = ops@;
        let ghost added = r@;
        ops.append(&mut r);
        assert forall|k: int| 0 <= k < ops@.len() implies !settled_at(v0, op_hash(#[trigger] ops@[k])) by {
            if k >= before.len() {
                assert(ops@[k] == added[k - before.len()]);
            }
        }
        assert(prefix_set(hs@, i + 1) =~= d.insert(h));
        i = i + 1;
    }
    let ghost d = prefix_set(hs@, i as int);
    assert forall|h: u64| !d.contains(h) implies !v0.local.contains_key(h)
        && !v0.remote.contains_key(h) && !v0.local_cache.contains_key(h)
        && !v0.remote_cache.contains_key(h) by {
        if v0.local.contains_key(h) || v0.remote.contains_key(h) || v0.local_cache.contains_key(h)
            || v0.remote_cache.contains_key(h) {
            assert(hs@.contains(h));
            let j = choose|j: int| 0 <= j < hs@.len() && hs@[j] == h;
            assert(d.contains(h));
        }
    }
    let ghost got = settle_set(v0, d);
    assert(got.local =~= target(v0));
    assert(got.remote =~= target(v0));
    assert(got.local_cache =~= target(v0));
    assert(got.remote_cache =~= target(v0));
    proof {
        lemma_sync_idempotent(v0);
        if ops@.len() == 0 {
            assert(apply_ops(v0, ops@) == v0);
        }
    }
    ops
}

impl FolderState {
    /// Performs one operation on the stores and the cache. A copied message
    /// gets `assigned_id`, the id that the receiving store gave it.
    pub fn apply(&mut self, op: &PatchOp, assigned_id: &String)
        requires
            old(self).wf(),
        ensures
            final(self).wf(),
            final(self).view() == apply_op(old(self).view(), *op),
            op matches PatchOp::Copy { from, envelope } ==> exists|k: int|
                0 <= k < final(self).live_list(other(*from)).len() && final(self).live_list(
                    other(*from),
                )[k] == (Envelope { id: *assigned_id, ..*envelope }),
    {
        match op {
            PatchOp::Copy { from, envelope } => {
                let mut e = envelope.duplicate();
                e.id = assigned_id.clone();
                let ghost copied = e;
                assert(copied == (Envelope { id: *assigned_id, ..*envelope }));
                match from {
                    Side::Local => upsert(&mut self.remote, e),
                    Side::Remote => upsert(&mut self.local, e),
                }
                proof {
                    let dest = self.live_list(other(*from));
                    let k = choose|k: int| 0 <= k < dest.len() && dest[k] == copied;
                    assert(0 <= k < dest.len() && dest[k] == copied);
                }
            },
            PatchOp::UpdateFlags { side, hash, flags, .. } => match side {
                Side::Local => set_flags(&mut self.local, *hash, *flags),
                Side::Remote => set_flags(&mut self.remote, *hash, *flags),
            },
            PatchOp::Delete { side, hash, .. } => match side {
                Side::Local => remove_hash(&mut self.local, *hash),
                Side::Remote => remove_hash(&mut self.remote, *hash),
            },
            PatchOp::CacheRefresh { side, hash } => match side {
                Side::Local => refresh_row(&self.local, &mut self.local_cache, *hash),
                Side::Remote => refresh_row(&self.remote, &mut self.remote_cache, *hash),
            },
            PatchOp::CacheRemove { side, hash } => match side {
                Side::Local => remove_hash(&mut self.local_cache, *hash),
                Side::Remote => remove_hash(&mut self.remote_cache, *hash),
            },
        }
    }

    /// Reconciles the folder. The patch is computed in any case; it is
    /// carried out only when `dry_run` is false, and a dry run changes
    /// neither store nor the cache. The in-memory stores keep a copied
    /// message's id.
    pub fn sync_folder(&mut self, dry_run: bool) -> (r: Vec<PatchOp>)
        requires
            old(self).wf(),
        ensures
            final(self).wf(),
            apply_ops(old(self).view(), r@) == synced(old(self).view()),
            settled(old(self).view()) <==> r@.len() == 0,
            forall|k: int|
                0 <= k < r@.len() ==> !settled_at(old(self).view(), op_hash(#[trigger] r@[k])),
            dry_run ==> *final(self) == *old(self),
            !dry_run ==> final(self).view() == synced(old(self).view()),
    {
        let ops = plan(self);
        if !dry_run {
            let ghost v0 = self.view();
            let mut i: usize = 0;
            while i < ops.len()
                invariant
                    self.wf(),
                    i <= ops@.len(),
                    self.view() == apply_ops(v0, ops@.subrange(0, i as int)),
                decreases ops@.len() - i,
            {
                let id = match &ops[i] {
                    PatchOp::Copy { envelope, .. } => envelope.id.clone(),
                    _ => String::new(),
                };
                self.apply(&ops[i], &id);
                proof {
                    assert(ops@.subrange(0, i + 1).drop_last() =~= ops@.subrange(0, i as int));
                }
                i = i + 1;
            }
            assert(ops@.subrange(0, i as int) =~= ops@);
        }
        ops
    }
}

/// Makes the cache row of `h` what `live` holds for `h`, or drops it.
fn refresh_row(live: &Vec<Envelope>, cache: &mut Vec<Envelope>, h: u64)
    requires
        unique_hashes(live@),
        unique_hashes(old(cache)@),
    ensures
        unique_hashes(final(cache)@),
        flag_map(final(cache)@) == if flag_map(live@).contains_key(h) {
            flag_map(old(cache)@).insert(h, flag_map(live@)[h])
        } else {
            flag_map(old(cache)@).remove(h)
        },
{
    match find_hash(live, h) {
        Some(i) => {
            proof {
                lemma_by_hash(live@, i as int);
            }
            upsert(cache, live[i].duplicate());
        },
        None => remove_hash(cache, h),
    }
}

/// A folder just synced (without a dry run) is settled: syncing it again
/// emits no operation and changes nothing.
pub proof fn lemma_second_sync_is_empty(before: SyncView, after: SyncView)
    requires
        after == synced(before),
    ensures
        settled(after),
        synced(after) == after,
{
    lemma_sync_idempotent(before);
}

/// Flags changed on the remote side of a synced folder reach the local
/// side on the next sync, and nothing else changes; a further sync then
/// has nothing to do.
pub proof fn lemma_remote_flags_propagate(v: SyncView, h: u64, f: Flags)
    requires
        settled(v),
        v.remote.contains_key(h),
    ensures
        synced(SyncView { remote: v.remote.insert(h, f), ..v }).local == v.local.insert(h, f),
        synced(SyncView { remote: v.remote.insert(h, f), ..v }).local_cache == v.local.insert(h, f),
        settled(synced(SyncView { remote: v.remote.insert(h, f), ..v })),
{
    let v2 = SyncView { remote: v.remote.insert(h, f), ..v };
    assert(target(v2) =~= v.local.insert(h, f));
}

/// A message deleted from one store of a synced folder is deleted from
/// the other store and from both caches on the next sync, and nothing
/// else changes.
pub proof fn lemma_deletion_propagates(v: SyncView, h: u64, side: Side)
    requires
        settled(v),
        v.local.contains_key(h),
    ensures
        synced(with_live(v, side, live(v, side).remove(h))).local == v.local.remove(h),
        synced(with_live(v, side, live(v, side).remove(h))).remote == v.local.remove(h),
        settled(synced(with_live(v, side, live(v, side).remove(h)))),
{
    let v2 = with_live(v, side, live(v, side).remove(h));
    assert(target(v2) =~= v.local.remove(h));
}

/// A message that is new on one store (neither cache knows it) is copied
/// to the other store with its flags, and both caches record it.
pub proof fn lemma_new_message_propagates(v: SyncView, h: u64, side: Side)
    requires
        live(v, side).contains_key(h),
        !live(v, other(side)).contains_key(h),
        !v.local_cache.contains_key(h),
        !v.remote_cache.contains_key(h),
    ensures
        synced(v).local.contains_key(h),
        synced(v).remote.contains_key(h),
        synced(v).local[h] == live(v, side)[h],
        synced(v).remote_cache[h] == live(v, side)[h],
{
}

} // verus!
