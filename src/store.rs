//! Carrying out a patch on two stores and the cache. A store is anything
//! that can list, add, reflag and delete messages; each operation may fail,
//! and the first failure stops the patch with every earlier operation kept.
use vstd::prelude::*;
use crate::envelope::{
    find_hash, flag_map, lemma_by_hash, lemma_reordered_same_map, newest_first, remove_hash,
    sort_newest_first, stable_from, unique_hashes, upsert, Envelope,
};
use crate::flag::Flags;
use crate::sync::{
    apply_op, apply_ops, op_hash, plan, settled, synced, FolderState, PatchOp, Side, SyncView,
};

verus! {

/// A mail store holding one folder.
pub trait Store {
    /// The store's own invariant.
    spec fn inv(&self) -> bool;

    /// The flags of each message, keyed by content hash.
    spec fn flag_view(&self) -> Map<u64, Flags>;

    /// The envelopes of the folder, newest first.
    fn list(&self) -> (r: Vec<Envelope>)
        requires
            self.inv(),
        ensures
            unique_hashes(r@),
            flag_map(r@) == self.flag_view(),
            newest_first(r@),
    ;

    /// The envelope with hash `hash`, if there is one.
    fn envelope(&self, hash: u64) -> (r: Option<Envelope>)
        requires
            self.inv(),
        ensures
            match r {
                Some(e) => e.hash == hash && self.flag_view().contains_key(hash)
                    && self.flag_view()[hash] == e.flags,
                None => !self.flag_view().contains_key(hash),
            },
    ;

    /// Adds a copy of the message `env` of another store; gives back the id
    /// this store gave it. A failure changes nothing.
    fn add_email(&mut self, env: &Envelope) -> (r: Result<String, String>)
        requires
            old(self).inv(),
        ensures
            final(self).inv(),
            r is Ok ==> final(self).flag_view() == old(self).flag_view().insert(env.hash, env.flags),
            r is Err ==> final(self).flag_view() == old(self).flag_view(),
    ;

    /// Sets the flags of message `id` (hash `hash`). A failure changes
    /// nothing.
    fn update_flags(&mut self, hash: u64, id: &String, flags: Flags) -> (r: Result<(), String>)
        requires
            old(self).inv(),
        ensures
            final(self).inv(),
            r is Ok ==> final(self).flag_view() == if old(self).flag_view().contains_key(hash) {
                old(self).flag_view().insert(hash, flags)
            } else {
                old(self).flag_view()
            },
            r is Err ==> final(self).flag_view() == old(self).flag_view(),
    ;

    /// Deletes message `id` (hash `hash`). A failure changes nothing.
    fn delete_email(&mut self, hash: u64, id: &String) -> (r: Result<(), String>)
        requires
            old(self).inv(),
        ensures
            final(self).inv(),
            r is Ok ==> final(self).flag_view() == old(self).flag_view().remove(hash),
            r is Err ==> final(self).flag_view() == old(self).flag_view(),
    ;
}

/// The cache rows of both sides of one folder.
pub struct Caches {
    pub local: Vec<Envelope>,
    pub remote: Vec<Envelope>,
}

impl Caches {
    /// No side holds two rows with the same hash.
    pub open spec fn wf(&self) -> bool {
        unique_hashes(self.local@) && unique_hashes(self.remote@)
    }

    /// The rows of one side, newest first.
    pub fn rows(&self, side: Side) -> (r: Vec<Envelope>)
        requires
            self.wf(),
        ensures
            newest_first(r@),
            unique_hashes(r@),
            flag_map(r@) == match side {
                Side::Local => flag_map(self.local@),
                Side::Remote => flag_map(self.remote@),
            },
    {
        let src = match side {
            Side::Local => &self.local,
            Side::Remote => &self.remote,
        };
        let r = sort_newest_first(src);
        proof {
            let idx = choose|idx: Seq<int>| stable_from(r@, src@, idx);
            lemma_reordered_same_map(src@, r@, idx);
        }
        r
    }
}

/// The state of two stores and their cache, as reconciliation sees it.
pub open spec fn stores_view<L: Store, R: Store>(l: &L, r: &R, c: &Caches) -> SyncView {
    SyncView {
        local: l.flag_view(),
        local_cache: flag_map(c.local@),
        remote: r.flag_view(),
        remote_cache: flag_map(c.remote@),
    }
}

/// Whether an operation needs a store; only these can fail, since the
/// cache is the library's own.
pub open spec fn store_op(op: PatchOp) -> bool {
    op is Copy || op is UpdateFlags || op is Delete
}

/// Why a patch stopped: the position and message of the operation that
/// failed, and what the store said.
#[derive(Debug, Clone, PartialEq, Eq)]
pub struct PatchError {
    pub index: usize,
    pub hash: u64,
    pub cause: String,
}

fn refresh_from<S: Store>(store: &S, cache: &mut Vec<Envelope>, h: u64)
    requires
        store.inv(),
        unique_hashes(old(cache)@),
    ensures
        unique_hashes(final(cache)@),
        flag_map(final(cache)@) == if store.flag_view().contains_key(h) {
            flag_map(old(cache)@).insert(h, store.flag_view()[h])
        } else {
            flag_map(old(cache)@).remove(h)
        },
{
    match store.envelope(h) {
        Some(e) => upsert(cache, e),
        None => remove_hash(cache, h),
    }
}

/// Carries out `ops` in order on the two stores and the cache. On success
/// the stores and the cache are as the patch says; on the first failure the
/// operations before it stay done and it and those after it are not done.
pub fn apply_patch<L: Store, R: Store>(
    local: &mut L,
    remote: &mut R,
    cache: &mut Caches,
    ops: &Vec<PatchOp>,
) -> (r: Result<(), PatchError>)
    requires
        old(local).inv(),
        old(remote).inv(),
        old(cache).wf(),
    ensures
        final(local).inv(),
        final(remote).inv(),
        final(cache).wf(),
        match r {
            Ok(_) => stores_view(final(local), final(remote), final(cache)) == apply_ops(
                stores_view(old(local), old(remote), old(cache)),
                ops@,
            ),
            Err(e) => {
                &&& e.index < ops@.len()
                &&& e.hash == op_hash(ops@[e.index as int])
                &&& store_op(ops@[e.index as int])
                &&& stores_view(final(local), final(remote), final(cache)) == apply_ops(
                    stores_view(old(local), old(remote), old(cache)),
                    ops@.subrange(0, e.index as int),
                )
            },
        },
{
    let ghost v0 = stores_view(local, remote, cache);
    let mut i: usize = 0;
    while i < ops.len()
        invariant
            local.inv(),
            remote.inv(),
            cache.wf(),
            i <= ops@.len(),
            v0 == stores_view(old(local), old(remote), old(cache)),
            stores_view(local, remote, cache) == apply_ops(v0, ops@.subrange(0, i as int)),
        decreases ops@.len() - i,
    {
        match apply_one(local, remote, cache, &ops[i]) {
            Ok(()) => {},
            Err(cause) => {
                return Err(PatchError { index: i, hash: op_hash_of(&ops[i]), cause });
            },
        }
        assert(ops@.subrange(0, i + 1).drop_last() =~= ops@.subrange(0, i as int));
        i = i + 1;
    }
    assert(ops@.subrange(0, i as int) =~= ops@);
    Ok(())
}

/// Carries out one operation; a failure changes nothing.
fn apply_one<L: Store, R: Store>(local: &mut L, remote: &mut R, cache: &mut Caches, op: &PatchOp) -> (r:
    Result<(), String>)
    requires
        old(local).inv(),
        old(remote).inv(),
        old(cache).wf(),
    ensures
        final(local).inv(),
        final(remote).inv(),
        final(cache).wf(),
        r is Ok ==> stores_view(final(local), final(remote), final(cache)) == apply_op(
            stores_view(old(local), old(remote), old(cache)),
            *op,
        ),
        r is Err ==> stores_view(final(local), final(remote), final(cache)) == stores_view(
            old(local),
            old(remote),
            old(cache),
        ),
        r is Err ==> store_op(*op),
{
    match op {
        PatchOp::Copy { from, envelope } => {
            let added = match from {
                Side::Local => remote.add_email(envelope),
                Side::Remote => local.add_email(envelope),
            };
            match added {
                Ok(_) => Ok(()),
                Err(c) => Err(c),
            }
        },
        PatchOp::UpdateFlags { side, hash, id, flags } => match side {
            Side::Local => local.update_flags(*hash, id, *flags),
            Side::Remote => remote.update_flags(*hash, id, *flags),
        },
        PatchOp::Delete { side, hash, id } => match side {
            Side::Local => local.delete_email(*hash, id),
            Side::Remote => remote.delete_email(*hash, id),
        },
        PatchOp::CacheRefresh { side, hash } => {
            match side {
                Side::Local => refresh_from(&*local, &mut cache.local, *hash),
                Side::Remote => refresh_from(&*remote, &mut cache.remote, *hash),
            }
            Ok(())
        },
        PatchOp::CacheRemove { side, hash } => {
            match side {
                Side::Local => remove_hash(&mut cache.local, *hash),
                Side::Remote => remove_hash(&mut cache.remote, *hash),
            }
            Ok(())
        },
    }
}

/// The message an operation is about.
pub fn op_hash_of(op: &PatchOp) -> (r: u64)
    ensures
        r == op_hash(*op),
{
    match op {
        PatchOp::Copy { envelope, .. } => envelope.hash,
        PatchOp::UpdateFlags { hash, .. } => *hash,
        PatchOp::Delete { hash, .. } => *hash,
        PatchOp::CacheRefresh { hash, .. } => *hash,
        PatchOp::CacheRemove { hash, .. } => *hash,
    }
}

/// A copy of a list of envelopes.
pub fn copy_envelopes(v: &Vec<Envelope>) -> (r: Vec<Envelope>)
    ensures
        r@ == v@,
{
    let mut r: Vec<Envelope> = Vec::new();
    let mut i: usize = 0;
    while i < v.len()
        invariant
            i <= v@.len(),
            r@ == v@.subrange(0, i as int),
        decreases v@.len() - i,
    {
        r.push(v[i].duplicate());
        assert(r@ =~= v@.subrange(0, i + 1));
        i = i + 1;
    }
    assert(v@.subrange(0, v@.len() as int) =~= v@);
    r
}

/// Reconciles one folder between two stores: lists both, plans against
/// the cache, and carries the patch out unless `dry_run`. A dry run
/// changes neither store nor the cache. The patch is given back either way.
pub fn sync_stores<L: Store, R: Store>(
    local: &mut L,
    remote: &mut R,
    cache: &mut Caches,
    dry_run: bool,
) -> (r: Result<Vec<PatchOp>, PatchError>)
    requires
        old(local).inv(),
        old(remote).inv(),
        old(cache).wf(),
    ensures
        final(local).inv(),
        final(remote).inv(),
        final(cache).wf(),
        dry_run ==> r is Ok && *final(local) == *old(local) && *final(remote) == *old(remote)
            && *final(cache) == *old(cache),
        r matches Ok(ops) ==> apply_ops(stores_view(old(local), old(remote), old(cache)), ops@)
            == synced(stores_view(old(local), old(remote), old(cache))) && (settled(
            stores_view(old(local), old(remote), old(cache)),
        ) <==> ops@.len() == 0),
        r is Ok && !dry_run ==> stores_view(final(local), final(remote), final(cache)) == synced(
            stores_view(old(local), old(remote), old(cache)),
        ),
        settled(stores_view(old(local), old(remote), old(cache))) ==> r is Ok,
        r matches Err(e) ==> exists|ops: Seq<PatchOp>|
            {
                &&& apply_ops(stores_view(old(local), old(remote), old(cache)), ops) == synced(
                    stores_view(old(local), old(remote), old(cache)),
                )
                &&& e.index < ops.len()
                &&& store_op(ops[e.index as int])
                &&& stores_view(final(local), final(remote), final(cache)) == apply_ops(
                    stores_view(old(local), old(remote), old(cache)),
                    ops.subrange(0, e.index as int),
                )
            },
{
    let st = FolderState {
        local: local.list(),
        local_cache: copy_envelopes(&cache.local),
        remote: remote.list(),
        remote_cache: copy_envelopes(&cache.remote),
    };
    assert(st.view() == stores_view(local, remote, cache));
    let ops = plan(&st);
    if dry_run {
        return Ok(ops);
    }
    match apply_patch(local, remote, cache, &ops) {
        Ok(()) => Ok(ops),
        Err(e) => {
            assert(apply_ops(st.view(), ops@) == synced(st.view()));
            Err(e)
        },
    }
}

/// A store held in memory. It names a copied message by its own prefix
/// followed by the id the message had in the other store.
pub struct MemStore {
    pub envelopes: Vec<Envelope>,
    pub id_prefix: String,
}

impl Store for MemStore {
    open spec fn inv(&self) -> bool {
        unique_hashes(self.envelopes@)
    }

    open spec fn flag_view(&self) -> Map<u64, Flags> {
        flag_map(self.envelopes@)
    }

    fn list(&self) -> (r: Vec<Envelope>) {
        let r = sort_newest_first(&self.envelopes);
        proof {
            let idx = choose|idx: Seq<int>| stable_from(r@, self.envelopes@, idx);
            lemma_reordered_same_map(self.envelopes@, r@, idx);
        }
        r
    }

    fn envelope(&self, hash: u64) -> (r: Option<Envelope>) {
        match find_hash(&self.envelopes, hash) {
            Some(i) => {
                proof {
                    lemma_by_hash(self.envelopes@, i as int);
                }
                Some(self.envelopes[i].duplicate())
            },
            None => None,
        }
    }

    fn add_email(&mut self, env: &Envelope) -> (r: Result<String, String>) {
        let id = self.id_prefix.clone().concat(env.id.as_str());
        let mut e = env.duplicate();
        e.id = id.clone();
        upsert(&mut self.envelopes, e);
        Ok(id)
    }

    fn update_flags(&mut self, hash: u64, id: &String, flags: Flags) -> (r: Result<(), String>) {
        crate::envelope::set_flags(&mut self.envelopes, hash, flags);
        Ok(())
    }

    fn delete_email(&mut self, hash: u64, id: &String) -> (r: Result<(), String>) {
        remove_hash(&mut self.envelopes, hash);
        Ok(())
    }
}

/// One folder of an account: its two stores and its cache rows.
pub struct FolderStores<L: Store, R: Store> {
    pub name: String,
    pub local: L,
    pub remote: R,
    pub cache: Caches,
}

/// The stores and the cache of a folder are each well formed.
pub open spec fn folder_ok<L: Store, R: Store>(f: FolderStores<L, R>) -> bool {
    f.local.inv() && f.remote.inv() && f.cache.wf()
}

/// The state of a folder, as reconciliation sees it.
pub open spec fn folder_view<L: Store, R: Store>(f: FolderStores<L, R>) -> SyncView {
    stores_view(&f.local, &f.remote, &f.cache)
}

/// Where an account sync stopped: the position of the folder, and why.
#[derive(Debug, Clone, PartialEq, Eq)]
pub struct SyncFailure {
    pub folder: usize,
    pub error: PatchError,
}

/// Reconciles the folders in order and stops at the first failure. The
/// folders before it are reconciled, the failing one keeps the operations
/// done before its failure, and those after it are untouched. A dry run
/// changes nothing and always succeeds.
pub fn sync_folders<L: Store, R: Store>(folders: &mut Vec<FolderStores<L, R>>, dry_run: bool) -> (r:
    Result<Vec<Vec<PatchOp>>, SyncFailure>)
    requires
        forall|i: int| 0 <= i < old(folders)@.len() ==> folder_ok(#[trigger] old(folders)@[i]),
    ensures
        final(folders)@.len() == old(folders)@.len(),
        forall|i: int| 0 <= i < final(folders)@.len() ==> folder_ok(#[trigger] final(folders)@[i]),
        forall|i: int|
            0 <= i < final(folders)@.len() ==> (#[trigger] final(folders)@[i]).name
                == old(folders)@[i].name,
        dry_run ==> r is Ok && final(folders)@ == old(folders)@,
        r matches Ok(ps) ==> ps@.len() == old(folders)@.len() && forall|i: int|
            0 <= i < ps@.len() ==> {
                &&& apply_ops(folder_view(old(folders)@[i]), #[trigger] ps@[i]@) == synced(
                    folder_view(old(folders)@[i]),
                )
                &&& !dry_run ==> folder_view(final(folders)@[i]) == synced(
                    folder_view(old(folders)@[i]),
                )
            },
        r matches Err(f) ==> {
            &&& f.folder < old(folders)@.len()
            &&& forall|i: int|
                0 <= i < f.folder ==> folder_view(#[trigger] final(folders)@[i]) == synced(
                    folder_view(old(folders)@[i]),
                )
            &&& forall|i: int|
                f.folder < i < old(folders)@.len() ==> #[trigger] final(folders)@[i]
                    == old(folders)@[i]
            &&& exists|ops: Seq<PatchOp>|
                {
                    &&& apply_ops(folder_view(old(folders)@[f.folder as int]), ops) == synced(
                        folder_view(old(folders)@[f.folder as int]),
                    )
                    &&& f.error.index < ops.len()
                    &&& store_op(ops[f.error.index as int])
                    &&& folder_view(final(folders)@[f.folder as int]) == apply_ops(
                        folder_view(old(folders)@[f.folder as int]),
                        ops.subrange(0, f.error.index as int),
                    )
                }
        },
{
    let ghost start = folders@;
    let mut done: Vec<FolderStores<L, R>> = Vec::new();
    let mut rest: Vec<FolderStores<L, R>> = Vec::new();
    std::mem::swap(&mut rest, folders);
    let mut patches: Vec<Vec<PatchOp>> = Vec::new();
    let n = rest.len();
    let mut i: usize = 0;
    while i < n
        invariant
            start == old(folders)@,
            n == start.len(),
            i <= n,
            rest@ == start.subrange(i as int, n as int),
            forall|k: int| 0 <= k < n ==> folder_ok(#[trigger] start[k]),
            done@.len() == i,
            patches@.len() == i,
            forall|k: int|
                0 <= k < i ==> {
                    &&& folder_ok(#[trigger] done@[k])
                    &&& done@[k].name == start[k].name
                    &&& apply_ops(folder_view(start[k]), patches@[k]@) == synced(
                        folder_view(start[k]),
                    )
                    &&& dry_run ==> done@[k] == start[k]
                    &&& !dry_run ==> folder_view(done@[k]) == synced(folder_view(start[k]))
                },
        decreases n - i,
    {
        let mut f = rest.remove(0);
        assert(f == start[i as int]);
        assert(rest@ =~= start.subrange(i + 1, n as int));
        let res = sync_stores(&mut f.local, &mut f.remote, &mut f.cache, dry_run);
        match res {
            Ok(ops) => {
                patches.push(ops);
                done.push(f);
            },
            Err(e) => {
                let ghost failed = f;
                let ghost before = done@;
                done.push(f);
                done.append(&mut rest);
                *folders = done;
                assert(folders@.len() == n);
                assert forall|k: int| 0 <= k < n implies #[trigger] folders@[k] == if k < i {
                    before[k]
                } else if k == i {
                    failed
                } else {
                    start[k]
                } by {
                    if k > i {
                        assert(folders@[k] == start.subrange(i + 1, n as int)[k - i - 1]);
                    }
                }
                assert forall|k: int| 0 <= k < folders@.len() implies folder_ok(#[trigger] folders@[k])
                    by {
                    if k < i {
                        assert(folders@[k] == before[k]);
                    } else if k > i {
                        assert(folders@[k] == start[k]);
                    }
                }
                assert forall|k: int| 0 <= k < folders@.len() implies (#[trigger] folders@[k]).name
                    == start[k].name by {
                    if k < i {
                        assert(folders@[k] == before[k]);
                    } else if k > i {
                        assert(folders@[k] == start[k]);
                    }
                }
                assert forall|k: int| 0 <= k < i implies folder_view(#[trigger] folders@[k])
                    == synced(folder_view(start[k])) by {
                    assert(folders@[k] == before[k]);
                }
                return Err(SyncFailure { folder: i, error: e });
            },
        }
        i = i + 1;
    }
    let ghost all = done@;
    *folders = done;
    assert(dry_run ==> folders@ =~= start);
    assert forall|k: int| 0 <= k < patches@.len() implies {
        &&& apply_ops(folder_view(start[k]), #[trigger] patches@[k]@) == synced(
            folder_view(start[k]),
        )
        &&& !dry_run ==> folder_view(folders@[k]) == synced(folder_view(start[k]))
    } by {
        assert(folders@[k] == all[k]);
        assert(folder_ok(all[k]));
    }
    Ok(patches)
}

} // verus!
