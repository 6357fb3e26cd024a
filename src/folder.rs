//! Folders, and the folder-set reconciliation that comes before message
//! reconciliation.
use vstd::prelude::*;

verus! {

/// A mail folder.
#[derive(Debug, Default, PartialEq, Eq, Clone)]
pub struct Folder {
    /// The hierarchy delimiter.
    pub delim: String,
    pub name: String,
    pub desc: String,
}

impl Folder {
    /// How a folder is shown: its name.
    pub fn to_string(&self) -> (r: String)
        ensures
            r@ == self.name@,
    {
        self.name.clone()
    }
}

/// The folder names that a list holds.
pub open spec fn name_set(s: Seq<String>) -> Set<Seq<char>> {
    Set::new(|n: Seq<char>| exists|i: int| 0 <= i < s.len() && s[i]@ == n)
}

/// What folder reconciliation does: it only ever creates folders.
#[derive(Debug, Default, PartialEq, Eq, Clone)]
pub struct FolderPatch {
    /// Folders to create on the local store.
    pub create_local: Vec<String>,
    /// Folders to create on the remote store.
    pub create_remote: Vec<String>,
}

/// Whether a folder named like `name` is in `s`.
pub fn contains_name(s: &Vec<String>, name: &String) -> (r: bool)
    ensures
        r == name_set(s@).contains(name@),
{
    let mut i: usize = 0;
    while i < s.len()
        invariant
            i <= s@.len(),
            forall|j: int| 0 <= j < i ==> s@[j]@ != name@,
        decreases s@.len() - i,
    {
        if s[i] == *name {
            assert(s@[i as int]@ == name@);
            return true;
        }
        i = i + 1;
    }
    false
}

/// The names of `a` that `b` lacks, each once.
fn missing_from(a: &Vec<String>, b: &Vec<String>) -> (r: Vec<String>)
    ensures
        name_set(r@) == name_set(a@).difference(name_set(b@)),
{
    let mut r: Vec<String> = Vec::new();
    let mut i: usize = 0;
    while i < a.len()
        invariant
            i <= a@.len(),
            forall|n: Seq<char>|
                #[trigger] name_set(r@).contains(n) <==> (name_set(a@.subrange(0, i as int)).contains(
                    n,
                ) && !name_set(b@).contains(n)),
        decreases a@.len() - i,
    {
        let name = &a[i];
        let ghost prev = r@;
        if !contains_name(b, name) && !contains_name(&r, name) {
            r.push(name.clone());
        }
        assert forall|n: Seq<char>|
            #[trigger] name_set(r@).contains(n) <==> (name_set(prev).contains(n) || (n == a@[i as int]@
                && !name_set(b@).contains(n))) by {
            if name_set(r@).contains(n) {
                let k = choose|k: int| 0 <= k < r@.len() && r@[k]@ == n;
                if k < prev.len() {
                    assert(prev[k]@ == n);
                }
            }
            if name_set(prev).contains(n) {
                let k = choose|k: int| 0 <= k < prev.len() && prev[k]@ == n;
                assert(r@[k]@ == n);
            }
            if n == a@[i as int]@ && !name_set(b@).contains(n) && !name_set(prev).contains(n) {
                assert(r@[prev.len() as int]@ == n);
            }
        }
        assert forall|n: Seq<char>|
            #[trigger] name_set(a@.subrange(0, i + 1)).contains(n) <==> (name_set(
                a@.subrange(0, i as int),
            ).contains(n) || n == a@[i as int]@) by {
            let s1 = a@.subrange(0, i + 1);
            let s0 = a@.subrange(0, i as int);
            if name_set(s1).contains(n) {
                let k = choose|k: int| 0 <= k < s1.len() && s1[k]@ == n;
                if k < i {
                    assert(s0[k]@ == n);
                }
            }
            if name_set(s0).contains(n) {
                let k = choose|k: int| 0 <= k < s0.len() && s0[k]@ == n;
                assert(s1[k]@ == n);
            }
            if n == a@[i as int]@ {
                assert(s1[i as int]@ == n);
            }
        }
        i = i + 1;
    }
    assert(a@.subrange(0, a@.len() as int) =~= a@);
    assert(name_set(r@) =~= name_set(a@).difference(name_set(b@)));
    r
}

/// The folders that each store lacks: every folder of either store ends up
/// on both, and no folder is ever removed.
pub fn plan_folders(local: &Vec<String>, remote: &Vec<String>) -> (r: FolderPatch)
    ensures
        name_set(r.create_local@) == name_set(remote@).difference(name_set(local@)),
        name_set(r.create_remote@) == name_set(local@).difference(name_set(remote@)),
{
    FolderPatch { create_local: missing_from(remote, local), create_remote: missing_from(local, remote) }
}

/// After folder reconciliation both stores hold every folder that either
/// held, and each still holds every folder it held before.
pub proof fn lemma_folders_created_never_deleted(local: Set<Seq<char>>, remote: Set<Seq<char>>)
    ensures
        local.union(remote.difference(local)) == local.union(remote),
        remote.union(local.difference(remote)) == local.union(remote),
        local.subset_of(local.union(remote.difference(local))),
        remote.subset_of(remote.union(local.difference(remote))),
{
    assert(local.union(remote.difference(local)) =~= local.union(remote));
    assert(remote.union(local.difference(remote)) =~= local.union(remote));
}

proof fn lemma_name_set_concat(a: Seq<String>, b: Seq<String>)
    ensures
        name_set(a + b) == name_set(a).union(name_set(b)),
{
    let c = a + b;
    assert forall|n: Seq<char>| #[trigger] name_set(c).contains(n) <==> (name_set(a).contains(n)
        || name_set(b).contains(n)) by {
        if name_set(c).contains(n) {
            let k = choose|k: int| 0 <= k < c.len() && c[k]@ == n;
            if k < a.len() {
                assert(a[k]@ == n);
            } else {
                assert(b[k - a.len()]@ == n);
            }
        }
        if name_set(a).contains(n) {
            let k = choose|k: int| 0 <= k < a.len() && a[k]@ == n;
            assert(c[k]@ == n);
        }
        if name_set(b).contains(n) {
            let k = choose|k: int| 0 <= k < b.len() && b[k]@ == n;
            assert(c[k + a.len()]@ == n);
        }
    }
    assert(name_set(c) =~= name_set(a).union(name_set(b)));
}

/// Reconciles the folder sets of the two stores: the folders that each
/// lacks are created on it, unless `dry_run`, in which case nothing
/// changes. No folder is ever removed.
pub fn sync_folder_sets(local: &mut Vec<String>, remote: &mut Vec<String>, dry_run: bool) -> (r:
    FolderPatch)
    ensures
        name_set(r.create_local@) == name_set(old(remote)@).difference(name_set(old(local)@)),
        name_set(r.create_remote@) == name_set(old(local)@).difference(name_set(old(remote)@)),
        dry_run ==> final(local)@ == old(local)@ && final(remote)@ == old(remote)@,
        !dry_run ==> name_set(final(local)@) == name_set(old(local)@).union(name_set(old(remote)@)),
        !dry_run ==> name_set(final(remote)@) == name_set(old(local)@).union(name_set(old(remote)@)),
        name_set(old(local)@).subset_of(name_set(final(local)@)),
        name_set(old(remote)@).subset_of(name_set(final(remote)@)),
{
    let p = plan_folders(local, remote);
    if !dry_run {
        let ghost l0 = local@;
        let ghost r0 = remote@;
        let mut add_l = crate::config::clone_strings(&p.create_local);
        let mut add_r = crate::config::clone_strings(&p.create_remote);
        local.append(&mut add_l);
        remote.append(&mut add_r);
        proof {
            lemma_name_set_concat(l0, p.create_local@);
            lemma_name_set_concat(r0, p.create_remote@);
            lemma_folders_created_never_deleted(name_set(l0), name_set(r0));
        }
    }
    p
}

} // verus!
