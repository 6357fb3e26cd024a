//! How a sync run of an account starts: whether it runs at all, and where
//! its cache and local store live.
use vstd::prelude::*;
use crate::folder::{name_set, sync_folder_sets, FolderPatch};
use crate::sync::{apply_ops, settled, synced, FolderState, PatchOp};

verus! {

/// The account settings that synchronisation reads.
#[derive(Debug, Clone, Default, PartialEq, Eq)]
pub struct AccountConfig {
    pub name: String,
    /// Whether the account is synchronised at all.
    pub sync: bool,
    /// Where the cache and the local store live.
    pub sync_dir: Option<String>,
}

/// Why a sync run failed.
#[derive(Debug, Clone, PartialEq, Eq)]
pub enum Error {
    /// Synchronisation is not enabled for the account: a configuration
    /// error, found before any store or directory is touched.
    SyncNotEnabled,
    /// No sync directory is configured and none is given by the platform.
    GetXdgDataDirError,
    /// The sync directory could not be created; the text says how.
    CreateXdgDataDirsError(String),
    /// The local store failed; the text says how.
    MaildirError(String),
    /// Folder reconciliation failed; the text says how.
    SyncFoldersError(String),
    /// Message reconciliation failed; the text says how.
    SyncEnvelopesError(String),
}

/// What a sync run does first.
#[derive(Debug, Clone, PartialEq, Eq)]
pub enum SyncStart {
    /// Run with the cache under `sync_dir` and the local store under
    /// `root_dir`; `create_dir` says whether `sync_dir` must be created.
    Run { sync_dir: String, root_dir: String, create_dir: bool },
}

/// `base` joined with the relative path `part`.
pub open spec fn join_path(base: Seq<char>, part: Seq<char>) -> Seq<char> {
    if base.len() > 0 && base.last() == '/' {
        base + part
    } else {
        base + seq!['/'] + part
    }
}

/// The directory name used under the platform data directory.
pub open spec fn app_dir_name() -> Seq<char> {
    "himalaya"@
}

/// `base` joined with the relative path `part`.
pub fn join(base: &String, part: &str) -> (r: String)
    ensures
        r@ == join_path(base@, part@),
{
    let mut r = base.clone();
    let n = base.as_str().unicode_len();
    if n > 0 && base.as_str().get_char(n - 1) == '/' {
        r.append(part);
    } else {
        proof {
            reveal_strlit("/");
        }
        r.append("/");
        r.append(part);
    }
    r
}

/// Decides how a run starts, given whether the configured sync directory
/// exists and the platform data directory (if any): the configured
/// directory when it exists, else `himalaya` under the data directory, to
/// be created.
pub fn plan_sync(account: &AccountConfig, configured_is_dir: bool, data_dir: Option<String>) -> (r:
    Result<SyncStart, Error>)
    ensures
        plan_sync_outcome(account, configured_is_dir, data_dir, r),
{
    if !account.sync {
        return Err(Error::SyncNotEnabled);
    }
    let configured = match &account.sync_dir {
        Some(dir) => if configured_is_dir {
            Some(dir.clone())
        } else {
            None
        },
        None => None,
    };
    match configured {
        Some(dir) => {
            let root = join(&dir, account.name.as_str());
            Ok(SyncStart::Run { sync_dir: dir, root_dir: root, create_dir: false })
        },
        None => match data_dir {
            Some(d) => {
                proof {
                    reveal_strlit("himalaya");
                }
                let dir = join(&d, "himalaya");
                let root = join(&dir, account.name.as_str());
                Ok(SyncStart::Run { sync_dir: dir, root_dir: root, create_dir: true })
            },
            None => Err(Error::GetXdgDataDirError),
        },
    }
}

/// Relies on `dirs::data_dir`: the platform's data directory, if it has
/// one; it depends on the environment, so nothing is promised of it. A
/// path that is not valid UTF-8 is given as none, never altered.
#[verifier::external_body]
fn platform_data_dir() -> (r: Option<String>)
{
    dirs::data_dir().and_then(|p| p.into_os_string().into_string().ok())
}

/// Decides how a run starts, with the platform's data directory as the
/// fallback. When synchronisation is off for the account the error comes
/// before the data directory is even looked up.
pub fn start_sync(account: &AccountConfig, configured_is_dir: bool) -> (r: Result<SyncStart, Error>)
    ensures
        !account.sync ==> r == Err::<SyncStart, Error>(Error::SyncNotEnabled),
        exists|d: Option<String>| #[trigger] plan_sync_outcome(account, configured_is_dir, d, r),
{
    if !account.sync {
        let r = Err(Error::SyncNotEnabled);
        assert(plan_sync_outcome(account, configured_is_dir, None, r));
        return r;
    }
    let d = platform_data_dir();
    let r = plan_sync(account, configured_is_dir, d);
    assert(plan_sync_outcome(account, configured_is_dir, d, r));
    r
}

/// `r` is what `plan_sync` gives for these arguments.
pub open spec fn plan_sync_outcome(
    account: &AccountConfig,
    configured_is_dir: bool,
    data_dir: Option<String>,
    r: Result<SyncStart, Error>,
) -> bool {
    &&& !account.sync ==> r == Err::<SyncStart, Error>(Error::SyncNotEnabled)
    &&& account.sync && account.sync_dir is Some && configured_is_dir ==> (r matches Ok(
        SyncStart::Run { sync_dir, root_dir, create_dir },
    ) && sync_dir@ == account.sync_dir->0@ && root_dir@ == join_path(sync_dir@, account.name@)
        && !create_dir)
    &&& account.sync && !(account.sync_dir is Some && configured_is_dir) ==> match data_dir {
        None => r == Err::<SyncStart, Error>(Error::GetXdgDataDirError),
        Some(d) => r matches Ok(SyncStart::Run { sync_dir, root_dir, create_dir }) && sync_dir@
            == join_path(d@, app_dir_name()) && root_dir@ == join_path(sync_dir@, account.name@)
            && create_dir,
    }
}

/// One folder of an account, with the messages of both stores and the
/// cache rows of both sides.
pub struct FolderEntry {
    pub name: String,
    pub state: FolderState,
}

/// Both stores of an account and its cache, held in memory.
pub struct AccountState {
    pub local_folders: Vec<String>,
    pub remote_folders: Vec<String>,
    pub folders: Vec<FolderEntry>,
}

/// What a sync run of an account did, or would do in a dry run.
pub struct AccountPatch {
    pub folders: FolderPatch,
    /// The patch of each folder, in the order of `AccountState::folders`.
    pub envelopes: Vec<Vec<PatchOp>>,
}

/// A folder whose stores and caches are all empty.
pub open spec fn empty_folder(st: FolderState) -> bool {
    st.local@.len() == 0 && st.local_cache@.len() == 0 && st.remote@.len() == 0
        && st.remote_cache@.len() == 0
}

/// Whether some entry is named `name`.
fn has_entry(entries: &Vec<FolderEntry>, name: &String) -> (r: bool)
    ensures
        r == exists|i: int| 0 <= i < entries@.len() && entries@[i].name@ == name@,
{
    let mut i: usize = 0;
    while i < entries.len()
        invariant
            i <= entries@.len(),
            forall|j: int| 0 <= j < i ==> entries@[j].name@ != name@,
        decreases entries@.len() - i,
    {
        if entries[i].name == *name {
            assert(entries@[i as int].name@ == name@);
            return true;
        }
        i = i + 1;
    }
    false
}

/// Adds an empty entry, with an empty patch, for each folder of `names`
/// that has none.
fn add_missing_entries(
    entries: &mut Vec<FolderEntry>,
    patches: &mut Vec<Vec<PatchOp>>,
    names: &Vec<String>,
)
    requires
        old(entries)@.len() == old(patches)@.len(),
        forall|i: int| 0 <= i < old(entries)@.len() ==> (#[trigger] old(entries)@[i]).state.wf(),
    ensures
        final(entries)@.len() == final(patches)@.len(),
        final(entries)@.len() >= old(entries)@.len(),
        forall|i: int| 0 <= i < old(entries)@.len() ==> #[trigger] final(entries)@[i] == old(entries)@[i],
        forall|i: int| 0 <= i < old(patches)@.len() ==> #[trigger] final(patches)@[i] == old(patches)@[i],
        forall|i: int| 0 <= i < final(entries)@.len() ==> (#[trigger] final(entries)@[i]).state.wf(),
        forall|i: int|
            old(entries)@.len() <= i < final(entries)@.len() ==> {
                &&& empty_folder(#[trigger] final(entries)@[i].state)
                &&& final(patches)@[i]@.len() == 0
            },
        forall|nm: Seq<char>|
            #[trigger] name_set(names@).contains(nm) ==> exists|i: int|
                0 <= i < final(entries)@.len() && final(entries)@[i].name@ == nm,
{
    let ghost e0 = entries@;
    let ghost p0 = patches@;
    let mut j: usize = 0;
    while j < names.len()
        invariant
            j <= names@.len(),
            entries@.len() == patches@.len(),
            entries@.len() >= e0.len(),
            forall|i: int| 0 <= i < e0.len() ==> #[trigger] entries@[i] == e0[i],
            forall|i: int| 0 <= i < p0.len() ==> #[trigger] patches@[i] == p0[i],
            p0.len() == e0.len(),
            forall|i: int| 0 <= i < e0.len() ==> (#[trigger] e0[i]).state.wf(),
            forall|i: int| 0 <= i < entries@.len() ==> (#[trigger] entries@[i]).state.wf(),
            forall|i: int|
                e0.len() <= i < entries@.len() ==> {
                    &&& empty_folder(#[trigger] entries@[i].state)
                    &&& patches@[i]@.len() == 0
                },
            forall|k: int|
                0 <= k < j ==> exists|i: int|
                    0 <= i < entries@.len() && entries@[i].name@ == (#[trigger] names@[k])@,
        decreases names@.len() - j,
    {
        if !has_entry(entries, &names[j]) {
            let entry = FolderEntry {
                name: names[j].clone(),
                state: FolderState {
                    local: Vec::new(),
                    local_cache: Vec::new(),
                    remote: Vec::new(),
                    remote_cache: Vec::new(),
                },
            };
            let ghost before = entries@;
            entries.push(entry);
            patches.push(Vec::new());
            assert(entries@[entries@.len() - 1].name@ == names@[j as int]@);
            assert forall|k: int| 0 <= k < j implies exists|i: int|
                0 <= i < entries@.len() && entries@[i].name@ == (#[trigger] names@[k])@ by {
                let i = choose|i: int| 0 <= i < before.len() && before[i].name@ == names@[k]@;
                assert(entries@[i] == before[i]);
            }
        }
        j = j + 1;
    }
    assert forall|nm: Seq<char>| #[trigger] name_set(names@).contains(nm) implies exists|i: int|
        0 <= i < entries@.len() && entries@[i].name@ == nm by {
        let k = choose|k: int| 0 <= k < names@.len() && names@[k]@ == nm;
        assert(exists|i: int| 0 <= i < entries@.len() && entries@[i].name@ == names@[k]@);
    }
}

impl AccountState {
    /// Every folder state is well formed.
    pub open spec fn wf(&self) -> bool {
        forall|i: int| 0 <= i < self.folders@.len() ==> (#[trigger] self.folders@[i]).state.wf()
    }

    /// Syncs the account: first the folder sets, then each folder's
    /// messages. Every folder of the reconciled set gets an entry (a new
    /// folder starts empty, with nothing to do). A dry run computes
    /// everything and changes nothing.
    pub fn sync_account(&mut self, dry_run: bool) -> (r: AccountPatch)
        requires
            old(self).wf(),
        ensures
            final(self).wf(),
            name_set(r.folders.create_local@) == name_set(old(self).remote_folders@).difference(
                name_set(old(self).local_folders@),
            ),
            name_set(r.folders.create_remote@) == name_set(old(self).local_folders@).difference(
                name_set(old(self).remote_folders@),
            ),
            r.envelopes@.len() == final(self).folders@.len(),
            final(self).folders@.len() >= old(self).folders@.len(),
            dry_run ==> final(self).folders@.len() == old(self).folders@.len(),
            forall|i: int|
                old(self).folders@.len() <= i < final(self).folders@.len() ==> {
                    &&& empty_folder(#[trigger] final(self).folders@[i].state)
                    &&& r.envelopes@[i]@.len() == 0
                },
            !dry_run ==> forall|nm: Seq<char>|
                #[trigger] name_set(final(self).local_folders@).contains(nm) ==> exists|i: int|
                    0 <= i < final(self).folders@.len() && final(self).folders@[i].name@ == nm,
            forall|i: int|
                0 <= i < old(self).folders@.len() ==> {
                    &&& apply_ops(old(self).folders@[i].state.view(), #[trigger] r.envelopes@[i]@)
                        == synced(old(self).folders@[i].state.view())
                    &&& settled(old(self).folders@[i].state.view()) <==> r.envelopes@[i]@.len()
                        == 0
                    &&& final(self).folders@[i].name == old(self).folders@[i].name
                    &&& dry_run ==> final(self).folders@[i].state == old(self).folders@[i].state
                    &&& !dry_run ==> final(self).folders@[i].state.view() == synced(
                        old(self).folders@[i].state.view(),
                    )
                },
            dry_run ==> final(self).local_folders@ == old(self).local_folders@
                && final(self).remote_folders@ == old(self).remote_folders@,
            !dry_run ==> name_set(final(self).local_folders@) == name_set(
                old(self).local_folders@,
            ).union(name_set(old(self).remote_folders@)),
            !dry_run ==> name_set(final(self).remote_folders@) == name_set(
                final(self).local_folders@,
            ),
    {
        let folders = sync_folder_sets(&mut self.local_folders, &mut self.remote_folders, dry_run);
        let ghost start = self.folders@;
        let mut envelopes: Vec<Vec<PatchOp>> = Vec::new();
        let mut done: Vec<FolderEntry> = Vec::new();
        let mut rest: Vec<FolderEntry> = Vec::new();
        std::mem::swap(&mut rest, &mut self.folders);
        let mut i: usize = 0;
        let n = rest.len();
        while i < n
            invariant
                n == start.len(),
                i <= n,
                rest@ == start.subrange(i as int, n as int),
                forall|k: int| 0 <= k < n ==> (#[trigger] start[k]).state.wf(),
                done@.len() == i,
                envelopes@.len() == i,
                forall|k: int|
                    0 <= k < i ==> {
                        &&& (#[trigger] done@[k]).state.wf()
                        &&& apply_ops(start[k].state.view(), envelopes@[k]@) == synced(
                            start[k].state.view(),
                        )
                        &&& settled(start[k].state.view()) <==> envelopes@[k]@.len() == 0
                        &&& done@[k].name == start[k].name
                        &&& dry_run ==> done@[k].state == start[k].state
                        &&& !dry_run ==> done@[k].state.view() == synced(start[k].state.view())
                    },
            decreases n - i,
        {
            let mut entry = rest.remove(0);
            assert(entry == start[i as int]);
            let ops = entry.state.sync_folder(dry_run);
            envelopes.push(ops);
            done.push(entry);
            assert(rest@ =~= start.subrange(i + 1, n as int));
            i = i + 1;
        }
        let ghost synced_entries = done@;
        let ghost synced_patches = envelopes@;
        if !dry_run {
            add_missing_entries(&mut done, &mut envelopes, &self.local_folders);
        }
        self.folders = done;
        assert forall|k: int| 0 <= k < n implies {
            &&& apply_ops(start[k].state.view(), #[trigger] envelopes@[k]@) == synced(
                start[k].state.view(),
            )
            &&& settled(start[k].state.view()) <==> envelopes@[k]@.len() == 0
            &&& self.folders@[k].name == start[k].name
            &&& dry_run ==> self.folders@[k].state == start[k].state
            &&& !dry_run ==> self.folders@[k].state.view() == synced(start[k].state.view())
        } by {
            assert(self.folders@[k] == synced_entries[k]);
            assert(envelopes@[k] == synced_patches[k]);
        }
        AccountPatch { folders, envelopes }
    }
}

} // verus!
