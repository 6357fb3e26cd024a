use posters::account::{AccountState, FolderEntry};
use posters::folder::sync_folder_sets;
use posters::envelope::{sort_newest_first, Envelope};
use posters::flag::Flags;
use posters::folder::plan_folders;
use posters::sync::{plan, FolderState, PatchOp, Side};

fn env(id: &str, hash: u64, date: i64, flags: Flags, subject: &str) -> Envelope {
    Envelope {
        id: id.to_string(),
        hash,
        flags,
        message_id: format!("<{}@localhost>", subject.to_lowercase()),
        sender: "alice@localhost".to_string(),
        subject: subject.to_string(),
        date,
    }
}

fn flagged() -> Flags {
    Flags { flagged: true, ..Flags::default() }
}

fn seen() -> Flags {
    Flags { seen: true, ..Flags::default() }
}

fn empty_state() -> FolderState {
    FolderState { local: vec![], local_cache: vec![], remote: vec![], remote_cache: vec![] }
}

fn hashes_and_flags(v: &[Envelope]) -> Vec<(u64, Flags)> {
    let mut r: Vec<(u64, Flags)> = v.iter().map(|e| (e.hash, e.flags)).collect();
    r.sort_by_key(|p| p.0);
    r
}

fn settled_with(e: Envelope) -> FolderState {
    let mut l = e.clone();
    l.id = "local-1".to_string();
    FolderState {
        local: vec![l.clone()],
        local_cache: vec![l],
        remote: vec![e.clone()],
        remote_cache: vec![e],
    }
}

#[test]
fn sync_twice_changes_nothing_more() {
    let mut st = empty_state();
    st.local.push(env("a", 1, 5, seen(), "X"));
    st.remote.push(env("b", 2, 6, Flags::default(), "Y"));
    st.sync_folder(false);
    let after_first = (st.local.clone(), st.local_cache.clone(), st.remote.clone(), st.remote_cache.clone());
    let ops = st.sync_folder(false);
    assert!(ops.is_empty());
    assert_eq!(after_first, (st.local.clone(), st.local_cache.clone(), st.remote.clone(), st.remote_cache.clone()));
}

#[test]
fn remote_message_gets_local_id_and_one_hash() {
    let mut st = empty_state();
    st.remote.push(env("42", 7, 100, Flags::default(), "A"));
    let ops = plan(&st);
    assert_eq!(
        ops[0],
        PatchOp::Copy { from: Side::Remote, envelope: env("42", 7, 100, Flags::default(), "A") }
    );
    for op in &ops {
        st.apply(op, &"cur/1700000000.M7x9.host".to_string());
    }
    assert_eq!(1, st.local.len());
    assert_eq!("cur/1700000000.M7x9.host", st.local[0].id);
    assert_eq!("42", st.remote[0].id);
    assert_eq!(st.local[0].hash, st.remote[0].hash);
    assert_eq!(1, st.local_cache.len());
    assert_eq!(1, st.remote_cache.len());
    assert_eq!(7, st.local_cache[0].hash);
    assert_eq!(7, st.remote_cache[0].hash);
    assert_eq!("cur/1700000000.M7x9.host", st.local_cache[0].id);
    assert!(plan(&st).is_empty());
}

#[test]
fn newest_first_order() {
    let v = vec![
        env("1", 1, 10, Flags::default(), "A"),
        env("2", 2, 11, Flags::default(), "B"),
        env("3", 3, 12, Flags::default(), "C"),
    ];
    let r = sort_newest_first(&v);
    let s: Vec<&str> = r.iter().map(|e| e.subject.as_str()).collect();
    assert_eq!(vec!["C", "B", "A"], s);
}

#[test]
fn equal_dates_keep_listing_order() {
    let v = vec![
        env("1", 1, 10, Flags::default(), "A"),
        env("2", 2, 20, Flags::default(), "B"),
        env("3", 3, 10, Flags::default(), "C"),
        env("4", 4, 20, Flags::default(), "D"),
    ];
    let r = sort_newest_first(&v);
    let s: Vec<&str> = r.iter().map(|e| e.subject.as_str()).collect();
    assert_eq!(vec!["B", "D", "A", "C"], s);
    assert!(sort_newest_first(&vec![]).is_empty());
}

#[test]
fn remote_flag_reaches_local() {
    let mut st = settled_with(env("9", 5, 1, Flags::default(), "A"));
    st.remote[0].flags = flagged();
    let ops = st.sync_folder(false);
    assert!(ops.contains(&PatchOp::UpdateFlags {
        side: Side::Local,
        hash: 5,
        id: "local-1".to_string(),
        flags: flagged(),
    }));
    assert_eq!(flagged(), st.local[0].flags);
    assert_eq!(flagged(), st.local_cache[0].flags);
    assert_eq!(flagged(), st.remote_cache[0].flags);
    let again = st.sync_folder(false);
    assert!(again.is_empty());
}

#[test]
fn local_flag_reaches_remote_when_remote_unchanged() {
    let mut st = settled_with(env("9", 5, 1, Flags::default(), "A"));
    st.local[0].flags = seen();
    st.sync_folder(false);
    assert_eq!(seen(), st.remote[0].flags);
    assert_eq!(seen(), st.local[0].flags);
}

#[test]
fn remote_wins_when_both_changed_flags() {
    let mut st = settled_with(env("9", 5, 1, Flags::default(), "A"));
    st.local[0].flags = seen();
    st.remote[0].flags = flagged();
    st.sync_folder(false);
    assert_eq!(flagged(), st.remote[0].flags);
    assert_eq!(flagged(), st.local[0].flags);
}

#[test]
fn remote_deletion_reaches_local() {
    let mut st = settled_with(env("9", 5, 1, Flags::default(), "A"));
    st.remote.clear();
    let ops = st.sync_folder(false);
    assert_eq!(
        ops[0],
        PatchOp::Delete { side: Side::Local, hash: 5, id: "local-1".to_string() }
    );
    assert!(st.local.is_empty());
    assert!(st.local_cache.is_empty());
    assert!(st.remote_cache.is_empty());
    assert!(st.sync_folder(false).is_empty());
}

#[test]
fn local_deletion_reaches_remote() {
    let mut st = settled_with(env("9", 5, 1, Flags::default(), "A"));
    st.local.clear();
    let ops = st.sync_folder(false);
    assert_eq!(ops[0], PatchOp::Delete { side: Side::Remote, hash: 5, id: "9".to_string() });
    assert!(st.remote.is_empty());
    assert!(st.local_cache.is_empty());
    assert!(st.remote_cache.is_empty());
}

#[test]
fn new_local_message_reaches_remote() {
    let mut st = empty_state();
    st.local.push(env("l1", 3, 1, seen(), "N"));
    let ops = st.sync_folder(false);
    assert_eq!(ops[0], PatchOp::Copy { from: Side::Local, envelope: env("l1", 3, 1, seen(), "N") });
    assert_eq!(1, st.remote.len());
    assert_eq!(seen(), st.remote[0].flags);
}

#[test]
fn stale_cache_rows_are_dropped_without_store_operations() {
    let mut st = empty_state();
    st.local_cache.push(env("a", 8, 1, Flags::default(), "S"));
    st.remote_cache.push(env("b", 8, 1, Flags::default(), "S"));
    let ops = st.sync_folder(false);
    assert_eq!(
        ops,
        vec![
            PatchOp::CacheRemove { side: Side::Local, hash: 8 },
            PatchOp::CacheRemove { side: Side::Remote, hash: 8 },
        ]
    );
    assert!(st.local_cache.is_empty() && st.remote_cache.is_empty());
}

#[test]
fn dry_run_changes_nothing() {
    let mut st = settled_with(env("9", 5, 1, Flags::default(), "A"));
    st.remote[0].flags = flagged();
    st.remote.push(env("10", 6, 2, Flags::default(), "B"));
    let before = (st.local.clone(), st.local_cache.clone(), st.remote.clone(), st.remote_cache.clone());
    let ops = st.sync_folder(true);
    assert!(!ops.is_empty());
    assert_eq!(before, (st.local.clone(), st.local_cache.clone(), st.remote.clone(), st.remote_cache.clone()));
    assert_eq!(ops, st.sync_folder(true));
}

#[test]
fn folders_are_created_never_deleted() {
    let local = vec!["INBOX".to_string(), "Sent".to_string()];
    let remote = vec!["INBOX".to_string(), "Archive".to_string(), "Archive".to_string()];
    let p = plan_folders(&local, &remote);
    assert_eq!(vec!["Archive".to_string()], p.create_local);
    assert_eq!(vec!["Sent".to_string()], p.create_remote);
    let same = plan_folders(&local, &local);
    assert!(same.create_local.is_empty() && same.create_remote.is_empty());
}

#[test]
fn folder_sets_end_equal_and_dry_run_keeps_them() {
    let mut local = vec!["INBOX".to_string(), "Drafts".to_string()];
    let mut remote = vec!["INBOX".to_string(), "Sent".to_string()];
    let p = sync_folder_sets(&mut local, &mut remote, true);
    assert_eq!(vec!["Sent".to_string()], p.create_local);
    assert_eq!(vec!["INBOX".to_string(), "Drafts".to_string()], local);
    assert_eq!(vec!["INBOX".to_string(), "Sent".to_string()], remote);
    sync_folder_sets(&mut local, &mut remote, false);
    assert_eq!(vec!["INBOX".to_string(), "Drafts".to_string(), "Sent".to_string()], local);
    assert_eq!(vec!["INBOX".to_string(), "Sent".to_string(), "Drafts".to_string()], remote);
    let again = sync_folder_sets(&mut local, &mut remote, false);
    assert!(again.create_local.is_empty() && again.create_remote.is_empty());
}

fn account_state() -> AccountState {
    let mut inbox = empty_state();
    inbox.remote.push(env("1", 10, 1000, Flags::default(), "A"));
    inbox.local.push(env("l1", 11, 1001, seen(), "L"));
    AccountState {
        local_folders: vec!["INBOX".to_string(), "Drafts".to_string()],
        remote_folders: vec!["INBOX".to_string(), "Sent".to_string()],
        folders: vec![FolderEntry { name: "INBOX".to_string(), state: inbox }],
    }
}

#[test]
fn account_sync_is_idempotent() {
    let mut acc = account_state();
    let first = acc.sync_account(false);
    assert_eq!(vec!["Sent".to_string()], first.folders.create_local);
    assert_eq!(vec!["Drafts".to_string()], first.folders.create_remote);
    assert!(!first.envelopes[0].is_empty());
    let second = acc.sync_account(false);
    assert!(second.folders.create_local.is_empty() && second.folders.create_remote.is_empty());
    assert!(second.envelopes[0].is_empty());
    assert_eq!(2, acc.folders[0].state.local.len());
    assert_eq!(2, acc.folders[0].state.remote.len());
    let names: Vec<&str> = acc.folders.iter().map(|f| f.name.as_str()).collect();
    assert_eq!(vec!["INBOX", "Drafts", "Sent"], names);
    assert!(acc.folders[1].state.local.is_empty());
    assert!(second.envelopes.iter().all(|p| p.is_empty()));
}

#[test]
fn account_dry_run_changes_nothing() {
    let mut acc = account_state();
    let p = acc.sync_account(true);
    assert_eq!(vec!["Sent".to_string()], p.folders.create_local);
    assert!(!p.envelopes[0].is_empty());
    assert_eq!(vec!["INBOX".to_string(), "Drafts".to_string()], acc.local_folders);
    assert_eq!(vec!["INBOX".to_string(), "Sent".to_string()], acc.remote_folders);
    assert_eq!(1, acc.folders[0].state.local.len());
    assert_eq!(1, acc.folders[0].state.remote.len());
    assert!(acc.folders[0].state.local_cache.is_empty());
    assert_eq!(1, acc.folders.len());
}
