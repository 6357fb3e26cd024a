use posters::envelope::Envelope;
use posters::flag::Flags;
use posters::store::{apply_patch, sync_folders, sync_stores, Caches, FolderStores, MemStore, Store};
use posters::sync::{PatchOp, Side};

fn env(id: &str, hash: u64, date: i64, flags: Flags) -> Envelope {
    Envelope {
        id: id.to_string(),
        hash,
        flags,
        message_id: format!("<{hash}@localhost>"),
        sender: "alice@localhost".to_string(),
        subject: format!("S{hash}"),
        date,
    }
}

fn stores() -> (MemStore, MemStore, Caches) {
    let local = MemStore { envelopes: vec![], id_prefix: "local-".to_string() };
    let remote = MemStore {
        envelopes: vec![env("42", 1, 10, Flags::default()), env("43", 2, 11, Flags { flagged: true, ..Flags::default() })],
        id_prefix: "remote-".to_string(),
    };
    (local, remote, Caches { local: vec![], remote: vec![] })
}

#[test]
fn stores_sync_and_settle() {
    let (mut local, mut remote, mut cache) = stores();
    let ops = sync_stores(&mut local, &mut remote, &mut cache, false).unwrap();
    assert!(!ops.is_empty());
    assert_eq!(2, local.envelopes.len());
    let listed = local.list();
    assert_eq!("local-43", listed[0].id);
    assert_eq!("local-42", listed[1].id);
    assert!(listed[0].flags.flagged);
    assert_eq!(2, cache.local.len());
    assert_eq!(2, cache.remote.len());
    assert_eq!("local-42", cache.rows(Side::Local)[1].id);
    assert_eq!("42", cache.rows(Side::Remote)[1].id);
    let again = sync_stores(&mut local, &mut remote, &mut cache, false).unwrap();
    assert!(again.is_empty());
}

#[test]
fn stores_dry_run_changes_nothing() {
    let (mut local, mut remote, mut cache) = stores();
    let ops = sync_stores(&mut local, &mut remote, &mut cache, true).unwrap();
    assert!(!ops.is_empty());
    assert!(local.envelopes.is_empty());
    assert_eq!(2, remote.envelopes.len());
    assert!(cache.local.is_empty() && cache.remote.is_empty());
}

#[test]
fn patch_on_stores() {
    let (mut local, mut remote, mut cache) = stores();
    let ops = vec![
        PatchOp::Copy { from: Side::Remote, envelope: env("42", 1, 10, Flags::default()) },
        PatchOp::UpdateFlags { side: Side::Remote, hash: 2, id: "43".to_string(), flags: Flags::default() },
        PatchOp::Delete { side: Side::Remote, hash: 1, id: "42".to_string() },
        PatchOp::CacheRefresh { side: Side::Local, hash: 1 },
    ];
    assert_eq!(Ok(()), apply_patch(&mut local, &mut remote, &mut cache, &ops));
    assert_eq!("local-42", local.envelopes[0].id);
    assert_eq!(1, remote.envelopes.len());
    assert!(!remote.envelopes[0].flags.flagged);
    assert_eq!(1, cache.local.len());
    assert!(cache.remote.is_empty());
}

fn subjects(v: &[Envelope]) -> Vec<String> {
    v.iter().map(|e| e.subject.clone()).collect()
}

#[test]
fn test_sync() {
    let mut local = MemStore { envelopes: vec![], id_prefix: "cur/".to_string() };
    let mut remote = MemStore {
        envelopes: vec![
            Envelope { subject: "A".into(), ..env("1", 10, 1000, Flags::default()) },
            Envelope { subject: "B".into(), ..env("2", 20, 1001, Flags { flagged: true, ..Flags::default() }) },
            Envelope { subject: "C".into(), ..env("3", 30, 1002, Flags::default()) },
        ],
        id_prefix: "".to_string(),
    };
    let mut cache = Caches { local: vec![], remote: vec![] };
    let remote_listing = remote.list();
    assert_eq!(vec!["C", "B", "A"], subjects(&remote_listing));

    assert!(!sync_stores(&mut local, &mut remote, &mut cache, false).unwrap().is_empty());
    assert!(sync_stores(&mut local, &mut remote, &mut cache, false).unwrap().is_empty());

    let local_listing = local.list();
    assert_eq!(vec!["C", "B", "A"], subjects(&local_listing));
    assert_eq!(3, local_listing.len());
    for (l, r) in local_listing.iter().zip(remote_listing.iter()) {
        assert_eq!(Envelope { id: r.id.clone(), ..l.clone() }, *r);
        assert_eq!(format!("cur/{}", r.id), l.id);
    }
    assert_eq!(local_listing, cache.rows(Side::Local));
    assert_eq!(remote_listing, cache.rows(Side::Remote));
    assert_eq!(remote_listing, remote.list());
}

#[test]
fn folders_sync_in_order() {
    let (l1, r1, c1) = stores();
    let l2 = MemStore { envelopes: vec![env("x", 9, 5, Flags::default())], id_prefix: "local-".to_string() };
    let r2 = MemStore { envelopes: vec![], id_prefix: "remote-".to_string() };
    let mut folders = vec![
        FolderStores { name: "INBOX".to_string(), local: l1, remote: r1, cache: c1 },
        FolderStores { name: "Sent".to_string(), local: l2, remote: r2, cache: Caches { local: vec![], remote: vec![] } },
    ];
    let dry = sync_folders(&mut folders, true).unwrap();
    assert_eq!(2, dry.len());
    assert!(folders[0].local.envelopes.is_empty());
    let ps = sync_folders(&mut folders, false).unwrap();
    assert!(!ps[0].is_empty() && !ps[1].is_empty());
    assert_eq!(2, folders[0].local.envelopes.len());
    assert_eq!("remote-x", folders[1].remote.envelopes[0].id);
    let again = sync_folders(&mut folders, false).unwrap();
    assert!(again.iter().all(|p| p.is_empty()));
}
