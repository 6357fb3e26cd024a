use posters::account::{join, plan_sync, AccountConfig, Error as SyncError, SyncStart};
use posters::flag::Flags;
use posters::imap_envelope::{from_raw, ImapError, RawAddress, RawEnvelope, RawFetch};

fn addr(name: Option<&str>, mailbox: Option<&str>, host: Option<&str>) -> RawAddress {
    RawAddress {
        name: name.map(|s| s.as_bytes().to_vec()),
        mailbox: mailbox.map(|s| s.as_bytes().to_vec()),
        host: host.map(|s| s.as_bytes().to_vec()),
    }
}

fn fetch(envelope: Option<RawEnvelope>) -> RawFetch {
    RawFetch { message: 12, envelope, flags: Flags { seen: true, ..Flags::default() }, internal_date: Some(5) }
}

#[test]
fn envelope_with_encoded_subject_and_named_sender() {
    let raw = fetch(Some(RawEnvelope {
        subject: Some(b"=?UTF-8?B?UGxhaW4gbWVzc2FnZQ==?=".to_vec()),
        sender: Some(vec![addr(Some("=?ISO-8859-1?Q?Ren=E9?="), Some("rene"), Some("localhost"))]),
        from: None,
    }));
    let e = from_raw(&raw).unwrap();
    assert_eq!("12", e.id);
    assert_eq!("12", e.internal_id);
    assert_eq!("Plain message", e.subject);
    assert_eq!("René", e.sender);
    assert!(e.flags.seen);
    assert_eq!(Some(5), e.date);
}

#[test]
fn sender_falls_back_to_from_and_mailbox_at_host() {
    let raw = fetch(Some(RawEnvelope {
        subject: None,
        sender: Some(vec![]),
        from: Some(vec![addr(None, Some("alice"), Some("localhost"))]),
    }));
    let e = from_raw(&raw).unwrap();
    assert_eq!("", e.subject);
    assert_eq!("alice@localhost", e.sender);
}

#[test]
fn envelope_errors() {
    assert_eq!(Err(ImapError::GetEnvelopeError(12)), from_raw(&fetch(None)));
    let no_sender = fetch(Some(RawEnvelope { subject: None, sender: None, from: None }));
    assert_eq!(Err(ImapError::GetSenderError(12)), from_raw(&no_sender));
    let no_host = fetch(Some(RawEnvelope {
        subject: None,
        sender: None,
        from: Some(vec![addr(None, Some("alice"), None)]),
    }));
    assert_eq!(Err(ImapError::GetSenderError(12)), from_raw(&no_host));
    let bad_subject = fetch(Some(RawEnvelope {
        subject: Some(vec![b'a', 0xff, 0xfe]),
        sender: None,
        from: Some(vec![addr(None, Some("alice"), Some("h"))]),
    }));
    assert_eq!(Err(ImapError::DecodeSubjectError(12)), from_raw(&bad_subject));
    let bad_name = fetch(Some(RawEnvelope {
        subject: None,
        sender: Some(vec![RawAddress { name: Some(vec![0xff]), mailbox: None, host: None }]),
        from: None,
    }));
    assert_eq!(Err(ImapError::DecodeSenderNameError(12)), from_raw(&bad_name));
}

#[test]
fn sync_disabled_is_a_configuration_error() {
    let a = AccountConfig { name: "account".into(), sync: false, sync_dir: None };
    assert_eq!(Err(SyncError::SyncNotEnabled), plan_sync(&a, false, Some("/data".into())));
    assert_eq!(Err(SyncError::SyncNotEnabled), plan_sync(&a, true, None));
}

#[test]
fn sync_uses_configured_dir_when_it_exists() {
    let a = AccountConfig { name: "account".into(), sync: true, sync_dir: Some("/tmp/himalaya-sync".into()) };
    assert_eq!(
        Ok(SyncStart::Run {
            sync_dir: "/tmp/himalaya-sync".into(),
            root_dir: "/tmp/himalaya-sync/account".into(),
            create_dir: false,
        }),
        plan_sync(&a, true, None)
    );
    assert_eq!(
        Ok(SyncStart::Run {
            sync_dir: "/home/u/.local/share/himalaya".into(),
            root_dir: "/home/u/.local/share/himalaya/account".into(),
            create_dir: true,
        }),
        plan_sync(&a, false, Some("/home/u/.local/share/".into()))
    );
    assert_eq!(Err(SyncError::GetXdgDataDirError), plan_sync(&a, false, None));
}

#[test]
fn path_join() {
    assert_eq!("a/b", join(&"a".to_string(), "b"));
    assert_eq!("a/b", join(&"a/".to_string(), "b"));
    assert_eq!("/b", join(&"".to_string(), "b"));
}
