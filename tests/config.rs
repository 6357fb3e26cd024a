use posters::config::{Error, ImapConfig, Passwd};
use posters::flag::{from_char, from_maildir_chars, to_normalized_string, Flag, Flags};
use posters::folder::Folder;

#[test]
fn imap_options_defaults() {
    let c = ImapConfig::default();
    assert!(c.ssl());
    assert!(!c.starttls());
    assert!(!c.insecure());
    assert_eq!("NEW", c.notify_query());
    assert!(c.watch_cmds().is_empty());
    let c = ImapConfig {
        ssl: Some(false),
        starttls: Some(true),
        insecure: Some(true),
        notify_query: Some("UNSEEN".into()),
        watch_cmds: Some(vec!["mbsync -a".into()]),
        ..ImapConfig::default()
    };
    assert!(!c.ssl());
    assert!(c.starttls());
    assert!(c.insecure());
    assert_eq!("UNSEEN", c.notify_query());
    assert_eq!(vec!["mbsync -a".to_string()], c.watch_cmds());
}

#[test]
fn passwd_sources() {
    let token = ImapConfig { access_token: Some("t".into()), password: Some("p".into()), ..ImapConfig::default() };
    assert_eq!(Ok(Passwd::Known(String::new())), token.passwd());
    let pw = ImapConfig { password: Some("p".into()), passwd_cmd: Some("echo x".into()), ..ImapConfig::default() };
    assert_eq!(Ok(Passwd::Known("p".into())), pw.passwd());
    let cmd = ImapConfig { passwd_cmd: Some("echo 'password'".into()), ..ImapConfig::default() };
    assert_eq!(Ok(Passwd::FromCommand("echo 'password'".into())), cmd.passwd());
    assert_eq!(Err(Error::GetPasswdEmptyError), ImapConfig::default().passwd());
}

#[test]
fn passwd_from_command_output() {
    assert_eq!(Ok("password".to_string()), ImapConfig::passwd_from_output(&b"password\n".to_vec()));
    assert_eq!(Ok("secret".to_string()), ImapConfig::passwd_from_output(&b"secret\r\nsecond\n".to_vec()));
    assert_eq!(Ok("last".to_string()), ImapConfig::passwd_from_output(&b"last".to_vec()));
    assert_eq!(Ok(String::new()), ImapConfig::passwd_from_output(&b"\nx".to_vec()));
    assert_eq!(Ok("a\u{FFFD}b".to_string()), ImapConfig::passwd_from_output(&vec![b'a', 0xff, b'b']));
    assert_eq!(Err(Error::GetPasswdEmptyError), ImapConfig::passwd_from_output(&vec![]));
}

#[test]
fn notify_command() {
    let c = ImapConfig {
        notify_cmd: Some("notify <id>: <subject> from <sender> (<id>)".into()),
        ..ImapConfig::default()
    };
    assert_eq!("notify 42: Hi from bob (42)", c.notify_cmd(42, "Hi", "bob"));
    assert_eq!(
        "notify-send \"📫 <sender>\" \"<subject>\"",
        ImapConfig::default().notify_cmd(1, "s", "t")
    );
}

#[test]
fn error_messages() {
    assert_eq!("cannot get imap password: password is empty", Error::GetPasswdEmptyError.message());
    assert_eq!("cannot start the notify mode", Error::StartNotifyModeError("x".into()).message());
    assert_eq!("cannot get imap password", Error::GetPasswdError("x".into()).message());
}

#[test]
fn maildir_flags() {
    let all = Flags { seen: true, answered: true, flagged: true, deleted: true, draft: true };
    assert_eq!("DFRST", to_normalized_string(&all));
    assert_eq!("", to_normalized_string(&Flags::default()));
    assert_eq!("FS", to_normalized_string(&Flags { seen: true, flagged: true, ..Flags::default() }));
    assert_eq!(Flags { seen: true, flagged: true, ..Flags::default() }, from_maildir_chars("SFxS"));
    assert_eq!(Some(Flag::Deleted), from_char('T'));
    assert_eq!(None, from_char('P'));
    let mut f = Flags::new();
    f.insert(Flag::Answered);
    f.insert(Flag::Answered);
    assert!(f.contains(Flag::Answered));
    assert!(!f.contains(Flag::Seen));
}

#[test]
fn folder_shows_its_name() {
    let f = Folder { delim: "/".into(), name: "INBOX".into(), desc: "".into() };
    assert_eq!("INBOX", f.to_string());
}

#[test]
fn flags_of_a_maildir_entry() {
    let md = maildir::Maildir::from(std::path::PathBuf::from("/tmp/posters-maildir-flags"));
    md.create_dirs().unwrap();
    let id = md.store_cur_with_flags(b"Subject: x\r\n\r\nbody\r\n", "SF").unwrap();
    let entry = md.find(&id).unwrap();
    assert_eq!(
        Flags { seen: true, flagged: true, ..Flags::default() },
        posters::flag::from_maildir_entry(&entry)
    );
    md.delete(&id).unwrap();
}
