//! Account configuration: the IMAP and notmuch backend settings and the
//! stored login token.
use vstd::prelude::*;
use crate::text::{decimal, lines, split_lines, u32_to_string};

verus! {

/// Why an IMAP setting could not be used.
#[derive(Debug, Clone, PartialEq, Eq)]
pub enum Error {
    /// The password command failed; the text says how.
    GetPasswdError(String),
    /// No password is configured, or the command printed nothing.
    GetPasswdEmptyError,
    /// The notify command failed; the text says how.
    StartNotifyModeError(String),
}

impl Error {
    /// A one-line description.
    pub fn message(&self) -> (r: String)
        ensures
            r@ == match self {
                Error::GetPasswdError(_) => "cannot get imap password"@,
                Error::GetPasswdEmptyError => "cannot get imap password: password is empty"@,
                Error::StartNotifyModeError(_) => "cannot start the notify mode"@,
            },
    {
        match self {
            Error::GetPasswdError(_) => "cannot get imap password".to_string(),
            Error::GetPasswdEmptyError => "cannot get imap password: password is empty".to_string(),
            Error::StartNotifyModeError(_) => "cannot start the notify mode".to_string(),
        }
    }
}

/// The IMAP backend configuration of an account.
#[derive(Debug, Default, Clone, Eq, PartialEq)]
pub struct ImapConfig {
    pub host: String,
    pub port: u16,
    /// Enables SSL (on when unset).
    pub ssl: Option<bool>,
    /// Enables StartTLS (off when unset).
    pub starttls: Option<bool>,
    /// Trusts any certificate (off when unset).
    pub insecure: Option<bool>,
    pub login: String,
    /// A shell command that prints the password.
    pub passwd_cmd: Option<String>,
    pub password: Option<String>,
    /// An OAuth2 access token; with one, no password is needed.
    pub access_token: Option<String>,
    /// The command run on new mail; `<id>`, `<subject>` and `<sender>` are
    /// replaced in it.
    pub notify_cmd: Option<String>,
    /// The IMAP query for new messages (`NEW` when unset).
    pub notify_query: Option<String>,
    pub watch_cmds: Option<Vec<String>>,
}

/// Where the IMAP password comes from.
#[derive(Debug, Clone, PartialEq, Eq)]
pub enum Passwd {
    /// The password itself.
    Known(String),
    /// A command whose first output line is the password.
    FromCommand(String),
}

/// The command run on new mail when none is configured.
pub open spec fn default_notify_cmd() -> Seq<char> {
    "notify-send \"📫 <sender>\" \"<subject>\""@
}

/// `s` with each non-overlapping occurrence of `from`, scanning from the
/// left, replaced by `to`.
pub open spec fn replace_all(s: Seq<char>, from: Seq<char>, to: Seq<char>) -> Seq<char>
    decreases s.len(),
{
    if from.len() == 0 || s.len() < from.len() {
        s
    } else if s.subrange(0, from.len() as int) == from {
        to + replace_all(s.subrange(from.len() as int, s.len() as int), from, to)
    } else {
        seq![s[0]] + replace_all(s.drop_first(), from, to)
    }
}

/// The first line of `s`, as `str::lines` gives it; none for empty `s`.
pub open spec fn first_line(s: Seq<char>) -> Option<Seq<char>> {
    if lines(s).len() > 0 {
        Some(lines(s)[0])
    } else {
        None
    }
}

/// What `String::from_utf8_lossy` makes of a byte string.
pub uninterp spec fn utf8_lossy(b: Seq<u8>) -> Seq<char>;

/// Relies on `String::from_utf8_lossy`: the text of the bytes, with each
/// invalid sequence replaced; it depends on the bytes alone, and no bytes
/// give no text.
#[verifier::external_body]
fn decode_lossy(b: &[u8]) -> (r: String)
    ensures
        r@ == utf8_lossy(b@),
        b@.len() == 0 ==> r@.len() == 0,
{
    String::from_utf8_lossy(b).to_string()
}

/// Relies on `str::replace`, which std documents as replacing all
/// matches of a pattern with another string.
#[verifier::external_body]
fn replace(s: &str, from: &str, to: &str) -> (r: String)
    requires
        from@.len() > 0,
    ensures
        r@ == replace_all(s@, from@, to@),
{
    s.replace(from, to)
}

/// A copy of a list of strings.
pub fn clone_strings(v: &Vec<String>) -> (r: Vec<String>)
    ensures
        r@ == v@,
{
    let mut r: Vec<String> = Vec::new();
    let mut i: usize = 0;
    while i < v.len()
        invariant
            i <= v@.len(),
            r@ == v@.subrange(0, i as int),
        decreases v@.len() - i,
    {
        r.push(v[i].clone());
        assert(r@ =~= v@.subrange(0, i + 1));
        i = i + 1;
    }
    assert(v@.subrange(0, v@.len() as int) =~= v@);
    r
}

impl ImapConfig {
    /// Where the password comes from: none is needed with an access token;
    /// a configured password comes next, then the password command.
    pub fn passwd(&self) -> (r: Result<Passwd, Error>)
        ensures
            self.access_token.is_some() ==> (r matches Ok(Passwd::Known(p)) && p@.len() == 0),
            self.access_token.is_none() && self.password.is_some() ==> r == Ok::<Passwd, Error>(
                Passwd::Known(self.password.unwrap()),
            ),
            self.access_token.is_none() && self.password.is_none() ==> r == match self.passwd_cmd {
                Some(c) => Ok::<Passwd, Error>(Passwd::FromCommand(c)),
                None => Err(Error::GetPasswdEmptyError),
            },
    {
        if self.access_token.is_some() {
            return Ok(Passwd::Known(String::new()));
        }
        match &self.password {
            Some(p) => Ok(Passwd::Known(p.clone())),
            None => match &self.passwd_cmd {
                Some(c) => Ok(Passwd::FromCommand(c.clone())),
                None => Err(Error::GetPasswdEmptyError),
            },
        }
    }

    /// The password printed by the password command: the first line of its
    /// output.
    pub fn passwd_from_output(output: &Vec<u8>) -> (r: Result<String, Error>)
        ensures
            match first_line(utf8_lossy(output@)) {
                Some(l) => r matches Ok(p) && p@ == l,
                None => r == Err::<String, Error>(Error::GetPasswdEmptyError),
            },
            output@.len() == 0 ==> r == Err::<String, Error>(Error::GetPasswdEmptyError),
    {
        let text = decode_lossy(output.as_slice());
        let ls = split_lines(text.as_str());
        if ls.len() > 0 {
            Ok(ls[0].clone())
        } else {
            Err(Error::GetPasswdEmptyError)
        }
    }

    /// Gets the SSL option.
    pub fn ssl(&self) -> (r: bool)
        ensures
            r == match self.ssl {
                Some(b) => b,
                None => true,
            },
    {
        match self.ssl {
            Some(b) => b,
            None => true,
        }
    }

    /// Gets the StartTLS option.
    pub fn starttls(&self) -> (r: bool)
        ensures
            r == (self.starttls == Some(true)),
    {
        match self.starttls {
            Some(b) => b,
            None => false,
        }
    }

    /// Gets the option to trust any certificate.
    pub fn insecure(&self) -> (r: bool)
        ensures
            r == (self.insecure == Some(true)),
    {
        match self.insecure {
            Some(b) => b,
            None => false,
        }
    }

    /// The command to run for a new message: the configured one with
    /// `<id>`, `<subject>` and `<sender>` filled in, or the default one.
    pub fn notify_cmd(&self, id: u32, subject: &str, sender: &str) -> (r: String)
        ensures
            r@ == match self.notify_cmd {
                Some(c) => replace_all(
                    replace_all(replace_all(c@, "<id>"@, decimal(id as nat)), "<subject>"@, subject@),
                    "<sender>"@,
                    sender@,
                ),
                None => default_notify_cmd(),
            },
    {
        proof {
            reveal_strlit("<id>");
            reveal_strlit("<subject>");
            reveal_strlit("<sender>");
        }
        match &self.notify_cmd {
            Some(c) => {
                let id_s = u32_to_string(id);
                let a = replace(c.as_str(), "<id>", id_s.as_str());
                let b = replace(a.as_str(), "<subject>", subject);
                replace(b.as_str(), "<sender>", sender)
            },
            None => "notify-send \"📫 <sender>\" \"<subject>\"".to_string(),
        }
    }

    /// The IMAP query for new messages.
    pub fn notify_query(&self) -> (r: String)
        ensures
            r@ == match self.notify_query {
                Some(q) => q@,
                None => "NEW"@,
            },
    {
        match &self.notify_query {
            Some(q) => q.clone(),
            None => "NEW".to_string(),
        }
    }

    /// The watch commands, none when unset.
    pub fn watch_cmds(&self) -> (r: Vec<String>)
        ensures
            r@ == match self.watch_cmds {
                Some(v) => v@,
                None => Seq::<String>::empty(),
            },
    {
        match &self.watch_cmds {
            Some(v) => clone_strings(v),
            None => Vec::new(),
        }
    }
}

/// The notmuch backend configuration of an account.
#[derive(Debug, Default, Clone, Eq, PartialEq)]
pub struct NotmuchConfig {
    /// The path of the notmuch database.
    pub db_path: String,
}

/// The stored login state.
#[derive(Debug, Default, Clone, Eq, PartialEq)]
pub struct Config {
    pub token: Option<String>,
}

} // verus!
