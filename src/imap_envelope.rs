//! Envelopes as an IMAP server reports them, and their conversion to the
//! reader's terms.
use vstd::prelude::*;
use crate::flag::Flags;
use crate::text::{decimal, u32_to_string};

verus! {

/// An address as the IMAP envelope gives it: raw header bytes.
#[derive(Debug, Clone, Default, PartialEq, Eq)]
pub struct RawAddress {
    pub name: Option<Vec<u8>>,
    pub mailbox: Option<Vec<u8>>,
    pub host: Option<Vec<u8>>,
}

/// The parts of an IMAP envelope that are read.
#[derive(Debug, Clone, Default, PartialEq, Eq)]
pub struct RawEnvelope {
    pub subject: Option<Vec<u8>>,
    pub sender: Option<Vec<RawAddress>>,
    pub from: Option<Vec<RawAddress>>,
}

/// One FETCH response.
#[derive(Debug, Clone, Default, PartialEq, Eq)]
pub struct RawFetch {
    /// The message sequence number.
    pub message: u32,
    pub envelope: Option<RawEnvelope>,
    pub flags: Flags,
    /// The internal date, in seconds since the Unix epoch.
    pub internal_date: Option<i64>,
}

/// An envelope read from IMAP.
#[derive(Debug, Clone, Default, PartialEq, Eq)]
pub struct ImapEnvelope {
    pub id: String,
    pub internal_id: String,
    pub flags: Flags,
    pub subject: String,
    pub sender: String,
    pub date: Option<i64>,
}

/// Why a FETCH response could not be read; each carries the message number.
#[derive(Debug, Clone, Copy, PartialEq, Eq, Structural)]
pub enum ImapError {
    GetEnvelopeError(u32),
    DecodeSubjectError(u32),
    GetSenderError(u32),
    DecodeSenderNameError(u32),
}

/// The text of an RFC 2047 encoded header, or none where it cannot be
/// decoded.
pub uninterp spec fn rfc2047(b: Seq<u8>) -> Option<Seq<char>>;

/// Relies on `rfc2047_decoder::decode`: it decodes an encoded header, and
/// the outcome depends on the bytes alone. Its error carries no more than
/// that decoding failed, so none is kept.
#[verifier::external_body]
fn decode_header(b: &[u8]) -> (r: Option<String>)
    ensures
        match r {
            Some(s) => rfc2047(b@) == Some(s@),
            None => rfc2047(b@) is None,
        },
{
    rfc2047_decoder::decode(b).ok()
}

/// The first address of a list, if there is one.
pub open spec fn first_of(l: Option<Vec<RawAddress>>) -> Option<RawAddress> {
    match l {
        Some(v) => if v@.len() > 0 {
            Some(v@[0])
        } else {
            None
        },
        None => None,
    }
}

/// The address that names the sender: the first `Sender`, else the first
/// `From`.
pub open spec fn pick_sender(env: RawEnvelope) -> Option<RawAddress> {
    match first_of(env.sender) {
        Some(a) => Some(a),
        None => first_of(env.from),
    }
}

/// How the sender is shown: the decoded name, else `mailbox@host`.
pub open spec fn spec_sender(a: RawAddress, m: u32) -> Result<Seq<char>, ImapError> {
    match a.name {
        Some(n) => match rfc2047(n@) {
            Some(s) => Ok(s),
            None => Err(ImapError::DecodeSenderNameError(m)),
        },
        None => match a.mailbox {
            None => Err(ImapError::GetSenderError(m)),
            Some(mb) => match rfc2047(mb@) {
                None => Err(ImapError::DecodeSenderNameError(m)),
                Some(ms) => match a.host {
                    None => Err(ImapError::GetSenderError(m)),
                    Some(h) => match rfc2047(h@) {
                        None => Err(ImapError::DecodeSenderNameError(m)),
                        Some(hs) => Ok(ms + "@"@ + hs),
                    },
                },
            },
        },
    }
}

/// The subject and the sender of a FETCH response, or the first error.
pub open spec fn spec_from_raw(raw: RawFetch) -> Result<(Seq<char>, Seq<char>), ImapError> {
    match raw.envelope {
        None => Err(ImapError::GetEnvelopeError(raw.message)),
        Some(env) => {
            let subject = match env.subject {
                Some(b) => rfc2047(b@),
                None => Some(Seq::<char>::empty()),
            };
            match subject {
                None => Err(ImapError::DecodeSubjectError(raw.message)),
                Some(s) => match pick_sender(env) {
                    None => Err(ImapError::GetSenderError(raw.message)),
                    Some(a) => match spec_sender(a, raw.message) {
                        Ok(snd) => Ok((s, snd)),
                        Err(e) => Err(e),
                    },
                },
            }
        },
    }
}

fn first_address(l: &Option<Vec<RawAddress>>) -> (r: Option<&RawAddress>)
    ensures
        match first_of(*l) {
            Some(a) => r == Some(&a),
            None => r is None,
        },
{
    match l {
        Some(v) => if v.len() > 0 {
            Some(&v[0])
        } else {
            None
        },
        None => None,
    }
}

fn decode_or(b: &Vec<u8>, err: ImapError) -> (r: Result<String, ImapError>)
    ensures
        match rfc2047(b@) {
            Some(s) => r matches Ok(t) && t@ == s,
            None => r == Err::<String, ImapError>(err),
        },
{
    match decode_header(b.as_slice()) {
        Some(s) => Ok(s),
        None => Err(err),
    }
}

fn sender_of(a: &RawAddress, m: u32) -> (r: Result<String, ImapError>)
    ensures
        match spec_sender(*a, m) {
            Ok(s) => r matches Ok(t) && t@ == s,
            Err(e) => r == Err::<String, ImapError>(e),
        },
{
    match &a.name {
        Some(n) => decode_or(n, ImapError::DecodeSenderNameError(m)),
        None => {
            let mb = match &a.mailbox {
                Some(mb) => mb,
                None => return Err(ImapError::GetSenderError(m)),
            };
            let mut text = decode_or(mb, ImapError::DecodeSenderNameError(m))?;
            let h = match &a.host {
                Some(h) => h,
                None => return Err(ImapError::GetSenderError(m)),
            };
            let host = decode_or(h, ImapError::DecodeSenderNameError(m))?;
            proof {
                reveal_strlit("@");
            }
            text.append("@");
            text.append(host.as_str());
            Ok(text)
        },
    }
}

/// Reads a FETCH response: its number is the id, the subject and the
/// sender are decoded, and flags and date are kept.
pub fn from_raw(raw: &RawFetch) -> (r: Result<ImapEnvelope, ImapError>)
    ensures
        match spec_from_raw(*raw) {
            Ok((subject, sender)) => r matches Ok(e) && {
                &&& e.subject@ == subject
                &&& e.sender@ == sender
                &&& e.id@ == decimal(raw.message as nat)
                &&& e.internal_id@ == e.id@
                &&& e.flags == raw.flags
                &&& e.date == raw.internal_date
            },
            Err(er) => r == Err::<ImapEnvelope, ImapError>(er),
        },
{
    let env = match &raw.envelope {
        Some(env) => env,
        None => return Err(ImapError::GetEnvelopeError(raw.message)),
    };
    let id = u32_to_string(raw.message);
    let subject = match &env.subject {
        Some(b) => decode_or(b, ImapError::DecodeSubjectError(raw.message))?,
        None => String::new(),
    };
    let addr = match first_address(&env.sender) {
        Some(a) => a,
        None => match first_address(&env.from) {
            Some(a) => a,
            None => return Err(ImapError::GetSenderError(raw.message)),
        },
    };
    let sender = sender_of(addr, raw.message)?;
    Ok(ImapEnvelope {
        id: id.clone(),
        internal_id: id,
        flags: raw.flags,
        subject,
        sender,
        date: raw.internal_date,
    })
}

} // verus!
