//! Message flags: a set over a small closed vocabulary.
use vstd::prelude::*;

verus! {

/// One mail-state marker.
#[derive(Clone, Copy, Debug, PartialEq, Eq, Structural)]
pub enum Flag {
    Seen,
    Answered,
    Flagged,
    Deleted,
    Draft,
}

/// A flag set. Each flag is either in the set or not, so setting a flag
/// twice has the effect of setting it once.
#[derive(Clone, Copy, Debug, PartialEq, Eq, Structural, Default)]
pub struct Flags {
    pub seen: bool,
    pub answered: bool,
    pub flagged: bool,
    pub deleted: bool,
    pub draft: bool,
}

impl Flags {
    /// Whether `flag` is in the set.
    pub open spec fn has(self, flag: Flag) -> bool {
        match flag {
            Flag::Seen => self.seen,
            Flag::Answered => self.answered,
            Flag::Flagged => self.flagged,
            Flag::Deleted => self.deleted,
            Flag::Draft => self.draft,
        }
    }

    /// The set as a mathematical set of flags.
    pub open spec fn view_set(self) -> Set<Flag> {
        Set::new(|f: Flag| self.has(f))
    }

    /// The set `self` with `flag` added.
    pub open spec fn spec_with(self, flag: Flag) -> Flags {
        Flags {
            seen: self.seen || flag == Flag::Seen,
            answered: self.answered || flag == Flag::Answered,
            flagged: self.flagged || flag == Flag::Flagged,
            deleted: self.deleted || flag == Flag::Deleted,
            draft: self.draft || flag == Flag::Draft,
        }
    }

    /// The empty set.
    pub open spec fn empty() -> Flags {
        Flags { seen: false, answered: false, flagged: false, deleted: false, draft: false }
    }

    /// The empty set.
    pub fn new() -> (r: Flags)
        ensures
            r == Flags::empty(),
            r.view_set() == Set::<Flag>::empty(),
    {
        let r = Flags { seen: false, answered: false, flagged: false, deleted: false, draft: false };
        assert(r.view_set() =~= Set::<Flag>::empty());
        r
    }

    /// Whether `flag` is in the set.
    pub fn contains(&self, flag: Flag) -> (r: bool)
        ensures
            r == self.has(flag),
    {
        match flag {
            Flag::Seen => self.seen,
            Flag::Answered => self.answered,
            Flag::Flagged => self.flagged,
            Flag::Deleted => self.deleted,
            Flag::Draft => self.draft,
        }
    }

    /// Adds `flag` to the set.
    pub fn insert(&mut self, flag: Flag)
        ensures
            *final(self) == old(self).spec_with(flag),
            final(self).view_set() == old(self).view_set().insert(flag),
    {
        match flag {
            Flag::Seen => self.seen = true,
            Flag::Answered => self.answered = true,
            Flag::Flagged => self.flagged = true,
            Flag::Deleted => self.deleted = true,
            Flag::Draft => self.draft = true,
        }
        assert(final(self).view_set() =~= old(self).view_set().insert(flag));
    }
}

/// The maildir letter of a flag.
pub open spec fn maildir_char(flag: Flag) -> char {
    match flag {
        Flag::Draft => 'D',
        Flag::Flagged => 'F',
        Flag::Answered => 'R',
        Flag::Seen => 'S',
        Flag::Deleted => 'T',
    }
}

/// The flag that a maildir letter stands for, if any.
pub open spec fn spec_from_char(c: char) -> Option<Flag> {
    if c == 'D' {
        Some(Flag::Draft)
    } else if c == 'F' {
        Some(Flag::Flagged)
    } else if c == 'R' {
        Some(Flag::Answered)
    } else if c == 'S' {
        Some(Flag::Seen)
    } else if c == 'T' {
        Some(Flag::Deleted)
    } else {
        None
    }
}

/// `s` if `b`, else the empty sequence.
pub open spec fn when(b: bool, c: char) -> Seq<char> {
    if b {
        seq![c]
    } else {
        Seq::<char>::empty()
    }
}

/// The maildir info letters of a set, in the alphabetical order that
/// maildir asks for.
pub open spec fn normalized_chars(f: Flags) -> Seq<char> {
    when(f.draft, 'D') + when(f.flagged, 'F') + when(f.answered, 'R') + when(f.seen, 'S') + when(
        f.deleted,
        'T',
    )
}

/// The set that a string of maildir letters stands for; letters outside
/// the vocabulary are ignored.
pub open spec fn flags_of_chars(s: Seq<char>) -> Flags
    decreases s.len(),
{
    if s.len() == 0 {
        Flags::empty()
    } else {
        let rest = flags_of_chars(s.drop_last());
        match spec_from_char(s.last()) {
            Some(flag) => rest.spec_with(flag),
            None => rest,
        }
    }
}

/// The flag that a maildir letter stands for, if any.
pub fn from_char(c: char) -> (r: Option<Flag>)
    ensures
        r == spec_from_char(c),
{
    match c {
        'D' => Some(Flag::Draft),
        'F' => Some(Flag::Flagged),
        'R' => Some(Flag::Answered),
        'S' => Some(Flag::Seen),
        'T' => Some(Flag::Deleted),
        _ => None,
    }
}

/// Reads a string of maildir info letters.
pub fn from_maildir_chars(s: &str) -> (r: Flags)
    ensures
        r == flags_of_chars(s@),
{
    let n = s.unicode_len();
    let mut r = Flags::new();
    let mut i: usize = 0;
    while i < n
        invariant
            n == s@.len(),
            i <= n,
            r == flags_of_chars(s@.subrange(0, i as int)),
        decreases n - i,
    {
        let c = s.get_char(i);
        assert(s@.subrange(0, i as int + 1).drop_last() =~= s@.subrange(0, i as int));
        match from_char(c) {
            Some(flag) => r.insert(flag),
            None => {},
        }
        i = i + 1;
    }
    assert(s@.subrange(0, n as int) =~= s@);
    r
}

/// The maildir crate's message entry, carried through opaquely.
#[verifier::external_type_specification]
#[verifier::external_body]
pub struct ExMailEntry(maildir::MailEntry);

/// The info letters stored in a maildir entry.
pub uninterp spec fn maildir_info(e: maildir::MailEntry) -> Seq<char>;

/// Relies on `maildir::MailEntry::flags`: it hands back the info letters
/// stored in the entry, the same for the same entry.
pub assume_specification[ maildir::MailEntry::flags ](entry: &maildir::MailEntry) -> (r: &str)
    ensures
        r@ == maildir_info(*entry),
;

/// The flags of a maildir entry, read from the info letters of its name.
pub fn from_maildir_entry(entry: &maildir::MailEntry) -> (r: Flags)
    ensures
        r == flags_of_chars(maildir_info(*entry)),
{
    from_maildir_chars(entry.flags())
}

/// Writes a flag set as maildir info letters, in alphabetical order.
pub fn to_normalized_string(flags: &Flags) -> (r: String)
    ensures
        r@ == normalized_chars(*flags),
{
    let mut r = String::new();
    proof {
        reveal_strlit("D");
        reveal_strlit("F");
        reveal_strlit("R");
        reveal_strlit("S");
        reveal_strlit("T");
    }
    if flags.draft {
        r.append("D");
    }
    if flags.flagged {
        r.append("F");
    }
    if flags.answered {
        r.append("R");
    }
    if flags.seen {
        r.append("S");
    }
    if flags.deleted {
        r.append("T");
    }
    assert(r@ =~= normalized_chars(*flags));
    r
}

} // verus!
