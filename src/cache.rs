//! How cache rows are keyed and how their flags are written: rows of the
//! local side are filed under `<account>:cache`, rows of the remote side
//! under `<account>`, and a flag set is written as comma-joined names.
use vstd::prelude::*;
use crate::flag::{Flag, Flags};
use crate::sync::Side;
use crate::text::{chars_of, join};

verus! {

/// The account key of the cache rows of one side.
pub open spec fn spec_cache_account(account: Seq<char>, side: Side) -> Seq<char> {
    match side {
        Side::Remote => account,
        Side::Local => account + ":cache"@,
    }
}

/// The account key of the cache rows of one side.
pub fn cache_account(account: &String, side: Side) -> (r: String)
    ensures
        r@ == spec_cache_account(account@, side),
{
    let mut r = account.clone();
    match side {
        Side::Remote => {},
        Side::Local => r.append(":cache"),
    }
    r
}

/// The name of a flag in cache rows.
pub open spec fn name_of(f: Flag) -> Seq<char> {
    match f {
        Flag::Seen => "seen"@,
        Flag::Answered => "answered"@,
        Flag::Flagged => "flagged"@,
        Flag::Deleted => "deleted"@,
        Flag::Draft => "draft"@,
    }
}

/// The flag a name stands for, if any.
pub open spec fn flag_of_name(t: Seq<char>) -> Option<Flag> {
    if t == "seen"@ {
        Some(Flag::Seen)
    } else if t == "answered"@ {
        Some(Flag::Answered)
    } else if t == "flagged"@ {
        Some(Flag::Flagged)
    } else if t == "deleted"@ {
        Some(Flag::Deleted)
    } else if t == "draft"@ {
        Some(Flag::Draft)
    } else {
        None
    }
}

/// The name of `f` if `b`, else nothing.
pub open spec fn name_if(b: bool, f: Flag) -> Seq<Seq<char>> {
    if b {
        seq![name_of(f)]
    } else {
        Seq::empty()
    }
}

/// The names of the flags of a set, in a fixed order.
pub open spec fn names_of(f: Flags) -> Seq<Seq<char>> {
    name_if(f.seen, Flag::Seen) + name_if(f.answered, Flag::Answered) + name_if(
        f.flagged,
        Flag::Flagged,
    ) + name_if(f.deleted, Flag::Deleted) + name_if(f.draft, Flag::Draft)
}

/// `f0` with the flags that the names `ts` stand for added; other names
/// are ignored.
pub open spec fn add_names(f0: Flags, ts: Seq<Seq<char>>) -> Flags
    decreases ts.len(),
{
    if ts.len() == 0 {
        f0
    } else {
        let rest = add_names(f0, ts.drop_last());
        match flag_of_name(ts.last()) {
            Some(f) => rest.spec_with(f),
            None => rest,
        }
    }
}

/// The position of the first `,` at or after `i`, or the length of `s`.
pub open spec fn next_comma(s: Seq<char>, i: int) -> int
    decreases s.len() - i,
{
    if i >= s.len() {
        s.len() as int
    } else if s[i] == ',' {
        i
    } else {
        next_comma(s, i + 1)
    }
}

/// The comma-separated parts of `s` from position `i` on.
pub open spec fn parts_from(s: Seq<char>, i: int) -> Seq<Seq<char>>
    decreases s.len() - i,
{
    if i < 0 || i >= s.len() || next_comma(s, i) < i {
        Seq::empty()
    } else if next_comma(s, i) >= s.len() {
        seq![s.subrange(i, s.len() as int)]
    } else {
        seq![s.subrange(i, next_comma(s, i))] + parts_from(s, next_comma(s, i) + 1)
    }
}

/// The comma-separated parts of `s`.
pub open spec fn parts(s: Seq<char>) -> Seq<Seq<char>> {
    parts_from(s, 0)
}

/// The flags that a comma-joined list of names stands for.
pub open spec fn flags_of_names(s: Seq<char>) -> Flags {
    add_names(Flags::empty(), parts(s))
}

fn name_str(f: Flag) -> (r: &'static str)
    ensures
        r@ == name_of(f),
{
    match f {
        Flag::Seen => "seen",
        Flag::Answered => "answered",
        Flag::Flagged => "flagged",
        Flag::Deleted => "deleted",
        Flag::Draft => "draft",
    }
}

fn push_name(r: &mut String, first: &mut bool, f: Flag, Ghost(done): Ghost<Seq<Seq<char>>>)
    requires
        old(r)@ == join(done, ","@),
        *old(first) == (done.len() == 0),
    ensures
        final(r)@ == join(done.push(name_of(f)), ","@),
        !*final(first),
{
    assert(done.push(name_of(f)).drop_last() =~= done);
    if !*first {
        r.append(",");
    }
    r.append(name_str(f));
    *first = false;
}

/// Writes a flag set as comma-joined names.
pub fn flags_to_names(flags: &Flags) -> (r: String)
    ensures
        r@ == join(names_of(*flags), ","@),
{
    let mut r = String::new();
    let mut first = true;
    let ghost mut done: Seq<Seq<char>> = Seq::empty();
    if flags.seen {
        push_name(&mut r, &mut first, Flag::Seen, Ghost(done));
        proof { done = done.push(name_of(Flag::Seen)); }
    }
    if flags.answered {
        push_name(&mut r, &mut first, Flag::Answered, Ghost(done));
        proof { done = done.push(name_of(Flag::Answered)); }
    }
    if flags.flagged {
        push_name(&mut r, &mut first, Flag::Flagged, Ghost(done));
        proof { done = done.push(name_of(Flag::Flagged)); }
    }
    if flags.deleted {
        push_name(&mut r, &mut first, Flag::Deleted, Ghost(done));
        proof { done = done.push(name_of(Flag::Deleted)); }
    }
    if flags.draft {
        push_name(&mut r, &mut first, Flag::Draft, Ghost(done));
        proof { done = done.push(name_of(Flag::Draft)); }
    }
    assert(done =~= names_of(*flags));
    r
}

fn flag_from_name(t: &String) -> (r: Option<Flag>)
    ensures
        r == flag_of_name(t@),
{
    if *t == "seen".to_string() {
        Some(Flag::Seen)
    } else if *t == "answered".to_string() {
        Some(Flag::Answered)
    } else if *t == "flagged".to_string() {
        Some(Flag::Flagged)
    } else if *t == "deleted".to_string() {
        Some(Flag::Deleted)
    } else if *t == "draft".to_string() {
        Some(Flag::Draft)
    } else {
        None
    }
}

proof fn lemma_next_comma_skip(s: Seq<char>, i: int, k: int)
    requires
        0 <= i <= k <= s.len(),
        forall|j: int| i <= j < k ==> s[j] != ',',
    ensures
        next_comma(s, i) == next_comma(s, k),
    decreases k - i,
{
    if i < k {
        lemma_next_comma_skip(s, i + 1, k);
    }
}

proof fn lemma_next_comma_bounds(s: Seq<char>, i: int)
    requires
        0 <= i <= s.len(),
    ensures
        i <= next_comma(s, i) <= s.len(),
    decreases s.len() - i,
{
    if i < s.len() && s[i] != ',' {
        lemma_next_comma_bounds(s, i + 1);
    }
}

/// Reads comma-joined flag names; other names are ignored.
pub fn flags_from_names(s: &str) -> (r: Flags)
    ensures
        r == flags_of_names(s@),
{
    let cs = chars_of(s);
    let n = cs.len();
    let mut r = Flags::new();
    let ghost mut done: Seq<Seq<char>> = Seq::empty();
    let mut i: usize = 0;
    while i < n
        invariant
            cs@ == s@,
            n == s@.len(),
            i <= n,
            done + parts_from(s@, i as int) == parts(s@),
            r == add_names(Flags::empty(), done),
        decreases n - i,
    {
        let mut k: usize = i;
        while k < n && cs[k] != ','
            invariant
                cs@ == s@,
                n == s@.len(),
                i <= k <= n,
                forall|j: int| i <= j < k ==> s@[j] != ',',
            decreases n - k,
        {
            k = k + 1;
        }
        proof {
            lemma_next_comma_skip(s@, i as int, k as int);
            lemma_next_comma_bounds(s@, i as int);
        }
        let t = s.substring_char(i, k).to_owned();
        let ghost before = done;
        match flag_from_name(&t) {
            Some(f) => r.insert(f),
            None => {},
        }
        proof {
            done = done.push(t@);
            assert(done.drop_last() =~= before);
        }
        if k >= n {
            assert(parts_from(s@, i as int) == seq![t@]);
            assert(done =~= parts(s@));
            return r;
        }
        assert(parts_from(s@, i as int) == seq![t@] + parts_from(s@, k + 1));
        assert(done + parts_from(s@, k + 1) =~= before + parts_from(s@, i as int));
        i = k + 1;
    }
    assert(parts_from(s@, i as int) =~= Seq::<Seq<char>>::empty());
    assert(done =~= parts(s@));
    r
}

/// No `,` in `t`.
pub open spec fn comma_free(t: Seq<char>) -> bool {
    forall|j: int| 0 <= j < t.len() ==> t[j] != ','
}

proof fn lemma_next_comma_shift(p: Seq<char>, s: Seq<char>, i: int)
    requires
        0 <= i <= s.len(),
    ensures
        next_comma(p + s, p.len() + i) == p.len() + next_comma(s, i),
    decreases s.len() - i,
{
    if i < s.len() {
        assert((p + s)[p.len() + i] == s[i]);
        if s[i] != ',' {
            lemma_next_comma_shift(p, s, i + 1);
        }
    }
}

proof fn lemma_parts_shift(p: Seq<char>, s: Seq<char>, i: int)
    requires
        0 <= i <= s.len(),
    ensures
        parts_from(p + s, p.len() + i) == parts_from(s, i),
    decreases s.len() - i,
{
    if i < s.len() {
        lemma_next_comma_shift(p, s, i);
        lemma_next_comma_bounds(s, i);
        let k = next_comma(s, i);
        if k < s.len() {
            lemma_parts_shift(p, s, k + 1);
            assert((p + s).subrange(p.len() + i, p.len() + k) =~= s.subrange(i, k));
        } else {
            assert((p + s).subrange(p.len() + i, (p + s).len() as int) =~= s.subrange(i, s.len() as int));
        }
    }
}

proof fn lemma_parts_cons(t: Seq<char>, s: Seq<char>)
    requires
        comma_free(t),
        t.len() > 0,
    ensures
        parts(t + ","@ + s) == seq![t] + parts(s),
{
    reveal_strlit(",");
    let x = t + ","@ + s;
    let q = t + ","@;
    assert(x =~= q + s);
    lemma_next_comma_skip(x, 0, t.len() as int);
    assert(x[t.len() as int] == ',');
    assert(next_comma(x, t.len() as int) == t.len());
    lemma_parts_shift(q, s, 0);
    assert(x.subrange(0, t.len() as int) =~= t);
    if s.len() == 0 {
        assert(parts_from(x, t.len() as int + 1) =~= Seq::<Seq<char>>::empty());
        assert(parts(s) =~= Seq::<Seq<char>>::empty());
    }
}

proof fn lemma_join_cons(ts: Seq<Seq<char>>, sep: Seq<char>)
    requires
        ts.len() >= 2,
    ensures
        join(ts, sep) == ts[0] + sep + join(ts.drop_first(), sep),
    decreases ts.len(),
{
    if ts.len() > 2 {
        lemma_join_cons(ts.drop_last(), sep);
        assert(ts.drop_last().drop_first() =~= ts.drop_first().drop_last());
        assert(ts.drop_first().last() == ts.last());
        assert(join(ts.drop_first(), sep) == join(ts.drop_first().drop_last(), sep) + sep
            + ts.drop_first().last());
        assert(join(ts, sep) =~= ts[0] + sep + join(ts.drop_first(), sep));
    } else {
        assert(ts.drop_first().len() == 1);
        assert(ts.drop_last().len() == 1);
        assert(join(ts.drop_last(), sep) == ts[0]);
        assert(join(ts.drop_first(), sep) == ts[1]);
        assert(join(ts, sep) =~= ts[0] + sep + join(ts.drop_first(), sep));
    }
}

proof fn lemma_parts_join(ts: Seq<Seq<char>>)
    requires
        forall|k: int| 0 <= k < ts.len() ==> comma_free(#[trigger] ts[k]) && ts[k].len() > 0,
    ensures
        parts(join(ts, ","@)) == ts,
    decreases ts.len(),
{
    if ts.len() == 0 {
        assert(parts(Seq::<char>::empty()) =~= ts);
    } else if ts.len() == 1 {
        let t = ts[0];
        assert(comma_free(t));
        lemma_next_comma_skip(t, 0, t.len() as int);
        assert(t.subrange(0, t.len() as int) =~= t);
        assert(parts(t) =~= ts);
    } else {
        lemma_join_cons(ts, ","@);
        lemma_parts_join(ts.drop_first());
        assert(comma_free(ts[0]));
        lemma_parts_cons(ts[0], join(ts.drop_first(), ","@));
        assert(seq![ts[0]] + ts.drop_first() =~= ts);
    }
}

proof fn lemma_add_names_concat(f0: Flags, a: Seq<Seq<char>>, b: Seq<Seq<char>>)
    ensures
        add_names(f0, a + b) == add_names(add_names(f0, a), b),
    decreases b.len(),
{
    if b.len() == 0 {
        assert(a + b =~= a);
    } else {
        lemma_add_names_concat(f0, a, b.drop_last());
        assert((a + b).drop_last() =~= a + b.drop_last());
    }
}

proof fn lemma_name_if(g: Flags, b: bool, f: Flag)
    ensures
        add_names(g, name_if(b, f)) == if b {
            g.spec_with(f)
        } else {
            g
        },
        comma_free(name_of(f)),
        name_of(f).len() > 0,
{
    reveal_strlit("seen");
    reveal_strlit("answered");
    reveal_strlit("flagged");
    reveal_strlit("deleted");
    reveal_strlit("draft");
    let s1 = "seen"@;
    let s2 = "answered"@;
    let s3 = "flagged"@;
    let s4 = "deleted"@;
    let s5 = "draft"@;
    assert(s1 != s2 && s1 != s3 && s1 != s4 && s1 != s5) by {
        assert(s1.len() != s2.len() && s1.len() != s3.len() && s1.len() != s4.len() && s1.len()
            != s5.len());
    }
    assert(s2 != s3 && s2 != s4 && s2 != s5) by {
        assert(s2.len() != s3.len() && s2.len() != s4.len() && s2.len() != s5.len());
    }
    assert(s3 != s4 && s3 != s5) by {
        assert(s3[0] != s4[0] && s3.len() != s5.len());
    }
    assert(s4 != s5) by {
        assert(s4.len() != s5.len());
    }
    if b {
        assert(name_if(b, f).drop_last() =~= Seq::<Seq<char>>::empty());
        assert(add_names(g, name_if(b, f).drop_last()) == g);
        assert(name_if(b, f).last() == name_of(f));
        assert(flag_of_name(name_of(f)) == Some(f));
    }
}

/// Writing a flag set as names and reading it back gives the same set.
pub proof fn lemma_flag_names_round_trip(f: Flags)
    ensures
        flags_of_names(join(names_of(f), ","@)) == f,
{
    let e = Flags::empty();
    let n_seen = name_if(f.seen, Flag::Seen);
    let n_answered = name_if(f.answered, Flag::Answered);
    let n_flagged = name_if(f.flagged, Flag::Flagged);
    let n_deleted = name_if(f.deleted, Flag::Deleted);
    let n_draft = name_if(f.draft, Flag::Draft);
    lemma_name_if(e, f.seen, Flag::Seen);
    let after_seen = add_names(e, n_seen);
    lemma_name_if(after_seen, f.answered, Flag::Answered);
    let after_answered = add_names(after_seen, n_answered);
    lemma_name_if(after_answered, f.flagged, Flag::Flagged);
    let after_flagged = add_names(after_answered, n_flagged);
    lemma_name_if(after_flagged, f.deleted, Flag::Deleted);
    let after_deleted = add_names(after_flagged, n_deleted);
    lemma_name_if(after_deleted, f.draft, Flag::Draft);
    lemma_add_names_concat(e, n_seen, n_answered);
    lemma_add_names_concat(e, n_seen + n_answered, n_flagged);
    lemma_add_names_concat(e, n_seen + n_answered + n_flagged, n_deleted);
    lemma_add_names_concat(e, n_seen + n_answered + n_flagged + n_deleted, n_draft);
    let ns = names_of(f);
    assert forall|k: int| 0 <= k < ns.len() implies comma_free(#[trigger] ns[k]) && ns[k].len() > 0 by {
        lemma_name_if(e, true, Flag::Seen);
        lemma_name_if(e, true, Flag::Answered);
        lemma_name_if(e, true, Flag::Flagged);
        lemma_name_if(e, true, Flag::Deleted);
        lemma_name_if(e, true, Flag::Draft);
    }
    lemma_parts_join(ns);
}

} // verus!
