//! Splitting text into lines and joining it back.
use vstd::prelude::*;
use vstd::std_specs::iter::IteratorSpec;

verus! {

/// The characters of `s`.
pub fn chars_of(s: &str) -> (r: Vec<char>)
    ensures
        r@ == s@,
{
    broadcast use vstd::string::axiom_spec_iter, vstd::string::next_postcondition;

    let mut it = s.chars();
    let mut r: Vec<char> = Vec::new();
    loop
        invariant
            it.remaining() == s@.subrange(r@.len() as int, s@.len() as int),
            r@ == s@.subrange(0, r@.len() as int),
            r@.len() <= s@.len(),
        ensures
            r@ == s@,
        decreases s@.len() - r@.len(),
    {
        match it.next() {
            Some(c) => {
                r.push(c);
                assert(r@ =~= s@.subrange(0, r@.len() as int));
            },
            None => {
                assert(r@ =~= s@);
                break;
            },
        }
    }
    r
}

/// The position of the first `\n` at or after `i`, or the length of `s`.
pub open spec fn next_newline(s: Seq<char>, i: int) -> int
    decreases s.len() - i,
{
    if i >= s.len() {
        s.len() as int
    } else if s[i] == '\n' {
        i
    } else {
        next_newline(s, i + 1)
    }
}

/// The line that starts at `i`: up to the next `\n`, without a `\r` right
/// before that `\n`.
pub open spec fn line_at(s: Seq<char>, i: int) -> Seq<char> {
    let k = next_newline(s, i);
    if k < s.len() && k > i && s[k - 1] == '\r' {
        s.subrange(i, k - 1)
    } else {
        s.subrange(i, k)
    }
}

/// The lines of `s` from position `i` on.
pub open spec fn lines_from(s: Seq<char>, i: int) -> Seq<Seq<char>>
    decreases s.len() - i,
{
    if i < 0 || i >= s.len() || next_newline(s, i) < i {
        Seq::empty()
    } else if next_newline(s, i) >= s.len() {
        seq![line_at(s, i)]
    } else {
        seq![line_at(s, i)] + lines_from(s, next_newline(s, i) + 1)
    }
}

/// The lines of `s`, as `str::lines` gives them: split at `\n` and at
/// `\r\n`, with no empty line after a final line ending.
pub open spec fn lines(s: Seq<char>) -> Seq<Seq<char>> {
    lines_from(s, 0)
}

/// The views of a list of strings.
pub open spec fn views(v: Seq<String>) -> Seq<Seq<char>> {
    v.map_values(|x: String| x@)
}

/// `ls` joined with `sep` between each two.
pub open spec fn join(ls: Seq<Seq<char>>, sep: Seq<char>) -> Seq<char>
    decreases ls.len(),
{
    if ls.len() == 0 {
        Seq::empty()
    } else if ls.len() == 1 {
        ls[0]
    } else {
        join(ls.drop_last(), sep) + sep + ls.last()
    }
}

proof fn lemma_next_newline_bounds(s: Seq<char>, i: int)
    requires
        0 <= i <= s.len(),
    ensures
        i <= next_newline(s, i) <= s.len(),
        next_newline(s, i) < s.len() ==> s[next_newline(s, i)] == '\n',
        forall|j: int| i <= j < next_newline(s, i) ==> s[j] != '\n',
    decreases s.len() - i,
{
    if i < s.len() && s[i] != '\n' {
        lemma_next_newline_bounds(s, i + 1);
    }
}

proof fn lemma_next_newline_skip(s: Seq<char>, i: int, k: int)
    requires
        0 <= i <= k <= s.len(),
        forall|j: int| i <= j < k ==> s[j] != '\n',
    ensures
        next_newline(s, i) == next_newline(s, k),
    decreases k - i,
{
    if i < k {
        lemma_next_newline_skip(s, i + 1, k);
    }
}

/// The lines of `s`.
pub fn split_lines(s: &str) -> (r: Vec<String>)
    ensures
        views(r@) == lines(s@),
{
    let cs = chars_of(s);
    let n = cs.len();
    let mut r: Vec<String> = Vec::new();
    let mut i: usize = 0;
    while i < n
        invariant
            cs@ == s@,
            n == s@.len(),
            i <= n,
            views(r@) + lines_from(s@, i as int) == lines(s@),
        decreases n - i,
    {
        let mut k: usize = i;
        while k < n && cs[k] != '\n'
            invariant
                cs@ == s@,
                n == s@.len(),
                i <= k <= n,
                forall|j: int| i <= j < k ==> s@[j] != '\n',
            decreases n - k,
        {
            k = k + 1;
        }
        proof {
            lemma_next_newline_skip(s@, i as int, k as int);
            lemma_next_newline_bounds(s@, i as int);
        }
        assert(next_newline(s@, i as int) == k);
        let end = if k < n && k > i && cs[k - 1] == '\r' {
            k - 1
        } else {
            k
        };
        let line = s.substring_char(i, end).to_owned();
        let ghost before = r@;
        r.push(line);
        assert(views(r@) =~= views(before).push(line_at(s@, i as int)));
        if k >= n {
            assert(lines_from(s@, i as int) == seq![line_at(s@, i as int)]);
            assert(views(r@) =~= lines(s@));
            return r;
        }
        assert(lines_from(s@, i as int) == seq![line_at(s@, i as int)] + lines_from(s@, k + 1));
        assert(views(r@) + lines_from(s@, k + 1) =~= views(before) + lines_from(s@, i as int));
        i = k + 1;
    }
    assert(lines_from(s@, i as int) =~= Seq::<Seq<char>>::empty());
    assert(views(r@) =~= lines(s@));
    r
}

/// The lines `from..to` of `ls`, joined with `\n`.
pub fn join_lines(ls: &Vec<String>, from: usize, to: usize) -> (r: String)
    requires
        from <= to <= ls@.len(),
    ensures
        r@ == join(views(ls@).subrange(from as int, to as int), "\n"@),
{
    let mut r = String::new();
    let mut i: usize = from;
    while i < to
        invariant
            from <= i <= to <= ls@.len(),
            r@ == join(views(ls@).subrange(from as int, i as int), "\n"@),
        decreases to - i,
    {
        let ghost part = views(ls@).subrange(from as int, i as int + 1);
        assert(part.drop_last() =~= views(ls@).subrange(from as int, i as int));
        if i > from {
            r.append("\n");
        }
        r.append(ls[i].as_str());
        if i == from {
            assert(r@ =~= join(part, "\n"@));
        }
        i = i + 1;
    }
    r
}

/// The decimal digits of `n`.
pub open spec fn decimal(n: nat) -> Seq<char>
    decreases n,
{
    if n < 10 {
        seq![((n + 48) as u8) as char]
    } else {
        decimal(n / 10).push((((n % 10) + 48) as u8) as char)
    }
}

/// Relies on `ToString` for `u32`: the decimal digits of the number.
#[verifier::external_body]
pub(crate) fn u32_to_string(n: u32) -> (r: String)
    ensures
        r@ == decimal(n as nat),
{
    n.to_string()
}

} // verus!
