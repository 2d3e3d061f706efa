//! Character-level helpers shared by the tokenizer and the symbol builder.

use vstd::prelude::*;
use vstd::slice::slice_subrange;

verus! {

/// A space or a tab.
pub open spec fn is_blank(c: char) -> bool {
    c == ' ' || c == '\t'
}

/// `s` without its leading blanks.
pub open spec fn trim_start(s: Seq<char>) -> Seq<char>
    decreases s.len(),
{
    if s.len() > 0 && is_blank(s[0]) {
        trim_start(s.drop_first())
    } else {
        s
    }
}

/// `s` without its trailing blanks.
pub open spec fn trim_end(s: Seq<char>) -> Seq<char>
    decreases s.len(),
{
    if s.len() > 0 && is_blank(s.last()) {
        trim_end(s.drop_last())
    } else {
        s
    }
}

/// `s` without blanks at either end.
pub open spec fn trim(s: Seq<char>) -> Seq<char> {
    trim_end(trim_start(s))
}

/// Relies on `str::chars` collected into a `Vec`: the characters of `s`, in order.
#[verifier::external_body]
pub(crate) fn chars_of(s: &str) -> (r: Vec<char>)
    ensures
        r@ == s@,
{
    s.chars().collect()
}

/// Relies on `String: FromIterator<&char>`: the string made of the characters of `c`, in order.
#[verifier::external_body]
pub(crate) fn string_of(c: &[char]) -> (r: String)
    ensures
        r@ == c@,
{
    c.iter().collect()
}

/// The bounds of `c[from..to]` without blanks at either end.
pub(crate) fn trim_bounds(c: &[char], from: usize, to: usize) -> (r: (usize, usize))
    requires
        from <= to <= c@.len(),
    ensures
        from <= r.0 <= r.1 <= to,
        c@.subrange(r.0 as int, r.1 as int) == trim(c@.subrange(from as int, to as int)),
{
    let ghost s = c@.subrange(from as int, to as int);
    let mut b: usize = from;
    while b < to && (c[b] == ' ' || c[b] == '\t')
        invariant
            from <= b <= to <= c@.len(),
            s == c@.subrange(from as int, to as int),
            trim_start(s) == trim_start(c@.subrange(b as int, to as int)),
        decreases to - b,
    {
        proof {
            let t = c@.subrange(b as int, to as int);
            assert(t.drop_first() =~= c@.subrange(b + 1, to as int));
        }
        b = b + 1;
    }
    let mut e: usize = to;
    proof {
        assert(c@.subrange(b as int, e as int) == trim_start(s));
    }
    while e > b && (c[e - 1] == ' ' || c[e - 1] == '\t')
        invariant
            from <= b <= e <= to <= c@.len(),
            trim_start(s) == c@.subrange(b as int, to as int),
            trim(s) == trim_end(c@.subrange(b as int, e as int)),
        decreases e - b,
    {
        proof {
            let t = c@.subrange(b as int, e as int);
            assert(t.drop_last() =~= c@.subrange(b as int, e - 1));
        }
        e = e - 1;
    }
    (b, e)
}

/// The characters `c[from..to]` without blanks at either end, as a `String`.
pub(crate) fn trim_range(c: &[char], from: usize, to: usize) -> (r: String)
    requires
        from <= to <= c@.len(),
    ensures
        r@ == trim(c@.subrange(from as int, to as int)),
{
    let (b, e) = trim_bounds(c, from, to);
    string_of(slice_subrange(c, b, e))
}

/// Index of the first `ch` in `s` at or after `i`, or the length of `s`.
pub open spec fn find(s: Seq<char>, ch: char, i: int) -> int
    decreases s.len() - i,
{
    if i < 0 || i >= s.len() {
        s.len() as int
    } else if s[i] == ch {
        i
    } else {
        find(s, ch, i + 1)
    }
}

/// Index of the last `ch` in `s` before `end`, if any.
pub open spec fn rfind(s: Seq<char>, ch: char, end: int) -> Option<int>
    decreases end,
{
    if end <= 0 || end > s.len() {
        None
    } else if s[end - 1] == ch {
        Some(end - 1)
    } else {
        rfind(s, ch, end - 1)
    }
}

/// Index of the first `ch` in `c` at or after `i`, or the length of `c`.
pub(crate) fn find_from(c: &[char], ch: char, i: usize) -> (r: usize)
    requires
        i <= c@.len(),
    ensures
        r == find(c@, ch, i as int),
        i <= r <= c@.len(),
{
    let mut k: usize = i;
    while k < c.len() && c[k] != ch
        invariant
            i <= k <= c@.len(),
            find(c@, ch, i as int) == find(c@, ch, k as int),
        decreases c@.len() - k,
    {
        k = k + 1;
    }
    k
}

/// Index of the last `ch` in `c` before `end`, if any.
pub(crate) fn rfind_before(c: &[char], ch: char, end: usize) -> (r: Option<usize>)
    requires
        end <= c@.len(),
    ensures
        r matches Some(k) ==> rfind(c@, ch, end as int) == Some(k as int) && k < end,
        r is None ==> rfind(c@, ch, end as int) is None,
{
    let mut k: usize = end;
    while k > 0
        invariant
            k <= end <= c@.len(),
            rfind(c@, ch, end as int) == rfind(c@, ch, k as int),
        decreases k,
    {
        if c[k - 1] == ch {
            return Some(k - 1);
        }
        k = k - 1;
    }
    None
}

/// `inp` without leading and trailing spaces and tabs.
pub fn rem_spaces(inp: &str) -> (r: String)
    ensures
        r@ == trim(inp@),
{
    let c = chars_of(inp);
    proof {
        assert(c@.subrange(0, c@.len() as int) =~= c@);
    }
    trim_range(c.as_slice(), 0, c.len())
}

} // verus!
