//! Small operations on character sequences, each with its executable form.

use vstd::prelude::*;

verus! {

/// The first position at or after `from` where `c` stands in `s`, or the
/// length of `s` where it stands at none.
pub open spec fn find_from(s: Seq<char>, c: char, from: int) -> int
    decreases s.len() - from,
{
    if from < 0 || from >= s.len() {
        s.len() as int
    } else if s[from] == c {
        from
    } else {
        find_from(s, c, from + 1)
    }
}

/// The first position at or after `from` where something other than `c`
/// stands in `s`, or the length of `s`.
pub open spec fn run_end(s: Seq<char>, c: char, from: int) -> int
    decreases s.len() - from,
{
    if from < 0 || from >= s.len() {
        s.len() as int
    } else if s[from] != c {
        from
    } else {
        run_end(s, c, from + 1)
    }
}

/// `s` without the run of `c` that it starts with.
pub open spec fn strip_leading(s: Seq<char>, c: char) -> Seq<char> {
    s.subrange(run_end(s, c, 0), s.len() as int)
}

/// Whether a character is white space, as `char::is_whitespace` tells it:
/// the characters with Unicode's property of that name.
pub uninterp spec fn white_space(c: char) -> bool;

/// The first position at or after `from` where something other than white
/// space stands in `s`, or the length of `s`.
pub open spec fn lead_end(s: Seq<char>, from: int) -> int
    decreases s.len() - from,
{
    if from < 0 || from >= s.len() {
        s.len() as int
    } else if !white_space(s[from]) {
        from
    } else {
        lead_end(s, from + 1)
    }
}

/// The position after the last character before `to` that is no white
/// space, or zero where there is none.
pub open spec fn tail_start(s: Seq<char>, to: int) -> int
    decreases to,
{
    if to <= 0 || to > s.len() {
        0
    } else if !white_space(s[to - 1]) {
        to
    } else {
        tail_start(s, to - 1)
    }
}

/// `s` without the white space at its two ends.
pub open spec fn trim_of(s: Seq<char>) -> Seq<char> {
    if lead_end(s, 0) <= tail_start(s, s.len() as int) {
        s.subrange(lead_end(s, 0), tail_start(s, s.len() as int))
    } else {
        Seq::empty()
    }
}

/// Calls `char::is_whitespace`. Trusted: the result is the one named
/// [`white_space`], which depends on the character alone.
#[verifier::external_body]
fn is_space(c: char) -> (r: bool)
    ensures
        r == white_space(c),
{
    c.is_whitespace()
}

/// The string without the white space at its two ends.
pub fn trim_white_space(s: &str) -> (r: String)
    ensures
        r@ == trim_of(s@),
{
    let n = s.unicode_len();
    let mut a: usize = 0;
    while a < n && is_space(s.get_char(a))
        invariant
            a <= n,
            n == s@.len(),
            lead_end(s@, a as int) == lead_end(s@, 0),
        decreases n - a,
    {
        a += 1;
    }
    let mut b: usize = n;
    while b > 0 && is_space(s.get_char(b - 1))
        invariant
            b <= n,
            n == s@.len(),
            tail_start(s@, b as int) == tail_start(s@, n as int),
        decreases b,
    {
        b -= 1;
    }
    if a <= b {
        String::from_str(s.substring_char(a, b))
    } else {
        String::new()
    }
}

/// Whether two strings hold the same characters.
pub fn same_text(a: &str, b: &str) -> (r: bool)
    ensures
        r == (a@ == b@),
{
    String::from_str(a) == String::from_str(b)
}

/// The position of the first `c` at or after `from`, or the length.
pub fn find_char(s: &str, c: char, from: usize) -> (r: usize)
    requires
        from <= s@.len(),
    ensures
        r == find_from(s@, c, from as int),
        from <= r <= s@.len(),
{
    let n = s.unicode_len();
    let mut i: usize = from;
    while i < n
        invariant
            from <= i <= n,
            n == s@.len(),
            find_from(s@, c, i as int) == find_from(s@, c, from as int),
        decreases n - i,
    {
        if s.get_char(i) == c {
            return i;
        }
        i += 1;
    }
    i
}

/// The string without the run of `c` that it starts with.
pub fn strip_leading_char(s: &str, c: char) -> (r: String)
    ensures
        r@ == strip_leading(s@, c),
{
    let n = s.unicode_len();
    let mut i: usize = 0;
    while i < n && s.get_char(i) == c
        invariant
            i <= n,
            n == s@.len(),
            run_end(s@, c, i as int) == run_end(s@, c, 0),
        decreases n - i,
    {
        i += 1;
    }
    String::from_str(s.substring_char(i, n))
}

} // verus!
