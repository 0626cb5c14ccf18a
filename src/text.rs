//! Character-sequence predicates and number formatting used by the filter and the
//! renderer.

use vstd::prelude::*;

verus! {

/// `m` occurs somewhere in `s` as a contiguous run.
pub open spec fn seq_contains(s: Seq<char>, m: Seq<char>) -> bool {
    exists|i: int| 0 <= i <= s.len() - m.len() && #[trigger] s.subrange(i, i + m.len()) == m
}

/// `s` begins with `p`.
pub open spec fn seq_starts_with(s: Seq<char>, p: Seq<char>) -> bool {
    p.len() <= s.len() && s.subrange(0, p.len() as int) == p
}

/// `s` ends with the character `c`.
pub open spec fn seq_ends_with(s: Seq<char>, c: char) -> bool {
    s.len() > 0 && s.last() == c
}

/// Whether `s[start..start + m.len()]` equals `m`; `start + m.len()` must fit in `s`.
fn matches_at(s: &str, slen: usize, m: &str, mlen: usize, start: usize) -> (r: bool)
    requires
        slen == s@.len(),
        mlen == m@.len(),
        start + mlen <= slen,
    ensures
        r == (s@.subrange(start as int, start + mlen) == m@),
{
    let mut j: usize = 0;
    while j < mlen
        invariant
            slen == s@.len(),
            mlen == m@.len(),
            start + mlen <= slen,
            j <= mlen,
            s@.subrange(start as int, start + j) == m@.subrange(0, j as int),
        decreases mlen - j,
    {
        if s.get_char(start + j) != m.get_char(j) {
            assert(s@.subrange(start as int, start + mlen)[j as int] != m@[j as int]);
            return false;
        }
        assert(s@.subrange(start as int, start + j + 1) =~= s@.subrange(start as int, start + j).push(s@[start + j]));
        assert(m@.subrange(0, j + 1) =~= m@.subrange(0, j as int).push(m@[j as int]));
        j = j + 1;
    }
    assert(m@.subrange(0, mlen as int) =~= m@);
    true
}

/// Whether `m` occurs in `s`.
pub fn contains(s: &str, m: &str) -> (r: bool)
    ensures
        r == seq_contains(s@, m@),
{
    let slen = s.unicode_len();
    let mlen = m.unicode_len();
    if mlen > slen {
        return false;
    }
    let last = slen - mlen;
    let mut i: usize = 0;
    loop
        invariant
            slen == s@.len(),
            mlen == m@.len(),
            last == slen - mlen,
            i <= last,
            forall|k: int| 0 <= k < i ==> #[trigger] s@.subrange(k, k + mlen) != m@,
        decreases last - i,
    {
        if matches_at(s, slen, m, mlen, i) {
            return true;
        }
        if i == last {
            return false;
        }
        i = i + 1;
    }
}

/// Whether `s` begins with `p`.
pub fn starts_with(s: &str, p: &str) -> (r: bool)
    ensures
        r == seq_starts_with(s@, p@),
{
    let slen = s.unicode_len();
    let plen = p.unicode_len();
    if plen > slen {
        return false;
    }
    matches_at(s, slen, p, plen, 0)
}

/// Whether the last character of `s` is `c`.
pub fn ends_with_char(s: &str, c: char) -> (r: bool)
    ensures
        r == seq_ends_with(s@, c),
{
    let slen = s.unicode_len();
    if slen == 0 {
        false
    } else {
        s.get_char(slen - 1) == c
    }
}

/// The decimal digit character of `d`.
pub open spec fn digit_char(d: nat) -> char {
    ((d + 48) as u8) as char
}

/// The decimal form of `n`, without leading zeros.
pub open spec fn decimal(n: nat) -> Seq<char>
    decreases n,
{
    if n < 10 {
        seq![digit_char(n)]
    } else {
        decimal(n / 10).push(digit_char(n % 10))
    }
}

fn digit_str(d: u32) -> (r: &'static str)
    requires
        d < 10,
    ensures
        r@ == seq![digit_char(d as nat)],
{
    proof {
        reveal_strlit("0");
        reveal_strlit("1");
        reveal_strlit("2");
        reveal_strlit("3");
        reveal_strlit("4");
        reveal_strlit("5");
        reveal_strlit("6");
        reveal_strlit("7");
        reveal_strlit("8");
        reveal_strlit("9");
    }
    let r = match d {
        0 => "0",
        1 => "1",
        2 => "2",
        3 => "3",
        4 => "4",
        5 => "5",
        6 => "6",
        7 => "7",
        8 => "8",
        _ => "9",
    };
    assert(r@ =~= seq![digit_char(d as nat)]);
    r
}

/// The decimal form of `n`.
pub fn decimal_string(n: u32) -> (r: String)
    ensures
        r@ == decimal(n as nat),
    decreases n,
{
    if n < 10 {
        String::from_str(digit_str(n))
    } else {
        let mut s = decimal_string(n / 10);
        s.append(digit_str(n % 10));
        assert(s@ =~= decimal(n as nat));
        s
    }
}

} // verus!
