//! Character-level string helpers with their mathematical meaning.

use vstd::prelude::*;

verus! {

/// `p` is a prefix of `s`.
pub open spec fn is_prefix(p: Seq<char>, s: Seq<char>) -> bool {
    p.len() <= s.len() && s.subrange(0, p.len() as int) == p
}

/// `p` is a suffix of `s`.
pub open spec fn is_suffix(p: Seq<char>, s: Seq<char>) -> bool {
    p.len() <= s.len() && s.subrange(s.len() - p.len(), s.len() as int) == p
}

/// `p` occurs in `s` starting at position `i`.
pub open spec fn occurs_at(p: Seq<char>, s: Seq<char>, i: int) -> bool {
    0 <= i && i + p.len() <= s.len() && s.subrange(i, i + p.len()) == p
}

/// `p` occurs somewhere in `s`.
pub open spec fn occurs_in(p: Seq<char>, s: Seq<char>) -> bool {
    exists|i: int| occurs_at(p, s, i)
}

/// The characters of `s`, one by one.
pub fn to_chars(s: &str) -> (r: Vec<char>)
    ensures
        r@ == s@,
{
    let n = s.unicode_len();
    let mut r: Vec<char> = Vec::new();
    let mut i: usize = 0;
    while i < n
        invariant
            n == s@.len(),
            i <= n,
            r@ == s@.subrange(0, i as int),
        decreases n - i,
    {
        r.push(s.get_char(i));
        i = i + 1;
        assert(r@ =~= s@.subrange(0, i as int));
    }
    assert(r@ =~= s@);
    r
}

/// Whether `p` occurs in `s` at position `i` (vectors of characters).
pub fn matches_at(s: &Vec<char>, p: &Vec<char>, i: usize) -> (r: bool)
    ensures
        r == occurs_at(p@, s@, i as int),
{
    if i > s.len() || p.len() > s.len() - i {
        return false;
    }
    let mut j: usize = 0;
    while j < p.len()
        invariant
            i + p.len() <= s.len(),
            j <= p.len(),
            forall|k: int| 0 <= k < j ==> s@[i + k] == p@[k],
        decreases p.len() - j,
    {
        if s[i + j] != p[j] {
            assert(s@.subrange(i as int, i + p.len())[j as int] != p@[j as int]);
            return false;
        }
        j = j + 1;
    }
    assert(s@.subrange(i as int, i + p.len()) =~= p@);
    true
}

/// Whether two strings hold the same characters.
pub fn equal(a: &str, b: &str) -> (r: bool)
    ensures
        r == (a@ == b@),
{
    let ac = to_chars(a);
    let bc = to_chars(b);
    if ac.len() != bc.len() {
        return false;
    }
    let r = matches_at(&ac, &bc, 0);
    assert(ac@.subrange(0, ac@.len() as int) =~= ac@);
    r
}

/// Whether `s` starts with `p`.
pub fn starts_with(s: &str, p: &str) -> (r: bool)
    ensures
        r == is_prefix(p@, s@),
{
    let sc = to_chars(s);
    let pc = to_chars(p);
    matches_at(&sc, &pc, 0)
}

/// Whether `s` ends with `p`.
pub fn ends_with(s: &str, p: &str) -> (r: bool)
    ensures
        r == is_suffix(p@, s@),
{
    let sc = to_chars(s);
    let pc = to_chars(p);
    if pc.len() > sc.len() {
        return false;
    }
    matches_at(&sc, &pc, sc.len() - pc.len())
}

/// Whether `p` occurs anywhere in `s`.
pub fn contains(s: &str, p: &str) -> (r: bool)
    ensures
        r == occurs_in(p@, s@),
{
    let sc = to_chars(s);
    let pc = to_chars(p);
    if pc.len() > sc.len() {
        assert forall|i: int| !occurs_at(pc@, sc@, i) by {}
        return false;
    }
    let end = sc.len() - pc.len();
    let mut i: usize = 0;
    while i < end
        invariant
            end == sc.len() - pc.len(),
            pc.len() <= sc.len(),
            i <= end,
            sc@ == s@,
            pc@ == p@,
            forall|k: int| 0 <= k < i ==> !occurs_at(p@, s@, k),
        decreases end - i,
    {
        if matches_at(&sc, &pc, i) {
            return true;
        }
        i = i + 1;
    }
    let found = matches_at(&sc, &pc, end);
    assert forall|k: int| !found implies !occurs_at(p@, s@, k) by {
        if 0 <= k < i {
        }
    }
    found
}

/// The decimal digits of `n`, most significant first, without leading zeros.
pub open spec fn decimal(n: nat) -> Seq<char>
    decreases n,
{
    if n < 10 {
        seq!["0123456789"@[n as int]]
    } else {
        decimal(n / 10) + seq!["0123456789"@[(n % 10) as int]]
    }
}

/// `n` written in decimal.
pub fn decimal_string(n: usize) -> (r: String)
    ensures
        r@ == decimal(n as nat),
    decreases n,
{
    let digits = "0123456789";
    proof {
        reveal_strlit("0123456789");
    }
    if n < 10 {
        let d = digits.substring_char(n, n + 1);
        assert(d@ =~= seq!["0123456789"@[n as int]]);
        String::from_str(d)
    } else {
        let mut r = decimal_string(n / 10);
        let d = digits.substring_char(n % 10, n % 10 + 1);
        assert(d@ =~= seq!["0123456789"@[(n % 10) as int]]);
        r.append(d);
        r
    }
}

/// Every occurrence of `pat` in `s`, scanned from the left without overlap,
/// replaced by `rep`; an empty `pat` leaves `s` as it is.
pub open spec fn replace_lit(s: Seq<char>, pat: Seq<char>, rep: Seq<char>) -> Seq<char>
    decreases s.len(),
{
    if pat.len() == 0 || s.len() < pat.len() {
        s
    } else if s.subrange(0, pat.len() as int) == pat {
        rep + replace_lit(s.subrange(pat.len() as int, s.len() as int), pat, rep)
    } else {
        seq![s[0]] + replace_lit(s.subrange(1, s.len() as int), pat, rep)
    }
}

/// `s` with every occurrence of `pat` replaced by `rep` (see `replace_lit`).
pub fn replace_literal(s: &str, pat: &str, rep: &str) -> (r: String)
    ensures
        r@ == replace_lit(s@, pat@, rep@),
{
    let sc = to_chars(s);
    let pc = to_chars(pat);
    let n = sc.len();
    if pc.len() == 0 {
        return String::from_str(s);
    }
    let mut r = String::new();
    let mut i: usize = 0;
    // start of the run of characters copied through but not yet appended
    let mut run: usize = 0;
    assert(s@.subrange(0, n as int) =~= s@);
    assert(r@ + s@.subrange(0, 0) =~= Seq::<char>::empty());
    while i < n
        invariant
            sc@ == s@,
            pc@ == pat@,
            n == s@.len(),
            pc@.len() > 0,
            run <= i <= n,
            r@ + s@.subrange(run as int, i as int) + replace_lit(s@.subrange(i as int, n as int), pat@, rep@)
                == replace_lit(s@, pat@, rep@),
        decreases n - i,
    {
        let rest = Ghost(s@.subrange(i as int, n as int));
        if matches_at(&sc, &pc, i) {
            assert(rest@.subrange(0, pat@.len() as int) =~= s@.subrange(i as int, i + pat@.len()));
            assert(rest@.subrange(pat@.len() as int, rest@.len() as int)
                =~= s@.subrange(i + pat@.len(), n as int));
            r.append(s.substring_char(run, i));
            r.append(rep);
            i = i + pc.len();
            run = i;
            assert(s@.subrange(run as int, i as int) =~= Seq::<char>::empty());
        } else {
            if n - i >= pc.len() {
                assert(rest@.subrange(0, pat@.len() as int) =~= s@.subrange(i as int, i + pat@.len()));
                assert(rest@.subrange(1, rest@.len() as int) =~= s@.subrange(i + 1, n as int));
                assert(s@.subrange(run as int, i + 1) =~= s@.subrange(run as int, i as int) + seq![rest@[0]]);
                i = i + 1;
            } else {
                assert(replace_lit(rest@, pat@, rep@) == rest@);
                assert(s@.subrange(run as int, n as int) =~= s@.subrange(run as int, i as int) + rest@);
                assert(replace_lit(s@.subrange(n as int, n as int), pat@, rep@) =~= Seq::<char>::empty());
                i = n;
            }
        }
    }
    assert(replace_lit(s@.subrange(n as int, n as int), pat@, rep@) =~= Seq::<char>::empty());
    r.append(s.substring_char(run, n));
    assert(r@ =~= replace_lit(s@, pat@, rep@));
    r
}

} // verus!
