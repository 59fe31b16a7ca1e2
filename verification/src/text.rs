//! Character-level helpers: building strings, comparing them, decimal
//! numerals, whitespace trimming and byte-bounded truncation.
use vstd::prelude::*;

verus! {

/// Appends one character to a string.
///
/// Calls `String::push`, which the standard library documents as appending
/// the given char to the end of the string.
#[verifier::external_body]
pub(crate) fn push_char(s: &mut String, c: char)
    ensures
        final(s)@ == old(s)@.push(c),
{
    s.push(c);
}

/// A fresh owned copy of a string slice.
pub fn owned(s: &str) -> (r: String)
    ensures
        r@ == s@,
{
    String::from_str(s)
}

/// The characters of a string slice, in order.
pub fn chars_of(s: &str) -> (r: Vec<char>)
    ensures
        r@ == s@,
{
    let mut out: Vec<char> = Vec::new();
    for c in it: s.chars()
        invariant
            out@ == it.seq().take(it.index() as int),
    {
        out.push(c);
    }
    out
}

} // verus!

verus! {

/// A string built from a sequence of characters.
pub fn string_from_chars(v: &Vec<char>) -> (r: String)
    ensures
        r@ == v@,
{
    let mut out = String::new();
    let mut i: usize = 0;
    while i < v.len()
        invariant
            i <= v.len(),
            out@ == v@.take(i as int),
        decreases v.len() - i,
    {
        push_char(&mut out, v[i]);
        i = i + 1;
        assert(out@ =~= v@.take(i as int));
    }
    assert(v@.take(v.len() as int) =~= v@);
    out
}

/// Whether two string slices hold the same characters.
pub fn str_eq(a: &str, b: &str) -> (r: bool)
    ensures
        r == (a@ == b@),
{
    let x = owned(a);
    let y = owned(b);
    x == y
}

/// Whether `p` is a prefix of `s`.
pub open spec fn is_prefix(p: Seq<char>, s: Seq<char>) -> bool {
    p.len() <= s.len() && s.take(p.len() as int) == p
}

/// Whether `s` starts with `p`.
pub fn starts_with(s: &str, p: &str) -> (r: bool)
    ensures
        r == is_prefix(p@, s@),
{
    let sv = chars_of(s);
    let pv = chars_of(p);
    if pv.len() > sv.len() {
        return false;
    }
    let mut i: usize = 0;
    while i < pv.len()
        invariant
            sv@ == s@,
            pv@ == p@,
            pv.len() <= sv.len(),
            i <= pv.len(),
            forall|k: int| 0 <= k < i ==> sv@[k] == pv@[k],
        decreases pv.len() - i,
    {
        if sv[i] != pv[i] {
            assert(sv@.take(pv@.len() as int)[i as int] != pv@[i as int]);
            return false;
        }
        i = i + 1;
    }
    assert(sv@.take(pv@.len() as int) =~= pv@);
    true
}

/// The characters of `s` after the prefix `p`, when `s` starts with `p`.
pub fn strip_prefix(s: &str, p: &str) -> (r: Option<String>)
    ensures
        r is Some <==> is_prefix(p@, s@),
        r matches Some(t) ==> t@ == s@.skip(p@.len() as int),
{
    if starts_with(s, p) {
        let sv = chars_of(s);
        let n = p.unicode_len();
        let mut rest: Vec<char> = Vec::new();
        let mut i: usize = n;
        while i < sv.len()
            invariant
                n <= i <= sv.len(),
                n == p@.len(),
                rest@ == sv@.subrange(n as int, i as int),
            decreases sv.len() - i,
        {
            rest.push(sv[i]);
            i = i + 1;
            assert(rest@ =~= sv@.subrange(n as int, i as int));
        }
        assert(rest@ =~= s@.skip(p@.len() as int));
        Some(string_from_chars(&rest))
    } else {
        None
    }
}

/// Whether `p` occurs in `s` as a run of consecutive characters.
pub open spec fn has_infix(s: Seq<char>, p: Seq<char>) -> bool {
    exists|i: int| 0 <= i && i + p.len() <= s.len() && #[trigger] s.subrange(i, i + p.len()) == p
}

fn matches_at(sv: &Vec<char>, pv: &Vec<char>, at: usize) -> (r: bool)
    requires
        at + pv.len() <= sv.len(),
    ensures
        r == (sv@.subrange(at as int, at + pv.len()) == pv@),
{
    let mut j: usize = 0;
    while j < pv.len()
        invariant
            at + pv.len() <= sv.len(),
            j <= pv.len(),
            forall|m: int| 0 <= m < j ==> sv@[at + m] == pv@[m],
        decreases pv.len() - j,
    {
        if sv[at + j] != pv[j] {
            assert(sv@.subrange(at as int, at + pv.len())[j as int] != pv@[j as int]);
            return false;
        }
        j = j + 1;
    }
    assert(sv@.subrange(at as int, at + pv.len()) =~= pv@);
    true
}

/// Whether `s` contains `p` (as `str::contains` with a string pattern).
pub fn contains_text(s: &str, p: &str) -> (r: bool)
    ensures
        r == has_infix(s@, p@),
{
    let sv = chars_of(s);
    let pv = chars_of(p);
    if pv.len() > sv.len() {
        return false;
    }
    let last = sv.len() - pv.len();
    let mut i: usize = 0;
    while i <= last
        invariant
            sv@ == s@,
            pv@ == p@,
            pv.len() <= sv.len(),
            last == sv.len() - pv.len(),
            i <= last,
            forall|k: int| 0 <= k < i ==> #[trigger] sv@.subrange(k, k + pv@.len()) != pv@,
        decreases last - i,
    {
        if matches_at(&sv, &pv, i) {
            return true;
        }
        if i == last {
            return false;
        }
        i = i + 1;
    }
    false
}

/// The character for a decimal digit.
pub open spec fn digit_char(d: nat) -> char {
    (48 + d) as char
}

/// The decimal numeral of a natural number, without sign or leading zeros.
pub open spec fn decimal(n: nat) -> Seq<char>
    decreases n,
{
    if n < 10 {
        seq![digit_char(n)]
    } else {
        decimal(n / 10).push(digit_char(n % 10))
    }
}

fn digit(d: u64) -> (c: char)
    requires
        d < 10,
    ensures
        c == digit_char(d as nat),
{
    let b: u8 = (d as u8) + 48u8;
    b as char
}

/// The decimal numeral of `n`.
pub fn u64_text(n: u64) -> (r: String)
    ensures
        r@ == decimal(n as nat),
{
    let mut cur: u64 = n;
    let mut rev: Vec<char> = Vec::new();
    while cur >= 10
        invariant
            decimal(n as nat) == decimal(cur as nat) + rev@.reverse(),
        decreases cur,
    {
        let d = digit(cur % 10);
        proof {
            assert(rev@.push(d).reverse() =~= seq![d] + rev@.reverse());
            assert(decimal(cur as nat) == decimal((cur / 10) as nat).push(d));
            assert(decimal((cur / 10) as nat).push(d) + rev@.reverse() =~= decimal((cur / 10) as nat)
                + rev@.push(d).reverse());
        }
        rev.push(d);
        cur = cur / 10;
    }
    let mut out: Vec<char> = Vec::new();
    out.push(digit(cur));
    let mut i: usize = rev.len();
    while i > 0
        invariant
            i <= rev.len(),
            out@ == seq![digit_char(cur as nat)] + rev@.subrange(i as int, rev.len() as int).reverse(),
        decreases i,
    {
        i = i - 1;
        proof {
            assert(rev@.subrange(i as int, rev.len() as int).reverse() =~= rev@.subrange(
                (i + 1) as int,
                rev.len() as int,
            ).reverse().push(rev@[i as int]));
        }
        out.push(rev[i]);
    }
    assert(rev@.subrange(0, rev.len() as int) =~= rev@);
    string_from_chars(&out)
}

} // verus!

verus! {

/// Unicode `White_Space` characters, as `char::is_whitespace` documents.
pub open spec fn is_space(c: char) -> bool {
    let u = c as u32;
    ||| 0x9 <= u <= 0xD
    ||| u == 0x20
    ||| u == 0x85
    ||| u == 0xA0
    ||| u == 0x1680
    ||| 0x2000 <= u <= 0x200A
    ||| u == 0x2028
    ||| u == 0x2029
    ||| u == 0x202F
    ||| u == 0x205F
    ||| u == 0x3000
}

fn space(c: char) -> (r: bool)
    ensures
        r == is_space(c),
{
    let u = c as u32;
    (0x9 <= u && u <= 0xD) || u == 0x20 || u == 0x85 || u == 0xA0 || u == 0x1680 || (0x2000 <= u
        && u <= 0x200A) || u == 0x2028 || u == 0x2029 || u == 0x202F || u == 0x205F || u == 0x3000
}

/// The text without leading whitespace.
pub open spec fn trim_start(s: Seq<char>) -> Seq<char>
    decreases s.len(),
{
    if s.len() > 0 && is_space(s[0]) {
        trim_start(s.drop_first())
    } else {
        s
    }
}

/// The text without trailing whitespace.
pub open spec fn trim_end(s: Seq<char>) -> Seq<char>
    decreases s.len(),
{
    if s.len() > 0 && is_space(s.last()) {
        trim_end(s.drop_last())
    } else {
        s
    }
}

/// The text without leading or trailing whitespace (as `str::trim`).
pub open spec fn trimmed(s: Seq<char>) -> Seq<char> {
    trim_end(trim_start(s))
}

/// `s` without leading or trailing whitespace.
pub fn trim(s: &str) -> (r: String)
    ensures
        r@ == trimmed(s@),
{
    let v = chars_of(s);
    let mut lo: usize = 0;
    assert(v@.subrange(0, v.len() as int) =~= v@);
    while lo < v.len() && space(v[lo])
        invariant
            lo <= v.len(),
            v@ == s@,
            trim_start(s@) == trim_start(v@.subrange(lo as int, v.len() as int)),
        decreases v.len() - lo,
    {
        assert(v@.subrange(lo as int, v.len() as int).drop_first() =~= v@.subrange(
            lo + 1,
            v.len() as int,
        ));
        lo = lo + 1;
    }
    let mut hi: usize = v.len();
    assert(v@.subrange(lo as int, hi as int) == trim_start(s@));
    while hi > lo && space(v[hi - 1])
        invariant
            lo <= hi <= v.len(),
            trimmed(s@) == trim_end(v@.subrange(lo as int, hi as int)),
        decreases hi,
    {
        assert(v@.subrange(lo as int, hi as int).drop_last() =~= v@.subrange(
            lo as int,
            hi - 1,
        ));
        hi = hi - 1;
    }
    let mut out: Vec<char> = Vec::new();
    let mut i: usize = lo;
    while i < hi
        invariant
            lo <= i <= hi <= v.len(),
            out@ == v@.subrange(lo as int, i as int),
        decreases hi - i,
    {
        out.push(v[i]);
        i = i + 1;
        assert(out@ =~= v@.subrange(lo as int, i as int));
    }
    string_from_chars(&out)
}

} // verus!
