//! Character-level string helpers with exact specifications.
//!
//! Text is handled as sequences of `char`; the few standard-library calls
//! whose results are not specified by vstd stand behind small wrappers.

use vstd::prelude::*;

verus! {

// ---------------------------------------------------------------------------
// Standard-library calls
// ---------------------------------------------------------------------------

/// What `str::to_lowercase` returns for a string (Unicode lowercase mapping).
pub uninterp spec fn lowercase(s: Seq<char>) -> Seq<char>;

/// `c` is an ASCII character.
pub open spec fn is_ascii_char(c: char) -> bool {
    (c as u32) < 128
}

/// The ASCII lowercase of `c`: `A` to `Z` become `a` to `z`, every other
/// character stays as it is.
pub open spec fn ascii_lower_char(c: char) -> char {
    let u = c as u32;
    if 0x41 <= u && u <= 0x5a {
        (u + 32) as char
    } else {
        c
    }
}

/// `s` with each character's ASCII lowercase.
pub open spec fn ascii_lower(s: Seq<char>) -> Seq<char> {
    Seq::new(s.len(), |i: int| ascii_lower_char(s[i]))
}

/// Calls `str::to_lowercase`. The contract names its result (Unicode's
/// lowercase mapping, a function of the input characters alone) and states
/// what std documents for ASCII text: its letters are lowercased as
/// `to_ascii_lowercase` does and every other ASCII character is kept.
#[verifier::external_body]
pub(crate) fn to_lowercase(s: &str) -> (r: String)
    ensures
        r@ == lowercase(s@),
        (forall|i: int| 0 <= i < s@.len() ==> is_ascii_char(#[trigger] s@[i])) ==> r@
            == ascii_lower(s@),
{
    s.to_lowercase()
}

/// What `char::is_alphanumeric` returns for a character: whether it is
/// alphabetic or numeric in Unicode's sense.
pub uninterp spec fn alphanumeric(c: char) -> bool;

/// An ASCII letter or digit.
pub open spec fn ascii_alphanumeric(c: char) -> bool {
    let u = c as u32;
    ||| (0x30 <= u && u <= 0x39)
    ||| (0x41 <= u && u <= 0x5a)
    ||| (0x61 <= u && u <= 0x7a)
}

/// Calls `char::is_alphanumeric`, which holds of characters that are
/// `is_alphabetic` or `is_numeric`. The contract names the result (Unicode's
/// tables decide it) and states what those tables give for ASCII: exactly the
/// letters and the digits.
#[verifier::external_body]
pub(crate) fn is_alphanumeric_char(c: char) -> (r: bool)
    ensures
        r == alphanumeric(c),
        (c as u32) < 128 ==> (r <==> ascii_alphanumeric(c)),
{
    c.is_alphanumeric()
}

/// Calls `String::push`, which appends one character.
#[verifier::external_body]
pub(crate) fn push_char(s: &mut String, c: char)
    ensures
        final(s)@ == old(s)@.push(c),
{
    s.push(c)
}

// ---------------------------------------------------------------------------
// Conversions between strings and character vectors
// ---------------------------------------------------------------------------

/// The characters of `s`, in order.
pub fn chars_of(s: &str) -> (v: Vec<char>)
    ensures
        v@ == s@,
{
    let mut v: Vec<char> = Vec::new();
    for c in it: s.chars()
        invariant
            v@ == it.seq().take(it.index() as int),
            it.seq() == s@,
    {
        v.push(c);
    }
    v
}

/// The string made of the characters `v`.
pub fn string_of(v: &[char]) -> (s: String)
    ensures
        s@ == v@,
{
    let mut s = String::new();
    let mut i: usize = 0;
    while i < v.len()
        invariant
            i <= v@.len(),
            s@ == v@.take(i as int),
        decreases v@.len() - i,
    {
        push_char(&mut s, v[i]);
        assert(v@.take(i + 1) =~= v@.take(i as int).push(v@[i as int]));
        i = i + 1;
    }
    assert(v@.take(v@.len() as int) =~= v@);
    s
}

/// Appends the characters of `x` to `v`.
pub fn push_all(v: &mut Vec<char>, x: &[char])
    ensures
        final(v)@ == old(v)@ + x@,
{
    let mut i: usize = 0;
    while i < x.len()
        invariant
            i <= x@.len(),
            v@ == old(v)@ + x@.take(i as int),
        decreases x@.len() - i,
    {
        v.push(x[i]);
        assert(x@.take(i + 1) =~= x@.take(i as int).push(x@[i as int]));
        i = i + 1;
    }
    assert(x@.take(x@.len() as int) =~= x@);
}

/// Appends the characters of `s` to `v`.
pub fn push_str(v: &mut Vec<char>, s: &str)
    ensures
        final(v)@ == old(v)@ + s@,
{
    let cs = chars_of(s);
    push_all(v, cs.as_slice());
}

/// The characters `v[lo..hi]`.
pub fn copy_range(v: &[char], lo: usize, hi: usize) -> (r: Vec<char>)
    requires
        lo <= hi <= v@.len(),
    ensures
        r@ == v@.subrange(lo as int, hi as int),
{
    let mut r: Vec<char> = Vec::new();
    let mut i: usize = lo;
    while i < hi
        invariant
            lo <= i <= hi <= v@.len(),
            r@ == v@.subrange(lo as int, i as int),
        decreases hi - i,
    {
        r.push(v[i]);
        assert(v@.subrange(lo as int, i + 1) =~= v@.subrange(lo as int, i as int).push(v@[i as int]));
        i = i + 1;
    }
    r
}

/// Whether two character sequences are equal.
pub fn chars_equal(a: &[char], b: &[char]) -> (r: bool)
    ensures
        r == (a@ == b@),
{
    if a.len() != b.len() {
        return false;
    }
    let mut i: usize = 0;
    while i < a.len()
        invariant
            a@.len() == b@.len(),
            i <= a@.len(),
            forall|k: int| 0 <= k < i ==> a@[k] == b@[k],
        decreases a@.len() - i,
    {
        if a[i] != b[i] {
            return false;
        }
        i = i + 1;
    }
    assert(a@ =~= b@);
    true
}

/// Whether two strings hold the same characters.
pub fn str_equal(a: &str, b: &str) -> (r: bool)
    ensures
        r == (a@ == b@),
{
    let ac = chars_of(a);
    let bc = chars_of(b);
    chars_equal(ac.as_slice(), bc.as_slice())
}

// ---------------------------------------------------------------------------
// Whitespace and trimming
// ---------------------------------------------------------------------------

/// The Unicode `White_Space` property, which `char::is_whitespace` and
/// `str::trim` use.
pub open spec fn is_white_space(c: char) -> bool {
    let u = c as u32;
    ||| (0x09 <= u && u <= 0x0d)
    ||| u == 0x20
    ||| u == 0x85
    ||| u == 0xa0
    ||| u == 0x1680
    ||| (0x2000 <= u && u <= 0x200a)
    ||| u == 0x2028
    ||| u == 0x2029
    ||| u == 0x202f
    ||| u == 0x205f
    ||| u == 0x3000
}

/// Whether `c` is a Unicode whitespace character.
pub fn is_whitespace_char(c: char) -> (b: bool)
    ensures
        b == is_white_space(c),
{
    let u = c as u32;
    (0x09 <= u && u <= 0x0d) || u == 0x20 || u == 0x85 || u == 0xa0 || u == 0x1680 || (0x2000
        <= u && u <= 0x200a) || u == 0x2028 || u == 0x2029 || u == 0x202f || u == 0x205f || u
        == 0x3000
}

/// First index at or after `i` that does not hold whitespace.
pub open spec fn ws_lo_from(s: Seq<char>, i: int) -> int
    decreases s.len() - i,
{
    if 0 <= i < s.len() && is_white_space(s[i]) {
        ws_lo_from(s, i + 1)
    } else {
        i
    }
}

/// End of `s[lo..j]` once trailing whitespace is removed.
pub open spec fn ws_hi_from(s: Seq<char>, lo: int, j: int) -> int
    decreases j,
{
    if lo < j && 0 < j <= s.len() && is_white_space(s[j - 1]) {
        ws_hi_from(s, lo, j - 1)
    } else {
        j
    }
}

/// `s` without leading and trailing whitespace (what `str::trim` returns).
pub open spec fn trim_chars(s: Seq<char>) -> Seq<char> {
    let lo = ws_lo_from(s, 0);
    s.subrange(lo, ws_hi_from(s, lo, s.len() as int))
}

/// `v` without leading and trailing whitespace.
pub fn trim(v: &[char]) -> (r: Vec<char>)
    ensures
        r@ == trim_chars(v@),
{
    let mut lo: usize = 0;
    while lo < v.len() && is_whitespace_char(v[lo])
        invariant
            lo <= v@.len(),
            ws_lo_from(v@, lo as int) == ws_lo_from(v@, 0),
        decreases v@.len() - lo,
    {
        lo = lo + 1;
    }
    let mut hi: usize = v.len();
    while lo < hi && is_whitespace_char(v[hi - 1])
        invariant
            lo <= hi <= v@.len(),
            lo == ws_lo_from(v@, 0),
            ws_hi_from(v@, lo as int, hi as int) == ws_hi_from(v@, lo as int, v@.len() as int),
        decreases hi,
    {
        hi = hi - 1;
    }
    copy_range(v, lo, hi)
}

// ---------------------------------------------------------------------------
// Prefixes, suffixes and searching
// ---------------------------------------------------------------------------

/// `p` occurs in `s` at index `i`.
pub open spec fn occurs_at(s: Seq<char>, p: Seq<char>, i: int) -> bool {
    0 <= i && i + p.len() <= s.len() && s.subrange(i, i + p.len()) == p
}

/// Whether `p` occurs in `v` at index `i`.
pub fn starts_at(v: &[char], p: &[char], i: usize) -> (r: bool)
    ensures
        r == occurs_at(v@, p@, i as int),
{
    if i > v.len() || p.len() > v.len() - i {
        return false;
    }
    let mut k: usize = 0;
    while k < p.len()
        invariant
            i + p@.len() <= v@.len(),
            v@.len() == v.len(),
            k <= p@.len(),
            forall|m: int| 0 <= m < k ==> v@[i + m] == p@[m],
        decreases p@.len() - k,
    {
        if v[i + k] != p[k] {
            assert(v@.subrange(i as int, i + p@.len())[k as int] != p@[k as int]);
            return false;
        }
        k = k + 1;
    }
    assert(v@.subrange(i as int, i + p@.len()) =~= p@);
    true
}

/// `p` occurs somewhere in `s` (what `str::contains` tests).
pub open spec fn contains_chars(s: Seq<char>, p: Seq<char>) -> bool {
    exists|i: int| #[trigger] occurs_at(s, p, i)
}

/// Whether `p` occurs somewhere in `v`.
pub fn contains_slice(v: &[char], p: &[char]) -> (r: bool)
    ensures
        r == contains_chars(v@, p@),
{
    if p.len() > v.len() {
        assert forall|i: int| !occurs_at(v@, p@, i) by {}
        return false;
    }
    let last = v.len() - p.len();
    let mut i: usize = 0;
    loop
        invariant
            last + p@.len() == v@.len(),
            i <= last,
            forall|k: int| 0 <= k < i ==> !occurs_at(v@, p@, k),
        decreases last - i,
    {
        if starts_at(v, p, i) {
            return true;
        }
        if i == last {
            assert forall|k: int| !occurs_at(v@, p@, k) by {
                if 0 <= k && k < i {
                }
            }
            return false;
        }
        i = i + 1;
    }
}

/// `s` ends with `x` (what `str::ends_with` tests).
pub open spec fn ends_with_chars(s: Seq<char>, x: Seq<char>) -> bool {
    x.len() <= s.len() && s.subrange(s.len() - x.len(), s.len() as int) == x
}

/// Whether `v` ends with `x`.
pub fn ends_with(v: &[char], x: &[char]) -> (r: bool)
    ensures
        r == ends_with_chars(v@, x@),
{
    if x.len() > v.len() {
        false
    } else {
        starts_at(v, x, v.len() - x.len())
    }
}

/// Index just past the repeated copies of `p` that `s` starts with, counting
/// from `i`.
pub open spec fn strip_from(s: Seq<char>, p: Seq<char>, i: int) -> int
    decreases s.len() - i,
{
    if p.len() > 0 && occurs_at(s, p, i) {
        strip_from(s, p, i + p.len())
    } else {
        i
    }
}

/// `s` without all leading copies of `p` (what `str::trim_start_matches`
/// returns for a string pattern).
pub open spec fn trim_start_matches(s: Seq<char>, p: Seq<char>) -> Seq<char> {
    s.skip(strip_from(s, p, 0))
}

/// `v` without all leading copies of `p`.
pub fn strip_prefixes(v: &[char], p: &[char]) -> (r: Vec<char>)
    ensures
        r@ == trim_start_matches(v@, p@),
{
    let mut i: usize = 0;
    if p.len() > 0 {
        while starts_at(v, p, i)
            invariant
                p@.len() > 0,
                i <= v@.len(),
                v@.len() == v.len(),
                strip_from(v@, p@, i as int) == strip_from(v@, p@, 0),
            decreases v@.len() - i,
        {
            i = i + p.len();
        }
    }
    copy_range(v, i, v.len())
}

/// First index at or after `i` where `p` occurs in `s`, or -1.
pub open spec fn find_from(s: Seq<char>, p: Seq<char>, i: int) -> int
    decreases s.len() + 1 - i,
{
    if i < 0 || i + p.len() > s.len() {
        -1
    } else if occurs_at(s, p, i) {
        i
    } else {
        find_from(s, p, i + 1)
    }
}

/// Index of the first occurrence of `p` in `v`, if any.
pub fn find(v: &[char], p: &[char]) -> (r: Option<usize>)
    ensures
        r matches Some(i) ==> i == find_from(v@, p@, 0),
        r is None ==> find_from(v@, p@, 0) == -1,
{
    let mut i: usize = 0;
    while i <= v.len() && p.len() <= v.len() - i
        invariant
            find_from(v@, p@, i as int) == find_from(v@, p@, 0),
            v@.len() == v.len(),
        decreases v@.len() + 1 - i,
    {
        if starts_at(v, p, i) {
            return Some(i);
        }
        if i == v.len() {
            assert(find_from(v@, p@, i + 1) == -1);
            return None;
        }
        i = i + 1;
    }
    None
}

/// First index at or after `i` whose character satisfies `f`, or `s.len()`.
pub open spec fn first_where(s: Seq<char>, f: spec_fn(char) -> bool, i: int) -> int
    decreases s.len() - i,
{
    if 0 <= i < s.len() {
        if f(s[i]) {
            i
        } else {
            first_where(s, f, i + 1)
        }
    } else {
        s.len() as int
    }
}

/// Last index before `j` holding `c`, or -1.
pub open spec fn last_before(s: Seq<char>, c: char, j: int) -> int
    decreases j,
{
    if 0 < j <= s.len() {
        if s[j - 1] == c {
            j - 1
        } else {
            last_before(s, c, j - 1)
        }
    } else {
        -1
    }
}

// ---------------------------------------------------------------------------
// Decimal numerals
// ---------------------------------------------------------------------------

/// The digit character for `d < 10`.
pub open spec fn digit_char(d: nat) -> char {
    if d == 0 {
        '0'
    } else if d == 1 {
        '1'
    } else if d == 2 {
        '2'
    } else if d == 3 {
        '3'
    } else if d == 4 {
        '4'
    } else if d == 5 {
        '5'
    } else if d == 6 {
        '6'
    } else if d == 7 {
        '7'
    } else if d == 8 {
        '8'
    } else {
        '9'
    }
}

/// The decimal numeral of `n`, as `{}` formats an unsigned integer.
pub open spec fn decimal(n: nat) -> Seq<char>
    decreases n,
{
    if n < 10 {
        seq![digit_char(n)]
    } else {
        decimal(n / 10).push(digit_char(n % 10))
    }
}

fn digit(d: u64) -> (c: char)
    requires
        d < 10,
    ensures
        c == digit_char(d as nat),
{
    match d {
        0 => '0',
        1 => '1',
        2 => '2',
        3 => '3',
        4 => '4',
        5 => '5',
        6 => '6',
        7 => '7',
        8 => '8',
        _ => '9',
    }
}

/// The decimal numeral of `n`.
pub fn decimal_u64(n: u64) -> (r: Vec<char>)
    ensures
        r@ == decimal(n as nat),
    decreases n,
{
    if n < 10 {
        let mut r: Vec<char> = Vec::new();
        r.push(digit(n));
        r
    } else {
        let mut r = decimal_u64(n / 10);
        r.push(digit(n % 10));
        r
    }
}

} // verus!
