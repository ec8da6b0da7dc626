//! Small string helpers: equality, concatenation, decimal rendering,
//! character classes, searching and splitting.
use vstd::prelude::*;
use vstd::string::StringExecFns;

verus! {

/// Whether the character counts as alphanumeric.
pub uninterp spec fn char_alphanumeric(c: char) -> bool;

/// Whether the character counts as whitespace.
pub uninterp spec fn char_whitespace(c: char) -> bool;

/// Relies on `char::is_alphanumeric`: the class of a character depends on
/// the character alone.
#[verifier::external_body]
pub(crate) fn is_alnum_char(c: char) -> (r: bool)
    ensures
        r == char_alphanumeric(c),
{
    c.is_alphanumeric()
}

/// Relies on `char::is_whitespace`: the class of a character depends on the
/// character alone.
#[verifier::external_body]
pub(crate) fn is_white_char(c: char) -> (r: bool)
    ensures
        r == char_whitespace(c),
{
    c.is_whitespace()
}

/// Concatenates two strings.
pub(crate) fn str_concat(a: &str, b: &str) -> (r: String)
    ensures
        r@ == a@ + b@,
{
    let s: String = a.to_owned();
    s.concat(b)
}

/// Relies on `format!` from std: the one-character string of `c`.
#[verifier::external_body]
pub(crate) fn char_to_string(c: char) -> (r: String)
    ensures
        r@ == seq![c],
{
    format!("{}", c)
}

/// String equality over the character views.
pub fn str_eq(a: &str, b: &str) -> (r: bool)
    ensures
        r == (a@ == b@),
{
    let sa: String = a.to_owned();
    let sb: String = b.to_owned();
    sa == sb
}

/// The views of a sequence of strings.
pub open spec fn views_of(ss: Seq<String>) -> Seq<Seq<char>> {
    ss.map_values(|s: String| s@)
}

/// Whether one of the strings of `v` reads `s`.
pub fn vec_contains_str(v: &Vec<String>, s: &str) -> (r: bool)
    ensures
        r == views_of(v@).contains(s@),
{
    let mut i: usize = 0;
    while i < v.len()
        invariant
            i <= v.len(),
            forall|j: int| 0 <= j < i ==> views_of(v@)[j] != s@,
        decreases v.len() - i,
    {
        if str_eq(v[i].as_str(), s) {
            assert(views_of(v@)[i as int] == s@);
            return true;
        }
        i += 1;
    }
    false
}

/// The digit character for `d`; meaningful for `d < 10`.
pub open spec fn digit_char(d: nat) -> char {
    if d == 0 {
        '0'
    } else if d == 1 {
        '1'
    } else if d == 2 {
        '2'
    } else if d == 3 {
        '3'
    } else if d == 4 {
        '4'
    } else if d == 5 {
        '5'
    } else if d == 6 {
        '6'
    } else if d == 7 {
        '7'
    } else if d == 8 {
        '8'
    } else {
        '9'
    }
}

/// The decimal rendering of `n`, most significant digit first.
pub open spec fn dec_str(n: nat) -> Seq<char>
    decreases n,
{
    if n < 10 {
        seq![digit_char(n)]
    } else {
        dec_str(n / 10).push(digit_char(n % 10))
    }
}

/// The digit character of `d`, executably.
fn digit_of(d: u64) -> (c: char)
    requires
        d < 10,
    ensures
        c == digit_char(d as nat),
{
    if d == 0 {
        '0'
    } else if d == 1 {
        '1'
    } else if d == 2 {
        '2'
    } else if d == 3 {
        '3'
    } else if d == 4 {
        '4'
    } else if d == 5 {
        '5'
    } else if d == 6 {
        '6'
    } else if d == 7 {
        '7'
    } else if d == 8 {
        '8'
    } else {
        '9'
    }
}

/// Renders `n` in decimal.
pub fn u64_to_string(n: u64) -> (r: String)
    ensures
        r@ == dec_str(n as nat),
    decreases n,
{
    if n < 10 {
        char_to_string(digit_of(n))
    } else {
        let head = u64_to_string(n / 10);
        let tail = char_to_string(digit_of(n % 10));
        let r = str_concat(head.as_str(), tail.as_str());
        proof {
            assert(r@ =~= dec_str((n / 10) as nat).push(digit_char((n % 10) as nat)));
        }
        r
    }
}

/// The index of the first occurrence of `c` in `s`, or `s.len()` if `c`
/// does not occur.
pub open spec fn idx_of(s: Seq<char>, c: char) -> int
    decreases s.len(),
{
    if s.len() == 0 {
        0
    } else if s[0] == c {
        0
    } else {
        1 + idx_of(s.drop_first(), c)
    }
}

/// `idx_of` points at the first occurrence.
pub proof fn lemma_idx_of(s: Seq<char>, c: char)
    ensures
        0 <= idx_of(s, c) <= s.len(),
        idx_of(s, c) < s.len() ==> s[idx_of(s, c)] == c,
        forall|j: int| 0 <= j < idx_of(s, c) ==> s[j] != c,
    decreases s.len(),
{
    if s.len() != 0 && s[0] != c {
        lemma_idx_of(s.drop_first(), c);
        assert(forall|j: int| 1 <= j < idx_of(s, c) ==> s[j] == s.drop_first()[j - 1]);
    }
}

/// A scan that finds no occurrence up to `i`, and `c` at `i` if `i` is in
/// range, pins `idx_of`.
pub proof fn lemma_idx_of_found(s: Seq<char>, c: char, i: int)
    requires
        0 <= i <= s.len(),
        forall|j: int| 0 <= j < i ==> s[j] != c,
        i < s.len() ==> s[i] == c,
    ensures
        idx_of(s, c) == i,
    decreases s.len(),
{
    if s.len() != 0 && i != 0 {
        assert(s[0] != c);
        assert(forall|j: int| 0 <= j < i - 1 ==> s.drop_first()[j] == s[j + 1] && s[j + 1] != c);
        lemma_idx_of_found(s.drop_first(), c, i - 1);
    }
}

/// The index of the first occurrence of `c` in `s`, or the character count
/// of `s` if `c` does not occur.
pub fn find_char(s: &str, c: char) -> (r: usize)
    ensures
        r == idx_of(s@, c),
{
    let n = s.unicode_len();
    let mut i: usize = 0;
    while i < n
        invariant
            n == s@.len(),
            i <= n,
            forall|j: int| 0 <= j < i ==> s@[j] != c,
        decreases n - i,
    {
        if s.get_char(i) == c {
            proof {
                lemma_idx_of_found(s@, c, i as int);
            }
            return i;
        }
        i += 1;
    }
    proof {
        lemma_idx_of_found(s@, c, n as int);
    }
    n
}

/// `s` split on `c`: the (possibly empty) stretches between occurrences of
/// `c`, in order.  A string without `c` yields itself alone.
pub open spec fn split_on(s: Seq<char>, c: char) -> Seq<Seq<char>>
    decreases s.len(),
    via split_on_decreases
{
    let i = idx_of(s, c);
    if i == s.len() {
        seq![s]
    } else {
        seq![s.subrange(0, i)] + split_on(s.subrange(i + 1, s.len() as int), c)
    }
}

#[via_fn]
proof fn split_on_decreases(s: Seq<char>, c: char) {
    lemma_idx_of(s, c);
}

/// Splits `s` on `c`.
pub fn split_char(s: &str, c: char) -> (r: Vec<String>)
    ensures
        views_of(r@) =~= split_on(s@, c),
    decreases s@.len(),
{
    proof {
        lemma_idx_of(s@, c);
    }
    let n = s.unicode_len();
    let i = find_char(s, c);
    if i == n {
        let mut r: Vec<String> = Vec::new();
        r.push(s.to_owned());
        r
    } else {
        let head = s.substring_char(0, i).to_owned();
        let tail = s.substring_char(i + 1, n);
        let mut rest = split_char(tail, c);
        let mut r: Vec<String> = Vec::new();
        r.push(head);
        r.append(&mut rest);
        r
    }
}

/// The position of the first character that is not whitespace; the length
/// of `s` if all of it is.
pub open spec fn first_solid(s: Seq<char>) -> int
    decreases s.len(),
{
    if s.len() == 0 {
        0
    } else if !char_whitespace(s[0]) {
        0
    } else {
        1 + first_solid(s.drop_first())
    }
}

/// One past the position of the last character that is not whitespace; 0 if
/// all of `s` is whitespace.
pub open spec fn last_solid(s: Seq<char>) -> int
    decreases s.len(),
{
    if s.len() == 0 {
        0
    } else if !char_whitespace(s.last()) {
        s.len() as int
    } else {
        last_solid(s.drop_last())
    }
}

/// `s` without leading and trailing whitespace.
pub open spec fn trimmed(s: Seq<char>) -> Seq<char> {
    if first_solid(s) < last_solid(s) {
        s.subrange(first_solid(s), last_solid(s))
    } else {
        Seq::empty()
    }
}

/// `first_solid` is in range and marks the first non-whitespace character.
pub proof fn lemma_first_solid(s: Seq<char>)
    ensures
        0 <= first_solid(s) <= s.len(),
        first_solid(s) < s.len() ==> !char_whitespace(s[first_solid(s)]),
        forall|j: int| 0 <= j < first_solid(s) ==> char_whitespace(s[j]),
    decreases s.len(),
{
    if s.len() != 0 && char_whitespace(s[0]) {
        lemma_first_solid(s.drop_first());
        assert(forall|j: int| 1 <= j < first_solid(s) ==> s[j] == s.drop_first()[j - 1]);
    }
}

/// `last_solid` is in range and marks one past the last non-whitespace
/// character.
pub proof fn lemma_last_solid(s: Seq<char>)
    ensures
        0 <= last_solid(s) <= s.len(),
        last_solid(s) > 0 ==> !char_whitespace(s[last_solid(s) - 1]),
        forall|j: int| last_solid(s) <= j < s.len() ==> char_whitespace(s[j]),
    decreases s.len(),
{
    if s.len() != 0 && char_whitespace(s.last()) {
        lemma_last_solid(s.drop_last());
        assert(forall|j: int|
            last_solid(s.drop_last()) <= j < s.len() - 1 ==> s.drop_last()[j] == s[j]);
    }
}

/// A scan from the front that stops at `a` pins `first_solid`.
proof fn lemma_first_solid_found(s: Seq<char>, a: int)
    requires
        0 <= a <= s.len(),
        forall|j: int| 0 <= j < a ==> char_whitespace(s[j]),
        a < s.len() ==> !char_whitespace(s[a]),
    ensures
        first_solid(s) == a,
    decreases s.len(),
{
    if s.len() != 0 && a != 0 {
        assert(char_whitespace(s[0]));
        assert(forall|j: int| 0 <= j < a - 1 ==> s.drop_first()[j] == s[j + 1]);
        lemma_first_solid_found(s.drop_first(), a - 1);
    }
}

/// A scan from the back that stops at `b` pins `last_solid`.
proof fn lemma_last_solid_found(s: Seq<char>, b: int)
    requires
        0 <= b <= s.len(),
        forall|j: int| b <= j < s.len() ==> char_whitespace(s[j]),
        b > 0 ==> !char_whitespace(s[b - 1]),
    ensures
        last_solid(s) == b,
    decreases s.len(),
{
    if s.len() != 0 && b != s.len() {
        assert(char_whitespace(s.last()));
        assert(forall|j: int| b <= j < s.len() - 1 ==> s.drop_last()[j] == s[j]);
        lemma_last_solid_found(s.drop_last(), b);
    }
}

/// Trims whitespace from both ends of `s`.
pub fn trim_str(s: &str) -> (r: String)
    ensures
        r@ == trimmed(s@),
{
    let n = s.unicode_len();
    let mut a: usize = 0;
    while a < n && is_white_char(s.get_char(a))
        invariant
            n == s@.len(),
            a <= n,
            forall|j: int| 0 <= j < a ==> char_whitespace(s@[j]),
        decreases n - a,
    {
        a += 1;
    }
    proof {
        lemma_first_solid_found(s@, a as int);
    }
    let mut b: usize = n;
    while b > a && is_white_char(s.get_char(b - 1))
        invariant
            n == s@.len(),
            a <= b <= n,
            forall|j: int| 0 <= j < a ==> char_whitespace(s@[j]),
            forall|j: int| b <= j < n ==> char_whitespace(s@[j]),
        decreases b,
    {
        b -= 1;
    }
    if a == b {
        proof {
            lemma_last_solid(s@);
        }
        String::new()
    } else {
        proof {
            lemma_last_solid_found(s@, b as int);
        }
        s.substring_char(a, b).to_owned()
    }
}

/// Whether `p` occurs in `s` as a contiguous stretch.
pub open spec fn has_sub(s: Seq<char>, p: Seq<char>) -> bool {
    exists|i: int| 0 <= i <= s.len() - p.len() && #[trigger] s.subrange(i, i + p.len() as int) == p
}

/// Whether `s` matches `p` at position `i`, executably.
fn matches_at(s: &str, n: usize, p: &str, k: usize, i: usize) -> (r: bool)
    requires
        n == s@.len(),
        k == p@.len(),
        i + k <= n,
    ensures
        r == (s@.subrange(i as int, i + k) == p@),
{
    let mut j: usize = 0;
    while j < k
        invariant
            n == s@.len(),
            k == p@.len(),
            i + k <= n,
            j <= k,
            forall|t: int| 0 <= t < j ==> s@[i + t] == p@[t],
        decreases k - j,
    {
        if s.get_char(i + j) != p.get_char(j) {
            assert(s@.subrange(i as int, i + k)[j as int] != p@[j as int]);
            return false;
        }
        j += 1;
    }
    assert(s@.subrange(i as int, i + k) =~= p@);
    true
}

/// Whether `p` occurs in `s`, executably.
pub fn contains_sub(s: &str, p: &str) -> (r: bool)
    ensures
        r == has_sub(s@, p@),
{
    let n = s.unicode_len();
    let k = p.unicode_len();
    if k > n {
        return false;
    }
    if k == 0 {
        assert(s@.subrange(0, 0 + p@.len() as int) =~= p@);
        return true;
    }
    let mut i: usize = 0;
    while i <= n - k
        invariant
            n == s@.len(),
            k == p@.len(),
            1 <= k <= n,
            i <= n - k + 1,
            forall|t: int| 0 <= t < i ==> #[trigger] s@.subrange(t, t + k as int) != p@,
        decreases n - i,
    {
        if matches_at(s, n, p, k, i) {
            return true;
        }
        i += 1;
    }
    false
}

/// The views of a string sequence extended at the end.
pub proof fn lemma_views_push(ss: Seq<String>, x: String)
    ensures
        views_of(ss.push(x)) == views_of(ss).push(x@),
{
    assert(views_of(ss.push(x)) =~= views_of(ss).push(x@));
}

/// The width of one character in the UTF-8 encoding.
pub open spec fn utf8_width(c: char) -> int {
    if (c as u32) < 0x80 {
        1
    } else if (c as u32) < 0x800 {
        2
    } else if (c as u32) < 0x10000 {
        3
    } else {
        4
    }
}

/// The UTF-8 byte length of `s`.
pub open spec fn utf8_len(s: Seq<char>) -> int
    decreases s.len(),
{
    if s.len() == 0 {
        0
    } else {
        utf8_width(s[0]) + utf8_len(s.drop_first())
    }
}

/// Relies on `str::len`: a string slice is UTF-8, so its byte length is
/// the sum of its characters' encoded widths.
#[verifier::external_body]
pub(crate) fn byte_len(s: &str) -> (r: usize)
    ensures
        r == utf8_len(s@),
{
    s.len()
}

} // verus!
