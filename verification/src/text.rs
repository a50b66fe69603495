//! Character-level text helpers shared by the parsers and the renderer.
//!
//! Every line of the log is handled as a sequence of `char`s. The spec
//! functions here give the meaning of the `str` operations the parsers are
//! built from (prefix tests, searching, trimming, number parsing), and the
//! executable functions are proved to compute exactly those.
use vstd::prelude::*;
use vstd::std_specs::iter::IteratorSpec;

verus! {

// ---------------------------------------------------------------------
// Conversions between `str`/`String` and `char` sequences
// ---------------------------------------------------------------------

/// The characters of `s`, in order.
pub fn chars_of(s: &str) -> (v: Vec<char>)
    ensures
        v@ == s@,
{
    let mut v: Vec<char> = Vec::new();
    for c in it: s.chars()
        invariant
            it.seq() == s@,
            v@ == s@.take(it.index() as int),
    {
        v.push(c);
    }
    assert(v@ == s@);
    v
}

/// `String::push`: appends one character.
#[verifier::external_body]
fn push_char(s: &mut String, c: char)
    ensures
        final(s)@ == old(s)@.push(c),
{
    s.push(c);
}

/// The string made of the characters of `v`, in order.
pub fn string_of(v: &[char]) -> (s: String)
    ensures
        s@ == v@,
{
    let mut s = String::new();
    let mut i: usize = 0;
    while i < v.len()
        invariant
            i <= v@.len(),
            s@ == v@.take(i as int),
        decreases v@.len() - i,
    {
        push_char(&mut s, v[i]);
        i = i + 1;
        assert(s@ == v@.take(i as int));
    }
    assert(v@.take(v@.len() as int) == v@);
    s
}

/// A copy of `s[a..b]`.
pub fn slice_of(s: &[char], a: usize, b: usize) -> (r: Vec<char>)
    requires
        a <= b <= s@.len(),
    ensures
        r@ == s@.subrange(a as int, b as int),
{
    let mut r: Vec<char> = Vec::new();
    let mut i: usize = a;
    while i < b
        invariant
            a <= i <= b <= s@.len(),
            r@ == s@.subrange(a as int, i as int),
        decreases b - i,
    {
        r.push(s[i]);
        i = i + 1;
    }
    r
}

/// A copy of `s`.
pub fn to_vec(s: &[char]) -> (r: Vec<char>)
    ensures
        r@ == s@,
{
    let r = slice_of(s, 0, s.len());
    assert(r@ =~= s@);
    r
}

/// A copy of `s[a..]`.
pub fn skip(s: &[char], a: usize) -> (r: Vec<char>)
    requires
        a <= s@.len(),
    ensures
        r@ == s@.skip(a as int),
{
    slice_of(s, a, s.len())
}

/// `a` followed by `b`.
pub fn concat(a: &[char], b: &[char]) -> (r: Vec<char>)
    ensures
        r@ == a@ + b@,
{
    let mut r = slice_of(a, 0, a.len());
    let mut i: usize = 0;
    while i < b.len()
        invariant
            i <= b@.len(),
            r@ == a@ + b@.take(i as int),
        decreases b@.len() - i,
    {
        r.push(b[i]);
        i = i + 1;
    }
    assert(b@.take(b@.len() as int) == b@);
    r
}

/// Appends all of `b` to `r`.
pub fn append(r: &mut Vec<char>, b: &[char])
    ensures
        final(r)@ == old(r)@ + b@,
{
    let mut i: usize = 0;
    while i < b.len()
        invariant
            i <= b@.len(),
            r@ == old(r)@ + b@.take(i as int),
        decreases b@.len() - i,
    {
        r.push(b[i]);
        i = i + 1;
    }
    assert(b@.take(b@.len() as int) == b@);
}

/// Whether two character sequences are equal.
pub fn chars_eq(a: &[char], b: &[char]) -> (r: bool)
    ensures
        r == (a@ == b@),
{
    if a.len() != b.len() {
        return false;
    }
    let mut i: usize = 0;
    while i < a.len()
        invariant
            a@.len() == b@.len(),
            i <= a@.len(),
            forall|j: int| 0 <= j < i ==> a@[j] == b@[j],
        decreases a@.len() - i,
    {
        if a[i] != b[i] {
            return false;
        }
        i = i + 1;
    }
    assert(a@ =~= b@);
    true
}

// ---------------------------------------------------------------------
// Character classes
// ---------------------------------------------------------------------

/// Unicode `White_Space`, the property `char::is_whitespace` tests.
pub open spec fn is_ws(c: char) -> bool {
    let n = c as u32;
    ||| 0x09 <= n <= 0x0d
    ||| n == 0x20
    ||| n == 0x85
    ||| n == 0xa0
    ||| n == 0x1680
    ||| 0x2000 <= n <= 0x200a
    ||| n == 0x2028
    ||| n == 0x2029
    ||| n == 0x202f
    ||| n == 0x205f
    ||| n == 0x3000
}

/// `char::is_whitespace`.
pub fn is_whitespace(c: char) -> (b: bool)
    ensures
        b == is_ws(c),
{
    let n = c as u32;
    (0x09 <= n && n <= 0x0d) || n == 0x20 || n == 0x85 || n == 0xa0 || n == 0x1680 || (0x2000 <= n
        && n <= 0x200a) || n == 0x2028 || n == 0x2029 || n == 0x202f || n == 0x205f || n == 0x3000
}

/// `char::is_ascii_digit`.
pub open spec fn is_digit(c: char) -> bool {
    0x30 <= (c as u32) <= 0x39
}

pub fn is_ascii_digit(c: char) -> (b: bool)
    ensures
        b == is_digit(c),
{
    let n = c as u32;
    0x30 <= n && n <= 0x39
}

/// The numeric value of an ASCII digit.
pub open spec fn digit_value(c: char) -> nat {
    ((c as u32) - 0x30) as nat
}

/// Whether `c` ends a file-path token: `(`, `)` or whitespace.
pub open spec fn is_token_stop(c: char) -> bool {
    c == '(' || c == ')' || is_ws(c)
}

pub fn token_stop(c: char) -> (b: bool)
    ensures
        b == is_token_stop(c),
{
    c == '(' || c == ')' || is_whitespace(c)
}

/// Whether the optional `usize` index `r` is the optional index `o`.
pub open spec fn same_index(r: Option<usize>, o: Option<int>) -> bool {
    match r {
        Some(k) => o == Some(k as int),
        None => o is None,
    }
}

// ---------------------------------------------------------------------
// Scanning
// ---------------------------------------------------------------------

/// The first index at or after `i` holding a token stop, or `s.len()`.
pub open spec fn stop_from(s: Seq<char>, i: int) -> int
    decreases s.len() - i,
{
    if i < 0 || i >= s.len() {
        s.len() as int
    } else if is_token_stop(s[i]) {
        i
    } else {
        stop_from(s, i + 1)
    }
}

/// The end of the token starting at index 0: the first `(`, `)` or
/// whitespace character, or the end of `s`.
pub open spec fn token_end(s: Seq<char>) -> int {
    stop_from(s, 0)
}

pub fn find_token_end(s: &[char], from: usize) -> (r: usize)
    requires
        from <= s@.len(),
    ensures
        r == stop_from(s@, from as int),
        from <= r <= s@.len(),
{
    let mut i = from;
    while i < s.len()
        invariant
            from <= i <= s@.len(),
            stop_from(s@, from as int) == stop_from(s@, i as int),
        decreases s@.len() - i,
    {
        if token_stop(s[i]) {
            return i;
        }
        i = i + 1;
    }
    i
}

/// The first index at or after `i` holding a non-digit, or `None` when
/// every character from `i` on is a digit (`str::find` with a
/// non-digit predicate).
pub open spec fn nondigit_from(s: Seq<char>, i: int) -> Option<int>
    decreases s.len() - i,
{
    if i < 0 || i >= s.len() {
        None
    } else if !is_digit(s[i]) {
        Some(i)
    } else {
        nondigit_from(s, i + 1)
    }
}

pub fn find_nondigit(s: &[char]) -> (r: Option<usize>)
    ensures
        same_index(r, nondigit_from(s@, 0)),
        r matches Some(k) ==> k < s.len(),
{
    let mut i: usize = 0;
    while i < s.len()
        invariant
            i <= s@.len(),
            nondigit_from(s@, 0) == nondigit_from(s@, i as int),
        decreases s@.len() - i,
    {
        if !is_ascii_digit(s[i]) {
            return Some(i);
        }
        i = i + 1;
    }
    None
}

/// The length of the run of digits at the start of `s`.
pub open spec fn digit_run(s: Seq<char>) -> int {
    match nondigit_from(s, 0) {
        Some(k) => k,
        None => s.len() as int,
    }
}

pub proof fn lemma_nondigit_from_bounds(s: Seq<char>, i: int)
    requires
        0 <= i,
    ensures
        nondigit_from(s, i) matches Some(k) ==> i <= k < s.len() && !is_digit(s[k]) && (forall|
            j: int,
        | i <= j < k ==> is_digit(s[j])),
        nondigit_from(s, i) is None ==> forall|j: int| i <= j < s.len() ==> is_digit(s[j]),
    decreases s.len() - i,
{
    if i < s.len() && is_digit(s[i]) {
        lemma_nondigit_from_bounds(s, i + 1);
    }
}

pub proof fn lemma_stop_from_bounds(s: Seq<char>, i: int)
    requires
        0 <= i <= s.len(),
    ensures
        i <= stop_from(s, i) <= s.len(),
        forall|j: int| i <= j < stop_from(s, i) ==> !is_token_stop(s[j]),
        stop_from(s, i) < s.len() ==> is_token_stop(s[stop_from(s, i)]),
    decreases s.len() - i,
{
    if i < s.len() && !is_token_stop(s[i]) {
        lemma_stop_from_bounds(s, i + 1);
    }
}

// ---------------------------------------------------------------------
// Prefixes and substring search
// ---------------------------------------------------------------------

/// `str::starts_with`.
pub open spec fn has_prefix(s: Seq<char>, p: Seq<char>) -> bool {
    p.len() <= s.len() && s.take(p.len() as int) == p
}

pub fn starts_with(s: &[char], p: &[char]) -> (r: bool)
    ensures
        r == has_prefix(s@, p@),
{
    if p.len() > s.len() {
        return false;
    }
    let mut i: usize = 0;
    while i < p.len()
        invariant
            p@.len() <= s@.len(),
            i <= p@.len(),
            forall|j: int| 0 <= j < i ==> s@[j] == p@[j],
        decreases p@.len() - i,
    {
        if s[i] != p[i] {
            assert(s@.take(p@.len() as int)[i as int] != p@[i as int]);
            return false;
        }
        i = i + 1;
    }
    assert(s@.take(p@.len() as int) =~= p@);
    true
}

/// Whether `s` starts with the text of the literal `p`.
pub fn starts_with_str(s: &[char], p: &str) -> (r: bool)
    ensures
        r == has_prefix(s@, p@),
{
    let pv = chars_of(p);
    starts_with(s, pv.as_slice())
}

/// Whether the first character of `s` is `c`.
pub open spec fn starts_with_char(s: Seq<char>, c: char) -> bool {
    s.len() > 0 && s[0] == c
}

/// Whether `p` occurs in `s` at index `i`.
pub open spec fn matches_at(s: Seq<char>, p: Seq<char>, i: int) -> bool {
    0 <= i && i + p.len() <= s.len() && s.subrange(i, i + p.len()) == p
}

/// The first index at or after `i` where `p` occurs in `s`.
pub open spec fn find_from(s: Seq<char>, p: Seq<char>, i: int) -> Option<int>
    decreases s.len() + 1 - i,
{
    if i < 0 || i + p.len() > s.len() {
        None
    } else if matches_at(s, p, i) {
        Some(i)
    } else {
        find_from(s, p, i + 1)
    }
}

/// `str::find` with a string pattern: the first index where `p` occurs.
pub open spec fn find(s: Seq<char>, p: Seq<char>) -> Option<int> {
    find_from(s, p, 0)
}

/// `str::contains` with a string pattern.
pub open spec fn contains(s: Seq<char>, p: Seq<char>) -> bool {
    find(s, p) is Some
}

pub fn matches_at_exec(s: &[char], p: &[char], i: usize) -> (r: bool)
    ensures
        r == matches_at(s@, p@, i as int),
{
    let n = s.len();
    if i > n || p.len() > n - i {
        return false;
    }
    let mut j: usize = 0;
    while j < p.len()
        invariant
            n == s@.len(),
            i + p@.len() <= s@.len(),
            j <= p@.len(),
            forall|k: int| 0 <= k < j ==> s@[i + k] == p@[k],
        decreases p@.len() - j,
    {
        if s[i + j] != p[j] {
            assert(s@.subrange(i as int, i + p@.len())[j as int] != p@[j as int]);
            return false;
        }
        j = j + 1;
    }
    assert(s@.subrange(i as int, i + p@.len()) =~= p@);
    true
}

pub proof fn lemma_find_from_bounds(s: Seq<char>, p: Seq<char>, i: int)
    requires
        0 <= i,
    ensures
        find_from(s, p, i) matches Some(k) ==> i <= k && k + p.len() <= s.len() && matches_at(
            s,
            p,
            k,
        ) && (forall|j: int| i <= j < k ==> !matches_at(s, p, j)),
        find_from(s, p, i) is None ==> forall|j: int| i <= j ==> !matches_at(s, p, j),
    decreases s.len() + 1 - i,
{
    if i + p.len() <= s.len() && !matches_at(s, p, i) {
        lemma_find_from_bounds(s, p, i + 1);
    }
}

pub fn find_seq(s: &[char], p: &[char]) -> (r: Option<usize>)
    ensures
        same_index(r, find(s@, p@)),
        r matches Some(k) ==> k + p@.len() <= s.len(),
{
    if p.len() > s.len() {
        return None;
    }
    if p.len() == 0 {
        assert(matches_at(s@, p@, 0)) by {
            assert(s@.subrange(0, 0) =~= p@);
        }
        return Some(0);
    }
    let mut i: usize = 0;
    while i <= s.len() - p.len()
        invariant
            0 < p@.len() <= s@.len(),
            i <= s@.len() - p@.len() + 1,
            find_from(s@, p@, 0) == find_from(s@, p@, i as int),
        decreases s@.len() - p@.len() + 1 - i,
    {
        if matches_at_exec(s, p, i) {
            return Some(i);
        }
        i = i + 1;
    }
    None
}

/// `str::find` with a literal pattern.
pub fn find_str(s: &[char], p: &str) -> (r: Option<usize>)
    ensures
        same_index(r, find(s@, p@)),
        r matches Some(k) ==> k + p@.len() <= s.len(),
{
    let pv = chars_of(p);
    find_seq(s, pv.as_slice())
}

/// The first index at or after `i` holding `c`.
pub open spec fn char_from(s: Seq<char>, c: char, i: int) -> Option<int>
    decreases s.len() - i,
{
    if i < 0 || i >= s.len() {
        None
    } else if s[i] == c {
        Some(i)
    } else {
        char_from(s, c, i + 1)
    }
}

/// `str::find` with a `char` pattern.
pub open spec fn find_char(s: Seq<char>, c: char) -> Option<int> {
    char_from(s, c, 0)
}

pub fn find_char_exec(s: &[char], c: char) -> (r: Option<usize>)
    ensures
        same_index(r, find_char(s@, c)),
        r matches Some(k) ==> k < s.len(),
{
    let mut i: usize = 0;
    while i < s.len()
        invariant
            i <= s@.len(),
            char_from(s@, c, 0) == char_from(s@, c, i as int),
        decreases s@.len() - i,
    {
        if s[i] == c {
            return Some(i);
        }
        i = i + 1;
    }
    None
}

pub proof fn lemma_char_from_bounds(s: Seq<char>, c: char, i: int)
    requires
        0 <= i,
    ensures
        char_from(s, c, i) matches Some(k) ==> i <= k < s.len() && s[k] == c && (forall|j: int|
            i <= j < k ==> s[j] != c),
        char_from(s, c, i) is None ==> forall|j: int| i <= j < s.len() ==> s[j] != c,
    decreases s.len() - i,
{
    if i < s.len() && s[i] != c {
        lemma_char_from_bounds(s, c, i + 1);
    }
}

// ---------------------------------------------------------------------
// Trimming
// ---------------------------------------------------------------------

/// The first index at or after `i` that is not whitespace, or `s.len()`.
pub open spec fn nonws_from(s: Seq<char>, i: int) -> int
    decreases s.len() - i,
{
    if i < 0 || i >= s.len() {
        s.len() as int
    } else if !is_ws(s[i]) {
        i
    } else {
        nonws_from(s, i + 1)
    }
}

/// The end of `s[..j]` once its trailing whitespace is removed.
pub open spec fn nonws_before(s: Seq<char>, j: int) -> int
    decreases j,
{
    if j <= 0 || j > s.len() {
        0
    } else if !is_ws(s[j - 1]) {
        j
    } else {
        nonws_before(s, j - 1)
    }
}

/// `str::trim_start`.
pub open spec fn trim_start(s: Seq<char>) -> Seq<char> {
    s.skip(nonws_from(s, 0))
}

/// `str::trim_end`.
pub open spec fn trim_end(s: Seq<char>) -> Seq<char> {
    s.take(nonws_before(s, s.len() as int))
}

/// `str::trim`.
pub open spec fn trim(s: Seq<char>) -> Seq<char> {
    trim_end(trim_start(s))
}

/// Whether `s` is empty or all whitespace (`s.trim().is_empty()`).
pub open spec fn is_blank(s: Seq<char>) -> bool {
    forall|i: int| 0 <= i < s.len() ==> is_ws(s[i])
}

pub proof fn lemma_nonws_from_bounds(s: Seq<char>, i: int)
    requires
        0 <= i <= s.len(),
    ensures
        i <= nonws_from(s, i) <= s.len(),
        forall|j: int| i <= j < nonws_from(s, i) ==> is_ws(s[j]),
        nonws_from(s, i) < s.len() ==> !is_ws(s[nonws_from(s, i)]),
    decreases s.len() - i,
{
    if i < s.len() && is_ws(s[i]) {
        lemma_nonws_from_bounds(s, i + 1);
    }
}

pub proof fn lemma_nonws_before_bounds(s: Seq<char>, j: int)
    requires
        0 <= j <= s.len(),
    ensures
        0 <= nonws_before(s, j) <= j,
        forall|k: int| nonws_before(s, j) <= k < j ==> is_ws(s[k]),
        nonws_before(s, j) > 0 ==> !is_ws(s[nonws_before(s, j) - 1]),
    decreases j,
{
    if j > 0 && is_ws(s[j - 1]) {
        lemma_nonws_before_bounds(s, j - 1);
    }
}

pub fn first_nonws(s: &[char]) -> (r: usize)
    ensures
        r == nonws_from(s@, 0),
        r <= s@.len(),
{
    let mut i: usize = 0;
    while i < s.len()
        invariant
            i <= s@.len(),
            nonws_from(s@, 0) == nonws_from(s@, i as int),
        decreases s@.len() - i,
    {
        if !is_whitespace(s[i]) {
            return i;
        }
        i = i + 1;
    }
    i
}

pub fn last_nonws_end(s: &[char]) -> (r: usize)
    ensures
        r == nonws_before(s@, s@.len() as int),
        r <= s@.len(),
{
    let mut j: usize = s.len();
    while j > 0
        invariant
            j <= s@.len(),
            nonws_before(s@, s@.len() as int) == nonws_before(s@, j as int),
        decreases j,
    {
        if !is_whitespace(s[j - 1]) {
            return j;
        }
        j = j - 1;
    }
    0
}

pub fn trim_start_exec(s: &[char]) -> (r: Vec<char>)
    ensures
        r@ == trim_start(s@),
{
    let k = first_nonws(s);
    skip(s, k)
}

pub fn trim_end_exec(s: &[char]) -> (r: Vec<char>)
    ensures
        r@ == trim_end(s@),
{
    let k = last_nonws_end(s);
    slice_of(s, 0, k)
}

pub fn trim_exec(s: &[char]) -> (r: Vec<char>)
    ensures
        r@ == trim(s@),
{
    let t = trim_start_exec(s);
    trim_end_exec(t.as_slice())
}

pub fn is_blank_exec(s: &[char]) -> (r: bool)
    ensures
        r == is_blank(s@),
{
    let mut i: usize = 0;
    while i < s.len()
        invariant
            i <= s@.len(),
            forall|j: int| 0 <= j < i ==> is_ws(s@[j]),
        decreases s@.len() - i,
    {
        if !is_whitespace(s[i]) {
            return false;
        }
        i = i + 1;
    }
    true
}

// ---------------------------------------------------------------------
// Unsigned integers
// ---------------------------------------------------------------------

/// Whether every character of `s` is an ASCII digit.
pub open spec fn all_digits(s: Seq<char>) -> bool {
    forall|i: int| 0 <= i < s.len() ==> is_digit(s[i])
}

/// The value of a run of decimal digits.
pub open spec fn digits_value(s: Seq<char>) -> nat
    decreases s.len(),
{
    if s.len() == 0 {
        0
    } else {
        digits_value(s.drop_last()) * 10 + digit_value(s.last())
    }
}

/// `u32::from_str`: an optional `+` followed by one or more ASCII digits,
/// whose value fits in a `u32`.
pub open spec fn parse_u32(s: Seq<char>) -> Option<u32> {
    let d = if s.len() > 0 && s[0] == '+' {
        s.drop_first()
    } else {
        s
    };
    if d.len() > 0 && all_digits(d) && digits_value(d) <= u32::MAX {
        Some(digits_value(d) as u32)
    } else {
        None
    }
}

proof fn lemma_digits_value_monotone(s: Seq<char>, i: int, j: int)
    requires
        0 <= i <= j <= s.len(),
        all_digits(s),
    ensures
        digits_value(s.take(i)) <= digits_value(s.take(j)),
    decreases j - i,
{
    if i < j {
        lemma_digits_value_monotone(s, i, j - 1);
        assert(s.take(j).drop_last() == s.take(j - 1));
    }
}

pub fn parse_u32_exec(s: &[char]) -> (r: Option<u32>)
    ensures
        r == parse_u32(s@),
{
    let start: usize = if s.len() > 0 && s[0] == '+' {
        1
    } else {
        0
    };
    let ghost d = if s@.len() > 0 && s@[0] == '+' {
        s@.drop_first()
    } else {
        s@
    };
    assert(d =~= s@.skip(start as int));
    if start >= s.len() {
        return None;
    }
    let mut v: u32 = 0;
    let mut i: usize = start;
    while i < s.len()
        invariant
            start <= i <= s@.len(),
            d == s@.skip(start as int),
            d == (if s@.len() > 0 && s@[0] == '+' {
                s@.drop_first()
            } else {
                s@
            }),
            forall|k: int| 0 <= k < i - start ==> is_digit(d[k]),
            v as nat == digits_value(d.take(i - start)),
        decreases s@.len() - i,
    {
        let c = s[i];
        assert(d[i - start] == c);
        if !is_ascii_digit(c) {
            assert(!all_digits(d));
            return None;
        }
        let dv = (c as u32) - 0x30;
        assert(d.take(i + 1 - start).drop_last() =~= d.take(i - start));
        assert(digits_value(d.take(i + 1 - start)) == v * 10 + dv);
        if v > (u32::MAX - dv) / 10 {
            proof {
                if all_digits(d) {
                    lemma_digits_value_monotone(d, i + 1 - start, d.len() as int);
                    assert(d.take(d.len() as int) =~= d);
                }
            }
            return None;
        }
        v = v * 10 + dv;
        i = i + 1;
    }
    assert(d.take(d.len() as int) =~= d);
    Some(v)
}

/// The character of a decimal digit value.
pub open spec fn digit_char(d: nat) -> char {
    if d == 0 {
        '0'
    } else if d == 1 {
        '1'
    } else if d == 2 {
        '2'
    } else if d == 3 {
        '3'
    } else if d == 4 {
        '4'
    } else if d == 5 {
        '5'
    } else if d == 6 {
        '6'
    } else if d == 7 {
        '7'
    } else if d == 8 {
        '8'
    } else {
        '9'
    }
}

/// The decimal representation of `n` (`Display` for unsigned integers):
/// no sign, no leading zeros, `0` for zero.
pub open spec fn dec(n: nat) -> Seq<char>
    decreases n,
{
    if n < 10 {
        seq![digit_char(n)]
    } else {
        dec(n / 10).push(digit_char(n % 10))
    }
}

proof fn lemma_digit_char(d: nat)
    requires
        d < 10,
    ensures
        is_digit(digit_char(d)),
        digit_value(digit_char(d)) == d,
{
}

/// The decimal representation of a number reads back as that number: it
/// is a non-empty run of digits whose value is `n`.
pub proof fn lemma_dec_reads_back(n: nat)
    ensures
        dec(n).len() > 0,
        all_digits(dec(n)),
        digits_value(dec(n)) == n,
    decreases n,
{
    if n < 10 {
        lemma_digit_char(n);
        assert(seq![digit_char(n)].drop_last() =~= Seq::<char>::empty());
        assert(digits_value(Seq::<char>::empty()) == 0);
        assert(digits_value(dec(n)) == digits_value(Seq::<char>::empty()) * 10 + digit_value(
            digit_char(n),
        ));
    } else {
        lemma_dec_reads_back(n / 10);
        lemma_digit_char(n % 10);
        let d = dec(n / 10);
        assert(d.push(digit_char(n % 10)).drop_last() =~= d);
        assert forall|i: int| 0 <= i < dec(n).len() implies is_digit(dec(n)[i]) by {
            if i < d.len() {
                assert(dec(n)[i] == d[i]);
            }
        }
        assert(digits_value(dec(n)) == digits_value(d) * 10 + digit_value(digit_char(n % 10)));
        assert((n / 10) * 10 + n % 10 == n) by (nonlinear_arith);
    }
}

/// `u32::from_str` reads `Display`'s output of any `u32` back.
pub proof fn lemma_parse_u32_of_dec(n: u32)
    ensures
        parse_u32(dec(n as nat)) == Some(n),
{
    lemma_dec_reads_back(n as nat);
    assert(is_digit(dec(n as nat)[0]));
}

fn digit_char_exec(d: u64) -> (c: char)
    requires
        d < 10,
    ensures
        c == digit_char(d as nat),
{
    if d == 0 {
        '0'
    } else if d == 1 {
        '1'
    } else if d == 2 {
        '2'
    } else if d == 3 {
        '3'
    } else if d == 4 {
        '4'
    } else if d == 5 {
        '5'
    } else if d == 6 {
        '6'
    } else if d == 7 {
        '7'
    } else if d == 8 {
        '8'
    } else {
        '9'
    }
}

/// `n.to_string()`.
pub fn dec_exec(n: u64) -> (r: Vec<char>)
    ensures
        r@ == dec(n as nat),
    decreases n,
{
    if n < 10 {
        let mut v = Vec::new();
        v.push(digit_char_exec(n));
        v
    } else {
        let mut v = dec_exec(n / 10);
        v.push(digit_char_exec(n % 10));
        v
    }
}

/// Ten to the power `k`.
pub open spec fn pow10(k: nat) -> nat
    decreases k,
{
    if k == 0 {
        1
    } else {
        10 * pow10((k - 1) as nat)
    }
}

pub proof fn lemma_digits_value_bound(s: Seq<char>)
    requires
        all_digits(s),
    ensures
        digits_value(s) < pow10(s.len()),
    decreases s.len(),
{
    if s.len() > 0 {
        assert(all_digits(s.drop_last()));
        lemma_digits_value_bound(s.drop_last());
        assert(is_digit(s.last()));
    }
}

/// The value of a run of at most 15 decimal digits.
pub fn digits_value_exec(s: &[char]) -> (v: u64)
    requires
        all_digits(s@),
        s@.len() <= 15,
    ensures
        v as nat == digits_value(s@),
{
    proof {
        lemma_digits_value_bound(s@);
        reveal_with_fuel(pow10, 16);
    }
    let mut v: u64 = 0;
    let mut i: usize = 0;
    while i < s.len()
        invariant
            i <= s@.len() <= 15,
            all_digits(s@),
            v as nat == digits_value(s@.take(i as int)),
            v < pow10(i as nat),
        decreases s@.len() - i,
    {
        assert(s@.take(i + 1).drop_last() =~= s@.take(i as int));
        assert(is_digit(s@[i as int]));
        assert(pow10((i + 1) as nat) == 10 * pow10(i as nat));
        assert(pow10(i as nat) <= 1_000_000_000_000_000) by {
            lemma_pow10_le(i as nat, 15);
            reveal_with_fuel(pow10, 16);
        }
        v = v * 10 + ((s[i] as u32) - 0x30) as u64;
        i = i + 1;
    }
    assert(s@.take(s@.len() as int) =~= s@);
    v
}

pub proof fn lemma_pow10_le(a: nat, b: nat)
    requires
        a <= b,
    ensures
        pow10(a) <= pow10(b),
    decreases b - a,
{
    if a < b {
        lemma_pow10_le(a, (b - 1) as nat);
    }
}

// ---------------------------------------------------------------------
// Counting and repetition
// ---------------------------------------------------------------------

/// `s` repeated `n` times.
pub open spec fn repeat(s: Seq<char>, n: nat) -> Seq<char>
    decreases n,
{
    if n == 0 {
        Seq::empty()
    } else {
        repeat(s, (n - 1) as nat) + s
    }
}

pub fn repeat_exec(s: &[char], n: usize) -> (r: Vec<char>)
    ensures
        r@ == repeat(s@, n as nat),
{
    let mut r: Vec<char> = Vec::new();
    let mut i: usize = 0;
    while i < n
        invariant
            i <= n,
            r@ == repeat(s@, i as nat),
        decreases n - i,
    {
        append(&mut r, s);
        i = i + 1;
    }
    r
}


// ---------------------------------------------------------------------
// Splitting on a separator
// ---------------------------------------------------------------------

/// The views of a sequence of character vectors, in order.
pub open spec fn seqs(v: Seq<Vec<char>>) -> Seq<Seq<char>> {
    v.map_values(|x: Vec<char>| x@)
}

/// The pieces of `s[..i]` that a separator already closed, and the piece
/// still being read at index `i`.
pub open spec fn split_fold(s: Seq<char>, sep: char, i: int) -> (Seq<Seq<char>>, Seq<char>)
    decreases i,
{
    if i <= 0 || i > s.len() {
        (Seq::empty(), Seq::empty())
    } else {
        let (w, cur) = split_fold(s, sep, i - 1);
        if s[i - 1] == sep {
            (w.push(cur), Seq::empty())
        } else {
            (w, cur.push(s[i - 1]))
        }
    }
}

/// `str::split(sep)`: the pieces between separators, empty ones included;
/// there is always one more piece than there are separators.
pub open spec fn split_on(s: Seq<char>, sep: char) -> Seq<Seq<char>> {
    let (w, cur) = split_fold(s, sep, s.len() as int);
    w.push(cur)
}

pub fn split_on_exec(s: &[char], sep: char) -> (r: Vec<Vec<char>>)
    ensures
        seqs(r@) == split_on(s@, sep),
{
    let mut w: Vec<Vec<char>> = Vec::new();
    let mut cur: Vec<char> = Vec::new();
    let mut i: usize = 0;
    assert(seqs(w@) =~= Seq::<Seq<char>>::empty());
    while i < s.len()
        invariant
            i <= s@.len(),
            (seqs(w@), cur@) == split_fold(s@, sep, i as int),
        decreases s@.len() - i,
    {
        let c = s[i];
        if c == sep {
            let mut done: Vec<char> = Vec::new();
            std::mem::swap(&mut done, &mut cur);
            let ghost before = seqs(w@);
            let ghost d = done@;
            w.push(done);
            assert(seqs(w@) =~= before.push(d));
        } else {
            cur.push(c);
        }
        i = i + 1;
    }
    let ghost before = seqs(w@);
    let ghost d = cur@;
    w.push(cur);
    assert(seqs(w@) =~= before.push(d));
    w
}

} // verus!
