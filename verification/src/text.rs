//! Text model shared by the library: character sequences, trimming, searching,
//! line splitting and decimal numbers, each with an executable counterpart.
use vstd::prelude::*;

verus! {

/// Unicode `White_Space`, the set that `char::is_whitespace` and `str::trim` use.
pub open spec fn is_ws(c: char) -> bool {
    let u = c as u32;
    ||| 9 <= u <= 13
    ||| u == 32
    ||| u == 0x85
    ||| u == 0xA0
    ||| u == 0x1680
    ||| 0x2000 <= u <= 0x200A
    ||| u == 0x2028
    ||| u == 0x2029
    ||| u == 0x202F
    ||| u == 0x205F
    ||| u == 0x3000
}

pub open spec fn is_digit(c: char) -> bool {
    '0' <= c <= '9'
}

/// Which characters a strip removes.
#[derive(Clone, Copy)]
pub enum CharPred {
    Space,
    Exactly(char),
}

pub open spec fn holds(p: CharPred, c: char) -> bool {
    match p {
        CharPred::Space => is_ws(c),
        CharPred::Exactly(d) => c == d,
    }
}

/// Drops leading characters while `p` holds.
pub open spec fn strip_front(s: Seq<char>, p: CharPred) -> Seq<char>
    decreases s.len(),
{
    if s.len() > 0 && holds(p, s[0]) {
        strip_front(s.drop_first(), p)
    } else {
        s
    }
}

/// Drops trailing characters while `p` holds.
pub open spec fn strip_back(s: Seq<char>, p: CharPred) -> Seq<char>
    decreases s.len(),
{
    if s.len() > 0 && holds(p, s.last()) {
        strip_back(s.drop_last(), p)
    } else {
        s
    }
}

/// `str::trim`.
pub open spec fn trim(s: Seq<char>) -> Seq<char> {
    strip_back(strip_front(s, CharPred::Space), CharPred::Space)
}

/// `str::trim_matches(c)` for a single character.
pub open spec fn trim_char(s: Seq<char>, c: char) -> Seq<char> {
    strip_back(strip_front(s, CharPred::Exactly(c)), CharPred::Exactly(c))
}

/// The text is empty once trimmed.
pub open spec fn is_blank(s: Seq<char>) -> bool {
    trim(s).len() == 0
}

pub open spec fn starts_with(s: Seq<char>, p: Seq<char>) -> bool {
    p.len() <= s.len() && s.take(p.len() as int) == p
}

pub open spec fn ends_with(s: Seq<char>, p: Seq<char>) -> bool {
    p.len() <= s.len() && s.skip(s.len() - p.len()) == p
}

pub open spec fn occurs_at(s: Seq<char>, p: Seq<char>, i: int) -> bool {
    0 <= i && i + p.len() <= s.len() && s.subrange(i, i + p.len()) == p
}

pub open spec fn contains(s: Seq<char>, p: Seq<char>) -> bool {
    exists|i: int| occurs_at(s, p, i)
}

/// What follows the first occurrence of `c` (`str::split_once(c)`'s second part).
pub open spec fn after_first(s: Seq<char>, c: char) -> Option<Seq<char>>
    decreases s.len(),
{
    if s.len() == 0 {
        None
    } else if s[0] == c {
        Some(s.drop_first())
    } else {
        after_first(s.drop_first(), c)
    }
}

/// Splitting on `'\n'` from the left: the finished lines and the line under way.
pub open spec fn lines_acc(s: Seq<char>) -> (Seq<Seq<char>>, Seq<char>)
    decreases s.len(),
{
    if s.len() == 0 {
        (Seq::empty(), Seq::empty())
    } else {
        let (done, cur) = lines_acc(s.drop_last());
        if s.last() == '\n' {
            (done.push(cur), Seq::empty())
        } else {
            (done, cur.push(s.last()))
        }
    }
}

/// The pieces of `s` between `'\n'` characters, the last one included even when empty.
pub open spec fn split_lines(s: Seq<char>) -> Seq<Seq<char>> {
    lines_acc(s).0.push(lines_acc(s).1)
}

pub open spec fn digit_of(d: nat) -> char {
    if d == 0 { '0' }
    else if d == 1 { '1' }
    else if d == 2 { '2' }
    else if d == 3 { '3' }
    else if d == 4 { '4' }
    else if d == 5 { '5' }
    else if d == 6 { '6' }
    else if d == 7 { '7' }
    else if d == 8 { '8' }
    else { '9' }
}

pub open spec fn value_of_digit(c: char) -> nat {
    (c as u32 - 48) as nat
}

/// The decimal notation of `n`, as `to_string` writes an unsigned integer.
pub open spec fn decimal(n: nat) -> Seq<char>
    decreases n,
{
    if n < 10 {
        seq![digit_of(n)]
    } else {
        decimal(n / 10).push(digit_of(n % 10))
    }
}

pub open spec fn all_digits(s: Seq<char>) -> bool {
    forall|i: int| 0 <= i < s.len() ==> is_digit(#[trigger] s[i])
}

/// The value of a string of decimal digits.
pub open spec fn digits_value(s: Seq<char>) -> nat
    decreases s.len(),
{
    if s.len() == 0 {
        0
    } else {
        digits_value(s.drop_last()) * 10 + value_of_digit(s.last())
    }
}

/// `u32::from_str`: an optional `+`, then one or more decimal digits whose value fits.
pub open spec fn parse_u32(s: Seq<char>) -> Option<u32> {
    let d = if s.len() > 0 && s[0] == '+' { s.drop_first() } else { s };
    if d.len() == 0 || !all_digits(d) || digits_value(d) > u32::MAX {
        None
    } else {
        Some(digits_value(d) as u32)
    }
}

// ---------------------------------------------------------------- lemmas

pub proof fn lemma_strip_front_skip(s: Seq<char>, p: CharPred, i: int)
    requires
        0 <= i <= s.len(),
        forall|j: int| 0 <= j < i ==> holds(p, #[trigger] s[j]),
    ensures
        strip_front(s, p) == strip_front(s.skip(i), p),
    decreases i,
{
    if i > 0 {
        lemma_strip_front_skip(s, p, i - 1);
        assert(s.skip(i - 1).drop_first() =~= s.skip(i));
        assert(s.skip(i - 1)[0] == s[i - 1]);
    } else {
        assert(s.skip(0) =~= s);
    }
}

pub proof fn lemma_strip_back_take(s: Seq<char>, p: CharPred, i: int)
    requires
        0 <= i <= s.len(),
        forall|j: int| i <= j < s.len() ==> holds(p, #[trigger] s[j]),
    ensures
        strip_back(s, p) == strip_back(s.take(i), p),
    decreases s.len() - i,
{
    if i < s.len() {
        lemma_strip_back_take(s, p, i + 1);
        assert(s.take(i + 1).drop_last() =~= s.take(i));
        assert(s.take(i + 1).last() == s[i]);
    } else {
        assert(s.take(i) =~= s);
    }
}

pub proof fn lemma_after_first(s: Seq<char>, c: char, k: int)
    requires
        0 <= k <= s.len(),
        forall|j: int| 0 <= j < k ==> #[trigger] s[j] != c,
    ensures
        after_first(s, c) == after_first(s.skip(k), c),
    decreases k,
{
    if k > 0 {
        lemma_after_first(s, c, k - 1);
        assert(s.skip(k - 1).drop_first() =~= s.skip(k));
        assert(s.skip(k - 1)[0] == s[k - 1]);
    } else {
        assert(s.skip(0) =~= s);
    }
}

pub proof fn lemma_strip_front_head(s: Seq<char>, p: CharPred)
    ensures
        strip_front(s, p).len() == 0 || !holds(p, strip_front(s, p)[0]),
        strip_front(s, p).len() <= s.len(),
    decreases s.len(),
{
    if s.len() > 0 && holds(p, s[0]) {
        lemma_strip_front_head(s.drop_first(), p);
    }
}

pub proof fn lemma_strip_back_prefix(s: Seq<char>, p: CharPred)
    ensures
        strip_back(s, p).len() <= s.len(),
        strip_back(s, p) == s.take(strip_back(s, p).len() as int),
        strip_back(s, p).len() == 0 || !holds(p, strip_back(s, p).last()),
    decreases s.len(),
{
    if s.len() > 0 && holds(p, s.last()) {
        lemma_strip_back_prefix(s.drop_last(), p);
        let r = strip_back(s.drop_last(), p);
        assert(s.drop_last().take(r.len() as int) =~= s.take(r.len() as int));
    } else {
        assert(s.take(s.len() as int) =~= s);
    }
}

/// Trimming twice is trimming once; the result starts and ends with no white space.
pub proof fn lemma_trim_idempotent(s: Seq<char>)
    ensures
        trim(trim(s)) == trim(s),
        trim(s).len() > 0 ==> !is_ws(trim(s)[0]) && !is_ws(trim(s).last()),
{
    let t = strip_front(s, CharPred::Space);
    let u = strip_back(t, CharPred::Space);
    lemma_strip_front_head(s, CharPred::Space);
    lemma_strip_back_prefix(t, CharPred::Space);
    if u.len() > 0 {
        assert(u[0] == t[0]);
        assert(strip_front(u, CharPred::Space) == u);
        assert(strip_back(u, CharPred::Space) == u);
    }
}

proof fn lemma_digits_value_decimal(n: nat)
    ensures
        digits_value(decimal(n)) == n,
        all_digits(decimal(n)),
        decimal(n).len() >= 1,
    decreases n,
{
    if n < 10 {
        assert(decimal(n).drop_last() =~= Seq::<char>::empty());
        assert(digits_value(Seq::<char>::empty()) == 0);
        assert(value_of_digit(digit_of(n)) == n);
        assert(digits_value(decimal(n)) == digits_value(decimal(n).drop_last()) * 10
            + value_of_digit(decimal(n).last()));
    } else {
        lemma_digits_value_decimal(n / 10);
        assert(decimal(n).drop_last() =~= decimal(n / 10));
        assert(value_of_digit(digit_of(n % 10)) == n % 10);
        assert(decimal(n).last() == digit_of(n % 10));
        vstd::arithmetic::div_mod::lemma_fundamental_div_mod(n as int, 10);
        assert(digits_value(decimal(n)) == digits_value(decimal(n).drop_last()) * 10
            + value_of_digit(decimal(n).last()));
        assert forall|i: int| 0 <= i < decimal(n).len() implies is_digit(#[trigger] decimal(n)[i]) by {
            if i < decimal(n).len() - 1 {
                assert(decimal(n)[i] == decimal(n / 10)[i]);
            }
        }
    }
}

/// Reading back the decimal notation of a `u32` gives the number: what the settings file
/// holds as `"focusMinutes": 25` is recovered as 25.
pub proof fn law_parse_decimal_roundtrip(n: u32)
    ensures
        parse_u32(decimal(n as nat)) == Some(n),
{
    lemma_digits_value_decimal(n as nat);
    assert(decimal(n as nat)[0] != '+');
}

// ---------------------------------------------------------------- executable

/// `String::push`.
#[verifier::external_body]
pub(crate) fn push_char(s: &mut String, c: char)
    ensures
        final(s)@ == old(s)@.push(c),
{
    s.push(c);
}

pub fn is_whitespace(c: char) -> (b: bool)
    ensures
        b == is_ws(c),
{
    let u = c as u32;
    (9 <= u && u <= 13) || u == 32 || u == 0x85 || u == 0xA0 || u == 0x1680 || (0x2000 <= u
        && u <= 0x200A) || u == 0x2028 || u == 0x2029 || u == 0x202F || u == 0x205F || u == 0x3000
}

pub fn is_ascii_digit(c: char) -> (b: bool)
    ensures
        b == is_digit(c),
{
    '0' <= c && c <= '9'
}

pub fn test_pred(p: CharPred, c: char) -> (b: bool)
    ensures
        b == holds(p, c),
{
    match p {
        CharPred::Space => is_whitespace(c),
        CharPred::Exactly(d) => c == d,
    }
}

/// The characters of `s`.
pub fn chars_of(s: &str) -> (v: Vec<char>)
    ensures
        v@ == s@,
{
    let mut v: Vec<char> = Vec::new();
    for c in it: s.chars()
        invariant
            v@ == it.seq().take(it.index() as int),
    {
        v.push(c);
    }
    v
}

/// A `String` holding `v[a..b]`.
pub fn string_of_range(v: &Vec<char>, a: usize, b: usize) -> (s: String)
    requires
        a <= b <= v.len(),
    ensures
        s@ == v@.subrange(a as int, b as int),
{
    let mut s = String::new();
    let mut i = a;
    while i < b
        invariant
            a <= i <= b <= v.len(),
            s@ == v@.subrange(a as int, i as int),
        decreases b - i,
    {
        push_char(&mut s, v[i]);
        assert(v@.subrange(a as int, i + 1) =~= v@.subrange(a as int, i as int).push(v@[i as int]));
        i = i + 1;
    }
    s
}

/// Start of `strip_front(v[a..b], p)`.
pub fn skip_front(v: &Vec<char>, a: usize, b: usize, p: CharPred) -> (r: usize)
    requires
        a <= b <= v.len(),
    ensures
        a <= r <= b,
        v@.subrange(r as int, b as int) == strip_front(v@.subrange(a as int, b as int), p),
{
    let ghost s = v@.subrange(a as int, b as int);
    let mut i = a;
    while i < b && test_pred(p, v[i])
        invariant
            a <= i <= b <= v.len(),
            s == v@.subrange(a as int, b as int),
            forall|j: int| 0 <= j < i - a ==> holds(p, #[trigger] s[j]),
        decreases b - i,
    {
        i = i + 1;
    }
    proof {
        lemma_strip_front_skip(s, p, i - a);
        assert(s.skip(i - a) =~= v@.subrange(i as int, b as int));
    }
    i
}

/// End of `strip_back(v[a..b], p)`.
pub fn skip_back(v: &Vec<char>, a: usize, b: usize, p: CharPred) -> (r: usize)
    requires
        a <= b <= v.len(),
    ensures
        a <= r <= b,
        v@.subrange(a as int, r as int) == strip_back(v@.subrange(a as int, b as int), p),
{
    let ghost s = v@.subrange(a as int, b as int);
    let mut i = b;
    while i > a && test_pred(p, v[i - 1])
        invariant
            a <= i <= b <= v.len(),
            s == v@.subrange(a as int, b as int),
            forall|j: int| i - a <= j < s.len() ==> holds(p, #[trigger] s[j]),
        decreases i - a,
    {
        i = i - 1;
    }
    proof {
        lemma_strip_back_take(s, p, i - a);
        assert(s.take(i - a) =~= v@.subrange(a as int, i as int));
    }
    i
}

/// Bounds of `trim(v[a..b])`.
pub fn trim_range(v: &Vec<char>, a: usize, b: usize) -> (r: (usize, usize))
    requires
        a <= b <= v.len(),
    ensures
        a <= r.0 <= r.1 <= b,
        v@.subrange(r.0 as int, r.1 as int) == trim(v@.subrange(a as int, b as int)),
{
    let s = skip_front(v, a, b, CharPred::Space);
    let e = skip_back(v, s, b, CharPred::Space);
    (s, e)
}

/// `s.trim().to_string()`.
pub fn trimmed(s: &str) -> (r: String)
    ensures
        r@ == trim(s@),
{
    let v = chars_of(s);
    let (a, b) = trim_range(&v, 0, v.len());
    assert(v@.subrange(0, v@.len() as int) =~= v@);
    string_of_range(&v, a, b)
}

/// `s.trim().is_empty()`.
pub fn blank(s: &str) -> (b: bool)
    ensures
        b == is_blank(s@),
{
    let v = chars_of(s);
    let (a, b) = trim_range(&v, 0, v.len());
    assert(v@.subrange(0, v@.len() as int) =~= v@);
    a == b
}

/// Whether `v[a..b]` equals `p`.
pub fn range_equals(v: &Vec<char>, a: usize, b: usize, p: &Vec<char>) -> (r: bool)
    requires
        a <= b <= v.len(),
    ensures
        r == (v@.subrange(a as int, b as int) == p@),
{
    if b - a != p.len() {
        return false;
    }
    let mut i: usize = 0;
    while i < p.len()
        invariant
            b - a == p.len(),
            a <= b <= v.len(),
            i <= p.len(),
            forall|j: int| 0 <= j < i ==> v@[a + j] == p@[j],
        decreases p.len() - i,
    {
        if v[a + i] != p[i] {
            assert(v@.subrange(a as int, b as int)[i as int] != p@[i as int]);
            return false;
        }
        i = i + 1;
    }
    assert(v@.subrange(a as int, b as int) =~= p@);
    true
}

/// Whether `v[a..b]` starts with `p`.
pub fn range_starts_with(v: &Vec<char>, a: usize, b: usize, p: &Vec<char>) -> (r: bool)
    requires
        a <= b <= v.len(),
    ensures
        r == starts_with(v@.subrange(a as int, b as int), p@),
{
    if p.len() > b - a {
        return false;
    }
    let r = range_equals(v, a, a + p.len(), p);
    assert(v@.subrange(a as int, b as int).take(p.len() as int) =~= v@.subrange(
        a as int,
        a + p.len(),
    ));
    r
}

/// Whether `v[a..b]` ends with `p`.
pub fn range_ends_with(v: &Vec<char>, a: usize, b: usize, p: &Vec<char>) -> (r: bool)
    requires
        a <= b <= v.len(),
    ensures
        r == ends_with(v@.subrange(a as int, b as int), p@),
{
    if p.len() > b - a {
        return false;
    }
    let r = range_equals(v, b - p.len(), b, p);
    assert(v@.subrange(a as int, b as int).skip((b - a) - p.len()) =~= v@.subrange(
        b - p.len(),
        b as int,
    ));
    r
}

/// Whether `p` occurs in `v[a..b]`.
pub fn range_contains(v: &Vec<char>, a: usize, b: usize, p: &Vec<char>) -> (r: bool)
    requires
        a <= b <= v.len(),
    ensures
        r == contains(v@.subrange(a as int, b as int), p@),
{
    let ghost s = v@.subrange(a as int, b as int);
    if p.len() > b - a {
        assert forall|k: int| !occurs_at(s, p@, k) by {}
        return false;
    }
    let last = b - p.len();
    let mut i = a;
    while i < last
        invariant
            a <= i <= last,
            last + p.len() == b,
            b <= v.len(),
            s == v@.subrange(a as int, b as int),
            forall|k: int| 0 <= k < i - a ==> !occurs_at(s, p@, k),
        decreases last - i,
    {
        assert(s.subrange(i - a, i - a + p.len()) =~= v@.subrange(i as int, i + p.len()));
        if range_equals(v, i, i + p.len(), p) {
            assert(occurs_at(s, p@, i - a));
            return true;
        }
        i = i + 1;
    }
    assert(s.subrange(last - a, last - a + p.len()) =~= v@.subrange(last as int, b as int));
    if range_equals(v, last, b, p) {
        assert(occurs_at(s, p@, last - a));
        return true;
    }
    assert forall|k: int| !occurs_at(s, p@, k) by {
        if 0 <= k < last - a {
        } else {
        }
    }
    false
}

/// First position of `c` in `v[a..b]`.
pub fn find_char(v: &Vec<char>, a: usize, b: usize, c: char) -> (r: Option<usize>)
    requires
        a <= b <= v.len(),
    ensures
        match r {
            Some(k) => a <= k < b && v@[k as int] == c && after_first(
                v@.subrange(a as int, b as int),
                c,
            ) == Some(v@.subrange(k + 1, b as int)),
            None => after_first(v@.subrange(a as int, b as int), c) is None,
        },
{
    let ghost s = v@.subrange(a as int, b as int);
    let mut i = a;
    while i < b
        invariant
            a <= i <= b <= v.len(),
            s == v@.subrange(a as int, b as int),
            forall|j: int| 0 <= j < i - a ==> #[trigger] s[j] != c,
        decreases b - i,
    {
        if v[i] == c {
            proof {
                lemma_after_first(s, c, i - a);
                let t = s.skip(i - a);
                assert(t[0] == c);
                assert(t.drop_first() =~= v@.subrange(i + 1, b as int));
            }
            return Some(i);
        }
        i = i + 1;
    }
    proof {
        lemma_after_first(s, c, i - a);
        assert(s.skip(i - a).len() == 0);
    }
    None
}

/// The bounds of each piece of `split_lines(v)`.
pub fn line_ranges(v: &Vec<char>) -> (r: Vec<(usize, usize)>)
    ensures
        r@.len() == split_lines(v@).len(),
        forall|j: int|
            0 <= j < r@.len() ==> {
                &&& (#[trigger] r@[j]).0 <= r@[j].1 <= v@.len()
                &&& v@.subrange(r@[j].0 as int, r@[j].1 as int) == split_lines(v@)[j]
            },
{
    let mut r: Vec<(usize, usize)> = Vec::new();
    let mut start: usize = 0;
    let mut i: usize = 0;
    while i < v.len()
        invariant
            start <= i <= v.len(),
            r@.len() == lines_acc(v@.take(i as int)).0.len(),
            lines_acc(v@.take(i as int)).1 == v@.subrange(start as int, i as int),
            forall|j: int|
                0 <= j < r@.len() ==> {
                    &&& (#[trigger] r@[j]).0 <= r@[j].1 <= v@.len()
                    &&& v@.subrange(r@[j].0 as int, r@[j].1 as int) == lines_acc(
                        v@.take(i as int),
                    ).0[j]
                },
        decreases v.len() - i,
    {
        let ghost t = v@.take(i + 1);
        assert(t.drop_last() =~= v@.take(i as int));
        assert(t.last() == v@[i as int]);
        if v[i] == '\n' {
            r.push((start, i));
            start = i + 1;
            assert(v@.subrange(start as int, i + 1) =~= Seq::<char>::empty());
        } else {
            assert(v@.subrange(start as int, i + 1) =~= v@.subrange(start as int, i as int).push(
                v@[i as int],
            ));
        }
        i = i + 1;
    }
    assert(v@.take(v@.len() as int) =~= v@);
    r.push((start, v.len()));
    r
}

/// Whether two texts are the same characters.
pub fn str_eq(a: &str, b: &str) -> (r: bool)
    ensures
        r == (a@ == b@),
{
    let va = chars_of(a);
    let vb = chars_of(b);
    let r = range_equals(&va, 0, va.len(), &vb);
    assert(va@.subrange(0, va@.len() as int) =~= va@);
    r
}

/// The texts of a list of string slices.
pub open spec fn keys_view(keys: Seq<&str>) -> Seq<Seq<char>> {
    keys.map_values(|k: &str| k@)
}

/// An ASCII letter lowered, any other character as it is.
pub open spec fn ascii_lower_char(c: char) -> char {
    if 'A' <= c <= 'Z' {
        ((c as u32) + 32) as char
    } else {
        c
    }
}

/// `str::to_ascii_lowercase`.
pub open spec fn ascii_lower(s: Seq<char>) -> Seq<char> {
    s.map_values(|c: char| ascii_lower_char(c))
}

/// Every character is ASCII.
pub open spec fn ascii_text(s: Seq<char>) -> bool {
    forall|i: int| 0 <= i < s.len() ==> (#[trigger] s[i] as u32) < 128
}

/// What `str::to_lowercase` gives for `s` (Unicode lowercase mapping).
pub uninterp spec fn lowercase(s: Seq<char>) -> Seq<char>;

/// The lowercase form of a text: `A`–`Z` lowered for ASCII text, [`lowercase`] otherwise.
pub open spec fn lower_text(s: Seq<char>) -> Seq<char> {
    if ascii_text(s) {
        ascii_lower(s)
    } else {
        lowercase(s)
    }
}

/// Calls `str::to_lowercase`. The contract says that the result is the one that
/// [`lowercase`] names for this text, and that on ASCII text it lowers `A`–`Z` and keeps
/// every other character, as Unicode's lowercase mapping does for ASCII. Beyond ASCII the
/// mapping is left unsaid.
#[verifier::external_body]
pub(crate) fn to_lowercase(s: &str) -> (r: String)
    ensures
        r@ == lowercase(s@),
        ascii_text(s@) ==> r@ == ascii_lower(s@),
        r@ == lower_text(s@),
{
    s.to_lowercase()
}

/// Whether `x` is one of `list`.
pub fn in_list(x: &str, list: &[&str]) -> (r: bool)
    ensures
        r == keys_view(list@).contains(x@),
{
    let mut i: usize = 0;
    while i < list.len()
        invariant
            i <= list.len(),
            forall|j: int| 0 <= j < i ==> keys_view(list@)[j] != x@,
        decreases list.len() - i,
    {
        if str_eq(list[i], x) {
            assert(keys_view(list@)[i as int] == x@);
            return true;
        }
        i = i + 1;
    }
    assert forall|j: int| 0 <= j < keys_view(list@).len() implies keys_view(list@)[j] != x@ by {}
    false
}

/// Whether `hay` contains `needle`.
pub fn text_contains(hay: &str, needle: &str) -> (r: bool)
    ensures
        r == contains(hay@, needle@),
{
    let h = chars_of(hay);
    let n = chars_of(needle);
    assert(h@.subrange(0, h@.len() as int) =~= h@);
    range_contains(&h, 0, h.len(), &n)
}

/// Whether `hay` ends with `suffix`.
pub fn text_ends_with(hay: &str, suffix: &str) -> (r: bool)
    ensures
        r == ends_with(hay@, suffix@),
{
    let h = chars_of(hay);
    let n = chars_of(suffix);
    assert(h@.subrange(0, h@.len() as int) =~= h@);
    range_ends_with(&h, 0, h.len(), &n)
}

/// Whether `hay` starts with `prefix`.
pub fn text_starts_with(hay: &str, prefix: &str) -> (r: bool)
    ensures
        r == starts_with(hay@, prefix@),
{
    let h = chars_of(hay);
    let n = chars_of(prefix);
    assert(h@.subrange(0, h@.len() as int) =~= h@);
    range_starts_with(&h, 0, h.len(), &n)
}

/// Appends the decimal notation of `n` to `s`.
pub fn push_decimal(s: &mut String, n: u64)
    ensures
        final(s)@ == old(s)@ + decimal(n as nat),
    decreases n,
{
    if n >= 10 {
        push_decimal(s, n / 10);
    }
    let d = n % 10;
    let c = if d == 0 { '0' }
        else if d == 1 { '1' }
        else if d == 2 { '2' }
        else if d == 3 { '3' }
        else if d == 4 { '4' }
        else if d == 5 { '5' }
        else if d == 6 { '6' }
        else if d == 7 { '7' }
        else if d == 8 { '8' }
        else { '9' };
    push_char(s, c);
    assert(final(s)@ =~= old(s)@ + decimal(n as nat));
}

/// `n.to_string()` for an unsigned integer.
pub fn decimal_string(n: u64) -> (s: String)
    ensures
        s@ == decimal(n as nat),
{
    let mut s = String::new();
    push_decimal(&mut s, n);
    assert(s@ =~= decimal(n as nat));
    s
}

/// `v[a..b].parse::<u32>().ok()`.
pub fn parse_u32_range(v: &Vec<char>, a: usize, b: usize) -> (r: Option<u32>)
    requires
        a <= b <= v.len(),
    ensures
        r == parse_u32(v@.subrange(a as int, b as int)),
{
    let ghost s = v@.subrange(a as int, b as int);
    let start = if a < b && v[a] == '+' { a + 1 } else { a };
    let ghost d = v@.subrange(start as int, b as int);
    assert(s.len() > 0 ==> s[0] == v@[a as int]);
    assert(d =~= (if s.len() > 0 && s[0] == '+' { s.drop_first() } else { s }));
    if start == b {
        return None;
    }
    let mut acc: u64 = 0;
    let mut over = false;
    let mut i = start;
    while i < b
        invariant
            start <= i <= b <= v.len(),
            d == v@.subrange(start as int, b as int),
            d == (if s.len() > 0 && s[0] == '+' { s.drop_first() } else { s }),
            s == v@.subrange(a as int, b as int),
            d.len() > 0,
            all_digits(d.take(i - start)),
            over ==> digits_value(d.take(i - start)) > u32::MAX,
            !over ==> acc == digits_value(d.take(i - start)) && acc <= u32::MAX,
        decreases b - i,
    {
        let c = v[i];
        if !is_ascii_digit(c) {
            assert(d[i - start] == c);
            assert(!all_digits(d));
            return None;
        }
        let ghost t = d.take(i - start + 1);
        assert(t.drop_last() =~= d.take(i - start));
        assert(t.last() == c);
        let dv = (c as u32 - 48) as u64;
        if !over {
            acc = acc * 10 + dv;
            if acc > 4294967295 {
                over = true;
            }
        }
        assert(all_digits(t)) by {
            assert forall|j: int| 0 <= j < t.len() implies is_digit(#[trigger] t[j]) by {
                if j < t.len() - 1 {
                    assert(t[j] == d.take(i - start)[j]);
                }
            }
        }
        i = i + 1;
    }
    assert(d.take(b - start) =~= d);
    if over {
        None
    } else {
        Some(acc as u32)
    }
}

} // verus!
