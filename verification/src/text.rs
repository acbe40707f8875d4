//! Character-level text helpers shared by every validator and parser.

use vstd::prelude::*;
use vstd::string::*;

verus! {

/// Unicode `White_Space`: the characters that `str::trim` strips.
pub open spec fn is_whitespace(c: char) -> bool {
    let u = c as u32;
    ||| (0x09 <= u && u <= 0x0d)
    ||| u == 0x20
    ||| u == 0x85
    ||| u == 0xa0
    ||| u == 0x1680
    ||| (0x2000 <= u && u <= 0x200a)
    ||| u == 0x2028
    ||| u == 0x2029
    ||| u == 0x202f
    ||| u == 0x205f
    ||| u == 0x3000
}

/// Executable counterpart of [`is_whitespace`].
pub fn char_is_whitespace(c: char) -> (b: bool)
    ensures
        b == is_whitespace(c),
{
    let u = c as u32;
    (0x09 <= u && u <= 0x0d) || u == 0x20 || u == 0x85 || u == 0xa0 || u == 0x1680
        || (0x2000 <= u && u <= 0x200a) || u == 0x2028 || u == 0x2029 || u == 0x202f
        || u == 0x205f || u == 0x3000
}

/// `s` with its leading whitespace removed.
pub open spec fn trim_start(s: Seq<char>) -> Seq<char>
    decreases s.len(),
{
    if s.len() > 0 && is_whitespace(s[0]) {
        trim_start(s.drop_first())
    } else {
        s
    }
}

/// `s` with its trailing whitespace removed.
pub open spec fn trim_end(s: Seq<char>) -> Seq<char>
    decreases s.len(),
{
    if s.len() > 0 && is_whitespace(s.last()) {
        trim_end(s.drop_last())
    } else {
        s
    }
}

/// `s` with whitespace removed from both ends, as `str::trim` does.
pub open spec fn trim(s: Seq<char>) -> Seq<char> {
    trim_end(trim_start(s))
}

/// Number of bytes of the UTF-8 encoding of `s` (what `str::len` reports).
pub open spec fn utf8_len(s: Seq<char>) -> nat {
    vstd::utf8::encode_utf8(s).len()
}

proof fn lemma_trim_start_at(s: Seq<char>, a: int)
    requires
        0 <= a <= s.len(),
        forall|i: int| 0 <= i < a ==> is_whitespace(#[trigger] s[i]),
        a == s.len() || !is_whitespace(s[a]),
    ensures
        trim_start(s) == s.subrange(a, s.len() as int),
    decreases a,
{
    if a == 0 {
        assert(s.subrange(0, s.len() as int) =~= s);
    } else {
        let t = s.drop_first();
        assert forall|i: int| 0 <= i < a - 1 implies is_whitespace(#[trigger] t[i]) by {
            assert(t[i] == s[i + 1]);
        }
        lemma_trim_start_at(t, a - 1);
        assert(t.subrange(a - 1, t.len() as int) =~= s.subrange(a, s.len() as int));
    }
}

proof fn lemma_trim_end_at(s: Seq<char>, b: int)
    requires
        0 <= b <= s.len(),
        forall|i: int| b <= i < s.len() ==> is_whitespace(#[trigger] s[i]),
        b == 0 || !is_whitespace(s[b - 1]),
    ensures
        trim_end(s) == s.subrange(0, b),
    decreases s.len() - b,
{
    if b == s.len() {
        assert(s.subrange(0, b) =~= s);
    } else {
        let t = s.drop_last();
        assert forall|i: int| b <= i < t.len() implies is_whitespace(#[trigger] t[i]) by {
            assert(t[i] == s[i]);
        }
        lemma_trim_end_at(t, b);
        assert(t.subrange(0, b) =~= s.subrange(0, b));
    }
}

/// The characters of `s`, in order.
pub fn chars_of(s: &str) -> (v: Vec<char>)
    ensures
        v@ == s@,
{
    let n = s.unicode_len();
    let mut v: Vec<char> = Vec::new();
    let mut i: usize = 0;
    while i < n
        invariant
            n == s@.len(),
            i <= n,
            v@ == s@.subrange(0, i as int),
        decreases n - i,
    {
        v.push(s.get_char(i));
        i = i + 1;
        assert(v@ =~= s@.subrange(0, i as int));
    }
    assert(s@.subrange(0, n as int) =~= s@);
    v
}

/// Bounds `(a, b)` of the whitespace-trimmed part of `cs[lo..hi]`.
pub fn trim_bounds(cs: &Vec<char>, lo: usize, hi: usize) -> (r: (usize, usize))
    requires
        lo <= hi <= cs@.len(),
    ensures
        lo <= r.0 <= r.1 <= hi,
        cs@.subrange(r.0 as int, r.1 as int) == trim(cs@.subrange(lo as int, hi as int)),
{
    let mut a: usize = lo;
    while a < hi && char_is_whitespace(cs[a])
        invariant
            lo <= a <= hi <= cs@.len(),
            forall|i: int| lo <= i < a ==> is_whitespace(#[trigger] cs@[i]),
        decreases hi - a,
    {
        a = a + 1;
    }
    let mut b: usize = hi;
    while b > a && char_is_whitespace(cs[b - 1])
        invariant
            lo <= a <= b <= hi <= cs@.len(),
            forall|i: int| b <= i < hi ==> is_whitespace(#[trigger] cs@[i]),
        decreases b - a,
    {
        b = b - 1;
    }
    proof {
        let s = cs@.subrange(lo as int, hi as int);
        assert forall|i: int| 0 <= i < a - lo implies is_whitespace(#[trigger] s[i]) by {
            assert(s[i] == cs@[i + lo]);
        }
        if a < hi {
            assert(s[a - lo] == cs@[a as int]);
        }
        lemma_trim_start_at(s, a - lo);
        let t = s.subrange(a - lo, s.len() as int);
        assert(t =~= cs@.subrange(a as int, hi as int));
        assert forall|i: int| b - a <= i < t.len() implies is_whitespace(#[trigger] t[i]) by {
            assert(t[i] == cs@[i + a]);
        }
        if b > a {
            assert(t[b - a - 1] == cs@[b - 1]);
        }
        lemma_trim_end_at(t, b - a);
        assert(t.subrange(0, b - a) =~= cs@.subrange(a as int, b as int));
    }
    (a, b)
}

/// `s` without leading and trailing whitespace (`str::trim`).
pub fn trim_str(s: &str) -> (r: &str)
    ensures
        r@ == trim(s@),
{
    let cs = chars_of(s);
    let (a, b) = trim_bounds(&cs, 0, cs.len());
    proof {
        assert(cs@.subrange(0, cs@.len() as int) =~= cs@);
    }
    s.substring_char(a, b)
}

/// Whether two strings hold the same characters.
pub fn str_eq(a: &str, b: &str) -> (r: bool)
    ensures
        r == (a@ == b@),
{
    let ca = chars_of(a);
    let cb = chars_of(b);
    if ca.len() != cb.len() {
        return false;
    }
    let mut i: usize = 0;
    while i < ca.len()
        invariant
            ca@ == a@,
            cb@ == b@,
            ca@.len() == cb@.len(),
            i <= ca@.len(),
            forall|j: int| 0 <= j < i ==> ca@[j] == cb@[j],
        decreases ca@.len() - i,
    {
        if ca[i] != cb[i] {
            return false;
        }
        i = i + 1;
    }
    assert(a@ =~= b@);
    true
}

/// Whether `c` is an ASCII decimal digit.
pub open spec fn is_digit(c: char) -> bool {
    48 <= (c as u32) && (c as u32) <= 57
}

/// Whether every character of `s` is an ASCII decimal digit.
pub open spec fn all_digits(s: Seq<char>) -> bool {
    forall|i: int| 0 <= i < s.len() ==> is_digit(#[trigger] s[i])
}

/// The decimal value of a digit string (leading zeros allowed).
pub open spec fn decimal_value(s: Seq<char>) -> nat
    decreases s.len(),
{
    if s.len() == 0 {
        0
    } else {
        (decimal_value(s.drop_last()) * 10 + ((s.last() as u32) - 48)) as nat
    }
}

/// What `u32::from_str` gives for `s`: an optional `+`, then one or more
/// ASCII digits whose value fits.
pub open spec fn parse_u32_text(s: Seq<char>) -> Option<u32> {
    let body = if s.len() > 0 && s[0] == '+' {
        s.drop_first()
    } else {
        s
    };
    if body.len() > 0 && all_digits(body) && decimal_value(body) <= u32::MAX {
        Some(decimal_value(body) as u32)
    } else {
        None
    }
}

/// What `i32::from_str` gives for `s`: an optional `+` or `-`, then one or
/// more ASCII digits whose signed value fits.
pub open spec fn parse_i32_text(s: Seq<char>) -> Option<i32> {
    if s.len() > 0 && s[0] == '-' {
        let body = s.drop_first();
        if body.len() > 0 && all_digits(body) && decimal_value(body) <= 0x8000_0000 {
            Some((0 - decimal_value(body)) as i32)
        } else {
            None
        }
    } else {
        let body = if s.len() > 0 && s[0] == '+' {
            s.drop_first()
        } else {
            s
        };
        if body.len() > 0 && all_digits(body) && decimal_value(body) <= i32::MAX {
            Some(decimal_value(body) as i32)
        } else {
            None
        }
    }
}

/// Index of the first character of `s` equal to `c1` or `c2`.
pub open spec fn first_of(s: Seq<char>, c1: char, c2: char) -> Option<int>
    decreases s.len(),
{
    if s.len() == 0 {
        None
    } else if s[0] == c1 || s[0] == c2 {
        Some(0)
    } else {
        match first_of(s.drop_first(), c1, c2) {
            Some(i) => Some(i + 1),
            None => None,
        }
    }
}

proof fn lemma_first_of_at(s: Seq<char>, c1: char, c2: char, k: int)
    requires
        0 <= k <= s.len(),
        forall|i: int| 0 <= i < k ==> #[trigger] s[i] != c1 && s[i] != c2,
        k < s.len() ==> (s[k] == c1 || s[k] == c2),
    ensures
        first_of(s, c1, c2) == (if k < s.len() { Some(k) } else { None::<int> }),
    decreases k,
{
    if k > 0 {
        let t = s.drop_first();
        assert forall|i: int| 0 <= i < k - 1 implies #[trigger] t[i] != c1 && t[i] != c2 by {
            assert(t[i] == s[i + 1]);
        }
        if k < s.len() {
            assert(t[k - 1] == s[k]);
        }
        lemma_first_of_at(t, c1, c2, k - 1);
    }
}

/// Where [`first_of`] points: a matching character with none before it.
pub proof fn lemma_first_of_bounds(s: Seq<char>, c1: char, c2: char)
    ensures
        match first_of(s, c1, c2) {
            Some(d) => 0 <= d < s.len() && (s[d] == c1 || s[d] == c2)
                && forall|i: int| 0 <= i < d ==> #[trigger] s[i] != c1 && s[i] != c2,
            None => forall|i: int| 0 <= i < s.len() ==> #[trigger] s[i] != c1 && s[i] != c2,
        },
    decreases s.len(),
{
    if s.len() > 0 && s[0] != c1 && s[0] != c2 {
        let t = s.drop_first();
        lemma_first_of_bounds(t, c1, c2);
        assert forall|i: int| 1 <= i < s.len() implies s[i] == t[i - 1] by {}
    }
}

/// First index in `cs[lo..hi]` holding `c1` or `c2`, relative to `lo`.
pub fn find_first_of(cs: &Vec<char>, lo: usize, hi: usize, c1: char, c2: char) -> (r: Option<usize>)
    requires
        lo <= hi <= cs@.len(),
    ensures
        r matches Some(k) ==> lo + k < hi && (cs@[lo + k] == c1 || cs@[lo + k] == c2),
        match r {
            Some(k) => first_of(cs@.subrange(lo as int, hi as int), c1, c2) == Some(k as int),
            None => first_of(cs@.subrange(lo as int, hi as int), c1, c2) is None,
        },
{
    let mut i: usize = lo;
    while i < hi && cs[i] != c1 && cs[i] != c2
        invariant
            lo <= i <= hi <= cs@.len(),
            forall|j: int| lo <= j < i ==> #[trigger] cs@[j] != c1 && cs@[j] != c2,
        decreases hi - i,
    {
        i = i + 1;
    }
    proof {
        let s = cs@.subrange(lo as int, hi as int);
        assert forall|j: int| 0 <= j < i - lo implies #[trigger] s[j] != c1 && s[j] != c2 by {
            assert(s[j] == cs@[j + lo]);
        }
        if i < hi {
            assert(s[i - lo] == cs@[i as int]);
        }
        lemma_first_of_at(s, c1, c2, i - lo);
    }
    if i < hi {
        Some(i - lo)
    } else {
        None
    }
}

proof fn lemma_decimal_value_step(s: Seq<char>, i: int)
    requires
        0 <= i < s.len(),
        is_digit(s[i]),
    ensures
        decimal_value(s.subrange(0, i + 1)) == decimal_value(s.subrange(0, i)) * 10 + ((s[i] as u32) - 48),
{
    let t = s.subrange(0, i + 1);
    assert(t.drop_last() =~= s.subrange(0, i));
}

proof fn lemma_decimal_value_monotone(s: Seq<char>, i: int, j: int)
    requires
        0 <= i <= j <= s.len(),
        all_digits(s),
    ensures
        decimal_value(s.subrange(0, i)) <= decimal_value(s.subrange(0, j)),
    decreases j - i,
{
    if i < j {
        assert(is_digit(s[j - 1]));
        lemma_decimal_value_step(s, j - 1);
        lemma_decimal_value_monotone(s, i, j - 1);
    }
}

/// Decimal value of the digit string `cs[lo..hi]`, or `None` when it is empty,
/// holds a non-digit, or exceeds `bound`.
fn decimal_up_to(cs: &Vec<char>, lo: usize, hi: usize, bound: u64) -> (r: Option<u64>)
    requires
        lo <= hi <= cs@.len(),
        bound <= 0x1_0000_0000,
    ensures
        ({
            let s = cs@.subrange(lo as int, hi as int);
            match r {
                Some(v) => s.len() > 0 && all_digits(s) && decimal_value(s) <= bound
                    && v == decimal_value(s),
                None => !(s.len() > 0 && all_digits(s) && decimal_value(s) <= bound),
            }
        }),
{
    let ghost s = cs@.subrange(lo as int, hi as int);
    if lo == hi {
        return None;
    }
    let mut value: u64 = 0;
    let mut i: usize = lo;
    while i < hi
        invariant
            lo <= i <= hi <= cs@.len(),
            s == cs@.subrange(lo as int, hi as int),
            bound <= 0x1_0000_0000,
            all_digits(s.subrange(0, i - lo)),
            value == decimal_value(s.subrange(0, i - lo)),
            value <= bound,
        decreases hi - i,
    {
        let c = cs[i];
        let u = c as u32;
        if u < 48 || u > 57 {
            proof {
                assert(s[i - lo] == c);
                assert(!is_digit(s[i - lo]));
            }
            return None;
        }
        proof {
            assert(s[i - lo] == c);
            lemma_decimal_value_step(s, i - lo);
            assert forall|j: int| 0 <= j < i - lo + 1 implies is_digit(#[trigger] s.subrange(0, i - lo + 1)[j]) by {
                if j < i - lo {
                    assert(s.subrange(0, i - lo + 1)[j] == s.subrange(0, i - lo)[j]);
                }
            }
        }
        let next: u64 = value * 10 + ((u - 48) as u64);
        if next > bound {
            proof {
                if all_digits(s) {
                    lemma_decimal_value_monotone(s, i - lo + 1, s.len() as int);
                    assert(s.subrange(0, s.len() as int) =~= s);
                }
            }
            return None;
        }
        value = next;
        i = i + 1;
    }
    proof {
        assert(s.subrange(0, s.len() as int) =~= s);
    }
    Some(value)
}

/// `u32::from_str` applied to `cs[lo..hi]`.
pub fn parse_u32_range(cs: &Vec<char>, lo: usize, hi: usize) -> (r: Option<u32>)
    requires
        lo <= hi <= cs@.len(),
    ensures
        r == parse_u32_text(cs@.subrange(lo as int, hi as int)),
{
    let ghost s = cs@.subrange(lo as int, hi as int);
    let start: usize = if lo < hi && cs[lo] == '+' {
        lo + 1
    } else {
        lo
    };
    proof {
        if lo < hi && cs@[lo as int] == '+' {
            assert(s[0] == cs@[lo as int]);
            assert(s.drop_first() =~= cs@.subrange(start as int, hi as int));
        } else {
            if lo < hi {
                assert(s[0] == cs@[lo as int]);
            }
        }
    }
    match decimal_up_to(cs, start, hi, 0xffff_ffff) {
        Some(v) => Some(v as u32),
        None => None,
    }
}

/// `i32::from_str` applied to `cs[lo..hi]`.
pub fn parse_i32_range(cs: &Vec<char>, lo: usize, hi: usize) -> (r: Option<i32>)
    requires
        lo <= hi <= cs@.len(),
    ensures
        r == parse_i32_text(cs@.subrange(lo as int, hi as int)),
{
    let ghost s = cs@.subrange(lo as int, hi as int);
    if lo < hi && cs[lo] == '-' {
        proof {
            assert(s[0] == cs@[lo as int]);
            assert(s.drop_first() =~= cs@.subrange(lo + 1, hi as int));
        }
        match decimal_up_to(cs, lo + 1, hi, 0x8000_0000) {
            Some(v) => Some((0 - (v as i64)) as i32),
            None => None,
        }
    } else {
        let start: usize = if lo < hi && cs[lo] == '+' {
            lo + 1
        } else {
            lo
        };
        proof {
            if lo < hi {
                assert(s[0] == cs@[lo as int]);
            }
            if lo < hi && cs@[lo as int] == '+' {
                assert(s.drop_first() =~= cs@.subrange(start as int, hi as int));
            }
        }
        match decimal_up_to(cs, start, hi, 0x7fff_ffff) {
            Some(v) => Some(v as i32),
            None => None,
        }
    }
}

/// Number of UTF-8 bytes that encode `c`.
pub open spec fn char_width(c: char) -> nat {
    let u = c as u32;
    if u <= 0x7f {
        1
    } else if u <= 0x7ff {
        2
    } else if u <= 0xffff {
        3
    } else {
        4
    }
}

proof fn lemma_scalar_width(c: char)
    ensures
        vstd::utf8::encode_scalar(c as u32).len() == char_width(c),
{
    vstd::utf8::char_is_scalar(c);
}

pub(crate) proof fn lemma_encode_append(a: Seq<char>, b: Seq<char>)
    ensures
        vstd::utf8::encode_utf8(a + b) == vstd::utf8::encode_utf8(a) + vstd::utf8::encode_utf8(b),
    decreases a.len(),
{
    if a.len() > 0 {
        lemma_encode_append(a.drop_first(), b);
        assert((a + b).drop_first() =~= a.drop_first() + b);
        assert(vstd::utf8::encode_utf8(a + b) =~= vstd::utf8::encode_scalar(a[0] as u32)
            + vstd::utf8::encode_utf8(a.drop_first() + b));
    } else {
        assert(a + b =~= b);
        assert(vstd::utf8::encode_utf8(a) =~= Seq::<u8>::empty());
    }
}

/// The number of leading characters of `s` whose UTF-8 encoding fits in
/// `max` bytes: all of them, or as many as fit before the first that does
/// not.
pub fn utf8_fit(s: &str, max: usize) -> (n: usize)
    ensures
        n <= s@.len(),
        utf8_len(s@.subrange(0, n as int)) <= max,
        n < s@.len() ==> utf8_len(s@.subrange(0, n + 1)) > max,
{
    let cs = chars_of(s);
    let mut total: usize = 0;
    let mut i: usize = 0;
    proof {
        assert(cs@.subrange(0, 0) =~= Seq::<char>::empty());
        assert(vstd::utf8::encode_utf8(Seq::<char>::empty()) =~= Seq::<u8>::empty());
    }
    while i < cs.len()
        invariant
            cs@ == s@,
            i <= cs@.len(),
            total == utf8_len(cs@.subrange(0, i as int)),
            total <= max,
        decreases cs@.len() - i,
    {
        let u = cs[i] as u32;
        let w: usize = if u <= 0x7f {
            1
        } else if u <= 0x7ff {
            2
        } else if u <= 0xffff {
            3
        } else {
            4
        };
        proof {
            let p = cs@.subrange(0, i as int);
            assert(cs@.subrange(0, i + 1) =~= p + seq![cs@[i as int]]);
            lemma_encode_append(p, seq![cs@[i as int]]);
            lemma_scalar_width(cs@[i as int]);
            assert(seq![cs@[i as int]].drop_first() =~= Seq::<char>::empty());
            assert(vstd::utf8::encode_utf8(seq![cs@[i as int]]) =~= vstd::utf8::encode_scalar(cs@[i as int] as u32)
                + vstd::utf8::encode_utf8(Seq::<char>::empty()));
        }
        if w > max - total {
            return i;
        }
        total = total + w;
        i = i + 1;
    }
    i
}

/// Whether the UTF-8 encoding of `s` is longer than `max` bytes.
pub fn utf8_len_exceeds(s: &str, max: usize) -> (r: bool)
    ensures
        r == (utf8_len(s@) > max),
{
    let n = utf8_fit(s, max);
    proof {
        if n < s@.len() {
            lemma_utf8_len_prefix(s@, n + 1);
        } else {
            assert(s@.subrange(0, n as int) =~= s@);
        }
    }
    n < s.unicode_len()
}

pub(crate) proof fn lemma_utf8_len_prefix(s: Seq<char>, i: int)
    requires
        0 <= i <= s.len(),
    ensures
        utf8_len(s.subrange(0, i)) <= utf8_len(s),
{
    assert(s =~= s.subrange(0, i) + s.subrange(i, s.len() as int));
    lemma_encode_append(s.subrange(0, i), s.subrange(i, s.len() as int));
}

/// What `str::to_lowercase` returns for a string.
pub uninterp spec fn str_lowercase(s: Seq<char>) -> Seq<char>;

/// Lower-cases a string.
///
/// Calls `str::to_lowercase`; the contract only names the result (Unicode
/// lower-casing is a function of the input alone).
#[verifier::external_body]
pub(crate) fn lowercase(s: &str) -> (r: String)
    ensures
        r@ == str_lowercase(s@),
{
    s.to_lowercase()
}

/// `needle` occurs in `hay` at position `i`.
pub open spec fn occurs_at(hay: Seq<char>, needle: Seq<char>, i: int) -> bool {
    0 <= i && i + needle.len() <= hay.len() && hay.subrange(i, i + needle.len()) == needle
}

/// `needle` occurs somewhere in `hay` (`str::contains`).
pub open spec fn contains_seq(hay: Seq<char>, needle: Seq<char>) -> bool {
    exists|i: int| occurs_at(hay, needle, i)
}

fn matches_at(h: &Vec<char>, n: &Vec<char>, i: usize) -> (r: bool)
    requires
        i + n@.len() <= h@.len(),
    ensures
        r == occurs_at(h@, n@, i as int),
{
    let hl = h.len();
    let mut j: usize = 0;
    while j < n.len()
        invariant
            hl == h@.len(),
            i + n@.len() <= h@.len(),
            j <= n@.len(),
            forall|k: int| 0 <= k < j ==> h@[i + k] == n@[k],
        decreases n@.len() - j,
    {
        if h[i + j] != n[j] {
            assert(h@.subrange(i as int, i + n@.len())[j as int] != n@[j as int]);
            return false;
        }
        j = j + 1;
    }
    assert(h@.subrange(i as int, i + n@.len()) =~= n@);
    true
}

/// Whether `needle` occurs in `hay`.
pub fn contains_text(hay: &str, needle: &str) -> (r: bool)
    ensures
        r == contains_seq(hay@, needle@),
{
    let h = chars_of(hay);
    let n = chars_of(needle);
    if n.len() > h.len() {
        return false;
    }
    let last = h.len() - n.len();
    let mut i: usize = 0;
    loop
        invariant
            h@ == hay@,
            n@ == needle@,
            n@.len() <= h@.len(),
            last == h@.len() - n@.len(),
            i <= last,
            forall|k: int| 0 <= k < i ==> !occurs_at(h@, n@, k),
        ensures
            forall|k: int| 0 <= k <= last ==> !occurs_at(h@, n@, k),
        decreases last - i,
    {
        if matches_at(&h, &n, i) {
            return true;
        }
        if i == last {
            break;
        }
        i = i + 1;
    }
    assert forall|k: int| !occurs_at(h@, n@, k) by {
        if k > last {
            assert(k + n@.len() > h@.len());
        }
    }
    false
}

/// `suffix` ends `s`.
pub open spec fn ends_with_seq(s: Seq<char>, suffix: Seq<char>) -> bool {
    suffix.len() <= s.len() && s.subrange(s.len() - suffix.len(), s.len() as int) == suffix
}

/// Whether `s` ends with `suffix` (`str::ends_with`).
pub fn ends_with_text(s: &str, suffix: &str) -> (r: bool)
    ensures
        r == ends_with_seq(s@, suffix@),
{
    let h = chars_of(s);
    let n = chars_of(suffix);
    if n.len() > h.len() {
        return false;
    }
    let r = matches_at(&h, &n, h.len() - n.len());
    r
}

/// `s` with every trailing `c` removed (`str::trim_end_matches(c)`).
pub open spec fn strip_trailing(s: Seq<char>, c: char) -> Seq<char>
    decreases s.len(),
{
    if s.len() > 0 && s.last() == c {
        strip_trailing(s.drop_last(), c)
    } else {
        s
    }
}

proof fn lemma_strip_trailing_at(s: Seq<char>, c: char, b: int)
    requires
        0 <= b <= s.len(),
        forall|i: int| b <= i < s.len() ==> #[trigger] s[i] == c,
        b == 0 || s[b - 1] != c,
    ensures
        strip_trailing(s, c) == s.subrange(0, b),
    decreases s.len() - b,
{
    if b == s.len() {
        assert(s.subrange(0, b) =~= s);
    } else {
        let t = s.drop_last();
        assert forall|i: int| b <= i < t.len() implies #[trigger] t[i] == c by {
            assert(t[i] == s[i]);
        }
        lemma_strip_trailing_at(t, c, b);
        assert(t.subrange(0, b) =~= s.subrange(0, b));
    }
}

/// `s` without its trailing `c` characters.
pub fn strip_trailing_char(s: &str, c: char) -> (r: &str)
    ensures
        r@ == strip_trailing(s@, c),
{
    let cs = chars_of(s);
    let mut b: usize = cs.len();
    while b > 0 && cs[b - 1] == c
        invariant
            cs@ == s@,
            b <= cs@.len(),
            forall|i: int| b <= i < cs@.len() ==> #[trigger] cs@[i] == c,
        decreases b,
    {
        b = b - 1;
    }
    proof {
        lemma_strip_trailing_at(cs@, c, b as int);
    }
    s.substring_char(0, b)
}

/// The pieces of `s` between occurrences of `c` (`str::split(c)`): one
/// more piece than there are occurrences.
pub open spec fn split_on<T>(s: Seq<T>, c: T) -> Seq<Seq<T>>
    decreases s.len(),
{
    if s.len() == 0 {
        seq![Seq::<T>::empty()]
    } else {
        let pieces = split_on(s.drop_last(), c);
        if s.last() == c {
            pieces.push(Seq::<T>::empty())
        } else {
            pieces.update(pieces.len() - 1, pieces.last().push(s.last()))
        }
    }
}

/// Splitting gives at least one piece.
pub proof fn lemma_split_on_nonempty<T>(s: Seq<T>, c: T)
    ensures
        split_on(s, c).len() >= 1,
    decreases s.len(),
{
    if s.len() > 0 {
        lemma_split_on_nonempty(s.drop_last(), c);
    }
}

/// The character sequences held by a list of strings.
pub open spec fn strings_view(v: Seq<String>) -> Seq<Seq<char>> {
    v.map_values(|x: String| x@)
}

/// The pieces of `s` between occurrences of `c`.
pub fn split_char(s: &str, c: char) -> (r: Vec<String>)
    ensures
        strings_view(r@) == split_on(s@, c),
{
    let cs = chars_of(s);
    let mut out: Vec<String> = Vec::new();
    let mut start: usize = 0;
    let mut i: usize = 0;
    proof {
        assert(cs@.subrange(0, 0) =~= Seq::<char>::empty());
        assert(strings_view(out@).push(cs@.subrange(0, 0)) =~= split_on(cs@.subrange(0, 0), c));
    }
    while i < cs.len()
        invariant
            cs@ == s@,
            start <= i <= cs@.len(),
            strings_view(out@).push(cs@.subrange(start as int, i as int)) == split_on(
                cs@.subrange(0, i as int),
                c,
            ),
        decreases cs@.len() - i,
    {
        let ghost prefix = cs@.subrange(0, i + 1);
        proof {
            assert(prefix.drop_last() =~= cs@.subrange(0, i as int));
            assert(prefix.last() == cs@[i as int]);
            lemma_split_on_nonempty(cs@.subrange(0, i as int), c);
        }
        if cs[i] == c {
            let ghost before = strings_view(out@);
            let piece = String::from_str(s.substring_char(start, i));
            out.push(piece);
            proof {
                assert(strings_view(out@) =~= before.push(cs@.subrange(start as int, i as int)));
                assert(cs@.subrange(i + 1, i + 1) =~= Seq::<char>::empty());
            }
            start = i + 1;
        } else {
            proof {
                assert(cs@.subrange(start as int, i + 1) =~= cs@.subrange(start as int, i as int).push(
                    cs@[i as int],
                ));
                assert(strings_view(out@).push(cs@.subrange(start as int, i + 1)) =~= split_on(
                    cs@.subrange(0, i as int),
                    c,
                ).update(
                    split_on(cs@.subrange(0, i as int), c).len() - 1,
                    split_on(cs@.subrange(0, i as int), c).last().push(cs@[i as int]),
                ));
            }
        }
        i = i + 1;
    }
    out.push(String::from_str(s.substring_char(start, cs.len())));
    proof {
        assert(cs@.subrange(0, cs@.len() as int) =~= cs@);
    }
    out
}

} // verus!
