//! Character-level text helpers shared by the tools: whitespace trimming,
//! decimal integer parsing, case mapping, joining and substring search.
//!
//! Text is handled as `Vec<char>` / `Seq<char>`; the only conversions between
//! `str`/`String` and character vectors go through the two small wrappers at
//! the top of this file.
use vstd::prelude::*;
use vstd::utf8::*;

verus! {

// ---------------------------------------------------------------------------
// Conversions
// ---------------------------------------------------------------------------

/// `str::chars` collected into a vector: the characters of `s`, in order.
#[verifier::external_body]
pub(crate) fn chars_of(s: &str) -> (r: Vec<char>)
    ensures
        r@ == s@,
{
    s.chars().collect()
}

/// `String::from_iter` over a slice of characters: the string made of exactly
/// those characters, in order.
#[verifier::external_body]
pub(crate) fn string_of(v: &[char]) -> (r: String)
    ensures
        r@ == v@,
{
    v.iter().collect()
}

/// `String::from_utf8`: succeeds exactly on valid UTF-8, and then holds the
/// decoded characters (std documents both).
#[verifier::external_body]
pub(crate) fn utf8_to_string(bytes: Vec<u8>) -> (r: Option<String>)
    ensures
        r is Some <==> valid_utf8(bytes@),
        r matches Some(s) ==> s@ == decode_utf8(bytes@),
{
    String::from_utf8(bytes).ok()
}

/// The UTF-8 bytes of a string.
pub fn utf8_bytes(s: &str) -> (r: Vec<u8>)
    ensures
        r@ == encode_utf8(s@),
{
    vstd::slice::slice_to_vec(s.as_bytes())
}

/// The sub-vector `v[from..to]`.
pub fn sub_chars(v: &[char], from: usize, to: usize) -> (r: Vec<char>)
    requires
        from <= to <= v@.len(),
    ensures
        r@ == v@.subrange(from as int, to as int),
{
    let mut r: Vec<char> = Vec::new();
    let mut i = from;
    while i < to
        invariant
            from <= i <= to <= v@.len(),
            r@ == v@.subrange(from as int, i as int),
        decreases to - i,
    {
        r.push(v[i]);
        i += 1;
    }
    r
}

// ---------------------------------------------------------------------------
// Whitespace and trimming (`char::is_whitespace`, `str::trim`)
// ---------------------------------------------------------------------------

/// The Unicode `White_Space` property, which is what `char::is_whitespace`
/// tests: U+0009..U+000D, U+0020, U+0085, U+00A0, U+1680, U+2000..U+200A,
/// U+2028, U+2029, U+202F, U+205F and U+3000.
pub open spec fn is_whitespace_spec(c: char) -> bool {
    let u = c as u32;
    ||| 0x9 <= u <= 0xD
    ||| u == 0x20
    ||| u == 0x85
    ||| u == 0xA0
    ||| u == 0x1680
    ||| 0x2000 <= u <= 0x200A
    ||| u == 0x2028
    ||| u == 0x2029
    ||| u == 0x202F
    ||| u == 0x205F
    ||| u == 0x3000
}

pub fn is_whitespace(c: char) -> (r: bool)
    ensures
        r == is_whitespace_spec(c),
{
    let u = c as u32;
    (0x9 <= u && u <= 0xD) || u == 0x20 || u == 0x85 || u == 0xA0 || u == 0x1680 || (0x2000 <= u
        && u <= 0x200A) || u == 0x2028 || u == 0x2029 || u == 0x202F || u == 0x205F || u == 0x3000
}

/// `s` without its leading whitespace.
pub open spec fn trim_start_spec(s: Seq<char>) -> Seq<char>
    decreases s.len(),
{
    if s.len() > 0 && is_whitespace_spec(s[0]) {
        trim_start_spec(s.drop_first())
    } else {
        s
    }
}

/// `s` without its trailing whitespace.
pub open spec fn trim_end_spec(s: Seq<char>) -> Seq<char>
    decreases s.len(),
{
    if s.len() > 0 && is_whitespace_spec(s.last()) {
        trim_end_spec(s.drop_last())
    } else {
        s
    }
}

/// `s` without leading and trailing whitespace, as `str::trim` gives it.
pub open spec fn trim_spec(s: Seq<char>) -> Seq<char> {
    trim_end_spec(trim_start_spec(s))
}

/// Text that holds no whitespace at all.
pub open spec fn has_no_whitespace(s: Seq<char>) -> bool {
    forall|i: int| 0 <= i < s.len() ==> !is_whitespace_spec(#[trigger] s[i])
}

proof fn lemma_trim_start_skip(s: Seq<char>, i: int)
    requires
        0 <= i <= s.len(),
        forall|k: int| 0 <= k < i ==> is_whitespace_spec(#[trigger] s[k]),
    ensures
        trim_start_spec(s) == trim_start_spec(s.subrange(i, s.len() as int)),
    decreases i,
{
    if i > 0 {
        assert(is_whitespace_spec(s[0]));
        let t = s.drop_first();
        assert forall|k: int| 0 <= k < i - 1 implies is_whitespace_spec(#[trigger] t[k]) by {
            assert(t[k] == s[k + 1]);
        }
        lemma_trim_start_skip(t, i - 1);
        assert(t.subrange(i - 1, t.len() as int) =~= s.subrange(i, s.len() as int));
    } else {
        assert(s.subrange(0, s.len() as int) =~= s);
    }
}

proof fn lemma_trim_end_skip(s: Seq<char>, j: int)
    requires
        0 <= j <= s.len(),
        forall|k: int| j <= k < s.len() ==> is_whitespace_spec(#[trigger] s[k]),
    ensures
        trim_end_spec(s) == trim_end_spec(s.subrange(0, j)),
    decreases s.len() - j,
{
    if j < s.len() {
        assert(is_whitespace_spec(s[s.len() - 1]));
        let t = s.drop_last();
        assert forall|k: int| j <= k < t.len() implies is_whitespace_spec(#[trigger] t[k]) by {
            assert(t[k] == s[k]);
        }
        lemma_trim_end_skip(t, j);
        assert(t.subrange(0, j) =~= s.subrange(0, j));
    } else {
        assert(s.subrange(0, j) =~= s);
    }
}

/// Text without whitespace is left alone by trimming.
pub proof fn lemma_trim_no_whitespace(s: Seq<char>)
    requires
        has_no_whitespace(s),
    ensures
        trim_spec(s) == s,
{
    if s.len() > 0 {
        assert(!is_whitespace_spec(s[0]));
        assert(!is_whitespace_spec(s[s.len() - 1]));
    }
}

/// The characters of `v` with leading and trailing whitespace removed.
pub fn trim_chars(v: &[char]) -> (r: Vec<char>)
    ensures
        r@ == trim_spec(v@),
{
    let n = v.len();
    let mut i: usize = 0;
    while i < n && is_whitespace(v[i])
        invariant
            0 <= i <= n == v@.len(),
            forall|k: int| 0 <= k < i ==> is_whitespace_spec(#[trigger] v@[k]),
        decreases n - i,
    {
        i += 1;
    }
    let mut j: usize = n;
    while j > i && is_whitespace(v[j - 1])
        invariant
            0 <= i <= j <= n == v@.len(),
            forall|k: int| j <= k < n ==> is_whitespace_spec(#[trigger] v@[k]),
        decreases j,
    {
        j -= 1;
    }
    proof {
        let s = v@;
        lemma_trim_start_skip(s, i as int);
        let t = s.subrange(i as int, n as int);
        // after skipping, the first character (if any) is not whitespace
        assert(trim_start_spec(t) == t);
        assert forall|k: int| j - i <= k < t.len() implies is_whitespace_spec(#[trigger] t[k]) by {
            assert(t[k] == s[k + i]);
        }
        lemma_trim_end_skip(t, j - i);
        let u = t.subrange(0, j - i);
        assert(u =~= s.subrange(i as int, j as int));
        if u.len() > 0 {
            assert(u.last() == s[j - 1]);
        }
        assert(trim_end_spec(u) == u);
    }
    sub_chars(v, i, j)
}

/// `str::trim`, as an owned string.
pub fn trim(s: &str) -> (r: String)
    ensures
        r@ == trim_spec(s@),
{
    let v = chars_of(s);
    let t = trim_chars(v.as_slice());
    string_of(t.as_slice())
}

// ---------------------------------------------------------------------------
// Decimal integers (`i64::from_str`)
// ---------------------------------------------------------------------------

pub open spec fn is_digit(c: char) -> bool {
    '0' <= c <= '9'
}

pub open spec fn digit_value(c: char) -> int {
    c as int - '0' as int
}

pub open spec fn all_digits(s: Seq<char>) -> bool {
    forall|i: int| 0 <= i < s.len() ==> is_digit(#[trigger] s[i])
}

/// The number that a string of decimal digits spells.
pub open spec fn digits_value(s: Seq<char>) -> int
    decreases s.len(),
{
    if s.len() == 0 {
        0
    } else {
        digits_value(s.drop_last()) * 10 + digit_value(s.last())
    }
}

/// The value of a mathematical integer written in decimal, with an optional
/// leading `+` or `-`, when the text is such a numeral.
pub open spec fn decimal_value(s: Seq<char>) -> Option<int> {
    let (negative, digits) = if s.len() > 0 && s[0] == '-' {
        (true, s.drop_first())
    } else if s.len() > 0 && s[0] == '+' {
        (false, s.drop_first())
    } else {
        (false, s)
    };
    if digits.len() == 0 || !all_digits(digits) {
        None
    } else if negative {
        Some(-digits_value(digits))
    } else {
        Some(digits_value(digits))
    }
}

/// What `i64::from_str` accepts and gives: an optionally signed run of at
/// least one decimal digit whose value fits in an `i64`.
pub open spec fn parse_i64_spec(s: Seq<char>) -> Option<i64> {
    match decimal_value(s) {
        Some(v) => if i64::MIN <= v <= i64::MAX {
            Some(v as i64)
        } else {
            None
        },
        None => None,
    }
}

proof fn lemma_digits_value_nonneg(s: Seq<char>)
    requires
        all_digits(s),
    ensures
        digits_value(s) >= 0,
    decreases s.len(),
{
    if s.len() > 0 {
        lemma_digits_value_nonneg(s.drop_last());
        assert(is_digit(s[s.len() - 1]));
    }
}

proof fn lemma_digits_value_prefix(s: Seq<char>, k: int)
    requires
        all_digits(s),
        0 <= k <= s.len(),
    ensures
        digits_value(s.take(k)) <= digits_value(s),
    decreases s.len() - k,
{
    if k < s.len() {
        let t = s.drop_last();
        assert forall|i: int| 0 <= i < t.len() implies is_digit(#[trigger] t[i]) by {
            assert(t[i] == s[i]);
        }
        lemma_digits_value_prefix(t, k);
        assert(t.take(k) =~= s.take(k));
        lemma_digits_value_nonneg(t);
        assert(is_digit(s[s.len() - 1]));
    } else {
        assert(s.take(k) =~= s);
    }
}

/// `i64::from_str` on a character sequence.
pub fn parse_i64(s: &[char]) -> (r: Option<i64>)
    ensures
        r == parse_i64_spec(s@),
{
    let n = s.len();
    let mut start: usize = 0;
    let mut negative = false;
    if n > 0 && s[0] == '-' {
        start = 1;
        negative = true;
    } else if n > 0 && s[0] == '+' {
        start = 1;
    }
    let ghost digits = s@.subrange(start as int, n as int);
    proof {
        if n > 0 && (s@[0] == '-' || s@[0] == '+') {
            assert(digits =~= s@.drop_first());
        } else {
            assert(digits =~= s@);
        }
    }
    if start == n {
        return None;
    }
    // magnitude limit: 2^63 for negatives, 2^63 - 1 otherwise
    let limit: u64 = if negative {
        9223372036854775808u64
    } else {
        9223372036854775807u64
    };
    let mut acc: u64 = 0;
    let mut i: usize = start;
    while i < n
        invariant
            start <= i <= n == s@.len(),
            start < n,
            digits == s@.subrange(start as int, n as int),
            negative <==> (s@.len() > 0 && s@[0] == '-'),
            digits == (if s@.len() > 0 && (s@[0] == '-' || s@[0] == '+') {
                s@.drop_first()
            } else {
                s@
            }),
            limit == (if negative {
                9223372036854775808u64
            } else {
                9223372036854775807u64
            }),
            forall|k: int| 0 <= k < i - start ==> is_digit(#[trigger] digits[k]),
            acc as int == digits_value(digits.take(i - start)),
            acc <= limit,
        decreases n - i,
    {
        let c = s[i];
        let ghost k = i - start;
        assert(digits[k] == c);
        if !('0' <= c && c <= '9') {
            assert(!all_digits(digits));
            return None;
        }
        let d = ((c as u32) - ('0' as u32)) as u64;
        assert(digits.take(k + 1).drop_last() =~= digits.take(k));
        assert(digits.take(k + 1).last() == c);
        let next = acc.checked_mul(10);
        match next {
            Some(m) => match m.checked_add(d) {
                Some(v) => {
                    if v > limit {
                        proof {
                            lemma_reject_when_prefix_large(digits, k + 1, limit as int);
                            lemma_parse_reject(s@, negative, digits);
                        }
                        return None;
                    }
                    acc = v;
                },
                None => {
                    proof {
                        lemma_reject_when_prefix_large(digits, k + 1, limit as int);
                        lemma_parse_reject(s@, negative, digits);
                    }
                    return None;
                },
            },
            None => {
                proof {
                    lemma_reject_when_prefix_large(digits, k + 1, limit as int);
                    lemma_parse_reject(s@, negative, digits);
                }
                return None;
            },
        }
        i += 1;
    }
    assert(digits.take(n - start) =~= digits);
    if negative {
        if acc == 9223372036854775808u64 {
            Some(i64::MIN)
        } else {
            Some(-(acc as i64))
        }
    } else {
        Some(acc as i64)
    }
}

/// When a prefix of a digit string already exceeds `limit` (the prefix holding
/// digits only), either the whole string is not all digits or its value
/// exceeds `limit` too.
proof fn lemma_reject_when_prefix_large(digits: Seq<char>, k: int, limit: int)
    requires
        0 < k <= digits.len(),
        forall|x: int| 0 <= x < k - 1 ==> is_digit(#[trigger] digits[x]),
        is_digit(digits[k - 1]),
        digits_value(digits.take(k)) > limit,
    ensures
        all_digits(digits) ==> digits_value(digits) > limit,
{
    if all_digits(digits) {
        lemma_digits_value_prefix(digits, k);
    }
}

/// A numeral whose digits are not all digits, or whose magnitude exceeds what
/// the sign allows, is rejected.
proof fn lemma_parse_reject(s: Seq<char>, negative: bool, digits: Seq<char>)
    requires
        digits.len() > 0,
        negative <==> (s.len() > 0 && s[0] == '-'),
        digits == (if s.len() > 0 && (s[0] == '-' || s[0] == '+') {
            s.drop_first()
        } else {
            s
        }),
        all_digits(digits) ==> digits_value(digits) > (if negative {
            9223372036854775808int
        } else {
            9223372036854775807int
        }),
    ensures
        parse_i64_spec(s) is None,
{
}

// ---------------------------------------------------------------------------
// ASCII case mapping
// ---------------------------------------------------------------------------

pub open spec fn ascii_upper_char(c: char) -> char {
    if 'a' <= c <= 'z' {
        ((c as u32 - 32) as u8) as char
    } else {
        c
    }
}

/// Every ASCII lowercase letter replaced by its uppercase form.
pub open spec fn ascii_upper(s: Seq<char>) -> Seq<char> {
    Seq::new(s.len(), |i: int| ascii_upper_char(s[i]))
}

pub fn to_ascii_uppercase(v: &[char]) -> (r: Vec<char>)
    ensures
        r@ == ascii_upper(v@),
{
    let mut r: Vec<char> = Vec::new();
    let mut i: usize = 0;
    while i < v.len()
        invariant
            i <= v@.len(),
            r@ =~= ascii_upper(v@).take(i as int),
        decreases v@.len() - i,
    {
        let c = v[i];
        let u = if 'a' <= c && c <= 'z' {
            (((c as u32) - 32) as u8) as char
        } else {
            c
        };
        r.push(u);
        i += 1;
    }
    r
}

// ---------------------------------------------------------------------------
// Joining and searching
// ---------------------------------------------------------------------------

/// The parts written one after the other with `sep` between neighbours, as
/// `[T]::join` gives it.
pub open spec fn join_spec(parts: Seq<Seq<char>>, sep: Seq<char>) -> Seq<char>
    decreases parts.len(),
{
    if parts.len() == 0 {
        Seq::empty()
    } else if parts.len() == 1 {
        parts[0]
    } else {
        join_spec(parts.drop_last(), sep) + sep + parts.last()
    }
}

/// `[T]::join`: the parts with `sep` between neighbours.
pub fn join_chars(parts: &Vec<Vec<char>>, sep: &[char]) -> (r: Vec<char>)
    ensures
        r@ == join_spec(parts@.map_values(|p: Vec<char>| p@), sep@),
{
    let mut r: Vec<char> = Vec::new();
    let mut i: usize = 0;
    while i < parts.len()
        invariant
            i <= parts@.len(),
            r@ == join_spec(parts@.map_values(|p: Vec<char>| p@).take(i as int), sep@),
        decreases parts@.len() - i,
    {
        let ghost prev = r@;
        if i > 0 {
            let mut k: usize = 0;
            while k < sep.len()
                invariant
                    k <= sep@.len(),
                    r@ == prev + sep@.take(k as int),
                decreases sep@.len() - k,
            {
                r.push(sep[k]);
                k += 1;
                assert(r@ =~= prev + sep@.take(k as int));
            }
        }
        let ghost mid = r@;
        let part = &parts[i];
        let mut k: usize = 0;
        while k < part.len()
            invariant
                k <= part@.len(),
                r@ == mid + part@.take(k as int),
            decreases part@.len() - k,
        {
            r.push(part[k]);
            k += 1;
            assert(r@ =~= mid + part@.take(k as int));
        }
        proof {
            let all = parts@.map_values(|p: Vec<char>| p@);
            let t = all.take(i + 1);
            assert(t.drop_last() =~= all.take(i as int));
            assert(t.last() == part@);
            assert(part@.take(part@.len() as int) =~= part@);
            assert(sep@.take(sep@.len() as int) =~= sep@);
            if i == 0 {
                assert(all.take(0) =~= Seq::<Seq<char>>::empty());
                assert(r@ =~= part@);
            } else {
                assert(r@ =~= prev + sep@ + part@);
            }
        }
        i += 1;
    }
    assert(parts@.map_values(|p: Vec<char>| p@).take(parts@.len() as int) =~= parts@.map_values(
        |p: Vec<char>| p@,
    ));
    r
}

/// `needle` occurs in `hay` starting at position `i`.
pub open spec fn occurs_at(hay: Seq<char>, needle: Seq<char>, i: int) -> bool {
    0 <= i && i + needle.len() <= hay.len() && hay.subrange(i, i + needle.len()) == needle
}

/// `needle` occurs somewhere in `hay` (`str::contains` with a string pattern).
pub open spec fn contains_spec(hay: Seq<char>, needle: Seq<char>) -> bool {
    exists|i: int| occurs_at(hay, needle, i)
}

pub fn contains_chars(hay: &[char], needle: &[char]) -> (r: bool)
    ensures
        r == contains_spec(hay@, needle@),
{
    let n = hay.len();
    let m = needle.len();
    if m == 0 {
        assert(hay@.subrange(0, 0) =~= needle@);
        assert(occurs_at(hay@, needle@, 0));
        return true;
    }
    if m > n {
        return false;
    }
    let mut i: usize = 0;
    while i <= n - m
        invariant
            0 < m <= n == hay@.len(),
            m == needle@.len(),
            forall|k: int| 0 <= k < i ==> !occurs_at(hay@, needle@, k),
        decreases n - m + 1 - i,
    {
        let mut j: usize = 0;
        let mut same = true;
        while j < m
            invariant
                j <= m == needle@.len(),
                i + m <= n == hay@.len(),
                same ==> forall|t: int| 0 <= t < j ==> hay@[i + t] == needle@[t],
                !same ==> !occurs_at(hay@, needle@, i as int),
            decreases m - j,
        {
            if hay[i + j] != needle[j] {
                same = false;
                proof {
                    assert(hay@.subrange(i as int, i + m)[j as int] == hay@[i + j]);
                }
            }
            j += 1;
        }
        if same {
            assert(hay@.subrange(i as int, i + m) =~= needle@);
            assert(occurs_at(hay@, needle@, i as int));
            return true;
        }
        i += 1;
    }
    assert forall|k: int| !occurs_at(hay@, needle@, k) by {
        if 0 <= k && k + m <= n {
            assert(k < i);
        }
    }
    false
}


/// The first position at or after `i` where `needle` occurs in `hay`.
pub open spec fn first_occurrence_from(hay: Seq<char>, needle: Seq<char>, i: int) -> Option<int>
    decreases hay.len() + 1 - i,
{
    if i < 0 || i + needle.len() > hay.len() {
        None
    } else if occurs_at(hay, needle, i) {
        Some(i)
    } else {
        first_occurrence_from(hay, needle, i + 1)
    }
}

/// The first position where `needle` occurs in `hay` (`str::find`).
pub open spec fn first_occurrence(hay: Seq<char>, needle: Seq<char>) -> Option<int> {
    first_occurrence_from(hay, needle, 0)
}

/// Whether `needle` occurs in `hay` at position `i`.
fn occurs_at_exec(hay: &[char], needle: &[char], i: usize) -> (r: bool)
    requires
        i + needle@.len() <= hay@.len(),
    ensures
        r == occurs_at(hay@, needle@, i as int),
{
    let m = needle.len();
    let n = hay.len();
    let mut j: usize = 0;
    while j < m
        invariant
            j <= m == needle@.len(),
            n == hay@.len(),
            i + m <= hay@.len(),
            forall|t: int| 0 <= t < j ==> hay@[i + t] == needle@[t],
        decreases m - j,
    {
        assert(i + j < hay@.len());
        if hay[i + j] != needle[j] {
            proof {
                assert(hay@.subrange(i as int, i + m)[j as int] == hay@[i + j]);
            }
            return false;
        }
        j += 1;
    }
    assert(hay@.subrange(i as int, i + m) =~= needle@);
    true
}

/// The first position where `needle` occurs in `hay`.
pub fn find_chars(hay: &[char], needle: &[char]) -> (r: Option<usize>)
    ensures
        match r {
            Some(i) => first_occurrence(hay@, needle@) == Some(i as int),
            None => first_occurrence(hay@, needle@) is None,
        },
{
    let n = hay.len();
    let m = needle.len();
    if m == 0 {
        assert(hay@.subrange(0, 0) =~= needle@);
        return Some(0);
    }
    if m > n {
        return None;
    }
    let mut i: usize = 0;
    while i <= n - m
        invariant
            1 <= m <= n == hay@.len(),
            m == needle@.len(),
            i <= n - m + 1,
            first_occurrence(hay@, needle@) == first_occurrence_from(hay@, needle@, i as int),
        decreases n - m + 1 - i,
    {
        if occurs_at_exec(hay, needle, i) {
            return Some(i);
        }
        i += 1;
    }
    None
}

// ---------------------------------------------------------------------------
// Unsigned integers (`u32::from_str`) and zero-padded decimals (`{:0w}`)
// ---------------------------------------------------------------------------

/// What `u32::from_str` accepts and gives: an optional `+` and at least one
/// decimal digit, with a value that fits in a `u32` (no `-` for unsigned).
pub open spec fn parse_u32_spec(s: Seq<char>) -> Option<u32> {
    if s.len() > 0 && s[0] == '-' {
        None
    } else {
        match decimal_value(s) {
            Some(v) => if 0 <= v <= u32::MAX {
                Some(v as u32)
            } else {
                None
            },
            None => None,
        }
    }
}

/// `u32::from_str` on a character sequence.
pub fn parse_u32(s: &[char]) -> (r: Option<u32>)
    ensures
        r == parse_u32_spec(s@),
{
    if s.len() > 0 && s[0] == '-' {
        return None;
    }
    match parse_i64(s) {
        Some(v) => {
            if 0 <= v && v <= 4294967295 {
                Some(v as u32)
            } else {
                None
            }
        },
        None => {
            proof {
                if let Some(v) = decimal_value(s@) {
                    assert(!(i64::MIN <= v <= i64::MAX));
                    if s@.len() > 0 && s@[0] == '+' {
                        lemma_digits_value_nonneg(s@.drop_first());
                    } else {
                        lemma_digits_value_nonneg(s@);
                    }
                }
            }
            None
        },
    }
}

/// The decimal digit for a value below ten.
pub open spec fn digit_char(d: int) -> char {
    (('0' as int) + d) as char
}

/// The decimal digits of a natural number, most significant first.
pub open spec fn decimal_digits(n: nat) -> Seq<char>
    decreases n,
{
    if n < 10 {
        seq![digit_char(n as int)]
    } else {
        decimal_digits(n / 10).push(digit_char((n % 10) as int))
    }
}

/// The digit character of a value below ten.
fn digit_of(d: u64) -> (c: char)
    requires
        d < 10,
    ensures
        c == digit_char(d as int),
{
    match d {
        0 => '0',
        1 => '1',
        2 => '2',
        3 => '3',
        4 => '4',
        5 => '5',
        6 => '6',
        7 => '7',
        8 => '8',
        _ => '9',
    }
}

/// The decimal digits of a number.
pub fn decimal_chars(n: u64) -> (r: Vec<char>)
    ensures
        r@ == decimal_digits(n as nat),
    decreases n,
{
    let c = digit_of(n % 10);
    if n < 10 {
        let mut r: Vec<char> = Vec::new();
        r.push(c);
        assert(r@ =~= seq![digit_char(n as int)]);
        r
    } else {
        let mut r = decimal_chars(n / 10);
        r.push(c);
        r
    }
}

/// An integer written as `format!("{:0w$}")` writes it: a `-` for a
/// negative value, then zeros up to the width, then the digits.
pub open spec fn zero_padded(v: int, width: nat) -> Seq<char> {
    let sign: Seq<char> = if v < 0 {
        seq!['-']
    } else {
        Seq::empty()
    };
    let digits = decimal_digits((if v < 0 {
        -v
    } else {
        v
    }) as nat);
    let pad: int = width - sign.len() - digits.len();
    sign + Seq::new((if pad > 0 {
        pad
    } else {
        0
    }) as nat, |i: int| '0') + digits
}

/// `format!("{:0w$}", v)` for a 64-bit integer.
pub fn zero_padded_chars(v: i64, width: usize) -> (r: Vec<char>)
    ensures
        r@ == zero_padded(v as int, width as nat),
{
    let magnitude: u64 = if v < 0 {
        if v == i64::MIN {
            9223372036854775808u64
        } else {
            (0 - v) as u64
        }
    } else {
        v as u64
    };
    let mut digits = decimal_chars(magnitude);
    let mut r: Vec<char> = Vec::new();
    if v < 0 {
        r.push('-');
    }
    let sign_len = r.len();
    let ghost sign = r@;
    if sign_len < width && digits.len() < width - sign_len {
        let used = sign_len + digits.len();
        let mut k: usize = 0;
        while k < width - used
            invariant
                used < width,
                used == sign.len() + digits@.len(),
                r@.len() == sign.len() + k,
                r@.subrange(0, sign.len() as int) == sign,
                forall|t: int| sign.len() <= t < r@.len() ==> r@[t] == '0',
                k <= width - used,
            decreases width - used - k,
        {
            r.push('0');
            k += 1;
        }
    }
    let ghost padded = r@;
    r.append(&mut digits);
    proof {
        let pad: int = width - sign.len() - decimal_digits(magnitude as nat).len();
        let zeros = Seq::new((if pad > 0 {
            pad
        } else {
            0
        }) as nat, |i: int| '0');
        assert(padded =~= sign + zeros);
        assert(r@ =~= sign + zeros + decimal_digits(magnitude as nat));
    }
    r
}


/// Decimal digits are digits.
pub proof fn lemma_decimal_digits_are_digits(n: nat)
    ensures
        decimal_digits(n).len() >= 1,
        forall|i: int| 0 <= i < decimal_digits(n).len() ==> is_digit(#[trigger] decimal_digits(n)[i]),
    decreases n,
{
    if n >= 10 {
        lemma_decimal_digits_are_digits(n / 10);
    }
}

/// A zero-padded number is digits, after a `-` when it is negative.
pub proof fn lemma_zero_padded_shape(v: int, width: nat)
    ensures
        zero_padded(v, width).len() >= 1,
        v < 0 ==> zero_padded(v, width)[0] == '-',
        forall|i: int|
            0 <= i < zero_padded(v, width).len() && (v >= 0 || i > 0) ==> is_digit(
                #[trigger] zero_padded(v, width)[i],
            ),
{
    let sign: Seq<char> = if v < 0 {
        seq!['-']
    } else {
        Seq::empty()
    };
    let digits = decimal_digits((if v < 0 {
        -v
    } else {
        v
    }) as nat);
    lemma_decimal_digits_are_digits((if v < 0 {
        -v
    } else {
        v
    }) as nat);
    let pad: int = width - sign.len() - digits.len();
    let zeros = Seq::new((if pad > 0 {
        pad
    } else {
        0
    }) as nat, |i: int| '0');
    let s = sign + zeros + digits;
    assert(zero_padded(v, width) == s);
    assert forall|i: int| 0 <= i < s.len() && (v >= 0 || i > 0) implies is_digit(#[trigger] s[i]) by {
        if i < sign.len() {
        } else if i < sign.len() + zeros.len() {
            assert(s[i] == zeros[i - sign.len()]);
        } else {
            assert(s[i] == digits[i - sign.len() - zeros.len()]);
        }
    }
}

/// Where `needle` occurs at `p` and nowhere before, `p` is its first
/// occurrence.
pub proof fn lemma_first_occurrence_at(hay: Seq<char>, needle: Seq<char>, p: int)
    requires
        occurs_at(hay, needle, p),
        forall|j: int| 0 <= j < p ==> !occurs_at(hay, needle, j),
    ensures
        first_occurrence(hay, needle) == Some(p),
{
    lemma_first_occurrence_from_at(hay, needle, p, 0);
}

proof fn lemma_first_occurrence_from_at(hay: Seq<char>, needle: Seq<char>, p: int, i: int)
    requires
        0 <= i <= p,
        occurs_at(hay, needle, p),
        forall|j: int| 0 <= j < p ==> !occurs_at(hay, needle, j),
    ensures
        first_occurrence_from(hay, needle, i) == Some(p),
    decreases p - i,
{
    if i < p {
        lemma_first_occurrence_from_at(hay, needle, p, i + 1);
    }
}

} // verus!
