//! Character-level helpers on strings: trimming, case-insensitive comparison,
//! substring search and decimal integer parsing, each with the meaning of the
//! standard library operation of the same name.

use vstd::prelude::*;
use vstd::string::StringExecFns;

verus! {

// ---------------------------------------------------------------------------
// Specifications
// ---------------------------------------------------------------------------

/// The Unicode `White_Space` characters: those that `char::is_whitespace`
/// accepts and that `str::trim` removes.
pub open spec fn is_space(c: char) -> bool {
    let u = c as u32;
    ||| (9 <= u && u <= 13)
    ||| u == 32
    ||| u == 0x85
    ||| u == 0xa0
    ||| u == 0x1680
    ||| (0x2000 <= u && u <= 0x200a)
    ||| u == 0x2028
    ||| u == 0x2029
    ||| u == 0x202f
    ||| u == 0x205f
    ||| u == 0x3000
}

/// `s` without its leading white space.
pub open spec fn trim_start(s: Seq<char>) -> Seq<char>
    decreases s.len(),
{
    if s.len() > 0 && is_space(s[0]) {
        trim_start(s.drop_first())
    } else {
        s
    }
}

/// `s` without its trailing white space.
pub open spec fn trim_end(s: Seq<char>) -> Seq<char>
    decreases s.len(),
{
    if s.len() > 0 && is_space(s.last()) {
        trim_end(s.drop_last())
    } else {
        s
    }
}

/// `s` without white space at either end, as `str::trim` gives it.
pub open spec fn trim(s: Seq<char>) -> Seq<char> {
    trim_end(trim_start(s))
}

/// The code of `c` with an ASCII upper-case letter mapped to lower case.
pub open spec fn ascii_lower_code(c: char) -> u32 {
    let u = c as u32;
    if 65 <= u && u <= 90 {
        (u + 32) as u32
    } else {
        u
    }
}

/// ASCII case-insensitive equality, as `str::eq_ignore_ascii_case` decides it.
pub open spec fn eq_ignore_ascii_case(a: Seq<char>, b: Seq<char>) -> bool {
    &&& a.len() == b.len()
    &&& forall|i: int| 0 <= i < a.len() ==> ascii_lower_code(#[trigger] a[i]) == ascii_lower_code(
        b[i],
    )
}

/// `needle` occurs in `hay` as a contiguous piece, as `str::contains` decides it.
pub open spec fn has_substring(hay: Seq<char>, needle: Seq<char>) -> bool {
    exists|i: int|
        0 <= i && i + needle.len() <= hay.len() && #[trigger] hay.subrange(i, i + needle.len())
            == needle
}

/// Position of the first `c` in `s`; `s.len()` when there is none.
pub open spec fn index_of(s: Seq<char>, c: char) -> int
    decreases s.len(),
{
    if s.len() == 0 {
        0
    } else if s[0] == c {
        0
    } else {
        1 + index_of(s.drop_first(), c)
    }
}

/// An ASCII decimal digit.
pub open spec fn is_digit(c: char) -> bool {
    48 <= (c as u32) && (c as u32) <= 57
}

/// The value of an ASCII decimal digit.
pub open spec fn digit_value(c: char) -> int {
    (c as u32) - 48
}

/// Why a string is not a decimal `i32`, in the classes of `core::num::IntErrorKind`.
#[derive(PartialEq, Eq, Structural, Clone, Copy, Debug)]
pub enum IntErrorKind {
    /// The string is empty.
    Empty,
    /// A character that is not a digit where a digit is due, or a lone sign.
    InvalidDigit,
    /// The value is above `i32::MAX`.
    PosOverflow,
    /// The value is below `i32::MIN`.
    NegOverflow,
}

/// Reads the digits of `d` after the value `acc` read so far, stopping at the
/// first character that is not a digit or that takes the value out of range.
pub open spec fn scan_digits(d: Seq<char>, negative: bool, acc: int) -> Result<int, IntErrorKind>
    decreases d.len(),
{
    if d.len() == 0 {
        Ok(acc)
    } else if !is_digit(d[0]) {
        Err(IntErrorKind::InvalidDigit)
    } else {
        let v = if negative {
            acc * 10 - digit_value(d[0])
        } else {
            acc * 10 + digit_value(d[0])
        };
        if v > i32::MAX {
            Err(IntErrorKind::PosOverflow)
        } else if v < i32::MIN {
            Err(IntErrorKind::NegOverflow)
        } else {
            scan_digits(d.drop_first(), negative, v)
        }
    }
}

/// What `str::parse::<i32>` gives for `s`: an optional `+` or `-` followed by
/// decimal digits, whose value must lie in the range of `i32`.
pub open spec fn parse_i32(s: Seq<char>) -> Result<i32, IntErrorKind> {
    if s.len() == 0 {
        Err(IntErrorKind::Empty)
    } else if (s[0] == '+' || s[0] == '-') && s.len() == 1 {
        Err(IntErrorKind::InvalidDigit)
    } else {
        let negative = s[0] == '-';
        let digits = if s[0] == '+' || s[0] == '-' {
            s.drop_first()
        } else {
            s
        };
        scan_result(scan_digits(digits, negative, 0))
    }
}

/// The `i32` result of a completed digit scan.
pub open spec fn scan_result(r: Result<int, IntErrorKind>) -> Result<i32, IntErrorKind> {
    match r {
        Ok(v) => Ok(v as i32),
        Err(k) => Err(k),
    }
}

// ---------------------------------------------------------------------------
// Lemmas
// ---------------------------------------------------------------------------

/// The position `index_of` gives holds `c`, and no earlier one does.
pub proof fn lemma_index_of(s: Seq<char>, c: char)
    ensures
        0 <= index_of(s, c) <= s.len(),
        index_of(s, c) < s.len() ==> s[index_of(s, c)] == c,
        forall|j: int| 0 <= j < index_of(s, c) ==> s[j] != c,
    decreases s.len(),
{
    if s.len() > 0 && s[0] != c {
        lemma_index_of(s.drop_first(), c);
        assert forall|j: int| 0 <= j < index_of(s, c) implies s[j] != c by {
            if j > 0 {
                assert(s[j] == s.drop_first()[j - 1]);
            }
        }
    }
}

// ---------------------------------------------------------------------------
// Executable helpers
// ---------------------------------------------------------------------------

/// The characters of `s`, in order.
pub fn chars_of(s: &str) -> (v: Vec<char>)
    ensures
        v@ == s@,
{
    let mut v: Vec<char> = Vec::new();
    for c in it: s.chars()
        invariant
            v@ == it.seq().take(it.index() as int),
            it.seq() == s@,
    {
        v.push(c);
    }
    v
}

/// The text `prefix` followed by `rest`.
pub fn joined(prefix: &str, rest: &str) -> (r: String)
    ensures
        r@ == prefix@ + rest@,
{
    let mut r = prefix.to_owned();
    r.append(rest);
    r
}

/// A `String` holding the characters of `v`, in order.
#[verifier::external_body]
pub fn string_from_chars(v: &Vec<char>) -> (s: String)
    ensures
        s@ == v@,
{
    v.iter().collect::<String>()
}

/// The characters of `s` from position `from` up to, not including, `to`.
pub fn sub_chars(s: &Vec<char>, from: usize, to: usize) -> (r: Vec<char>)
    requires
        from <= to <= s.len(),
    ensures
        r@ == s@.subrange(from as int, to as int),
{
    let mut r: Vec<char> = Vec::new();
    let mut i = from;
    while i < to
        invariant
            from <= i <= to <= s.len(),
            r@ == s@.subrange(from as int, i as int),
        decreases to - i,
    {
        r.push(s[i]);
        i = i + 1;
    }
    r
}

/// Whether `c` is white space, as `char::is_whitespace` decides it.
pub fn is_space_char(c: char) -> (b: bool)
    ensures
        b == is_space(c),
{
    let u = c as u32;
    (9 <= u && u <= 13) || u == 32 || u == 0x85 || u == 0xa0 || u == 0x1680 || (0x2000 <= u && u
        <= 0x200a) || u == 0x2028 || u == 0x2029 || u == 0x202f || u == 0x205f || u == 0x3000
}

/// `s` without white space at either end.
pub fn trim_chars(s: &Vec<char>) -> (r: Vec<char>)
    ensures
        r@ == trim(s@),
{
    let len = s.len();
    let mut i: usize = 0;
    assert(s@.skip(0) =~= s@);
    while i < len && is_space_char(s[i])
        invariant
            i <= len == s.len(),
            trim_start(s@) == trim_start(s@.skip(i as int)),
        decreases len - i,
    {
        assert(s@.skip(i as int).drop_first() =~= s@.skip(i + 1));
        i = i + 1;
    }
    assert(trim_start(s@) == s@.subrange(i as int, len as int)) by {
        assert(s@.skip(i as int) =~= s@.subrange(i as int, len as int));
    }
    let mut j: usize = len;
    while j > i && is_space_char(s[j - 1])
        invariant
            i <= j <= len == s.len(),
            trim(s@) == trim_end(s@.subrange(i as int, j as int)),
        decreases j - i,
    {
        assert(s@.subrange(i as int, j as int).drop_last() =~= s@.subrange(i as int, j - 1));
        j = j - 1;
    }
    sub_chars(s, i, j)
}

/// The ASCII lower-case code of `c`.
pub fn ascii_lower_code_of(c: char) -> (u: u32)
    ensures
        u == ascii_lower_code(c),
{
    let u = c as u32;
    if 65 <= u && u <= 90 {
        u + 32
    } else {
        u
    }
}

/// Whether `a` and `b` are equal when ASCII letters are compared without case.
pub fn eq_ignore_ascii_case_chars(a: &Vec<char>, b: &Vec<char>) -> (r: bool)
    ensures
        r == eq_ignore_ascii_case(a@, b@),
{
    if a.len() != b.len() {
        return false;
    }
    let mut i: usize = 0;
    while i < a.len()
        invariant
            i <= a.len() == b.len(),
            forall|k: int| 0 <= k < i ==> ascii_lower_code(#[trigger] a@[k]) == ascii_lower_code(
                b@[k],
            ),
        decreases a.len() - i,
    {
        if ascii_lower_code_of(a[i]) != ascii_lower_code_of(b[i]) {
            return false;
        }
        i = i + 1;
    }
    true
}

/// Whether `needle` occurs in `hay`.
pub fn contains_chars(hay: &Vec<char>, needle: &Vec<char>) -> (r: bool)
    ensures
        r == has_substring(hay@, needle@),
{
    if needle.len() == 0 {
        assert(hay@.subrange(0, 0 + needle.len()) =~= needle@);
        return true;
    }
    if needle.len() > hay.len() {
        return false;
    }
    let last = hay.len() - needle.len();
    let mut i: usize = 0;
    while i <= last
        invariant
            last + needle.len() == hay.len(),
            needle.len() >= 1,
            i <= last + 1,
            forall|k: int|
                0 <= k < i ==> #[trigger] hay@.subrange(k, k + needle.len()) != needle@,
        decreases last + 1 - i,
    {
        let mut j: usize = 0;
        let mut same = true;
        while j < needle.len()
            invariant
                i <= last,
                last + needle.len() == hay.len(),
                j <= needle.len(),
                same ==> forall|m: int| 0 <= m < j ==> hay@[i + m] == needle@[m],
                !same ==> hay@.subrange(i as int, i + needle.len()) != needle@,
            decreases needle.len() - j,
        {
            if same && hay[i + j] != needle[j] {
                same = false;
                assert(hay@.subrange(i as int, i + needle.len())[j as int] != needle@[j as int]);
            }
            j = j + 1;
        }
        if same {
            assert(hay@.subrange(i as int, i + needle.len()) =~= needle@);
            return true;
        }
        i = i + 1;
    }
    proof {
        if has_substring(hay@, needle@) {
            let k = choose|k: int|
                0 <= k && k + needle.len() <= hay.len() && #[trigger] hay@.subrange(
                    k,
                    k + needle.len(),
                ) == needle@;
            assert(hay@.subrange(k, k + needle.len()) != needle@);
        }
    }
    false
}

/// The position of the first `c` in `s`, or `s.len()` when there is none.
pub fn index_of_char(s: &Vec<char>, c: char) -> (k: usize)
    ensures
        k == index_of(s@, c),
{
    proof {
        lemma_index_of(s@, c);
    }
    let mut k: usize = 0;
    assert(s@.skip(0) =~= s@);
    while k < s.len() && s[k] != c
        invariant
            k <= s.len(),
            index_of(s@, c) == k + index_of(s@.skip(k as int), c),
        decreases s.len() - k,
    {
        assert(s@.skip(k as int).drop_first() =~= s@.skip(k + 1));
        k = k + 1;
    }
    k
}

/// Parses `s` as a decimal `i32`, as `str::parse::<i32>` does.
pub fn parse_i32_chars(s: &Vec<char>) -> (r: Result<i32, IntErrorKind>)
    ensures
        r == parse_i32(s@),
{
    let len = s.len();
    if len == 0 {
        return Err(IntErrorKind::Empty);
    }
    let first = s[0];
    if (first == '+' || first == '-') && len == 1 {
        return Err(IntErrorKind::InvalidDigit);
    }
    let negative = first == '-';
    let start: usize = if first == '+' || first == '-' {
        1
    } else {
        0
    };
    let ghost digits = if first == '+' || first == '-' {
        s@.drop_first()
    } else {
        s@
    };
    assert(digits =~= s@.skip(start as int));
    assert(parse_i32(s@) == scan_result(scan_digits(s@.skip(start as int), negative, 0)));
    let mut acc: i64 = 0;
    let mut i = start;
    while i < len
        invariant
            start <= i <= len == s.len(),
            i32::MIN <= acc <= i32::MAX,
            parse_i32(s@) == scan_result(scan_digits(s@.skip(i as int), negative, acc as int)),
        decreases len - i,
    {
        let c = s[i];
        assert(s@.skip(i as int)[0] == c);
        let u = c as u32;
        if u < 48 || u > 57 {
            return Err(IntErrorKind::InvalidDigit);
        }
        let d = (u - 48) as i64;
        let v = if negative {
            acc * 10 - d
        } else {
            acc * 10 + d
        };
        if v > i32::MAX as i64 {
            return Err(IntErrorKind::PosOverflow);
        }
        if v < i32::MIN as i64 {
            return Err(IntErrorKind::NegOverflow);
        }
        assert(s@.skip(i as int).drop_first() =~= s@.skip(i + 1));
        acc = v;
        i = i + 1;
    }
    assert(s@.skip(len as int).len() == 0);
    Ok(acc as i32)
}


// ---------------------------------------------------------------------------
// Decimal text of integers
// ---------------------------------------------------------------------------

/// The ASCII digit of a value below ten.
pub open spec fn digit_char(d: int) -> char {
    (48 + d) as char
}

/// The decimal digits of `n`, most significant first, without leading
/// zeros ("0" for zero).
pub open spec fn digits_of(n: nat) -> Seq<char>
    decreases n,
{
    if n < 10 {
        seq![digit_char(n as int)]
    } else {
        digits_of(n / 10) + seq![digit_char((n % 10) as int)]
    }
}

/// The decimal text of `v`, as `Display` writes an integer: a '-' before a
/// negative value.
pub open spec fn int_text(v: int) -> Seq<char> {
    if v < 0 {
        seq!['-'] + digits_of((-v) as nat)
    } else {
        digits_of(v as nat)
    }
}

/// The digits of `n` appended to `out`.
fn push_digits(out: &mut Vec<char>, n: u64)
    ensures
        final(out)@ == old(out)@ + digits_of(n as nat),
    decreases n,
{
    if n >= 10 {
        push_digits(out, n / 10);
    }
    let d = (n % 10) as u8;
    let c = (48u8 + d) as char;
    assert(c == digit_char((n % 10) as int));
    out.push(c);
    proof {
        if n >= 10 {
            assert(final(out)@ =~= old(out)@ + digits_of(n as nat));
        } else {
            assert(final(out)@ =~= old(out)@ + digits_of(n as nat));
        }
    }
}

/// The decimal text of `v`.
pub fn int_to_text(v: i64) -> (r: String)
    ensures
        r@ == int_text(v as int),
{
    let mut out: Vec<char> = Vec::new();
    if v < 0 {
        out.push('-');
        let magnitude: u64 = if v == i64::MIN {
            9223372036854775808u64
        } else {
            (-v) as u64
        };
        push_digits(&mut out, magnitude);
    } else {
        push_digits(&mut out, v as u64);
    }
    assert(out@ =~= int_text(v as int));
    string_from_chars(&out)
}

} // verus!
