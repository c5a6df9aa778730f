//! Verified text utilities: whitespace trimming and decimal parsing.

use vstd::prelude::*;
use vstd::string::StrSliceExecFns;

verus! {

/// Whether `c` has the Unicode `White_Space` property, the set of characters
/// the standard trimming functions remove.
pub open spec fn is_ws_char(c: char) -> bool {
    let u = c as u32;
    (0x9 <= u <= 0xd) || u == 0x20 || u == 0x85 || u == 0xa0 || u == 0x1680 || (0x2000 <= u
        <= 0x200a) || u == 0x2028 || u == 0x2029 || u == 0x202f || u == 0x205f || u == 0x3000
}

/// Decides [`is_ws_char`].
pub fn is_ws(c: char) -> (r: bool)
    ensures
        r == is_ws_char(c),
{
    let u = c as u32;
    (0x9 <= u && u <= 0xd) || u == 0x20 || u == 0x85 || u == 0xa0 || u == 0x1680 || (0x2000 <= u
        && u <= 0x200a) || u == 0x2028 || u == 0x2029 || u == 0x202f || u == 0x205f || u == 0x3000
}

/// The first index at or after `i` holding a non-whitespace character, or the
/// length of `s` if there is none.
pub open spec fn first_non_ws(s: Seq<char>, i: int) -> int
    decreases s.len() - i,
{
    if i < 0 || i >= s.len() {
        s.len() as int
    } else if is_ws_char(s[i]) {
        first_non_ws(s, i + 1)
    } else {
        i
    }
}

/// The index one past the last non-whitespace character strictly before `j`,
/// or `0` if there is none.
pub open spec fn last_non_ws_end(s: Seq<char>, j: int) -> int
    decreases j,
{
    if j <= 0 || j > s.len() {
        0
    } else if is_ws_char(s[j - 1]) {
        last_non_ws_end(s, j - 1)
    } else {
        j
    }
}

/// `s` with leading and trailing whitespace removed.
pub open spec fn trim_spec(s: Seq<char>) -> Seq<char> {
    let a = first_non_ws(s, 0);
    if a == s.len() {
        Seq::empty()
    } else {
        s.subrange(a, last_non_ws_end(s, s.len() as int))
    }
}

/// Removes leading and trailing whitespace from a string.
pub fn trimmed(s: String) -> (r: String)
    ensures
        r@ == trim_spec(s@),
{
    let st = s.as_str();
    let n = st.unicode_len();
    let mut a: usize = 0;
    while a < n && is_ws(st.get_char(a))
        invariant
            0 <= a <= n,
            n == st@.len(),
            st@ == s@,
            first_non_ws(st@, 0) == first_non_ws(st@, a as int),
        decreases n - a,
    {
        a = a + 1;
    }
    assert(first_non_ws(st@, a as int) == a || (a == n && first_non_ws(st@, a as int) == n));
    if a == n {
        assert(trim_spec(s@) =~= Seq::<char>::empty());
        return String::new();
    }
    let mut b: usize = n;
    while b > a && is_ws(st.get_char(b - 1))
        invariant
            a < b <= n,
            n == st@.len(),
            st@ == s@,
            a < n,
            first_non_ws(st@, 0) == a,
            !is_ws_char(st@[a as int]),
            last_non_ws_end(st@, n as int) == last_non_ws_end(st@, b as int),
        decreases b,
    {
        b = b - 1;
    }
    assert(last_non_ws_end(st@, b as int) == b);
    st.substring_char(a, b).to_owned()
}

/// Whether `c` is an ASCII decimal digit.
pub open spec fn is_digit_char(c: char) -> bool {
    0x30 <= c as u32 <= 0x39
}

/// The numeric value of a digit character.
pub open spec fn digit_val(c: char) -> int {
    c as u32 - 0x30
}

/// The integer denoted by a sequence of digit characters, most significant
/// first.  Meaningful only when every character is a digit.
pub open spec fn digits_val(s: Seq<char>) -> int
    decreases s.len(),
{
    if s.len() == 0 {
        0
    } else {
        digits_val(s.drop_last()) * 10 + digit_val(s.last())
    }
}

/// Whether every character of `s` is an ASCII decimal digit.
pub open spec fn all_digits(s: Seq<char>) -> bool {
    forall|i: int| 0 <= i < s.len() ==> is_digit_char(#[trigger] s[i])
}

/// The value of a digit sequence never shrinks as digits are appended.
proof fn lemma_digits_val_monotone(s: Seq<char>, i: int)
    requires
        0 <= i <= s.len(),
        all_digits(s),
    ensures
        digits_val(s.subrange(0, i)) <= digits_val(s),
        digits_val(s) >= 0,
    decreases s.len(),
{
    if s.len() == 0 {
    } else {
        lemma_digits_val_monotone(s.drop_last(), if i < s.len() { i } else { i - 1 });
        if i < s.len() {
            assert(s.subrange(0, i) == s.drop_last().subrange(0, i));
        } else {
            assert(s.subrange(0, i) == s);
        }
    }
}

/// What `u32` parsing returns on `s`: the denoted value when `s` is an
/// optional leading `+` followed by at least one digit and the value fits,
/// `None` otherwise.
pub open spec fn parse_u32_spec(s: Seq<char>) -> Option<u32> {
    let digits = if s.len() > 0 && s[0] == '+' {
        s.drop_first()
    } else {
        s
    };
    if digits.len() > 0 && all_digits(digits) && digits_val(digits) <= u32::MAX {
        Some(digits_val(digits) as u32)
    } else {
        None
    }
}

/// Parses an unsigned decimal integer, accepting exactly an optional leading
/// `+` followed by one or more ASCII digits denoting a value that fits.
pub fn parse_u32(s: &[char]) -> (r: Option<u32>)
    ensures
        r == parse_u32_spec(s@),
{
    let ghost whole: Seq<char> = s@;
    let mut start: usize = 0;
    if s.len() > 0 && s[0] == '+' {
        start = 1;
        assert(whole.drop_first() =~= whole.subrange(1, whole.len() as int));
    }
    let ghost digits: Seq<char> = s@.subrange(start as int, s@.len() as int);
    assert(digits =~= (if whole.len() > 0 && whole[0] == '+' {
        whole.drop_first()
    } else {
        whole
    }));
    if start == s.len() {
        return None;
    }
    let mut acc: u64 = 0;
    let mut i: usize = start;
    while i < s.len()
        invariant
            start <= i <= s.len(),
            digits == s@.subrange(start as int, s@.len() as int),
            digits == (if s@.len() > 0 && s@[0] == '+' {
                s@.drop_first()
            } else {
                s@
            }),
            digits.len() > 0,
            all_digits(s@.subrange(start as int, i as int)),
            acc == digits_val(s@.subrange(start as int, i as int)),
            acc <= u32::MAX,
        decreases s.len() - i,
    {
        let c = s[i];
        let u = c as u32;
        if !(0x30 <= u && u <= 0x39) {
            proof {
                assert(digits[i - start] == s@[i as int]);
                assert(!is_digit_char(digits[i - start]));
            }
            return None;
        }
        assert(s@.subrange(start as int, i + 1).drop_last() =~= s@.subrange(
            start as int,
            i as int,
        ));
        acc = acc * 10 + (u - 0x30) as u64;
        i = i + 1;
        if acc > u32::MAX as u64 {
            proof {
                if all_digits(digits) {
                    lemma_digits_val_monotone(digits, i - start);
                    assert(digits.subrange(0, i - start) =~= s@.subrange(start as int, i as int));
                }
            }
            return None;
        }
    }
    assert(s@.subrange(start as int, i as int) =~= digits);
    Some(acc as u32)
}

/// The characters of `s`, in order.
pub fn chars_vec(s: &str) -> (r: Vec<char>)
    ensures
        r@ == s@,
{
    let n = s.unicode_len();
    let mut r: Vec<char> = Vec::new();
    let mut i: usize = 0;
    while i < n
        invariant
            0 <= i <= n,
            n == s@.len(),
            r@ == s@.subrange(0, i as int),
        decreases n - i,
    {
        r.push(s.get_char(i));
        assert(r@ =~= s@.subrange(0, i + 1));
        i = i + 1;
    }
    assert(r@ =~= s@);
    r
}

/// The first index at or after `i` holding the character `c`, or the length
/// of `s` if there is none.
pub open spec fn find_char(s: Seq<char>, c: char, i: int) -> int
    decreases s.len() - i,
{
    if i < 0 || i >= s.len() {
        s.len() as int
    } else if s[i] == c {
        i
    } else {
        find_char(s, c, i + 1)
    }
}

/// Ten to the `n`.
pub open spec fn pow10(n: nat) -> int
    decreases n,
{
    if n == 0 {
        1
    } else {
        10 * pow10((n - 1) as nat)
    }
}

/// Where [`find_char`] lands: at or after `j`, and no later than the length.
pub proof fn lemma_find_char_bounds(s: Seq<char>, c: char, j: int)
    requires
        0 <= j <= s.len(),
    ensures
        j <= find_char(s, c, j) <= s.len(),
    decreases s.len() - j,
{
    if j < s.len() && s[j] != c {
        lemma_find_char_bounds(s, c, j + 1);
    }
}

/// The number of milliseconds denoted by the fraction digits of a seconds
/// value: digits past the third contribute nothing, missing ones count as
/// zero.  Meaningful only when every character is a digit.
pub open spec fn frac_millis(frac: Seq<char>) -> int {
    if frac.len() >= 3 {
        digits_val(frac.subrange(0, 3))
    } else {
        digits_val(frac) * pow10((3 - frac.len()) as nat)
    }
}

/// `v` forced into the `i64` range.
pub open spec fn clamp_i64(v: int) -> i64 {
    if v > i64::MAX {
        i64::MAX
    } else if v < i64::MIN {
        i64::MIN
    } else {
        v as i64
    }
}

/// What parsing a plain decimal seconds value into milliseconds returns: an
/// optional sign, then digits with at most one point and at least one digit,
/// denote their value in milliseconds, truncated toward zero to whole
/// milliseconds and forced into the `i64` range; anything else is rejected.
pub open spec fn parse_seconds_millis_spec(s: Seq<char>) -> Option<i64> {
    let neg = s.len() > 0 && s[0] == '-';
    let body = if s.len() > 0 && (s[0] == '+' || s[0] == '-') {
        s.drop_first()
    } else {
        s
    };
    let k = find_char(body, '.', 0);
    let int_part = body.subrange(0, k);
    let frac_part = if k == body.len() {
        Seq::<char>::empty()
    } else {
        body.subrange(k + 1, body.len() as int)
    };
    if (int_part.len() > 0 || frac_part.len() > 0) && all_digits(int_part) && all_digits(
        frac_part,
    ) {
        let mag = digits_val(int_part) * 1000 + frac_millis(frac_part);
        Some(clamp_i64(if neg { -mag } else { mag }))
    } else {
        None
    }
}

/// Parses a decimal seconds value into whole milliseconds, as
/// [`parse_seconds_millis_spec`] describes.
pub fn parse_seconds_millis(s: &[char]) -> (r: Option<i64>)
    ensures
        r == parse_seconds_millis_spec(s@),
{
    let ghost whole: Seq<char> = s@;
    let mut start: usize = 0;
    let mut neg = false;
    if s.len() > 0 && (s[0] == '+' || s[0] == '-') {
        neg = s[0] == '-';
        start = 1;
        assert(whole.drop_first() =~= whole.subrange(1, whole.len() as int));
    }
    let ghost body: Seq<char> = s@.subrange(start as int, s@.len() as int);
    assert(body =~= (if whole.len() > 0 && (whole[0] == '+' || whole[0] == '-') {
        whole.drop_first()
    } else {
        whole
    }));

    // Integer part: digits up to the first point or the end.
    let mut acc: u128 = 0;
    let mut big = false;
    let mut i: usize = start;
    while i < s.len() && s[i] != '.'
        invariant
            start <= i <= s.len(),
            body == s@.subrange(start as int, s@.len() as int),
            body == (if s@.len() > 0 && (s@[0] == '+' || s@[0] == '-') {
                s@.drop_first()
            } else {
                s@
            }),
            find_char(body, '.', 0) == find_char(body, '.', i - start),
            all_digits(body.subrange(0, i - start)),
            !big ==> acc == digits_val(body.subrange(0, i - start)) && acc <= i64::MAX,
            big ==> digits_val(body.subrange(0, i - start)) > i64::MAX,
        decreases s.len() - i,
    {
        let c = s[i];
        let u = c as u32;
        if !(0x30 <= u && u <= 0x39) {
            proof {
                assert(body[i - start] == s@[i as int]);
                assert(!is_digit_char(body[i - start]));
                let k = find_char(body, '.', 0);
                lemma_find_char_bounds(body, '.', i + 1 - start);
                assert(k == find_char(body, '.', i + 1 - start));
                assert(i - start < k);
                assert(!is_digit_char(body.subrange(0, k)[i - start]));
            }
            return None;
        }
        proof {
            assert(body.subrange(0, i + 1 - start).drop_last() =~= body.subrange(0, i - start));
        }
        if !big {
            acc = acc * 10 + (u - 0x30) as u128;
            if acc > i64::MAX as u128 {
                big = true;
            }
        }
        i = i + 1;
    }
    let ghost k: int = find_char(body, '.', 0);
    proof {
        assert(k == i - start);
        assert(body.subrange(0, i - start) =~= body.subrange(0, k));
    }
    let int_len = i - start;

    // Fraction part: digits after the point; only the first three carry.
    let mut f: u32 = 0;
    let mut fcnt: usize = 0;
    let ghost frac: Seq<char> = if k == body.len() {
        Seq::<char>::empty()
    } else {
        body.subrange(k + 1, body.len() as int)
    };
    if i < s.len() {
        // Skip the point.
        i = i + 1;
        while i < s.len()
            invariant
                start < i <= s.len(),
                body == s@.subrange(start as int, s@.len() as int),
                body == (if s@.len() > 0 && (s@[0] == '+' || s@[0] == '-') {
                    s@.drop_first()
                } else {
                    s@
                }),
                k == find_char(body, '.', 0),
                0 <= k < body.len(),
                frac == body.subrange(k + 1, body.len() as int),
                fcnt == i - start - 1 - k,
                0 <= fcnt <= frac.len(),
                all_digits(frac.subrange(0, fcnt as int)),
                fcnt <= 3 ==> f == digits_val(frac.subrange(0, fcnt as int)),
                fcnt > 3 ==> f == digits_val(frac.subrange(0, 3)),
                f <= 999,
                fcnt == 0 ==> f == 0,
                fcnt == 1 ==> f <= 9,
                fcnt == 2 ==> f <= 99,
            decreases s.len() - i,
        {
            let c = s[i];
            let u = c as u32;
            proof {
                assert(frac[fcnt as int] == body[k + 1 + fcnt]);
                assert(body[k + 1 + fcnt] == s@[i as int]);
            }
            if !(0x30 <= u && u <= 0x39) {
                proof {
                    assert(!is_digit_char(frac[fcnt as int]));
                }
                return None;
            }
            proof {
                assert(frac.subrange(0, fcnt + 1).drop_last() =~= frac.subrange(0, fcnt as int));
            }
            if fcnt < 3 {
                f = f * 10 + (u - 0x30);
            }
            fcnt = fcnt + 1;
            i = i + 1;
        }
        proof {
            assert(frac.subrange(0, fcnt as int) =~= frac);
        }
    }
    if int_len == 0 && fcnt == 0 {
        return None;
    }

    // Pad a short fraction to thousandths.
    if fcnt == 0 {
        f = 0;
    } else if fcnt == 1 {
        f = f * 100;
    } else if fcnt == 2 {
        f = f * 10;
    }
    proof {
        reveal_with_fuel(pow10, 4);
        assert(pow10(0) == 1 && pow10(1) == 10 && pow10(2) == 100 && pow10(3) == 1000);
        assert(frac.len() == fcnt);
        if fcnt >= 3 {
            assert(f == digits_val(frac.subrange(0, 3)));
            assert(frac_millis(frac) == digits_val(frac.subrange(0, 3)));
        } else {
            assert(frac.subrange(0, fcnt as int) =~= frac);
            if fcnt == 0 {
                assert(digits_val(frac) == 0);
                assert(frac_millis(frac) == 0);
                assert(f == 0);
            } else if fcnt == 1 {
                assert(frac_millis(frac) == digits_val(frac) * 100);
            } else {
                assert(frac_millis(frac) == digits_val(frac) * 10);
            }
        }
        assert(f == frac_millis(frac));
    }

    let ghost mag_spec: int = digits_val(body.subrange(0, k)) * 1000 + frac_millis(frac);
    if big {
        assert(mag_spec > i64::MAX);
        if neg {
            return Some(i64::MIN);
        } else {
            return Some(i64::MAX);
        }
    }
    let mag: u128 = acc * 1000 + f as u128;
    assert(mag == mag_spec);
    if mag > i64::MAX as u128 {
        if neg {
            return Some(i64::MIN);
        } else {
            return Some(i64::MAX);
        }
    }
    if neg {
        Some(-(mag as i64))
    } else {
        Some(mag as i64)
    }
}

} // verus!
