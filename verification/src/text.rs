//! Decimal text for numbers, as Rust's `{}` formatting writes them.

use vstd::prelude::*;

use crate::time::TICKS_PER_SECOND;

verus! {

/// The character of the digit `d` (`0 <= d < 10`).
pub open spec fn digit_char(d: nat) -> char {
    if d == 0 {
        '0'
    } else if d == 1 {
        '1'
    } else if d == 2 {
        '2'
    } else if d == 3 {
        '3'
    } else if d == 4 {
        '4'
    } else if d == 5 {
        '5'
    } else if d == 6 {
        '6'
    } else if d == 7 {
        '7'
    } else if d == 8 {
        '8'
    } else {
        '9'
    }
}

/// The decimal digits of `n`, without leading zeros (`0` is written `0`).
pub open spec fn decimal(n: nat) -> Seq<char>
    decreases n,
{
    if n < 10 {
        seq![digit_char(n)]
    } else {
        decimal(n / 10).push(digit_char(n % 10))
    }
}

/// The decimal digits of `n`, padded with leading zeros to at least `width`.
pub open spec fn decimal_padded(n: nat, width: nat) -> Seq<char> {
    let d = decimal(n);
    if d.len() >= width {
        d
    } else {
        Seq::new((width - d.len()) as nat, |i: int| '0') + d
    }
}

pub(crate) fn digit_str(d: u8) -> (r: &'static str)
    requires
        d < 10,
    ensures
        r@ == seq![digit_char(d as nat)],
{
    proof {
        reveal_strlit("0");
        reveal_strlit("1");
        reveal_strlit("2");
        reveal_strlit("3");
        reveal_strlit("4");
        reveal_strlit("5");
        reveal_strlit("6");
        reveal_strlit("7");
        reveal_strlit("8");
        reveal_strlit("9");
    }
    if d == 0 {
        "0"
    } else if d == 1 {
        "1"
    } else if d == 2 {
        "2"
    } else if d == 3 {
        "3"
    } else if d == 4 {
        "4"
    } else if d == 5 {
        "5"
    } else if d == 6 {
        "6"
    } else if d == 7 {
        "7"
    } else if d == 8 {
        "8"
    } else {
        "9"
    }
}

/// Appends the decimal digits of `n` to `s`.
pub fn push_decimal(s: &mut String, n: u128)
    ensures
        final(s)@ == old(s)@ + decimal(n as nat),
    decreases n,
{
    if n >= 10 {
        push_decimal(s, n / 10);
    }
    let d = (n % 10) as u8;
    s.append(digit_str(d));
    proof {
        if n >= 10 {
            assert(old(s)@ + decimal((n / 10) as nat) + seq![digit_char(d as nat)] =~= old(s)@
                + decimal(n as nat));
        } else {
            assert(decimal(n as nat) == seq![digit_char(n as nat)]);
        }
    }
}

/// The decimal text of `n`.
pub fn decimal_string(n: u128) -> (r: String)
    ensures
        r@ == decimal(n as nat),
{
    let mut s = String::new();
    push_decimal(&mut s, n);
    assert(s@ =~= decimal(n as nat));
    s
}

/// The number of decimal digits of `n`.
fn decimal_len(n: u128) -> (r: usize)
    ensures
        r == decimal(n as nat).len(),
    decreases n,
{
    proof {
        reveal_with_fuel(pow10, 40);
        assert(pow10(39) == 1_000_000_000_000_000_000_000_000_000_000_000_000_000);
        lemma_decimal_len(n as nat, 39);
    }
    if n < 10 {
        1
    } else {
        decimal_len(n / 10) + 1
    }
}

proof fn lemma_decimal_len(n: nat, k: nat)
    requires
        1 <= k,
        n < pow10(k),
    ensures
        1 <= decimal(n).len() <= k,
    decreases k,
{
    if n >= 10 {
        if k == 1 {
            assert(pow10(1) == 10 * pow10(0));
        } else {
            assert(pow10(k) == 10 * pow10((k - 1) as nat));
            assert(n / 10 < pow10((k - 1) as nat));
            lemma_decimal_len(n / 10, (k - 1) as nat);
        }
    }
}

/// Appends the decimal digits of `n` to `s`, padded with leading zeros to
/// at least `width` digits.
pub fn push_decimal_padded(s: &mut String, n: u128, width: usize)
    ensures
        final(s)@ == old(s)@ + decimal_padded(n as nat, width as nat),
{
    proof {
        reveal_strlit("0");
    }
    let len = decimal_len(n);
    let mut k = len;
    while k < width
        invariant
            len == decimal(n as nat).len(),
            len <= k,
            k <= width || k == len,
            s@ == old(s)@ + Seq::new((k - len) as nat, |i: int| '0'),
        decreases width - k,
    {
        proof {
            reveal_strlit("0");
        }
        s.append("0");
        k = k + 1;
        assert(s@ =~= old(s)@ + Seq::new((k - len) as nat, |i: int| '0'));
    }
    let ghost zeros = s@.subrange(old(s)@.len() as int, s@.len() as int);
    push_decimal(s, n);
    proof {
        let d = decimal(n as nat);
        if d.len() >= width {
            assert(k == len);
            assert(s@ =~= old(s)@ + d);
        } else {
            assert(k == width);
            assert(s@ =~= old(s)@ + (Seq::new((width - d.len()) as nat, |i: int| '0') + d));
        }
    }
}

/// The fixed-point text `{:.6}` gives for `t` ticks in seconds: the
/// seconds rounded to the nearest microsecond (halves away from zero), a
/// `-` for negative values, and six decimals.
pub open spec fn seconds_text(t: int) -> Seq<char> {
    let a: nat = if t < 0 { (-t) as nat } else { t as nat };
    let micros: nat = ((a * 2_000_000 + TICKS_PER_SECOND) / (2 * TICKS_PER_SECOND)) as nat;
    let sign = if t < 0 { "-"@ } else { Seq::<char>::empty() };
    sign + decimal(micros / 1_000_000) + "."@ + decimal_padded(micros % 1_000_000, 6)
}

/// The text of `t` ticks as seconds with six decimals (see [`seconds_text`]).
pub fn seconds_arg(t: i64) -> (r: String)
    ensures
        r@ == seconds_text(t as int),
{
    let neg = t < 0;
    let a: u128 = if neg {
        (-(t as i128)) as u128
    } else {
        t as u128
    };
    let micros: u128 = (a * 2_000_000 + 705_600_000) / 1_411_200_000;
    let mut s = String::new();
    if neg {
        s.append("-");
    }
    push_decimal(&mut s, micros / 1_000_000);
    s.append(".");
    push_decimal_padded(&mut s, micros % 1_000_000, 6);
    proof {
        let ghost sign = if neg { "-"@ } else { Seq::<char>::empty() };
        assert(s@ =~= sign + decimal((micros / 1_000_000) as nat) + "."@ + decimal_padded(
            (micros % 1_000_000) as nat,
            6,
        ));
    }
    s
}

/// The characters of `s`, one by one.
pub fn chars_of(s: &str) -> (r: Vec<char>)
    ensures
        r@ == s@,
{
    let n = s.unicode_len();
    let mut v: Vec<char> = Vec::new();
    let mut i: usize = 0;
    while i < n
        invariant
            n == s@.len(),
            0 <= i <= n,
            v@ == s@.take(i as int),
        decreases n - i,
    {
        v.push(s.get_char(i));
        i = i + 1;
        assert(v@ =~= s@.take(i as int));
    }
    assert(s@.take(n as int) =~= s@);
    v
}

/// `a` and `b` hold the same characters.
pub fn str_equals(a: &str, b: &str) -> (r: bool)
    ensures
        r == (a@ == b@),
{
    let x = chars_of(a);
    let y = chars_of(b);
    if x.len() != y.len() {
        return false;
    }
    let n = x.len();
    let mut i: usize = 0;
    while i < n
        invariant
            x@ == a@,
            y@ == b@,
            n == x@.len(),
            n == y@.len(),
            0 <= i <= n,
            forall|j: int| 0 <= j < i ==> x@[j] == y@[j],
        decreases n - i,
    {
        if x[i] != y[i] {
            assert(a@[i as int] != b@[i as int]);
            return false;
        }
        i = i + 1;
    }
    assert(x@ =~= y@);
    true
}

/// `c` is white space in the sense of Unicode's `White_Space` property,
/// which `char::is_whitespace` follows.
pub open spec fn is_white_space(c: char) -> bool {
    ||| '\u{9}' <= c <= '\u{d}'
    ||| c == ' '
    ||| c == '\u{85}'
    ||| c == '\u{a0}'
    ||| c == '\u{1680}'
    ||| '\u{2000}' <= c <= '\u{200a}'
    ||| c == '\u{2028}'
    ||| c == '\u{2029}'
    ||| c == '\u{202f}'
    ||| c == '\u{205f}'
    ||| c == '\u{3000}'
}

/// Whether `c` is white space (see [`is_white_space`]).
pub fn white_space(c: char) -> (r: bool)
    ensures
        r == is_white_space(c),
{
    ('\u{9}' <= c && c <= '\u{d}') || c == ' ' || c == '\u{85}' || c == '\u{a0}' || c == '\u{1680}'
        || ('\u{2000}' <= c && c <= '\u{200a}') || c == '\u{2028}' || c == '\u{2029}' || c
        == '\u{202f}' || c == '\u{205f}' || c == '\u{3000}'
}

/// `s` without its leading white space.
pub open spec fn trim_start(s: Seq<char>) -> Seq<char>
    decreases s.len(),
{
    if s.len() > 0 && is_white_space(s[0]) {
        trim_start(s.drop_first())
    } else {
        s
    }
}

/// `s` without its trailing white space.
pub open spec fn trim_end(s: Seq<char>) -> Seq<char>
    decreases s.len(),
{
    if s.len() > 0 && is_white_space(s.last()) {
        trim_end(s.drop_last())
    } else {
        s
    }
}

/// `s` without leading and trailing white space.
pub open spec fn trim(s: Seq<char>) -> Seq<char> {
    trim_end(trim_start(s))
}

/// Index of the first character of `s` that is not white space (`s.len()`
/// when there is none), with `trim_start(s)` the rest from there.
pub fn skip_white_space(s: &Vec<char>, from: usize) -> (r: usize)
    requires
        from <= s@.len(),
    ensures
        from <= r <= s@.len(),
        s@.subrange(r as int, s@.len() as int) == trim_start(s@.subrange(from as int, s@.len() as int)),
{
    let n = s.len();
    let mut i = from;
    while i < n && white_space(s[i])
        invariant
            n == s@.len(),
            from <= i <= n,
            trim_start(s@.subrange(from as int, n as int)) == trim_start(s@.subrange(i as int, n as int)),
        decreases n - i,
    {
        assert(s@.subrange(i as int, n as int).drop_first() =~= s@.subrange(i + 1, n as int));
        i = i + 1;
    }
    i
}

/// End of `s[from..to]` without its trailing white space.
pub fn trim_white_space_end(s: &Vec<char>, from: usize, to: usize) -> (r: usize)
    requires
        from <= to <= s@.len(),
    ensures
        from <= r <= to,
        s@.subrange(from as int, r as int) == trim_end(s@.subrange(from as int, to as int)),
{
    let mut j = to;
    while j > from && white_space(s[j - 1])
        invariant
            from <= j <= to <= s@.len(),
            trim_end(s@.subrange(from as int, to as int)) == trim_end(s@.subrange(from as int, j as int)),
        decreases j,
    {
        assert(s@.subrange(from as int, j as int).drop_last() =~= s@.subrange(from as int, j - 1));
        j = j - 1;
    }
    j
}

/// The length of the run of characters other than white space that `s`
/// starts with.
pub open spec fn word_len(s: Seq<char>) -> nat
    decreases s.len(),
{
    if s.len() == 0 || is_white_space(s[0]) {
        0
    } else {
        1 + word_len(s.drop_first())
    }
}

/// End of the run of characters other than white space that starts at
/// `from` in `s`.
pub fn word_end(s: &Vec<char>, from: usize) -> (r: usize)
    requires
        from <= s@.len(),
    ensures
        from <= r <= s@.len(),
        r - from == word_len(s@.subrange(from as int, s@.len() as int)),
{
    let n = s.len();
    let mut j = from;
    while j < n && !white_space(s[j])
        invariant
            n == s@.len(),
            from <= j <= n,
            word_len(s@.subrange(from as int, n as int)) == (j - from) + word_len(
                s@.subrange(j as int, n as int),
            ),
        decreases n - j,
    {
        assert(s@.subrange(j as int, n as int).drop_first() =~= s@.subrange(j + 1, n as int));
        j = j + 1;
    }
    j
}

/// The value of `s` as a non-empty string of decimal digits.
pub open spec fn digits_value(s: Seq<char>) -> Option<nat>
    decreases s.len(),
{
    if s.len() == 0 {
        None
    } else if !('0' <= s.last() <= '9') {
        None
    } else {
        let d = (s.last() as nat - '0' as nat) as nat;
        if s.len() == 1 {
            Some(d)
        } else {
            match digits_value(s.drop_last()) {
                Some(v) => Some(v * 10 + d),
                None => None,
            }
        }
    }
}

/// The value of the decimal digits `s[from..to]`, when they are a
/// non-empty run of digits whose value is below 2^64.
pub fn parse_digits(s: &Vec<char>, from: usize, to: usize) -> (r: Option<u64>)
    requires
        from <= to <= s@.len(),
    ensures
        match r {
            Some(v) => digits_value(s@.subrange(from as int, to as int)) == Some(v as nat),
            None => digits_value(s@.subrange(from as int, to as int)) is None || digits_value(
                s@.subrange(from as int, to as int),
            )->0 >= 0x1_0000_0000_0000_0000,
        },
{
    if from == to {
        return None;
    }
    let mut v: u64 = 0;
    let mut i = from;
    while i < to
        invariant
            from <= i <= to <= s@.len(),
            from < to,
            i == from || digits_value(s@.subrange(from as int, i as int)) == Some(v as nat),
            i == from ==> v == 0,
        decreases to - i,
    {
        let c = s[i];
        proof {
            assert(s@.subrange(from as int, i + 1).drop_last() =~= s@.subrange(from as int, i as int));
            assert(s@.subrange(from as int, i + 1).last() == c);
        }
        if !('0' <= c && c <= '9') {
            proof {
                lemma_digits_none_extends(s@, from as int, i as int, to as int);
            }
            return None;
        }
        let d = (c as u32 - '0' as u32) as u64;
        if v > (u64::MAX - d) / 10 {
            proof {
                assert(v * 10 + d > u64::MAX) by (nonlinear_arith)
                    requires
                        v > (u64::MAX - d) / 10,
                        d <= 9,
                ;
                lemma_digits_big_extends(s@, from as int, i + 1, to as int, (v * 10 + d) as nat);
            }
            return None;
        }
        v = v * 10 + d;
        i = i + 1;
    }
    Some(v)
}

proof fn lemma_digits_none_extends(s: Seq<char>, from: int, i: int, to: int)
    requires
        0 <= from <= i < to <= s.len(),
        !('0' <= s[i] <= '9'),
    ensures
        digits_value(s.subrange(from, to)) is None,
    decreases to - i,
{
    if to == i + 1 {
        assert(s.subrange(from, to).last() == s[i]);
    } else {
        lemma_digits_none_extends(s, from, i, to - 1);
        assert(s.subrange(from, to).drop_last() =~= s.subrange(from, to - 1));
    }
}

proof fn lemma_digits_big_extends(s: Seq<char>, from: int, i: int, to: int, v: nat)
    requires
        0 <= from < i <= to <= s.len(),
        digits_value(s.subrange(from, i)) == Some(v),
        v >= 0x1_0000_0000_0000_0000,
    ensures
        digits_value(s.subrange(from, to)) is None || digits_value(s.subrange(from, to))->0
            >= 0x1_0000_0000_0000_0000,
    decreases to - i,
{
    if i < to {
        let t = s.subrange(from, i + 1);
        assert(t.drop_last() =~= s.subrange(from, i));
        if '0' <= s[i] <= '9' {
            assert(t.last() == s[i]);
            assert(digits_value(t) == Some(v * 10 + (s[i] as nat - '0' as nat) as nat));
            lemma_digits_big_extends(s, from, i + 1, to, v * 10 + (s[i] as nat - '0' as nat) as nat);
        } else {
            lemma_digits_none_extends(s, from, i, to);
        }
    }
}

/// `10^k`.
pub open spec fn pow10(k: nat) -> nat
    decreases k,
{
    if k == 0 {
        1
    } else {
        10 * pow10((k - 1) as nat)
    }
}

/// Index of the first `c` in `s`, if any.
pub open spec fn index_of(s: Seq<char>, c: char) -> Option<int>
    decreases s.len(),
{
    if s.len() == 0 {
        None
    } else if s[0] == c {
        Some(0)
    } else {
        match index_of(s.drop_first(), c) {
            Some(k) => Some(k + 1),
            None => None,
        }
    }
}

/// The value of a run of decimal digits that may be empty (then 0), when
/// it is below 2^64.
pub open spec fn optional_digits(s: Seq<char>) -> Option<nat> {
    if s.len() == 0 {
        Some(0)
    } else {
        match digits_value(s) {
            Some(v) => if v < 0x1_0000_0000_0000_0000 { Some(v) } else { None },
            None => None,
        }
    }
}

/// The number of ticks in the decimal number of seconds `s`: an optional
/// `+` or `-`, then an unsigned number as [`unsigned_seconds_ticks`] reads
/// it; the sign applies to its ticks.
#[verifier::opaque]
pub open spec fn seconds_ticks(s: Seq<char>) -> Option<int> {
    if s.len() > 0 && (s[0] == '-' || s[0] == '+') {
        match unsigned_seconds_ticks(s.drop_first()) {
            Some(t) => Some(if s[0] == '-' { -t } else { t }),
            None => None,
        }
    } else {
        unsigned_seconds_ticks(s)
    }
}

/// The whole part, the decimals read as a number, and the number of
/// decimals of the unsigned decimal `s`: digits with at most one `.` and at
/// least one digit, each side below 2^64.
pub open spec fn decimal_parts(s: Seq<char>) -> Option<(nat, nat, nat)> {
    let (int_part, frac_part) = match index_of(s, '.') {
        Some(k) => (s.subrange(0, k), s.subrange(k + 1, s.len() as int)),
        None => (s, Seq::<char>::empty()),
    };
    if int_part.len() + frac_part.len() == 0 {
        None
    } else {
        match (optional_digits(int_part), optional_digits(frac_part)) {
            (Some(a), Some(f)) => Some((a, f, frac_part.len())),
            _ => None,
        }
    }
}

/// The exponent written in `x`: an optional `+` or `-`, then digits whose
/// value is below 2^64.
pub open spec fn exponent_value(x: Seq<char>) -> Option<int> {
    let (neg, d) = if x.len() > 0 && (x[0] == '-' || x[0] == '+') {
        (x[0] == '-', x.drop_first())
    } else {
        (false, x)
    };
    match digits_value(d) {
        Some(v) => if v < 0x1_0000_0000_0000_0000 {
            Some(if neg { -v } else { v as int })
        } else {
            None
        },
        None => None,
    }
}

/// The position of the exponent mark (the first `e` or `E`) in `s`.
pub open spec fn exponent_mark(s: Seq<char>) -> Option<int> {
    match (index_of(s, 'e'), index_of(s, 'E')) {
        (Some(i), Some(j)) => Some(if i < j { i } else { j }),
        (Some(i), None) => Some(i),
        (None, Some(j)) => Some(j),
        (None, None) => None,
    }
}

/// The ticks in `(a + f / 10^n) * 10^e` seconds, rounded down.
pub open spec fn scaled_ticks(a: nat, f: nat, n: nat, e: int) -> int {
    if e >= 0 {
        a * TICKS_PER_SECOND * pow10(e as nat) + (f * TICKS_PER_SECOND * pow10(e as nat)) / (pow10(
            n,
        ) as int)
    } else {
        (a * TICKS_PER_SECOND + (f * TICKS_PER_SECOND) / (pow10(n) as int)) / (pow10((-e) as nat) as int)
    }
}

/// The number of ticks in the unsigned decimal number of seconds `s`: a
/// decimal as [`decimal_parts`] reads it, then optionally `e` or `E` and an
/// exponent as [`exponent_value`] reads it; rounded down to a whole tick
/// and capped at `i64::MAX`.
pub open spec fn unsigned_seconds_ticks(s: Seq<char>) -> Option<int> {
    let (m, x) = match exponent_mark(s) {
        Some(k) => (s.subrange(0, k), Some(s.subrange(k + 1, s.len() as int))),
        None => (s, None),
    };
    let e = match x {
        Some(xs) => exponent_value(xs),
        None => Some(0int),
    };
    match (decimal_parts(m), e) {
        (Some((a, f, n)), Some(e)) => {
            let t = scaled_ticks(a, f, n, e);
            Some(if t > i64::MAX { i64::MAX as int } else { t })
        },
        _ => None,
    }
}

proof fn lemma_index_of(s: Seq<char>, c: char)
    ensures
        match index_of(s, c) {
            Some(k) => 0 <= k < s.len() && s[k] == c && forall|j: int| 0 <= j < k ==> s[j] != c,
            None => forall|j: int| 0 <= j < s.len() ==> s[j] != c,
        },
    decreases s.len(),
{
    if s.len() > 0 {
        lemma_index_of(s.drop_first(), c);
        if s[0] != c {
            assert forall|j: int| 0 < j < s.len() implies s[j] == s.drop_first()[j - 1] by {}
        }
    }
}

pub(crate) proof fn lemma_index_of_is(s: Seq<char>, c: char, k: int)
    requires
        0 <= k <= s.len(),
        k < s.len() ==> s[k] == c,
        forall|j: int| 0 <= j < k ==> s[j] != c,
    ensures
        if k < s.len() { index_of(s, c) == Some(k) } else { index_of(s, c) is None },
{
    lemma_index_of(s, c);
}

/// Position of the first `c` in `s[from..to]`, or `to`.
pub fn find_char(s: &Vec<char>, from: usize, to: usize, c: char) -> (r: usize)
    requires
        from <= to <= s@.len(),
    ensures
        from <= r <= to,
        ({
            let t = s@.subrange(from as int, to as int);
            if r < to {
                index_of(t, c) == Some(r - from)
            } else {
                index_of(t, c) is None
            }
        }),
{
    let mut i = from;
    while i < to && s[i] != c
        invariant
            from <= i <= to <= s@.len(),
            forall|j: int| from <= j < i ==> s@[j] != c,
        decreases to - i,
    {
        i = i + 1;
    }
    proof {
        let t = s@.subrange(from as int, to as int);
        lemma_index_of_is(t, c, i - from);
    }
    i
}

fn pow10_u128(k: usize) -> (r: u128)
    requires
        k <= 28,
    ensures
        r == pow10(k as nat),
{
    let mut r: u128 = 1;
    let mut i: usize = 0;
    while i < k
        invariant
            0 <= i <= k <= 28,
            r == pow10(i as nat),
        decreases k - i,
    {
        proof {
            lemma_pow10_le(i as nat, 27);
            reveal_with_fuel(pow10, 28);
            assert(pow10(27) == 1_000_000_000_000_000_000_000_000_000);
        }
        r = r * 10;
        i = i + 1;
    }
    r
}

proof fn lemma_pow10_le(a: nat, b: nat)
    requires
        a <= b,
    ensures
        1 <= pow10(a) <= pow10(b),
    decreases b,
{
    if a < b {
        lemma_pow10_le(a, (b - 1) as nat);
    } else if a > 0 {
        lemma_pow10_le((a - 1) as nat, (a - 1) as nat);
    }
}

/// Seconds written in `s[from..to]`, as ticks (see [`seconds_ticks`]).
pub fn parse_seconds(s: &Vec<char>, from: usize, to: usize) -> (r: Option<i64>)
    requires
        from <= to <= s@.len(),
    ensures
        match r {
            Some(t) => seconds_ticks(s@.subrange(from as int, to as int)) == Some(t as int) && t
                > i64::MIN,
            None => seconds_ticks(s@.subrange(from as int, to as int)) is None,
        },
{
    let ghost t = s@.subrange(from as int, to as int);
    proof {
        reveal(seconds_ticks);
    }
    if from < to && (s[from] == '-' || s[from] == '+') {
        proof {
            assert(s@.subrange(from + 1, to as int) =~= t.drop_first());
        }
        match parse_unsigned_seconds(s, from + 1, to) {
            Some(v) => if s[from] == '-' {
                Some(-v)
            } else {
                Some(v)
            },
            None => None,
        }
    } else {
        parse_unsigned_seconds(s, from, to)
    }
}

/// Unsigned seconds written in `s[from..to]`, as ticks (see
/// [`unsigned_seconds_ticks`]).
fn parse_unsigned_seconds(s: &Vec<char>, from: usize, to: usize) -> (r: Option<i64>)
    requires
        from <= to <= s@.len(),
    ensures
        match r {
            Some(t) => unsigned_seconds_ticks(s@.subrange(from as int, to as int)) == Some(t as int)
                && t >= 0,
            None => unsigned_seconds_ticks(s@.subrange(from as int, to as int)) is None,
        },
{
    let ghost t = s@.subrange(from as int, to as int);
    let ke = find_char(s, from, to, 'e');
    let kk = find_char(s, from, to, 'E');
    let k = if ke < kk {
        ke
    } else {
        kk
    };
    proof {
        if k < to {
            assert(exponent_mark(t) == Some(k - from));
            assert(s@.subrange(from as int, k as int) =~= t.subrange(0, k - from));
            assert(s@.subrange(k + 1, to as int) =~= t.subrange(k - from + 1, t.len() as int));
        } else {
            assert(exponent_mark(t) is None);
            assert(s@.subrange(from as int, k as int) =~= t);
        }
    }
    let e: i128 = if k < to {
        match parse_exponent(s, k + 1, to) {
            Some(v) => v,
            None => {
                proof {
                    let m = s@.subrange(from as int, k as int);
                    assert(match (decimal_parts(m), exponent_value(s@.subrange(k + 1, to as int))) {
                        (Some(_), Some(_)) => false,
                        _ => true,
                    });
                }
                return None;
            },
        }
    } else {
        0
    };
    match parse_decimal_parts(s, from, k) {
        Some((a, f, n)) => {
            let r = scaled_ticks_capped(a, f, n, e);
            Some(r)
        },
        None => None,
    }
}

/// The decimal written in `s[from..to]`, as [`decimal_parts`] reads it.
fn parse_decimal_parts(s: &Vec<char>, from: usize, to: usize) -> (r: Option<(u64, u64, usize)>)
    requires
        from <= to <= s@.len(),
    ensures
        match r {
            Some((a, f, n)) => decimal_parts(s@.subrange(from as int, to as int)) == Some(
                (a as nat, f as nat, n as nat),
            ),
            None => decimal_parts(s@.subrange(from as int, to as int)) is None,
        },
{
    let ghost t = s@.subrange(from as int, to as int);
    let dot = find_char(s, from, to, '.');
    let int_end = dot;
    let frac_start = if dot < to {
        dot + 1
    } else {
        to
    };
    proof {
        if dot < to {
            assert(s@.subrange(from as int, int_end as int) =~= t.subrange(0, dot - from));
            assert(s@.subrange(frac_start as int, to as int) =~= t.subrange(dot - from + 1, t.len() as int));
        } else {
            assert(s@.subrange(from as int, int_end as int) =~= t);
            assert(s@.subrange(frac_start as int, to as int) =~= Seq::<char>::empty());
        }
    }
    if int_end == from && frac_start == to {
        return None;
    }
    let a: u64 = if int_end == from {
        0
    } else {
        match parse_digits(s, from, int_end) {
            Some(v) => v,
            None => return None,
        }
    };
    let flen = to - frac_start;
    let f: u64 = if flen == 0 {
        0
    } else {
        match parse_digits(s, frac_start, to) {
            Some(v) => v,
            None => return None,
        }
    };
    Some((a, f, flen))
}

/// The exponent written in `s[from..to]`, as [`exponent_value`] reads it.
fn parse_exponent(s: &Vec<char>, from: usize, to: usize) -> (r: Option<i128>)
    requires
        from <= to <= s@.len(),
    ensures
        match r {
            Some(v) => exponent_value(s@.subrange(from as int, to as int)) == Some(v as int) && -0x1_0000_0000_0000_0000 < v
                < 0x1_0000_0000_0000_0000,
            None => exponent_value(s@.subrange(from as int, to as int)) is None,
        },
{
    let ghost t = s@.subrange(from as int, to as int);
    let signed = from < to && (s[from] == '-' || s[from] == '+');
    let neg = signed && s[from] == '-';
    let start = if signed {
        from + 1
    } else {
        from
    };
    proof {
        if signed {
            assert(s@.subrange(start as int, to as int) =~= t.drop_first());
        } else {
            assert(s@.subrange(start as int, to as int) =~= t);
        }
    }
    match parse_digits(s, start, to) {
        Some(v) => if neg {
            Some(-(v as i128))
        } else {
            Some(v as i128)
        },
        None => None,
    }
}

/// `10^(x + y) == 10^x * 10^y`.
proof fn lemma_pow10_add(x: nat, y: nat)
    ensures
        pow10(x + y) == pow10(x) * pow10(y),
    decreases x,
{
    if x > 0 {
        let x1 = (x - 1) as nat;
        lemma_pow10_add(x1, y);
        assert(x1 + y + 1 == x + y);
        assert(pow10(x + y) == 10 * pow10(x1 + y));
        assert(pow10(x) == 10 * pow10(x1));
        assert(10 * (pow10(x1) * pow10(y)) == (10 * pow10(x1)) * pow10(y)) by (nonlinear_arith);
        assert(pow10(x + y) == pow10(x) * pow10(y));
    } else {
        assert(pow10(x) == 1);
        assert(x + y == y);
    }
}

proof fn lemma_pow10_facts()
    ensures
        pow10(10) == 10_000_000_000,
        pow10(11) == 100_000_000_000,
        pow10(28) == 10_000_000_000_000_000_000_000_000_000,
        pow10(29) == 100_000_000_000_000_000_000_000_000_000,
{
    reveal_with_fuel(pow10, 30);
}

/// [`scaled_ticks`] capped at `i64::MAX`.
fn scaled_ticks_capped(a: u64, f: u64, n: usize, e: i128) -> (r: i64)
    requires
        -0x1_0000_0000_0000_0000 < e < 0x1_0000_0000_0000_0000,
    ensures
        r >= 0,
        r == (if scaled_ticks(a as nat, f as nat, n as nat, e as int) > i64::MAX {
            i64::MAX as int
        } else {
            scaled_ticks(a as nat, f as nat, n as nat, e as int)
        }),
{
    let tps: u128 = 705_600_000;
    let ghost TPS: int = TICKS_PER_SECOND as int;
    let g: u128 = (f as u128) * tps;
    assert(g as int == f * TPS) by {
        assert(TPS == 705_600_000);
    }
    assert(g < 0x1_0000_0000_0000_0000u128 * 705_600_000u128) by (nonlinear_arith)
        requires
            g == (f as u128) * tps,
            tps == 705_600_000u128,
            f < 0x1_0000_0000_0000_0000u128,
    ;
    proof {
        lemma_pow10_facts();
        lemma_pow10_le(0, n as nat);
    }
    let ghost pn: int = pow10(n as nat) as int;
    if e >= 0 {
        let ghost pe: int = pow10(e as nat) as int;
        proof {
            lemma_pow10_le(0, e as nat);
        }
        // the whole seconds
        let whole: u128 = if a == 0 {
            0
        } else if e >= 11 {
            proof {
                lemma_pow10_le(11, e as nat);
                assert(a * TPS * pe >= 705_600_000 * 100_000_000_000) by (nonlinear_arith)
                    requires
                        a >= 1,
                        TPS == 705_600_000,
                        pe >= 100_000_000_000,
                ;
                assert((f * TPS * pe) / pn >= 0) by (nonlinear_arith)
                    requires
                        f >= 0,
                        TPS > 0,
                        pe > 0,
                        pn > 0,
                ;
            }
            return i64::MAX;
        } else {
            let p = pow10_u128(e as usize);
            proof {
                lemma_pow10_le(e as nat, 10);
            }
            assert((a as u128) * tps * p <= 0xffff_ffff_ffff_ffffu128 * 705_600_000u128
                * 10_000_000_000u128) by (nonlinear_arith)
                requires
                    a <= 0xffff_ffff_ffff_ffffu64,
                    tps == 705_600_000u128,
                    1 <= p <= 10_000_000_000u128,
            ;
            (a as u128) * tps * p
        };
        assert(whole as int == a * TPS * pe) by {
            if a == 0 {
                assert(a * TPS * pe == 0) by (nonlinear_arith)
                    requires
                        a == 0,
                ;
            }
        }
        // the decimals
        let fr: u128 = if e >= n as i128 {
            let d128 = e - n as i128;
            let ghost pd: int = pow10(d128 as nat) as int;
            proof {
                lemma_pow10_add(n as nat, d128 as nat);
                assert(n as nat + d128 as nat == e as nat);
                assert(pe == pn * pd);
                assert(f * TPS * pe == (g as int * pd) * pn) by (nonlinear_arith)
                    requires
                        g == f * TPS,
                        pe == pn * pd,
                ;
                vstd::arithmetic::div_mod::lemma_div_by_multiple(g as int * pd, pn);
            }
            if g == 0 {
                proof {
                    assert(g as int * pd == 0);
                }
                0
            } else if d128 >= 11 {
                proof {
                    lemma_pow10_le(11, d128 as nat);
                    assert(g as int * pd >= 705_600_000 * 100_000_000_000) by (nonlinear_arith)
                        requires
                            g >= 1,
                            g == f * TPS,
                            TPS == 705_600_000,
                            pd >= 100_000_000_000,
                    {
                        assert(f >= 1);
                    }
                    assert(a * TPS * pe >= 0) by (nonlinear_arith)
                        requires
                            a >= 0,
                            TPS > 0,
                            pe > 0,
                    ;
                }
                return i64::MAX;
            } else {
                let d = d128 as usize;
                let p = pow10_u128(d);
                proof {
                    lemma_pow10_le(d as nat, 10);
                }
                assert(g * p < 0x1_0000_0000_0000_0000u128 * 705_600_000u128 * 10_000_000_000u128)
                    by (nonlinear_arith)
                    requires
                        g < 0x1_0000_0000_0000_0000u128 * 705_600_000u128,
                        1 <= p <= 10_000_000_000u128,
                ;
                g * p
            }
        } else {
            let d = (n as i128 - e) as usize;
            let ghost pd: int = pow10(d as nat) as int;
            proof {
                lemma_pow10_add(e as nat, d as nat);
                lemma_pow10_le(0, d as nat);
                assert(e as nat + d as nat == n as nat);
                assert(pn == pe * pd);
                assert(f * TPS * pe == g as int * pe);
                assert(g as int * pe >= 0) by (nonlinear_arith)
                    requires
                        g >= 0,
                        pe > 0,
                ;
                vstd::arithmetic::div_mod::lemma_div_by_multiple(g as int, pe);
                assert((g as int * pe) / pe == g as int);
                vstd::arithmetic::div_mod::lemma_div_denominator(g as int * pe, pe, pd);
            }
            if d > 28 {
                proof {
                    lemma_pow10_le(29, d as nat);
                    vstd::arithmetic::div_mod::lemma_basic_div(g as int, pd);
                }
                0
            } else {
                let p = pow10_u128(d);
                g / p
            }
        };
        assert(fr as int == (f * TPS * pe) / pn);
        if whole > i64::MAX as u128 || fr > i64::MAX as u128 {
            return i64::MAX;
        }
        let total = whole + fr;
        if total > i64::MAX as u128 {
            i64::MAX
        } else {
            total as i64
        }
    } else {
        let part0: u128 = if n > 28 {
            proof {
                lemma_pow10_le(29, n as nat);
                vstd::arithmetic::div_mod::lemma_basic_div(g as int, pn);
            }
            0
        } else {
            let p = pow10_u128(n);
            proof {
                vstd::arithmetic::div_mod::lemma_div_is_ordered(g as int, g as int, p as int);
                assert(g as int / (p as int) <= g as int) by (nonlinear_arith)
                    requires
                        g >= 0,
                        p >= 1,
                ;
            }
            g / p
        };
        assert(part0 as int == (f * TPS) / pn);
        assert((a as u128) * tps <= 0xffff_ffff_ffff_ffffu128 * 705_600_000u128) by (nonlinear_arith)
            requires
                a <= 0xffff_ffff_ffff_ffffu64,
                tps == 705_600_000u128,
        ;
        let base: u128 = (a as u128) * tps + part0;
        assert(base as int == a * TPS + (f * TPS) / pn);
        let ghost pj: int = pow10((-e) as nat) as int;
        proof {
            lemma_pow10_le(0, (-e) as nat);
        }
        let q: u128 = if -e > 28 {
            proof {
                lemma_pow10_le(29, (-e) as nat);
                vstd::arithmetic::div_mod::lemma_basic_div(base as int, pj);
            }
            0
        } else {
            let j = (-e) as usize;
            let p = pow10_u128(j);
            proof {
                assert(base as int / (p as int) <= base as int) by (nonlinear_arith)
                    requires
                        base >= 0,
                        p >= 1,
                ;
            }
            base / p
        };
        assert(q as int == (a * TPS + (f * TPS) / pn) / pj);
        if q > i64::MAX as u128 {
            i64::MAX
        } else {
            q as i64
        }
    }
}

/// The value, in millionths, of the decimal number `s`: an optional `+` or
/// `-`, then an unsigned number as [`unsigned_micro_value`] reads it.
pub open spec fn micro_value(s: Seq<char>) -> Option<int> {
    if s.len() > 0 && (s[0] == '-' || s[0] == '+') {
        match unsigned_micro_value(s.drop_first()) {
            Some(v) => Some(if s[0] == '-' { -v } else { v }),
            None => None,
        }
    } else {
        unsigned_micro_value(s)
    }
}

/// The value, in millionths, of the unsigned decimal number `s`: digits
/// with at most one `.` and at least one digit, the whole part below 2^64
/// and at most six decimals.
pub open spec fn unsigned_micro_value(s: Seq<char>) -> Option<int> {
    let (int_part, frac_part) = match index_of(s, '.') {
        Some(k) => (s.subrange(0, k), s.subrange(k + 1, s.len() as int)),
        None => (s, Seq::<char>::empty()),
    };
    if int_part.len() + frac_part.len() == 0 || frac_part.len() > 6 {
        None
    } else {
        match (optional_digits(int_part), optional_digits(frac_part)) {
            (Some(a), Some(f)) => Some((a * 1_000_000 + f * pow10((6 - frac_part.len()) as nat)) as int),
            _ => None,
        }
    }
}

/// The decimal number written in `s[from..to]`, in millionths (see
/// [`micro_value`]).
pub fn parse_micro(s: &Vec<char>, from: usize, to: usize) -> (r: Option<i128>)
    requires
        from <= to <= s@.len(),
    ensures
        match r {
            Some(v) => micro_value(s@.subrange(from as int, to as int)) == Some(v as int) && -0x1_0000_0000_0000_0000_0000_0000
                < v < 0x1_0000_0000_0000_0000_0000_0000,
            None => micro_value(s@.subrange(from as int, to as int)) is None,
        },
{
    let ghost t = s@.subrange(from as int, to as int);
    if from < to && (s[from] == '-' || s[from] == '+') {
        proof {
            assert(s@.subrange(from + 1, to as int) =~= t.drop_first());
        }
        match parse_unsigned_micro(s, from + 1, to) {
            Some(v) => if s[from] == '-' {
                Some(-v)
            } else {
                Some(v)
            },
            None => None,
        }
    } else {
        parse_unsigned_micro(s, from, to)
    }
}

fn parse_unsigned_micro(s: &Vec<char>, from: usize, to: usize) -> (r: Option<i128>)
    requires
        from <= to <= s@.len(),
    ensures
        match r {
            Some(v) => unsigned_micro_value(s@.subrange(from as int, to as int)) == Some(v as int) && 0
                <= v < 0x1_0000_0000_0000_0000_0000_0000,
            None => unsigned_micro_value(s@.subrange(from as int, to as int)) is None,
        },
{
    let ghost t = s@.subrange(from as int, to as int);
    let dot = find_char(s, from, to, '.');
    let int_end = dot;
    let frac_start = if dot < to {
        dot + 1
    } else {
        to
    };
    proof {
        if dot < to {
            assert(s@.subrange(from as int, int_end as int) =~= t.subrange(0, dot - from));
            assert(s@.subrange(frac_start as int, to as int) =~= t.subrange(dot - from + 1, t.len() as int));
        } else {
            assert(s@.subrange(from as int, int_end as int) =~= t);
            assert(s@.subrange(frac_start as int, to as int) =~= Seq::<char>::empty());
        }
    }
    if int_end == from && frac_start == to {
        return None;
    }
    let flen = to - frac_start;
    if flen > 6 {
        return None;
    }
    let a: u64 = if int_end == from {
        0
    } else {
        match parse_digits(s, from, int_end) {
            Some(v) => v,
            None => return None,
        }
    };
    let f: u64 = if flen == 0 {
        0
    } else {
        match parse_digits(s, frac_start, to) {
            Some(v) => v,
            None => return None,
        }
    };
    let p = pow10_u128(6 - flen);
    proof {
        lemma_pow10_le((6 - flen) as nat, 6);
        reveal_with_fuel(pow10, 7);
        assert(pow10(6) == 1_000_000);
    }
    assert((a as int) * 1_000_000 + (f as int) * (p as int) < 0x1_0000_0000_0000_0000_0000_0000) by (nonlinear_arith)
        requires
            a < 0x1_0000_0000_0000_0000int,
            f < 0x1_0000_0000_0000_0000int,
            1 <= p <= 1_000_000,
    {
        assert((f as int) * (p as int) <= (f as int) * 1_000_000);
    }
    Some((a as i128) * 1_000_000 + (f as i128) * (p as i128))
}

} // verus!
