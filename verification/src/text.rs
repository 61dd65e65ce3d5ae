//! Characters, decimal numerals and the small text operations that the
//! other modules share.

use vstd::prelude::*;

verus! {

/// Whether `c` is white space in the sense of Unicode's `White_Space`
/// property.
pub open spec fn is_space(c: char) -> bool {
    let u = c as u32;
    ||| 9 <= u <= 13
    ||| u == 0x20
    ||| u == 0x85
    ||| u == 0xA0
    ||| u == 0x1680
    ||| 0x2000 <= u <= 0x200A
    ||| u == 0x2028
    ||| u == 0x2029
    ||| u == 0x202F
    ||| u == 0x205F
    ||| u == 0x3000
}

/// Executable form of [`is_space`].
pub fn char_is_space(c: char) -> (r: bool)
    ensures
        r == is_space(c),
{
    let u: u32 = c as u32;
    (9 <= u && u <= 13) || u == 0x20 || u == 0x85 || u == 0xA0 || u == 0x1680 || (0x2000 <= u
        && u <= 0x200A) || u == 0x2028 || u == 0x2029 || u == 0x202F || u == 0x205F || u
        == 0x3000
}

/// The number of white-space characters at the start of `s`.
pub open spec fn leading_spaces(s: Seq<char>) -> nat
    decreases s.len(),
{
    if s.len() > 0 && is_space(s[0]) {
        1 + leading_spaces(s.skip(1))
    } else {
        0
    }
}

/// `s` without its leading white space.
pub open spec fn skip_spaces(s: Seq<char>) -> Seq<char> {
    s.skip(leading_spaces(s) as int)
}

/// Whether `s` holds no white space.
pub open spec fn is_solid(s: Seq<char>) -> bool {
    forall|i: int| 0 <= i < s.len() ==> !is_space(#[trigger] s[i])
}

/// The number of characters at the start of `s` that are not white space.
pub open spec fn leading_solid(s: Seq<char>) -> nat
    decreases s.len(),
{
    if s.len() > 0 && !is_space(s[0]) {
        1 + leading_solid(s.skip(1))
    } else {
        0
    }
}

/// The first run of characters of `s` up to, and without, the first white
/// space.
pub open spec fn first_chunk(s: Seq<char>) -> Seq<char> {
    s.take(leading_solid(s) as int)
}

pub proof fn lemma_leading_spaces_bound(s: Seq<char>)
    ensures
        leading_spaces(s) <= s.len(),
        forall|i: int| 0 <= i < leading_spaces(s) ==> is_space(#[trigger] s[i]),
        leading_spaces(s) < s.len() ==> !is_space(s[leading_spaces(s) as int]),
    decreases s.len(),
{
    if s.len() > 0 && is_space(s[0]) {
        let t = s.skip(1);
        lemma_leading_spaces_bound(t);
        assert forall|i: int| 0 <= i < leading_spaces(s) implies is_space(#[trigger] s[i]) by {
            if i > 0 {
                assert(s[i] == t[i - 1]);
            }
        }
        if leading_spaces(s) < s.len() {
            assert(t[leading_spaces(t) as int] == s[leading_spaces(s) as int]);
        }
    }
}

pub proof fn lemma_leading_solid_bound(s: Seq<char>)
    ensures
        leading_solid(s) <= s.len(),
        forall|i: int| 0 <= i < leading_solid(s) ==> !is_space(#[trigger] s[i]),
        leading_solid(s) < s.len() ==> is_space(s[leading_solid(s) as int]),
    decreases s.len(),
{
    if s.len() > 0 && !is_space(s[0]) {
        let t = s.skip(1);
        lemma_leading_solid_bound(t);
        assert forall|i: int| 0 <= i < leading_solid(s) implies !is_space(#[trigger] s[i]) by {
            if i > 0 {
                assert(s[i] == t[i - 1]);
            }
        }
        if leading_solid(s) < s.len() {
            assert(t[leading_solid(t) as int] == s[leading_solid(s) as int]);
        }
    }
}

/// A run of `n` white-space characters followed by the end of `s` or by a
/// character that is none is the whole leading white space of `s`.
pub proof fn lemma_leading_spaces_is(s: Seq<char>, n: nat)
    requires
        n <= s.len(),
        forall|i: int| 0 <= i < n ==> is_space(#[trigger] s[i]),
        n < s.len() ==> !is_space(s[n as int]),
    ensures
        leading_spaces(s) == n,
    decreases n,
{
    if n > 0 {
        let t = s.skip(1);
        assert forall|i: int| 0 <= i < n - 1 implies is_space(#[trigger] t[i]) by {
            assert(t[i] == s[i + 1]);
        }
        lemma_leading_spaces_is(t, (n - 1) as nat);
    }
}

/// The same for a run of characters that are not white space.
pub proof fn lemma_leading_solid_is(s: Seq<char>, n: nat)
    requires
        n <= s.len(),
        forall|i: int| 0 <= i < n ==> !is_space(#[trigger] s[i]),
        n < s.len() ==> is_space(s[n as int]),
    ensures
        leading_solid(s) == n,
    decreases n,
{
    if n > 0 {
        let t = s.skip(1);
        assert forall|i: int| 0 <= i < n - 1 implies !is_space(#[trigger] t[i]) by {
            assert(t[i] == s[i + 1]);
        }
        lemma_leading_solid_is(t, (n - 1) as nat);
    }
}

/// Counts the white-space characters at the start of `s`.
pub fn count_leading_spaces(s: &str) -> (n: usize)
    ensures
        n == leading_spaces(s@),
{
    let len: usize = s.unicode_len();
    let mut i: usize = 0;
    while i < len && char_is_space(s.get_char(i))
        invariant
            i <= len,
            len == s@.len(),
            forall|j: int| 0 <= j < i ==> is_space(#[trigger] s@[j]),
        decreases len - i,
    {
        i += 1;
    }
    proof {
        lemma_leading_spaces_is(s@, i as nat);
    }
    i
}

/// Counts the characters at the start of `s` that are not white space.
pub fn count_leading_solid(s: &str) -> (n: usize)
    ensures
        n == leading_solid(s@),
{
    let len: usize = s.unicode_len();
    let mut i: usize = 0;
    while i < len && !char_is_space(s.get_char(i))
        invariant
            i <= len,
            len == s@.len(),
            forall|j: int| 0 <= j < i ==> !is_space(#[trigger] s@[j]),
        decreases len - i,
    {
        i += 1;
    }
    proof {
        lemma_leading_solid_is(s@, i as nat);
    }
    i
}

/// The decimal digit for `d`, which is below ten.
pub open spec fn digit(d: nat) -> char {
    if d == 0 {
        '0'
    } else if d == 1 {
        '1'
    } else if d == 2 {
        '2'
    } else if d == 3 {
        '3'
    } else if d == 4 {
        '4'
    } else if d == 5 {
        '5'
    } else if d == 6 {
        '6'
    } else if d == 7 {
        '7'
    } else if d == 8 {
        '8'
    } else {
        '9'
    }
}

/// The decimal numeral of `n`, without leading zeros.
pub open spec fn decimal(n: nat) -> Seq<char>
    decreases n,
{
    if n < 10 {
        seq![digit(n)]
    } else {
        decimal(n / 10).push(digit(n % 10))
    }
}

/// The decimal numeral of `n`, with a minus sign where it is negative.
pub open spec fn signed_decimal(n: int) -> Seq<char> {
    if n < 0 {
        seq!['-'] + decimal((-n) as nat)
    } else {
        decimal(n as nat)
    }
}

fn digit_text(d: u64) -> (r: &'static str)
    requires
        d < 10,
    ensures
        r@ == seq![digit(d as nat)],
{
    proof {
        reveal_strlit("0");
        reveal_strlit("1");
        reveal_strlit("2");
        reveal_strlit("3");
        reveal_strlit("4");
        reveal_strlit("5");
        reveal_strlit("6");
        reveal_strlit("7");
        reveal_strlit("8");
        reveal_strlit("9");
    }
    let r = if d == 0 {
        "0"
    } else if d == 1 {
        "1"
    } else if d == 2 {
        "2"
    } else if d == 3 {
        "3"
    } else if d == 4 {
        "4"
    } else if d == 5 {
        "5"
    } else if d == 6 {
        "6"
    } else if d == 7 {
        "7"
    } else if d == 8 {
        "8"
    } else {
        "9"
    };
    assert(r@ =~= seq![digit(d as nat)]);
    r
}

/// Appends the decimal numeral of `n` to `out`.
pub fn push_decimal(out: &mut String, n: u64)
    ensures
        final(out)@ == old(out)@ + decimal(n as nat),
    decreases n,
{
    if n >= 10 {
        push_decimal(out, n / 10);
    }
    out.append(digit_text(n % 10));
    assert(final(out)@ =~= old(out)@ + decimal(n as nat));
}

/// Appends the decimal numeral of `n`, signed where negative, to `out`.
pub fn push_signed_decimal(out: &mut String, n: i64)
    ensures
        final(out)@ == old(out)@ + signed_decimal(n as int),
{
    if n < 0 {
        proof {
            reveal_strlit("-");
        }
        out.append("-");
        let magnitude: u64 = (-(n + 1)) as u64 + 1;
        push_decimal(out, magnitude);
        assert(final(out)@ =~= old(out)@ + signed_decimal(n as int));
    } else {
        push_decimal(out, n as u64);
    }
}

/// Whether `c` is one of the ten ASCII digits.
pub open spec fn is_digit(c: char) -> bool {
    48 <= c as u32 <= 57
}

/// The value of the digit `c`.
pub open spec fn digit_value(c: char) -> nat {
    (c as u32 - 48) as nat
}

/// Whether `s` holds ASCII digits only.
pub open spec fn all_digits(s: Seq<char>) -> bool {
    forall|i: int| 0 <= i < s.len() ==> is_digit(#[trigger] s[i])
}

/// The number that the digits of `s` write in base ten.
pub open spec fn digits_value(s: Seq<char>) -> nat
    decreases s.len(),
{
    if s.len() == 0 {
        0
    } else {
        digits_value(s.drop_last()) * 10 + digit_value(s.last())
    }
}

/// The number that `s` writes, where `s` is a run of at least one digit
/// with at most `limit` as its value.
pub open spec fn numeral(s: Seq<char>, limit: nat) -> Option<nat> {
    if s.len() > 0 && all_digits(s) && digits_value(s) <= limit {
        Some(digits_value(s))
    } else {
        None
    }
}

/// What an unsigned 32-bit number is read from: an optional `+`, then
/// digits.
pub open spec fn parse_u32_spec(s: Seq<char>) -> Option<u32> {
    let body = if s.len() > 0 && s[0] == '+' {
        s.skip(1)
    } else {
        s
    };
    match numeral(body, u32::MAX as nat) {
        Some(v) => Some(v as u32),
        None => None,
    }
}

/// What a signed 32-bit number is read from: an optional `+` or `-`, then
/// digits.
pub open spec fn parse_i32_spec(s: Seq<char>) -> Option<i32> {
    if s.len() > 0 && s[0] == '-' {
        match numeral(s.skip(1), 0x8000_0000) {
            Some(v) => Some((-(v as int)) as i32),
            None => None,
        }
    } else {
        let body = if s.len() > 0 && s[0] == '+' {
            s.skip(1)
        } else {
            s
        };
        match numeral(body, i32::MAX as nat) {
            Some(v) => Some(v as i32),
            None => None,
        }
    }
}

/// A longer run of digits writes no smaller number than its start.
pub proof fn lemma_digits_value_grows(s: Seq<char>, k: int)
    requires
        0 <= k <= s.len(),
    ensures
        digits_value(s.take(k)) <= digits_value(s),
    decreases s.len() - k,
{
    if k == s.len() {
        assert(s.take(k) =~= s);
    } else {
        lemma_digits_value_grows(s, k + 1);
        assert(s.take(k + 1).drop_last() =~= s.take(k));
    }
}

/// Reads the digits of `s` from position `from` on, up to `limit`.
fn read_numeral(s: &str, from: usize, limit: u64) -> (r: Option<u64>)
    requires
        from <= s@.len(),
        limit <= 0xFFFF_FFFF,
    ensures
        r == match numeral(s@.skip(from as int), limit as nat) {
            Some(v) => Some(v as u64),
            None => None,
        },
{
    let len: usize = s.unicode_len();
    let ghost body = s@.skip(from as int);
    if from >= len {
        return None;
    }
    let mut acc: u64 = 0;
    let mut i: usize = from;
    while i < len
        invariant
            from <= i <= len,
            len == s@.len(),
            body == s@.skip(from as int),
            limit <= 0xFFFF_FFFF,
            acc <= limit,
            acc == digits_value(body.take(i - from)),
            all_digits(body.take(i - from)),
        decreases len - i,
    {
        let c: char = s.get_char(i);
        let u: u32 = c as u32;
        assert(body[i - from] == c);
        if u < 48 || u > 57 {
            return None;
        }
        let next: u64 = acc * 10 + (u - 48) as u64;
        proof {
            assert(body.take(i - from + 1).drop_last() =~= body.take(i - from));
            assert(body.take(i - from + 1).last() == c);
            assert forall|j: int| 0 <= j < i - from + 1 implies is_digit(
                #[trigger] body.take(i - from + 1)[j],
            ) by {
                if j < i - from {
                    assert(body.take(i - from)[j] == body[j]);
                }
            }
        }
        if next > limit {
            proof {
                lemma_digits_value_grows(body, i - from + 1);
            }
            return None;
        }
        acc = next;
        i += 1;
    }
    proof {
        assert(body.take(len - from) =~= body);
    }
    Some(acc)
}

/// Reads an unsigned 32-bit number.
pub fn parse_u32(s: &str) -> (r: Option<u32>)
    ensures
        r == parse_u32_spec(s@),
{
    let len: usize = s.unicode_len();
    let from: usize = if len > 0 && s.get_char(0) == '+' {
        1
    } else {
        0
    };
    proof {
        assert(s@.skip(0) =~= s@);
    }
    match read_numeral(s, from, 0xFFFF_FFFF) {
        Some(v) => Some(v as u32),
        None => None,
    }
}

/// Reads a signed 32-bit number.
pub fn parse_i32(s: &str) -> (r: Option<i32>)
    ensures
        r == parse_i32_spec(s@),
{
    let len: usize = s.unicode_len();
    proof {
        assert(s@.skip(0) =~= s@);
    }
    if len > 0 && s.get_char(0) == '-' {
        match read_numeral(s, 1, 0x8000_0000) {
            Some(v) => Some((-(v as i64)) as i32),
            None => None,
        }
    } else {
        let from: usize = if len > 0 && s.get_char(0) == '+' {
            1
        } else {
            0
        };
        match read_numeral(s, from, 0x7FFF_FFFF) {
            Some(v) => Some(v as i32),
            None => None,
        }
    }
}

/// Why a text is no number of its type.
#[derive(Debug, Clone, Copy, PartialEq, Eq, Structural)]
pub enum NumberFault {
    /// The text is empty.
    Empty,
    /// The text holds something that is no digit, or no digit at all.
    InvalidDigit,
    /// The number is too large for its type.
    TooLarge,
    /// The number is too small for its type.
    TooSmall,
}

/// Why the digits `body` behind a sign are no number, where they are
/// none: they are no digits, or else the number is out of range, which is
/// the fault `range`.
pub open spec fn digits_fault(body: Seq<char>, range: NumberFault) -> NumberFault {
    if body.len() == 0 || !all_digits(body) {
        NumberFault::InvalidDigit
    } else {
        range
    }
}

/// Why `s` is no unsigned 32-bit number, where it is none.
pub open spec fn u32_fault(s: Seq<char>) -> NumberFault {
    if s.len() == 0 {
        NumberFault::Empty
    } else if s[0] == '+' {
        digits_fault(s.skip(1), NumberFault::TooLarge)
    } else {
        digits_fault(s, NumberFault::TooLarge)
    }
}

/// Why `s` is no signed 32-bit number, where it is none.
pub open spec fn i32_fault(s: Seq<char>) -> NumberFault {
    if s.len() == 0 {
        NumberFault::Empty
    } else if s[0] == '-' {
        digits_fault(s.skip(1), NumberFault::TooSmall)
    } else if s[0] == '+' {
        digits_fault(s.skip(1), NumberFault::TooLarge)
    } else {
        digits_fault(s, NumberFault::TooLarge)
    }
}

/// Finds the fault of the digits of `s` from position `from` on.
fn find_digits_fault(s: &str, from: usize, range: NumberFault) -> (r: NumberFault)
    requires
        from <= s@.len(),
    ensures
        r == digits_fault(s@.skip(from as int), range),
{
    let len: usize = s.unicode_len();
    let ghost body = s@.skip(from as int);
    if from >= len {
        return NumberFault::InvalidDigit;
    }
    let mut i: usize = from;
    while i < len
        invariant
            from <= i <= len,
            len == s@.len(),
            body == s@.skip(from as int),
            forall|j: int| 0 <= j < i - from ==> is_digit(#[trigger] body[j]),
        decreases len - i,
    {
        let u: u32 = s.get_char(i) as u32;
        assert(body[i - from] == s@[i as int]);
        if u < 48 || u > 57 {
            return NumberFault::InvalidDigit;
        }
        i += 1;
    }
    range
}

/// Why `s` is no unsigned 32-bit number. This is for a text that is none.
pub fn find_u32_fault(s: &str) -> (r: NumberFault)
    ensures
        r == u32_fault(s@),
{
    let len: usize = s.unicode_len();
    proof {
        assert(s@.skip(0) =~= s@);
    }
    if len == 0 {
        NumberFault::Empty
    } else if s.get_char(0) == '+' {
        find_digits_fault(s, 1, NumberFault::TooLarge)
    } else {
        find_digits_fault(s, 0, NumberFault::TooLarge)
    }
}

/// Why `s` is no signed 32-bit number. This is for a text that is none.
pub fn find_i32_fault(s: &str) -> (r: NumberFault)
    ensures
        r == i32_fault(s@),
{
    let len: usize = s.unicode_len();
    proof {
        assert(s@.skip(0) =~= s@);
    }
    if len == 0 {
        NumberFault::Empty
    } else if s.get_char(0) == '-' {
        find_digits_fault(s, 1, NumberFault::TooSmall)
    } else if s.get_char(0) == '+' {
        find_digits_fault(s, 1, NumberFault::TooLarge)
    } else {
        find_digits_fault(s, 0, NumberFault::TooLarge)
    }
}

} // verus!
