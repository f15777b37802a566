//! Numbers written in decimal, and texts padded to a width.

use crate::text::chars_of;
use vstd::prelude::*;

verus! {

/// The character of a decimal digit.
pub open spec fn digit(d: nat) -> char {
    (48 + d) as char
}

/// A number in decimal, without leading zeros.
pub open spec fn decimal(n: nat) -> Seq<char>
    decreases n,
{
    if n < 10 {
        seq![digit(n)]
    } else {
        decimal(n / 10).push(digit(n % 10))
    }
}

/// A number below a hundred, written with two digits.
pub open spec fn two_digits(n: nat) -> Seq<char> {
    seq![digit(n / 10), digit(n % 10)]
}

/// Whether a character is a decimal digit.
pub open spec fn is_digit(c: char) -> bool {
    '0' <= c <= '9'
}

/// The number that some decimal digits stand for.
pub open spec fn digits_value(s: Seq<char>) -> nat
    decreases s.len(),
{
    if s.len() == 0 {
        0
    } else {
        digits_value(s.drop_last()) * 10 + (s.last() as nat - 48) as nat
    }
}

/// A text without the plus sign that may begin it.
pub open spec fn unsigned_part(s: Seq<char>) -> Seq<char> {
    if s.len() > 0 && s[0] == '+' {
        s.skip(1)
    } else {
        s
    }
}

/// The `u32` that a text stands for: an optional plus sign, then one or more
/// decimal digits, of a number that a `u32` can hold.
pub open spec fn u32_value(s: Seq<char>) -> Option<u32> {
    let digits = unsigned_part(s);
    if digits.len() > 0 && (forall|i: int| 0 <= i < digits.len() ==> is_digit(#[trigger] digits[i]))
        && digits_value(digits) <= u32::MAX {
        Some(digits_value(digits) as u32)
    } else {
        None
    }
}

/// `n` spaces.
pub open spec fn spaces(n: nat) -> Seq<char> {
    Seq::new(n, |i: int| ' ')
}

/// A text with spaces before it, so that it is at least `width` characters
/// long.
pub open spec fn pad_left(s: Seq<char>, width: nat) -> Seq<char> {
    if s.len() < width {
        spaces((width - s.len()) as nat) + s
    } else {
        s
    }
}

/// A text with spaces behind it, so that it is at least `width` characters
/// long.
pub open spec fn pad_right(s: Seq<char>, width: nat) -> Seq<char> {
    if s.len() < width {
        s + spaces((width - s.len()) as nat)
    } else {
        s
    }
}

/// A `u32` written in decimal is read back as itself.
pub proof fn decimal_reads_back(n: u32)
    ensures
        u32_value(decimal(n as nat)) == Some(n),
{
    lemma_decimal(n as nat);
    let s = decimal(n as nat);
    assert(is_digit(s[0]));
    assert(unsigned_part(s) == s);
}

/// The decimal form of a number holds digits only, and they stand for it.
proof fn lemma_decimal(n: nat)
    ensures
        decimal(n).len() > 0,
        forall|i: int| 0 <= i < decimal(n).len() ==> is_digit(#[trigger] decimal(n)[i]),
        digits_value(decimal(n)) == n,
    decreases n,
{
    if n < 10 {
        assert(decimal(n).drop_last() == Seq::<char>::empty());
        assert(decimal(n).last() == digit(n));
        assert(digits_value(Seq::<char>::empty()) == 0);
    } else {
        lemma_decimal(n / 10);
        let shorter = decimal(n / 10);
        assert(decimal(n) == shorter.push(digit(n % 10)));
        assert(decimal(n).drop_last() == shorter);
        assert(decimal(n).last() == digit(n % 10));
        assert forall|i: int| 0 <= i < decimal(n).len() implies is_digit(#[trigger] decimal(n)[i]) by {
            if i < shorter.len() {
                assert(decimal(n)[i] == shorter[i]);
            }
        }
    }
}

/// More digits never stand for less.
proof fn lemma_digits_value_grows(s: Seq<char>, k: int)
    requires
        0 <= k <= s.len(),
    ensures
        digits_value(s.take(k)) <= digits_value(s),
    decreases s.len() - k,
{
    if k == s.len() {
        assert(s.take(k) == s);
    } else {
        lemma_digits_value_grows(s, k + 1);
        assert(s.take(k + 1).drop_last() == s.take(k));
    }
}

/// See [`digit`].
fn digit_char(d: u8) -> (r: char)
    requires
        d < 10,
    ensures
        r == digit(d as nat),
{
    (48u8 + d) as char
}

/// See [`decimal`].
pub fn decimal_text(n: u64) -> (r: String)
    ensures
        r@ == decimal(n as nat),
    decreases n,
{
    let mut out = if n < 10 {
        String::new()
    } else {
        decimal_text(n / 10)
    };
    out.push(digit_char((n % 10) as u8));
    assert(n < 10 ==> out@ =~= seq![digit(n as nat)]);
    out
}

/// See [`two_digits`].
pub fn two_digit_text(n: u64) -> (r: String)
    requires
        n < 100,
    ensures
        r@ == two_digits(n as nat),
{
    let mut out = String::new();
    out.push(digit_char((n / 10) as u8));
    out.push(digit_char((n % 10) as u8));
    assert(out@ =~= two_digits(n as nat));
    out
}

/// See [`u32_value`].
pub fn parse_u32(s: &[char]) -> (r: Option<u32>)
    ensures
        r == u32_value(s@),
{
    let n = s.len();
    let start: usize = if n > 0 && s[0] == '+' {
        1
    } else {
        0
    };
    let ghost digits = unsigned_part(s@);
    assert(digits == s@.skip(start as int));
    if start == n {
        return None;
    }
    let mut value: u64 = 0;
    let mut i: usize = start;
    assert(digits.take(0) == Seq::<char>::empty());
    while i < n
        invariant
            start <= i <= n,
            n == s@.len(),
            digits == s@.skip(start as int),
            digits == unsigned_part(s@),
            value == digits_value(digits.take(i - start)),
            value <= u32::MAX,
            forall|j: int| 0 <= j < i - start ==> is_digit(#[trigger] digits[j]),
        decreases n - i,
    {
        let c = s[i];
        assert(c == digits[i - start]);
        if !('0' <= c && c <= '9') {
            return None;
        }
        value = value * 10 + (c as u64 - 48);
        assert(digits.take(i - start + 1).drop_last() == digits.take(i - start));
        if value > 4294967295 {
            proof {
                lemma_digits_value_grows(digits, i - start + 1);
            }
            return None;
        }
        i = i + 1;
    }
    assert(digits.take(n - start) == digits);
    Some(value as u32)
}

/// See [`spaces`].
fn space_text(n: usize) -> (r: String)
    ensures
        r@ == spaces(n as nat),
{
    let mut out = String::new();
    for i in 0..n
        invariant
            out@ == spaces(i as nat),
    {
        out.push(' ');
        assert(out@ =~= spaces((i + 1) as nat));
    }
    out
}

/// See [`pad_left`].
pub fn padded_left(s: &str, width: usize) -> (r: String)
    ensures
        r@ == pad_left(s@, width as nat),
{
    let len = chars_of(s).len();
    if len < width {
        let mut out = space_text(width - len);
        out.append(s);
        out
    } else {
        s.to_owned()
    }
}

/// See [`pad_right`].
pub fn padded_right(s: &str, width: usize) -> (r: String)
    ensures
        r@ == pad_right(s@, width as nat),
{
    let len = chars_of(s).len();
    let mut out = s.to_owned();
    if len < width {
        let tail = space_text(width - len);
        out.append(tail.as_str());
    }
    out
}

/// A number in decimal holds digits only, begins with no zero unless it is zero,
/// and stands for the number.
pub proof fn decimal_stands_for_its_number(n: nat)
    ensures
        decimal(n).len() > 0,
        forall|i: int| 0 <= i < decimal(n).len() ==> is_digit(#[trigger] decimal(n)[i]),
        digits_value(decimal(n)) == n,
        n > 0 ==> decimal(n)[0] != '0',
    decreases n,
{
    lemma_decimal(n);
    if n >= 10 {
        decimal_stands_for_its_number(n / 10);
    }
}

/// A number below a hundred is written with two digits, which stand for it.
pub proof fn two_digits_stand_for_their_number(n: nat)
    requires
        n < 100,
    ensures
        two_digits(n).len() == 2,
        is_digit(two_digits(n)[0]),
        is_digit(two_digits(n)[1]),
        digits_value(two_digits(n)) == n,
{
    let s = two_digits(n);
    assert(s.drop_last() =~= seq![digit(n / 10)]);
    assert(s.drop_last().drop_last() =~= Seq::<char>::empty());
    assert(digits_value(Seq::<char>::empty()) == 0);
    assert(digits_value(s.drop_last()) == n / 10);
}

/// Digits are read as a number in base ten: one more digit makes ten of one, and a
/// zero ahead changes nothing.
pub proof fn digits_are_read_in_base_ten(s: Seq<char>, d: nat)
    requires
        d < 10,
    ensures
        digits_value(s.push(digit(d))) == 10 * digits_value(s) + d,
        digits_value(seq!['0'] + s) == digits_value(s),
        digits_value(Seq::empty()) == 0,
    decreases s.len(),
{
    assert(s.push(digit(d)).drop_last() =~= s);
    let led = seq!['0'] + s;
    if s.len() == 0 {
        assert(led.drop_last() =~= Seq::<char>::empty());
        assert(led.last() == '0');
        assert(digits_value(led) == digits_value(Seq::<char>::empty()) * 10 + 0);
        assert(s =~= Seq::<char>::empty());
    } else {
        assert(led.drop_last() =~= seq!['0'] + s.drop_last());
        digits_are_read_in_base_ten(s.drop_last(), d);
    }
}

/// A text stands for a number exactly where it holds one digit or more and nothing
/// else, of a number that fits. A plus sign ahead changes nothing.
pub proof fn numbers_are_read_by_their_digits(s: Seq<char>)
    requires
        s.len() > 0 ==> s[0] != '+',
    ensures
        u32_value(s) is Some <==> {
            &&& s.len() > 0
            &&& forall|i: int| 0 <= i < s.len() ==> '0' <= #[trigger] s[i] <= '9'
            &&& digits_value(s) <= 0xffff_ffff
        },
        u32_value(s) is Some ==> u32_value(s)->0 == digits_value(s),
        u32_value(seq!['+'] + s) == u32_value(s),
{
    assert((seq!['+'] + s).skip(1) =~= s);
    assert(u32_value(s) is Some ==> forall|i: int|
        0 <= i < s.len() ==> is_digit(#[trigger] s[i]));
    assert((forall|i: int| 0 <= i < s.len() ==> '0' <= #[trigger] s[i] <= '9') ==> forall|i: int|
        0 <= i < s.len() ==> is_digit(#[trigger] s[i]));
}

/// Padding adds spaces on one side, as many as are missing to the width, and leaves
/// the text as it is.
pub proof fn padding_keeps_the_text(s: Seq<char>, width: nat)
    ensures
        pad_left(s, width).len() == if s.len() < width {
            width
        } else {
            s.len()
        },
        pad_left(s, width).skip(pad_left(s, width).len() - s.len()) == s,
        forall|i: int|
            0 <= i < pad_left(s, width).len() - s.len() ==> #[trigger] pad_left(s, width)[i] == ' ',
        pad_right(s, width).len() == pad_left(s, width).len(),
        pad_right(s, width).take(s.len() as int) == s,
        forall|i: int|
            s.len() <= i < pad_right(s, width).len() ==> #[trigger] pad_right(s, width)[i] == ' ',
{
    let left = pad_left(s, width);
    assert(left.skip(left.len() - s.len()) =~= s);
    assert(pad_right(s, width).take(s.len() as int) =~= s);
}

} // verus!
