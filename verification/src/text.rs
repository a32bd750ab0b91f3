//! Text primitives: trimming, decimal numbers, and byte order.

use vstd::prelude::*;
use vstd::string::*;

verus! {

/// The characters with the Unicode property `White_Space`.
pub open spec fn white_space(c: char) -> bool {
    ||| '\u{9}' <= c <= '\u{d}'
    ||| c == ' '
    ||| c == '\u{85}'
    ||| c == '\u{a0}'
    ||| c == '\u{1680}'
    ||| '\u{2000}' <= c <= '\u{200a}'
    ||| c == '\u{2028}'
    ||| c == '\u{2029}'
    ||| c == '\u{202f}'
    ||| c == '\u{205f}'
    ||| c == '\u{3000}'
}

/// `s` without its trailing white space.
pub open spec fn trimmed_end(s: Seq<char>) -> Seq<char>
    decreases s.len(),
{
    if s.len() > 0 && white_space(s.last()) {
        trimmed_end(s.drop_last())
    } else {
        s
    }
}

/// `s` without its leading white space.
pub open spec fn trimmed_start(s: Seq<char>) -> Seq<char>
    decreases s.len(),
{
    if s.len() > 0 && white_space(s[0]) {
        trimmed_start(s.drop_first())
    } else {
        s
    }
}

/// `s` without white space at either end.
pub open spec fn trimmed(s: Seq<char>) -> Seq<char> {
    trimmed_start(trimmed_end(s))
}

/// Whether `c` is white space.
pub fn is_white_space(c: char) -> (r: bool)
    ensures
        r == white_space(c),
{
    (c >= '\u{9}' && c <= '\u{d}') || c == ' ' || c == '\u{85}' || c == '\u{a0}' || c == '\u{1680}'
        || (c >= '\u{2000}' && c <= '\u{200a}') || c == '\u{2028}' || c == '\u{2029}' || c
        == '\u{202f}' || c == '\u{205f}' || c == '\u{3000}'
}

/// `s` without its trailing white space.
pub fn trim_end(s: &str) -> (r: &str)
    ensures
        r@ == trimmed_end(s@),
{
    let mut end: usize = s.unicode_len();
    assert(s@.take(end as int) =~= s@);
    while end > 0 && is_white_space(s.get_char(end - 1))
        invariant
            end <= s@.len(),
            trimmed_end(s@) == trimmed_end(s@.take(end as int)),
        decreases end,
    {
        assert(s@.take(end as int).drop_last() =~= s@.take(end - 1));
        end = end - 1;
    }
    assert(s@.subrange(0, end as int) =~= s@.take(end as int));
    s.substring_char(0, end)
}

/// `s` without white space at either end.
pub fn trim(s: &str) -> (r: &str)
    ensures
        r@ == trimmed(s@),
{
    let t = trim_end(s);
    let len: usize = t.unicode_len();
    let mut start: usize = 0;
    assert(t@.skip(0) =~= t@);
    while start < len && is_white_space(t.get_char(start))
        invariant
            len == t@.len(),
            start <= len,
            trimmed_start(t@) == trimmed_start(t@.skip(start as int)),
        decreases len - start,
    {
        assert(t@.skip(start as int).drop_first() =~= t@.skip(start + 1));
        start = start + 1;
    }
    assert(t@.subrange(start as int, len as int) =~= t@.skip(start as int));
    t.substring_char(start, len)
}

/// The ASCII codes of the decimal digits.
pub open spec fn digit_byte(b: u8) -> bool {
    48 <= b <= 57
}

/// Every byte is a decimal digit.
pub open spec fn all_digits(bytes: Seq<u8>) -> bool {
    forall|i: int| 0 <= i < bytes.len() ==> digit_byte(#[trigger] bytes[i])
}

/// The number that a sequence of decimal digits denotes.
pub open spec fn decimal_value(bytes: Seq<u8>) -> nat
    decreases bytes.len(),
{
    if bytes.len() == 0 {
        0
    } else {
        (decimal_value(bytes.drop_last()) * 10 + (bytes.last() - 48)) as nat
    }
}

/// Appending digits never makes the number smaller.
pub proof fn lemma_decimal_value_grows(bytes: Seq<u8>, n: int)
    requires
        all_digits(bytes),
        0 <= n <= bytes.len(),
    ensures
        decimal_value(bytes.take(n)) <= decimal_value(bytes),
    decreases bytes.len() - n,
{
    if n < bytes.len() {
        assert(bytes.take(n + 1).drop_last() =~= bytes.take(n));
        assert(digit_byte(bytes[n]));
        assert(decimal_value(bytes.take(n + 1)) == decimal_value(bytes.take(n)) * 10 + (bytes[n]
            - 48));
        lemma_decimal_value_grows(bytes, n + 1);
    } else {
        assert(bytes.take(n) =~= bytes);
    }
}

/// The value of the digits `bytes[from..to]`, if there is at least one, all are
/// digits, and the value fits. A sign is no digit.
pub fn parse_digits(bytes: &[u8], from: usize, to: usize) -> (r: Option<u64>)
    requires
        from <= to <= bytes@.len(),
    ensures
        r is Some <==> from < to && all_digits(bytes@.subrange(from as int, to as int))
            && decimal_value(bytes@.subrange(from as int, to as int)) <= u64::MAX,
        r is Some ==> r->0 == decimal_value(bytes@.subrange(from as int, to as int)),
{
    if from == to {
        return None;
    }
    let ghost digits = bytes@.subrange(from as int, to as int);
    let mut value: u64 = 0;
    let mut i: usize = from;
    while i < to
        invariant
            from <= i <= to <= bytes@.len(),
            digits == bytes@.subrange(from as int, to as int),
            all_digits(digits.take(i - from)),
            value == decimal_value(digits.take(i - from)),
        decreases to - i,
    {
        let b: u8 = bytes[i];
        assert(digits[i - from] == b);
        if b < 48 || b > 57 {
            assert(!digit_byte(digits[i - from]));
            return None;
        }
        assert(digits.take(i + 1 - from).drop_last() =~= digits.take(i - from));
        assert(decimal_value(digits.take(i + 1 - from)) == value * 10 + (b - 48));
        let d: u64 = (b - 48) as u64;
        if value > (u64::MAX - d) / 10 {
            proof {
                assert(value * 10 + d > u64::MAX);
                if all_digits(digits) {
                    lemma_decimal_value_grows(digits, i + 1 - from);
                }
            }
            return None;
        }
        value = value * 10 + d;
        i = i + 1;
    }
    assert(digits.take(to - from) =~= digits);
    Some(value)
}

/// A number of at most `n <= 18` digits is below ten to the `n`-th.
pub proof fn lemma_decimal_value_bound(digits: Seq<u8>, n: nat)
    requires
        all_digits(digits),
        digits.len() <= n <= 18,
    ensures
        decimal_value(digits) < 1_000_000_000_000_000_000,
        decimal_value(digits) < vstd::arithmetic::power::pow(10, n),
    decreases n,
{
    broadcast use vstd::arithmetic::power::lemma_pow0;

    if digits.len() == 0 {
        vstd::arithmetic::power::lemma_pow_positive(10, n);
    } else {
        let rest = digits.drop_last();
        assert forall|i: int| 0 <= i < rest.len() implies digit_byte(#[trigger] rest[i]) by {
            assert(digit_byte(digits[i]));
        }
        assert(digit_byte(digits[digits.len() - 1]));
        lemma_decimal_value_bound(rest, (n - 1) as nat);
        reveal_with_fuel(vstd::arithmetic::power::pow, 20);
        assert(vstd::arithmetic::power::pow(10, n) == 10 * vstd::arithmetic::power::pow(
            10,
            (n - 1) as nat,
        ));
    }
    vstd::arithmetic::power::lemma_pow_increases(10, n, 18);
    assert(vstd::arithmetic::power::pow(10, 18) == 1_000_000_000_000_000_000) by {
        reveal_with_fuel(vstd::arithmetic::power::pow, 20);
    }
}

/// The character of a decimal digit.
pub open spec fn digit_char(d: int) -> char {
    if d == 0 {
        '0'
    } else if d == 1 {
        '1'
    } else if d == 2 {
        '2'
    } else if d == 3 {
        '3'
    } else if d == 4 {
        '4'
    } else if d == 5 {
        '5'
    } else if d == 6 {
        '6'
    } else if d == 7 {
        '7'
    } else if d == 8 {
        '8'
    } else {
        '9'
    }
}

/// Appends one decimal digit.
pub fn push_digit(out: &mut String, d: u8)
    requires
        d <= 9,
    ensures
        final(out)@ == old(out)@.push(digit_char(d as int)),
{
    let text: &str = match d {
        0 => "0",
        1 => "1",
        2 => "2",
        3 => "3",
        4 => "4",
        5 => "5",
        6 => "6",
        7 => "7",
        8 => "8",
        _ => "9",
    };
    proof {
        reveal_strlit("0");
        reveal_strlit("1");
        reveal_strlit("2");
        reveal_strlit("3");
        reveal_strlit("4");
        reveal_strlit("5");
        reveal_strlit("6");
        reveal_strlit("7");
        reveal_strlit("8");
        reveal_strlit("9");
        assert(text@ =~= seq![digit_char(d as int)]);
        assert(old(out)@ + seq![digit_char(d as int)] =~= old(out)@.push(digit_char(d as int)));
    }
    out.append(text);
}

/// The decimal digits of `n`, at least `width` of them, with leading zeros.
pub open spec fn decimal_text(n: nat, width: nat) -> Seq<char>
    decreases n, width,
{
    if n < 10 && width <= 1 {
        seq![digit_char(n as int)]
    } else {
        decimal_text(n / 10, if width > 0 {
            (width - 1) as nat
        } else {
            0
        }).push(digit_char((n % 10) as int))
    }
}

/// A text of ASCII characters in bytes.
pub open spec fn ascii_bytes(text: Seq<char>) -> Seq<u8> {
    text.map_values(|c: char| c as u8)
}

/// The digits of a number denote it. There are at least `width` of them, and
/// no more if the number is below ten to the `width`-th.
pub proof fn lemma_decimal_text(n: nat, width: nat)
    ensures
        decimal_text(n, width).len() >= 1,
        decimal_text(n, width).len() >= width,
        width >= 1 && n < vstd::arithmetic::power::pow(10, width) ==> decimal_text(n, width).len()
            == width,
        forall|i: int|
            0 <= i < decimal_text(n, width).len() ==> '0' <= #[trigger] decimal_text(n, width)[i]
                <= '9',
        all_digits(ascii_bytes(decimal_text(n, width))),
        decimal_value(ascii_bytes(decimal_text(n, width))) == n,
    decreases n, width,
{
    reveal_with_fuel(vstd::arithmetic::power::pow, 2);
    let text = decimal_text(n, width);
    let bytes = ascii_bytes(text);
    lemma_digit_char((n % 10) as int);
    assert(bytes.last() == digit_char((n % 10) as int) as u8);
    if n < 10 && width <= 1 {
        assert(n % 10 == n);
        assert(bytes.drop_last() =~= Seq::<u8>::empty());
        assert(decimal_value(bytes.drop_last()) == 0);
    } else {
        let narrower = if width > 0 {
            (width - 1) as nat
        } else {
            0
        };
        lemma_decimal_text(n / 10, narrower);
        let rest = decimal_text(n / 10, narrower);
        assert(text == rest.push(digit_char((n % 10) as int)));
        assert(bytes.drop_last() =~= ascii_bytes(rest));
        assert forall|i: int| 0 <= i < text.len() implies '0' <= #[trigger] text[i] <= '9' by {
            if i < rest.len() {
                assert(text[i] == rest[i]);
            }
        }
        assert forall|i: int| 0 <= i < bytes.len() implies digit_byte(#[trigger] bytes[i]) by {
            if i < rest.len() {
                assert(bytes[i] == ascii_bytes(rest)[i]);
            }
        }
    }
}

/// The character of a digit is a digit, and has the digit's code.
pub proof fn lemma_digit_char(d: int)
    requires
        0 <= d <= 9,
    ensures
        digit_char(d) as u8 == 48 + d,
        '0' <= digit_char(d) <= '9',
{
    assert('0' as u8 == 48 && '1' as u8 == 49 && '2' as u8 == 50 && '3' as u8 == 51 && '4' as u8
        == 52 && '5' as u8 == 53 && '6' as u8 == 54 && '7' as u8 == 55 && '8' as u8 == 56
        && '9' as u8 == 57);
}

/// Appends the decimal digits of `n`, at least `width` of them.
pub fn push_decimal(out: &mut String, n: u64, width: u64)
    ensures
        final(out)@ == old(out)@ + decimal_text(n as nat, width as nat),
    decreases n, width,
{
    if n < 10 && width <= 1 {
        push_digit(out, n as u8);
        assert(out@ =~= old(out)@ + decimal_text(n as nat, width as nat));
    } else {
        let narrower: u64 = if width > 0 {
            width - 1
        } else {
            0
        };
        push_decimal(out, n / 10, narrower);
        push_digit(out, (n % 10) as u8);
        assert(out@ =~= old(out)@ + decimal_text(n as nat, width as nat));
    }
}

/// `a` comes before `b` in the lexicographic order of their bytes.
pub open spec fn bytes_before(a: Seq<u8>, b: Seq<u8>) -> bool
    decreases a.len(),
{
    if b.len() == 0 {
        false
    } else if a.len() == 0 {
        true
    } else if a[0] != b[0] {
        a[0] < b[0]
    } else {
        bytes_before(a.drop_first(), b.drop_first())
    }
}

/// Whether `a` comes before `b` in the order of their UTF-8 bytes, which is the
/// order of strings.
pub fn str_before(a: &str, b: &str) -> (r: bool)
    ensures
        r == bytes_before(a.spec_bytes(), b.spec_bytes()),
{
    let x = a.as_bytes();
    let y = b.as_bytes();
    let mut i: usize = 0;
    assert(x@.skip(0) =~= x@);
    assert(y@.skip(0) =~= y@);
    while i < x.len() && i < y.len()
        invariant
            i <= x@.len(),
            i <= y@.len(),
            bytes_before(a.spec_bytes(), b.spec_bytes()) == bytes_before(
                x@.skip(i as int),
                y@.skip(i as int),
            ),
        decreases x@.len() - i,
    {
        if x[i] != y[i] {
            return x[i] < y[i];
        }
        assert(x@.skip(i as int).drop_first() =~= x@.skip(i + 1));
        assert(y@.skip(i as int).drop_first() =~= y@.skip(i + 1));
        i = i + 1;
    }
    i < y.len()
}

} // verus!
