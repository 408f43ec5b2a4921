//! Numbers in text: decimal notation, and the digits of base 16.

use vstd::prelude::*;
use vstd::slice::slice_subrange;

verus! {

/// The digit that stands for `d` in base 16, in lower case.
pub open spec fn digit(d: int) -> char {
    if d == 0 {
        '0'
    } else if d == 1 {
        '1'
    } else if d == 2 {
        '2'
    } else if d == 3 {
        '3'
    } else if d == 4 {
        '4'
    } else if d == 5 {
        '5'
    } else if d == 6 {
        '6'
    } else if d == 7 {
        '7'
    } else if d == 8 {
        '8'
    } else if d == 9 {
        '9'
    } else if d == 10 {
        'a'
    } else if d == 11 {
        'b'
    } else if d == 12 {
        'c'
    } else if d == 13 {
        'd'
    } else if d == 14 {
        'e'
    } else {
        'f'
    }
}

/// `c` is a digit of base 16, in lower case.
pub open spec fn is_hex_digit(c: char) -> bool {
    '0' <= c <= '9' || 'a' <= c <= 'f'
}

/// `n` in decimal notation.
pub open spec fn decimal(n: nat) -> Seq<char>
    decreases n,
{
    if n < 10 {
        seq![digit(n as int)]
    } else {
        decimal(n / 10).push(digit((n % 10) as int))
    }
}

/// `n` in decimal notation, with a minus sign where it is negative.
pub open spec fn signed_decimal(n: int) -> Seq<char> {
    if n < 0 {
        seq!['-'] + decimal((-n) as nat)
    } else {
        decimal(n as nat)
    }
}

/// `c` is a decimal digit.
pub open spec fn is_digit(c: char) -> bool {
    '0' <= c <= '9'
}

/// The number that the decimal digits `text` write down.
pub open spec fn digits_value(text: Seq<char>) -> nat
    decreases text.len(),
{
    if text.len() == 0 {
        0
    } else {
        digits_value(text.drop_last()) * 10 + (text.last() as int - '0' as int) as nat
    }
}

/// The number that `text` writes down, where it is made of decimal digits.
pub open spec fn natural(text: Seq<char>) -> Option<nat> {
    if text.len() > 0 && (forall|i: int| 0 <= i < text.len() ==> is_digit(#[trigger] text[i])) {
        Some(digits_value(text))
    } else {
        None
    }
}

/// The number that `text` writes down as a `u16`: digits, perhaps behind a
/// plus sign, with a value that fits.
pub open spec fn parsed_u16(text: Seq<char>) -> Option<u16> {
    let digits = if text.len() > 0 && text[0] == '+' {
        text.skip(1)
    } else {
        text
    };
    match natural(digits) {
        Some(n) => if n <= u16::MAX {
            Some(n as u16)
        } else {
            None
        },
        None => None,
    }
}

/// The number that `text` writes down as an `i64`: digits, perhaps behind a
/// plus or a minus sign, with a value that fits.
pub open spec fn parsed_i64(text: Seq<char>) -> Option<i64> {
    let negative = text.len() > 0 && text[0] == '-';
    let digits = if negative || (text.len() > 0 && text[0] == '+') {
        text.skip(1)
    } else {
        text
    };
    match natural(digits) {
        Some(n) => if negative && -n >= i64::MIN {
            Some((-n) as i64)
        } else if !negative && n <= i64::MAX {
            Some(n as i64)
        } else {
            None
        },
        None => None,
    }
}

/// The digit that stands for `d` in base 16.
pub fn digit_char(d: u8) -> (c: char)
    requires
        d < 16,
    ensures
        c == digit(d as int),
        is_hex_digit(c),
{
    match d {
        0 => '0',
        1 => '1',
        2 => '2',
        3 => '3',
        4 => '4',
        5 => '5',
        6 => '6',
        7 => '7',
        8 => '8',
        9 => '9',
        10 => 'a',
        11 => 'b',
        12 => 'c',
        13 => 'd',
        14 => 'e',
        _ => 'f',
    }
}

/// `n` in decimal notation.
pub fn decimal_text(n: u64) -> (text: String)
    ensures
        text@ == decimal(n as nat),
    decreases n,
{
    if n < 10 {
        let mut text = String::new();
        text.push(digit_char(n as u8));
        text
    } else {
        let mut text = decimal_text(n / 10);
        text.push(digit_char((n % 10) as u8));
        text
    }
}

/// `n` in decimal notation, with a minus sign where it is negative.
pub fn signed_decimal_text(n: i64) -> (text: String)
    ensures
        text@ == signed_decimal(n as int),
{
    if n < 0 {
        let mut text = String::new();
        text.push('-');
        text.append(decimal_text((-(n as i128)) as u64).as_str());
        text
    } else {
        decimal_text(n as u64)
    }
}

/// More digits never make a smaller number.
proof fn lemma_value_grows(text: Seq<char>, at: int)
    requires
        0 <= at <= text.len(),
    ensures
        digits_value(text.take(at)) <= digits_value(text),
    decreases text.len() - at,
{
    if at < text.len() {
        lemma_value_grows(text, at + 1);
        assert(text.take(at + 1).drop_last() =~= text.take(at));
    } else {
        assert(text.take(at) =~= text);
    }
}

/// The number that the digits `text` write down, where it fits in a `u64`.
fn parse_natural(text: &[char]) -> (n: Option<u64>)
    ensures
        n == match natural(text@) {
            Some(v) => if v <= u64::MAX {
                Some(v as u64)
            } else {
                None
            },
            None => None,
        },
{
    if text.len() == 0 {
        return None;
    }
    let mut value: u64 = 0;
    for i in 0..text.len()
        invariant
            text@.len() > 0,
            value == digits_value(text@.take(i as int)),
            forall|j: int| 0 <= j < i ==> is_digit(#[trigger] text@[j]),
    {
        let c = text[i];
        if c < '0' || c > '9' {
            assert(!is_digit(text@[i as int]));
            return None;
        }
        let d: u64 = (c as u64) - ('0' as u64);
        proof {
            assert(text@.take(i + 1).drop_last() =~= text@.take(i as int));
            lemma_value_grows(text@, i + 1);
        }
        if value > (u64::MAX - d) / 10 {
            assert(value * 10 + d > u64::MAX);
            return None;
        }
        value = value * 10 + d;
    }
    assert(text@.take(text@.len() as int) =~= text@);
    Some(value)
}

/// The number that `text` writes down as a `u16`.
pub fn parse_u16(text: &[char]) -> (n: Option<u16>)
    ensures
        n == parsed_u16(text@),
{
    let digits = if text.len() > 0 && text[0] == '+' {
        let rest = slice_subrange(text, 1, text.len());
        assert(rest@ =~= text@.skip(1));
        rest
    } else {
        text
    };
    match parse_natural(digits) {
        Some(v) => if v <= u16::MAX as u64 {
            Some(v as u16)
        } else {
            None
        },
        None => None,
    }
}

/// The number that `text` writes down as an `i64`.
pub fn parse_i64(text: &[char]) -> (n: Option<i64>)
    ensures
        n == parsed_i64(text@),
{
    let negative = text.len() > 0 && text[0] == '-';
    let digits = if negative || (text.len() > 0 && text[0] == '+') {
        let rest = slice_subrange(text, 1, text.len());
        assert(rest@ =~= text@.skip(1));
        rest
    } else {
        text
    };
    match parse_natural(digits) {
        Some(v) => {
            if negative {
                if v <= 0x8000_0000_0000_0000u64 {
                    Some((-(v as i128)) as i64)
                } else {
                    None
                }
            } else if v <= i64::MAX as u64 {
                Some(v as i64)
            } else {
                None
            }
        },
        None => None,
    }
}

/// What `decimal` writes is made of digits, and reads as the number again.
pub proof fn law_natural_reads_back(n: nat)
    ensures
        natural(decimal(n)) == Some(n),
    decreases n,
{
    let text = decimal(n);
    if n < 10 {
        reveal_with_fuel(digits_value, 2);
        assert(is_digit(text[0]));
        assert(text.drop_last() =~= Seq::empty());
    } else {
        law_natural_reads_back(n / 10);
        assert(text.drop_last() =~= decimal(n / 10));
        assert forall|i: int| 0 <= i < text.len() implies is_digit(#[trigger] text[i]) by {
            if i < text.len() - 1 {
                assert(text[i] == decimal(n / 10)[i]);
            }
        }
    }
}

/// What is written in decimal notation reads as the same number again.
pub proof fn law_number_reads_back(n: i64, port: u16)
    ensures
        parsed_i64(signed_decimal(n as int)) == Some(n),
        parsed_u16(decimal(port as nat)) == Some(port),
{
    let text = signed_decimal(n as int);
    law_natural_reads_back(port as nat);
    assert(is_digit(decimal(port as nat)[0]));
    if n < 0 {
        law_natural_reads_back((-n) as nat);
        assert(text.skip(1) =~= decimal((-n) as nat));
    } else {
        law_natural_reads_back(n as nat);
        assert(is_digit(text[0]));
    }
}

/// The digits are those of base 16 in lower case, in their order.
pub proof fn law_digits_follow_each_other(d: int)
    ensures
        0 <= d < 10 ==> digit(d) as int == '0' as int + d,
        10 <= d < 16 ==> digit(d) as int == 'a' as int + d - 10,
        0 <= d < 16 ==> is_hex_digit(digit(d)),
{
}

/// A number of one digit is that digit, and ten times a number and a digit more
/// is the number with the digit behind it.
pub proof fn law_one_digit_more_is_ten_times_as_much(n: nat, d: nat)
    requires
        d < 10,
    ensures
        decimal(d).len() == 1 && decimal(d)[0] as int == '0' as int + d,
        n > 0 ==> decimal(n * 10 + d) == decimal(n) + decimal(d),
        n > 0 ==> decimal(n)[0] != '0',
    decreases n,
{
    if n > 0 {
        assert((n * 10 + d) / 10 == n && (n * 10 + d) % 10 == d);
        assert(decimal(n * 10 + d) =~= decimal(n) + decimal(d));
        if n >= 10 {
            law_one_digit_more_is_ten_times_as_much(n / 10, n % 10);
            law_natural_reads_back(n / 10);
            assert(decimal(n)[0] == decimal(n / 10)[0]);
        }
    }
}

/// A negative number is written as what it lacks to zero, behind a minus sign;
/// any other one without a sign.
pub proof fn law_only_negative_numbers_have_a_sign(n: nat)
    ensures
        signed_decimal(n as int) == decimal(n),
        n > 0 ==> signed_decimal(-(n as int)).len() == decimal(n).len() + 1,
        n > 0 ==> signed_decimal(-(n as int))[0] == '-',
        n > 0 ==> signed_decimal(-(n as int)).skip(1) == decimal(n),
{
    if n > 0 {
        assert(signed_decimal(-(n as int)).skip(1) =~= decimal(n));
    }
}

/// What is read as a number is made of decimal digits, and each digit more makes
/// it ten times as much and what the digit stands for.
pub proof fn law_digits_are_read_one_by_one(text: Seq<char>, c: char)
    ensures
        natural(text) is Some <==> text.len() > 0 && forall|i: int|
            0 <= i < text.len() ==> '0' <= #[trigger] text[i] <= '9',
        '0' <= c <= '9' ==> natural(seq![c]) == Some((c as int - '0' as int) as nat),
        '0' <= c <= '9' ==> (natural(text) matches Some(n) ==> natural(text.push(c)) == Some(
            (n * 10 + (c as int - '0' as int)) as nat,
        )),
{
    let longer = text.push(c);
    assert(longer.drop_last() =~= text);
    assert(seq![c].drop_last() =~= Seq::empty());
    reveal_with_fuel(digits_value, 2);
    if text.len() > 0 && forall|i: int| 0 <= i < text.len() ==> '0' <= #[trigger] text[i] <= '9' {
        assert(forall|i: int| 0 <= i < text.len() ==> is_digit(#[trigger] text[i]));
    }
    if natural(text) is Some {
        assert forall|i: int| 0 <= i < text.len() implies '0' <= #[trigger] text[i] <= '9' by {
            assert(is_digit(text[i]));
        }
        if '0' <= c <= '9' {
            assert forall|i: int| 0 <= i < longer.len() implies is_digit(
                #[trigger] longer[i],
            ) by {
                if i < text.len() {
                    assert(is_digit(text[i]));
                }
            }
        }
    }
}

/// A port is what digits write down, perhaps behind a plus sign, where it is at
/// most 65535; nothing else is one.
pub proof fn law_port_is_read(digits: Seq<char>)
    ensures
        digits.len() > 0 && digits[0] == '+' ==> natural(digits) is None,
        !(digits.len() > 0 && digits[0] == '+') ==> parsed_u16(digits) == parsed_u16(
            seq!['+'] + digits,
        ),
        natural(digits) matches Some(n) ==> (n <= 65535 ==> parsed_u16(digits) == Some(n as u16))
            && (n > 65535 ==> parsed_u16(digits) is None),
        natural(digits) is None && !(digits.len() > 0 && digits[0] == '+') ==> parsed_u16(
            digits,
        ) is None,
        parsed_u16(seq!['+'] + digits) == (match natural(digits) {
            Some(n) => if n <= 65535 {
                Some(n as u16)
            } else {
                None
            },
            None => None,
        }),
{
    assert((seq!['+'] + digits).skip(1) =~= digits);
    if digits.len() > 0 && digits[0] == '+' {
        assert(!is_digit(digits[0]));
    }
}

/// An id is what digits write down, perhaps behind a plus or a minus sign, where
/// it fits in 64 bits; nothing else is one.
pub proof fn law_id_is_read(digits: Seq<char>)
    ensures
        digits.len() > 0 && (digits[0] == '+' || digits[0] == '-') ==> natural(digits) is None,
        natural(digits) matches Some(n) ==> (n <= 0x7fff_ffff_ffff_ffff ==> parsed_i64(digits)
            == Some(n as i64)) && (n > 0x7fff_ffff_ffff_ffff ==> parsed_i64(digits) is None),
        natural(digits) is None && !(digits.len() > 0 && (digits[0] == '+' || digits[0] == '-'))
            ==> parsed_i64(digits) is None,
        parsed_i64(seq!['+'] + digits) == (match natural(digits) {
            Some(n) => if n <= 0x7fff_ffff_ffff_ffff {
                Some(n as i64)
            } else {
                None
            },
            None => None,
        }),
        parsed_i64(seq!['-'] + digits) == (match natural(digits) {
            Some(n) => if n <= 0x8000_0000_0000_0000 {
                Some((-n) as i64)
            } else {
                None
            },
            None => None,
        }),
{
    assert((seq!['+'] + digits).skip(1) =~= digits);
    assert((seq!['-'] + digits).skip(1) =~= digits);
    if digits.len() > 0 && (digits[0] == '+' || digits[0] == '-') {
        assert(!is_digit(digits[0]));
    }
}

} // verus!
