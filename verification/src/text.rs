//! Text forms of identifiers and numbers.

use vstd::prelude::*;
use vstd::string::StringExecFns;

verus! {

/// The lower-case hexadecimal digit of `n`.
pub open spec fn hex_digit(n: int) -> char
    recommends
        0 <= n < 16,
{
    if n < 10 {
        ('0' as int + n) as char
    } else {
        ('a' as int + (n - 10)) as char
    }
}

/// What `c` is worth as a hexadecimal digit of either case.
pub open spec fn hex_value(c: char) -> Option<int> {
    if '0' <= c <= '9' {
        Some(c as int - '0' as int)
    } else if 'a' <= c <= 'f' {
        Some(c as int - 'a' as int + 10)
    } else if 'A' <= c <= 'F' {
        Some(c as int - 'A' as int + 10)
    } else {
        None
    }
}

/// `bytes` in lower-case hexadecimal, two digits a byte.
pub open spec fn hex_chars(bytes: Seq<u8>) -> Seq<char> {
    Seq::new(
        2 * bytes.len(),
        |i: int|
            if i % 2 == 0 {
                hex_digit(bytes[i / 2] as int / 16)
            } else {
                hex_digit(bytes[i / 2] as int % 16)
            },
    )
}

/// An even number of hexadecimal digits.
pub open spec fn is_hex(text: Seq<char>) -> bool {
    text.len() % 2 == 0 && forall|i: int| 0 <= i < text.len() ==> hex_value(#[trigger] text[i]) is Some
}

/// The bytes that an even number of hexadecimal digits stand for.
pub open spec fn hex_bytes(text: Seq<char>) -> Seq<u8> {
    Seq::new(
        text.len() / 2,
        |i: int| (16 * hex_value(text[2 * i])->0 + hex_value(text[2 * i + 1])->0) as u8,
    )
}

/// `hex::encode`: two lower-case digits for each byte, high half first.
#[verifier::external_body]
pub(crate) fn hex_encode(bytes: &[u8]) -> (text: String)
    ensures
        text@ == hex_chars(bytes@),
{
    hex::encode(bytes)
}

/// `hex::decode`: succeeds exactly on an even number of hexadecimal digits, of
/// either case, and gives a byte for each pair.
#[verifier::external_body]
pub(crate) fn hex_decode(text: &str) -> (bytes: Option<Vec<u8>>)
    ensures
        match bytes {
            Some(bytes) => is_hex(text@) && bytes@ == hex_bytes(text@),
            None => !is_hex(text@),
        },
{
    hex::decode(text).ok()
}

/// Reading a hexadecimal form back gives the bytes it was made from.
pub proof fn lemma_hex_round_trip(bytes: Seq<u8>)
    ensures
        is_hex(hex_chars(bytes)),
        hex_bytes(hex_chars(bytes)) == bytes,
{
    let text = hex_chars(bytes);
    assert forall|i: int| 0 <= i < text.len() implies hex_value(#[trigger] text[i]) is Some by {
        let byte = bytes[i / 2] as int;
        assert(0 <= byte / 16 < 16 && 0 <= byte % 16 < 16);
    }
    assert forall|i: int| 0 <= i < bytes.len() implies hex_bytes(text)[i] == bytes[i] by {
        let byte = bytes[i] as int;
        assert((2 * i) % 2 == 0 && (2 * i) / 2 == i);
        assert((2 * i + 1) % 2 == 1 && (2 * i + 1) / 2 == i);
        assert(text[2 * i] == hex_digit(byte / 16));
        assert(text[2 * i + 1] == hex_digit(byte % 16));
        assert(0 <= byte / 16 < 16 && 0 <= byte % 16 < 16);
        assert(hex_value(hex_digit(byte / 16)) == Some(byte / 16));
        assert(hex_value(hex_digit(byte % 16)) == Some(byte % 16));
    }
    assert(hex_bytes(text) =~= bytes);
}

/// The decimal digits of `n`.
pub open spec fn decimal_chars(n: nat) -> Seq<char>
    decreases n,
{
    if n < 10 {
        seq![('0' as int + n) as char]
    } else {
        decimal_chars(n / 10).push(('0' as int + n % 10) as char)
    }
}

/// Every character is a decimal digit.
pub open spec fn all_digits(text: Seq<char>) -> bool {
    forall|i: int| 0 <= i < text.len() ==> '0' <= #[trigger] text[i] <= '9'
}

/// The number that a string of decimal digits stands for.
pub open spec fn decimal_value(text: Seq<char>) -> nat
    decreases text.len(),
{
    if text.len() == 0 {
        0
    } else {
        10 * decimal_value(text.drop_last()) + (text.last() as int - '0' as int) as nat
    }
}

/// Reading a decimal form back gives the number it was made from.
pub proof fn lemma_decimal_round_trip(n: nat)
    ensures
        decimal_chars(n).len() > 0,
        all_digits(decimal_chars(n)),
        decimal_value(decimal_chars(n)) == n,
    decreases n,
{
    reveal_with_fuel(decimal_value, 2);
    if n < 10 {
        let text = decimal_chars(n);
        assert(text.drop_last() =~= Seq::empty());
        assert(text.last() == ('0' as int + n) as char);
    } else {
        lemma_decimal_round_trip(n / 10);
        let text = decimal_chars(n);
        assert(text.drop_last() =~= decimal_chars(n / 10));
        assert(text.last() == ('0' as int + n % 10) as char);
        assert(decimal_value(text) == 10 * (n / 10) + n % 10);
    }
}

/// More digits never stand for a smaller number.
proof fn lemma_decimal_prefix(text: Seq<char>, k: int)
    requires
        0 <= k <= text.len(),
    ensures
        decimal_value(text.take(k)) <= decimal_value(text),
    decreases text.len() - k,
{
    if k < text.len() {
        lemma_decimal_prefix(text, k + 1);
        let longer = text.take(k + 1);
        assert(longer.drop_last() =~= text.take(k));
    } else {
        assert(text.take(k) =~= text);
    }
}

/// The digit `n`, as text.
fn digit_text(n: u64) -> (text: &'static str)
    requires
        n < 10,
    ensures
        text@ == seq![('0' as int + n) as char],
{
    proof {
        reveal_strlit("0");
        reveal_strlit("1");
        reveal_strlit("2");
        reveal_strlit("3");
        reveal_strlit("4");
        reveal_strlit("5");
        reveal_strlit("6");
        reveal_strlit("7");
        reveal_strlit("8");
        reveal_strlit("9");
    }
    if n == 0 {
        "0"
    } else if n == 1 {
        "1"
    } else if n == 2 {
        "2"
    } else if n == 3 {
        "3"
    } else if n == 4 {
        "4"
    } else if n == 5 {
        "5"
    } else if n == 6 {
        "6"
    } else if n == 7 {
        "7"
    } else if n == 8 {
        "8"
    } else {
        "9"
    }
}

/// `n` in decimal.
pub fn decimal_text(n: u64) -> (text: String)
    ensures
        text@ == decimal_chars(n as nat),
    decreases n,
{
    if n < 10 {
        String::from_str(digit_text(n))
    } else {
        let mut text = decimal_text(n / 10);
        text.append(digit_text(n % 10));
        text
    }
}

/// Reads decimal digits no larger than `limit` from ASCII bytes.
pub fn parse_decimal(bytes: &[u8], limit: u64) -> (value: Option<u64>)
    ensures
        ({
            let text = Seq::new(bytes@.len(), |i: int| bytes@[i] as char);
            match value {
                Some(value) => text.len() > 0 && all_digits(text) && decimal_value(text) == value
                    && value <= limit,
                None => text.len() == 0 || !all_digits(text) || decimal_value(text) > limit,
            }
        }),
{
    let ghost text = Seq::new(bytes@.len(), |i: int| bytes@[i] as char);
    if bytes.len() == 0 {
        return None;
    }
    let mut value: u64 = 0;
    let mut i: usize = 0;
    assert(text.take(0) =~= Seq::empty());
    while i < bytes.len()
        invariant
            i <= bytes.len(),
            text == Seq::new(bytes@.len(), |i: int| bytes@[i] as char),
            all_digits(text.take(i as int)),
            decimal_value(text.take(i as int)) == value,
            value <= limit,
        decreases bytes.len() - i,
    {
        let byte: u8 = bytes[i];
        let ghost next = text.take(i + 1);
        assert(next.drop_last() =~= text.take(i as int));
        assert(next.last() == byte as char);
        if byte < 48 || byte > 57 {
            assert(text[i as int] == byte as char);
            return None;
        }
        let digit: u64 = (byte - 48) as u64;
        assert(decimal_value(next) == 10 * value + digit);
        let grown: u128 = value as u128 * 10 + digit as u128;
        if grown > limit as u128 {
            proof {
                lemma_decimal_prefix(text, i + 1);
            }
            return None;
        }
        value = grown as u64;
        i = i + 1;
    }
    assert(text.take(i as int) =~= text);
    Some(value)
}

/// Tells whether two texts are the same.
pub fn same_text(left: &str, right: &str) -> (same: bool)
    ensures
        same == (left@ == right@),
{
    let n: usize = left.unicode_len();
    if n != right.unicode_len() {
        return false;
    }
    let mut i: usize = 0;
    while i < n
        invariant
            i <= n,
            n == left@.len(),
            n == right@.len(),
            forall|j: int| 0 <= j < i ==> left@[j] == right@[j],
        decreases n - i,
    {
        if left.get_char(i) != right.get_char(i) {
            return false;
        }
        i = i + 1;
    }
    assert(left@ =~= right@);
    true
}

} // verus!
