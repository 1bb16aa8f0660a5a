//! Bytes as hexadecimal text.

use vstd::prelude::*;

use crate::backend::form::hex_digit;
use crate::text::chars_of;

verus! {

/// The small hex digit of `n`.
pub open spec fn hex_small(n: int) -> char {
    if n < 10 {
        (48 + n) as char
    } else {
        (87 + n) as char
    }
}

/// `bytes` in hexadecimal, two small digits each.
pub open spec fn hex_text(bytes: Seq<u8>) -> Seq<char>
    decreases bytes.len(),
{
    if bytes.len() == 0 {
        Seq::empty()
    } else {
        hex_text(bytes.drop_last()) + seq![
            hex_small(bytes.last() as int / 16),
            hex_small(bytes.last() as int % 16),
        ]
    }
}

/// The value of a hex digit of either case.
pub open spec fn digit_value(digit: char) -> Option<u8> {
    if digit as u32 <= 127 {
        crate::backend::form::hex_value(digit as u8)
    } else {
        None
    }
}

/// The bytes `text` writes in hexadecimal, digits of either case; `None` where
/// it is anything else.
pub open spec fn hex_bytes(text: Seq<char>) -> Option<Seq<u8>>
    decreases text.len(),
{
    if text.len() == 0 {
        Some(Seq::empty())
    } else if text.len() == 1 {
        None
    } else {
        match (
            hex_bytes(text.take(text.len() - 2)),
            digit_value(text[text.len() - 2]),
            digit_value(text[text.len() - 1]),
        ) {
            (Some(bytes), Some(high), Some(low)) => Some(bytes.push((high * 16 + low) as u8)),
            _ => None,
        }
    }
}

/// Bytes written in hexadecimal read back as themselves.
pub proof fn hex_reads_back(bytes: Seq<u8>)
    ensures
        hex_bytes(hex_text(bytes)) == Some(bytes),
    decreases bytes.len(),
{
    if bytes.len() > 0 {
        hex_reads_back(bytes.drop_last());
        let text = hex_text(bytes);
        let last = bytes.last();
        assert(text.take(text.len() - 2) =~= hex_text(bytes.drop_last()));
        assert(text[text.len() - 2] == hex_small(last as int / 16));
        assert(text[text.len() - 1] == hex_small(last as int % 16));
        assert(digit_value(hex_small(last as int / 16)) == Some((last as int / 16) as u8));
        assert(digit_value(hex_small(last as int % 16)) == Some((last as int % 16) as u8));
        assert(bytes.drop_last().push(last) =~= bytes);
    }
}

fn small(n: u8) -> (digit: char)
    requires
        n < 16,
    ensures
        digit == hex_small(n as int),
{
    if n < 10 {
        (48 + n) as char
    } else {
        (87 + n) as char
    }
}

/// `bytes` in hexadecimal.
pub fn hex_encode(bytes: &[u8]) -> (text: String)
    ensures
        text@ == hex_text(bytes@),
{
    let mut text = String::new();
    let mut at: usize = 0;
    while at < bytes.len()
        invariant
            at <= bytes@.len(),
            text@ == hex_text(bytes@.take(at as int)),
        decreases bytes@.len() - at,
    {
        text.push(small(bytes[at] / 16));
        text.push(small(bytes[at] % 16));
        assert(bytes@.take(at + 1).drop_last() =~= bytes@.take(at as int));
        assert(text@ =~= hex_text(bytes@.take(at + 1)));
        at += 1;
    }
    assert(bytes@.take(at as int) =~= bytes@);
    text
}

fn value(digit: char) -> (value: Option<u8>)
    ensures
        value == digit_value(digit),
{
    let code: u32 = digit as u32;
    if code <= 127 {
        hex_digit(code as u8)
    } else {
        None
    }
}

/// The bytes `text` writes in hexadecimal.
pub fn hex_decode(text: &str) -> (bytes: Option<Vec<u8>>)
    ensures
        match (bytes, hex_bytes(text@)) {
            (Some(bytes), Some(held)) => bytes@ == held,
            (None, None) => true,
            _ => false,
        },
{
    let chars = chars_of(text);
    if chars.len() % 2 == 1 {
        proof {
            odd_is_none(text@);
        }
        return None;
    }
    let mut bytes: Vec<u8> = Vec::new();
    let mut at: usize = 0;
    while at < chars.len()
        invariant
            chars@ == text@,
            at <= chars@.len(),
            at % 2 == 0,
            chars@.len() % 2 == 0,
            hex_bytes(text@.take(at as int)) == Some(bytes@),
        decreases chars@.len() - at,
    {
        let ghost next = text@.take(at + 2);
        assert(next.take(next.len() - 2) =~= text@.take(at as int));
        match (value(chars[at]), value(chars[at + 1])) {
            (Some(high), Some(low)) => {
                bytes.push(high * 16 + low);
            },
            _ => {
                proof {
                    assert(hex_bytes(next) is None);
                    none_stays_none(text@, at + 2);
                }
                return None;
            },
        }
        at += 2;
    }
    assert(text@.take(at as int) =~= text@);
    Some(bytes)
}

proof fn odd_is_none(text: Seq<char>)
    requires
        text.len() % 2 == 1,
    ensures
        hex_bytes(text) is None,
    decreases text.len(),
{
    if text.len() > 1 {
        odd_is_none(text.take(text.len() - 2));
    }
}

proof fn none_stays_none(text: Seq<char>, at: int)
    requires
        0 <= at <= text.len(),
        (text.len() - at) % 2 == 0,
        hex_bytes(text.take(at)) is None,
    ensures
        hex_bytes(text) is None,
    decreases text.len() - at,
{
    if at < text.len() {
        let shorter = text.take(text.len() - 2);
        assert(shorter.take(at) =~= text.take(at));
        none_stays_none(shorter, at);
    } else {
        assert(text.take(at) =~= text);
    }
}

proof fn a_digit_has_its_worth(digit: char)
    ensures
        digit_value(digit) is Some <==> ('0' <= digit <= '9' || 'a' <= digit <= 'f' || 'A' <= digit
            <= 'F'),
        digit_value(digit) is Some ==> digit_value(digit)->0 as int == worth(digit),
        digit_value(digit) is Some ==> 0 <= worth(digit) < 16,
{
    let byte = digit as u8;
    if digit as u32 <= 127 {
        assert(byte as u32 == digit as u32);
    }
}

/// What hexadecimal text writes is one byte for two digits, each digit a number
/// below sixteen in either case; text of an odd length, or with anything else
/// in it, writes nothing.
pub proof fn two_digits_are_a_byte(text: Seq<char>)
    ensures
        hex_bytes(text) is Some <==> text.len() % 2 == 0 && forall|i: int|
            0 <= i < text.len() ==> ('0' <= #[trigger] text[i] <= '9' || 'a' <= text[i] <= 'f'
                || 'A' <= text[i] <= 'F'),
        hex_bytes(text) is Some ==> hex_bytes(text)->0.len() * 2 == text.len(),
        hex_bytes(text) is Some ==> forall|i: int|
            0 <= i < hex_bytes(text)->0.len() ==> (#[trigger] hex_bytes(text)->0[i]) as int
                == worth(text[2 * i]) * 16 + worth(text[2 * i + 1]),
    decreases text.len(),
{
    if text.len() >= 2 {
        let shorter = text.take(text.len() - 2);
        two_digits_are_a_byte(shorter);
        assert forall|i: int| 0 <= i < shorter.len() implies shorter[i] == #[trigger] text[i] by {}
        a_digit_has_its_worth(text[text.len() - 2]);
        a_digit_has_its_worth(text[text.len() - 1]);
        if hex_bytes(text) is None && text.len() % 2 == 0 && (forall|i: int|
            0 <= i < text.len() ==> ('0' <= #[trigger] text[i] <= '9' || 'a' <= text[i] <= 'f'
                || 'A' <= text[i] <= 'F')) {
            assert forall|i: int| 0 <= i < shorter.len() implies ('0' <= #[trigger] shorter[i]
                <= '9' || 'a' <= shorter[i] <= 'f' || 'A' <= shorter[i] <= 'F') by {
                assert(shorter[i] == text[i]);
            }
        }
        if hex_bytes(text) is Some {
            assert forall|i: int| 0 <= i < text.len() implies ('0' <= #[trigger] text[i] <= '9'
                || 'a' <= text[i] <= 'f' || 'A' <= text[i] <= 'F') by {
                if i < shorter.len() {
                    assert(shorter[i] == text[i]);
                }
            }
            assert forall|i: int| 0 <= i < hex_bytes(text)->0.len() implies (
            #[trigger] hex_bytes(text)->0[i]) as int == worth(text[2 * i]) * 16 + worth(
                text[2 * i + 1],
            ) by {
                if i < hex_bytes(shorter)->0.len() {
                    assert(shorter[2 * i] == text[2 * i]);
                    assert(shorter[2 * i + 1] == text[2 * i + 1]);
                    assert(hex_bytes(text)->0[i] == hex_bytes(shorter)->0[i]);
                }
            }
        }
    }
}

/// The number a hex digit stands for.
pub open spec fn worth(digit: char) -> int {
    if '0' <= digit <= '9' {
        digit as int - '0' as int
    } else if 'a' <= digit <= 'f' {
        digit as int - 'a' as int + 10
    } else {
        digit as int - 'A' as int + 10
    }
}

/// Bytes in hexadecimal are two digits each, none of them a capital.
pub proof fn a_byte_is_two_small_digits(bytes: Seq<u8>)
    ensures
        hex_text(bytes).len() == 2 * bytes.len(),
        forall|i: int|
            0 <= i < bytes.len() ==> worth(#[trigger] hex_text(bytes)[2 * i]) * 16 + worth(
                hex_text(bytes)[2 * i + 1],
            ) == bytes[i],
        forall|i: int|
            0 <= i < hex_text(bytes).len() ==> ('0' <= #[trigger] hex_text(bytes)[i] <= '9' || 'a'
                <= hex_text(bytes)[i] <= 'f'),
    decreases bytes.len(),
{
    if bytes.len() > 0 {
        let shorter = bytes.drop_last();
        a_byte_is_two_small_digits(shorter);
        let last = bytes.last();
        assert forall|i: int| 0 <= i < bytes.len() implies worth(#[trigger] hex_text(bytes)[2 * i])
            * 16 + worth(hex_text(bytes)[2 * i + 1]) == bytes[i] by {
            if i < shorter.len() {
                assert(hex_text(bytes)[2 * i] == hex_text(shorter)[2 * i]);
                assert(hex_text(bytes)[2 * i + 1] == hex_text(shorter)[2 * i + 1]);
            } else {
                assert(hex_text(bytes)[2 * i] == hex_small(last as int / 16));
                assert(hex_text(bytes)[2 * i + 1] == hex_small(last as int % 16));
            }
        }
        assert forall|i: int| 0 <= i < hex_text(bytes).len() implies ('0'
            <= #[trigger] hex_text(bytes)[i] <= '9' || 'a' <= hex_text(bytes)[i] <= 'f') by {
            if i < hex_text(shorter).len() {
                assert(hex_text(bytes)[i] == hex_text(shorter)[i]);
            }
        }
    }
}

} // verus!
