//! Getting a device's key onto an account without a passkey. Identity's
//! `AddKey` is signed by the key joining and consented to by a key already on
//! the account, of any scheme; so any of the account's keys can let a new one
//! in.
//!
//! - **Another device.** The new device shows a short code; the person types
//!   it on a device already on the account, compares a fingerprint, and
//!   approves. The two never meet: they pass the request and the consent
//!   through the auth host's relay, in two slots named from the code.
//! - **A recovery key.** An extra key on the account whose only copy is its
//!   words on paper. Made from a device already on the account, which consents
//!   to it; typed on a new device, it consents to that device's key.

use vstd::prelude::*;
use vstd::utf8::*;

use crate::backend::address::address_of;
use crate::backend::form::push_hex_capitals;
use crate::backend::hex::hex_decode;
use crate::backend::hex::hex_encode;
use crate::backend::wire::push_all;
use crate::outside::base64_encode;
use crate::outside::json_object;
use crate::outside::json_of;
use crate::outside::json_reads;
use crate::outside::json_string;
use crate::outside::json_unsigned;
use crate::outside::put_number;
use crate::outside::put_text;
use crate::outside::random_u64;
use crate::outside::sha256;
use crate::outside::status_text;
use crate::text::is_white_space;
use crate::text::joined;
use crate::text::joined3;
use crate::text::text_of;
use crate::text::to_upper;

verus! {

// ---------- codes ----------
/// Crockford's base32: no I, L, O, U to misread.
pub open spec fn crockford(n: int) -> char {
    if n < 10 {
        (48 + n) as char
    } else if n < 18 {
        (55 + n) as char
    } else if n < 20 {
        (56 + n) as char
    } else if n < 22 {
        (57 + n) as char
    } else if n < 27 {
        (58 + n) as char
    } else {
        (59 + n) as char
    }
}

/// Whether `c` is one of Crockford's.
pub open spec fn in_alphabet(c: char) -> bool {
    ('0' <= c <= '9' || 'A' <= c <= 'Z') && c != 'I' && c != 'L' && c != 'O' && c != 'U'
}

/// Crockford's alphabet, and nothing else.
pub proof fn crockford_is_the_alphabet(c: char)
    ensures
        in_alphabet(c) <==> exists|n: int| 0 <= n < 32 && #[trigger] crockford(n) == c,
{
    if in_alphabet(c) {
        let code = c as int;
        let n = if code < 58 {
            code - 48
        } else if code < 73 {
            code - 55
        } else if code < 76 {
            code - 56
        } else if code < 79 {
            code - 57
        } else if code < 85 {
            code - 58
        } else {
            code - 59
        };
        assert(0 <= n < 32 && crockford(n) == c);
    }
}

/// How many steps of `nth`'s place fit in the forty bits of a code.
pub open spec fn place(nth: int) -> int {
    if nth == 0 {
        0x8_0000_0000
    } else if nth == 1 {
        0x4000_0000
    } else if nth == 2 {
        0x200_0000
    } else if nth == 3 {
        0x10_0000
    } else if nth == 4 {
        0x8000
    } else if nth == 5 {
        0x400
    } else if nth == 6 {
        0x20
    } else {
        1
    }
}

/// The eight characters of a code, five bits each, the highest first.
pub open spec fn code_chars(bits: int) -> Seq<char> {
    Seq::new(8, |nth: int| crockford(bits / place(nth) % 32))
}

/// A code as it is shown: "KQ4M-9XPT".
pub open spec fn code_text(bits: int) -> Seq<char> {
    code_chars(bits).take(4).push('-') + code_chars(bits).skip(4)
}

/// A typed character as a code has it: capital, and the letters people confuse
/// with digits read as those digits.
pub open spec fn fold(c: char) -> char {
    if crate::text::upper(c) == 'O' {
        '0'
    } else if crate::text::upper(c) == 'I' || crate::text::upper(c) == 'L' {
        '1'
    } else {
        crate::text::upper(c)
    }
}

/// Whether a typed character only spaces a code out.
pub open spec fn spacing(c: char) -> bool {
    crate::text::white_space(c) || c == '-'
}

/// What a typed code comes to: its spacing dropped, the rest folded.
pub open spec fn folded(code: Seq<char>) -> Seq<char>
    decreases code.len(),
{
    if code.len() == 0 {
        Seq::empty()
    } else if spacing(code.last()) {
        folded(code.drop_last())
    } else {
        folded(code.drop_last()).push(fold(code.last()))
    }
}

/// Whether `code` is eight of Crockford's characters.
pub open spec fn is_code(code: Seq<char>) -> bool {
    code.len() == 8 && forall|i: int| 0 <= i < 8 ==> in_alphabet(#[trigger] code[i])
}

/// The code of forty `bits`.
pub fn code_of_bits(bits: u64) -> (code: String)
    requires
        bits < 0x100_0000_0000,
    ensures
        code@ == code_text(bits as int),
{
    let mut code = String::new();
    let mut nth: u64 = 0;
    let mut step: u64 = 0x8_0000_0000;
    while nth < 8
        invariant
            nth <= 8,
            nth < 8 ==> step == place(nth as int),
            code@ == code_text(bits as int).take(
                nth + (if nth > 4 {
                    1int
                } else {
                    0int
                }),
            ),
        decreases 8 - nth,
    {
        let ghost whole = code_text(bits as int);
        if nth == 4 {
            code.push('-');
            assert(code@ =~= whole.take(5));
        }
        code.push(crockford_char(bits / step % 32));
        assert(whole[if nth < 4 {
            nth as int
        } else {
            nth + 1
        }] == crockford(bits as int / place(nth as int) % 32));
        assert(code@ =~= whole.take(
            nth + 1 + (if nth + 1 > 4 {
                1int
            } else {
                0int
            }),
        ));
        nth += 1;
        step = step / 32;
    }
    assert(code@ =~= code_text(bits as int));
    code
}

fn crockford_char(n: u64) -> (c: char)
    requires
        n < 32,
    ensures
        c == crockford(n as int),
{
    let n: u8 = n as u8;
    if n < 10 {
        (48 + n) as char
    } else if n < 18 {
        (55 + n) as char
    } else if n < 20 {
        (56 + n) as char
    } else if n < 22 {
        (57 + n) as char
    } else if n < 27 {
        (58 + n) as char
    } else {
        (59 + n) as char
    }
}

/// A fresh code to type on the other device: 8 characters, 40 bits.
pub fn new_code() -> (code: String)
    ensures
        exists|bits: int| 0 <= bits < 0x100_0000_0000 && code@ == #[trigger] code_text(bits),
{
    let bits: u64 = random_u64() / 0x100_0000;
    code_of_bits(bits)
}

/// A typed code as the slots name it: case, spaces and dashes dropped, and the
/// letters people confuse with digits read as those digits. `None` for
/// anything that does not come to a code.
pub fn normalized(code: &str) -> (named: Option<String>)
    ensures
        match named {
            Some(named) => named@ == folded(code@) && is_code(folded(code@)),
            None => !is_code(folded(code@)),
        },
{
    let mut chars: Vec<char> = Vec::new();
    for c in it: code.chars()
        invariant
            it.seq() == code@,
            chars@ == folded(it.seq().take(it.index() as int)),
    {
        assert(it.seq().take(it.index() + 1).drop_last() =~= it.seq().take(it.index() as int));
        if !is_white_space(c) && c != '-' {
            let up = to_upper(c);
            if up == 'O' {
                chars.push('0');
            } else if up == 'I' || up == 'L' {
                chars.push('1');
            } else {
                chars.push(up);
            }
        }
    }
    assert(code@.take(code@.len() as int) =~= code@);
    if chars.len() != 8 {
        return None;
    }
    let mut at: usize = 0;
    while at < 8
        invariant
            chars@ == folded(code@),
            chars@.len() == 8,
            at <= 8,
            forall|i: int| 0 <= i < at ==> in_alphabet(#[trigger] chars@[i]),
        decreases 8 - at,
    {
        let c = chars[at];
        let known = (('0' <= c && c <= '9') || ('A' <= c && c <= 'Z')) && c != 'I' && c != 'L' && c
            != 'O' && c != 'U';
        if !known {
            return None;
        }
        at += 1;
    }
    Some(text_of(chars.as_slice()))
}

// ---------- codes read back ----------
/// Typing on the end of a code folds on the end of it.
pub proof fn folded_in_parts(first: Seq<char>, second: Seq<char>)
    ensures
        folded(first + second) == folded(first) + folded(second),
    decreases second.len(),
{
    if second.len() == 0 {
        assert(first + second =~= first);
        assert(folded(first) + folded(second) =~= folded(first));
    } else {
        assert((first + second).drop_last() =~= first + second.drop_last());
        folded_in_parts(first, second.drop_last());
        assert(folded(first + second) =~= folded(first) + folded(second));
    }
}

/// A code's own characters fold to themselves.
proof fn alphabet_folds_to_itself(code: Seq<char>)
    requires
        forall|i: int| 0 <= i < code.len() ==> in_alphabet(#[trigger] code[i]),
    ensures
        folded(code) == code,
    decreases code.len(),
{
    if code.len() > 0 {
        assert forall|i: int| 0 <= i < code.drop_last().len() implies in_alphabet(
            #[trigger] code.drop_last()[i],
        ) by {
            assert(code.drop_last()[i] == code[i]);
        }
        alphabet_folds_to_itself(code.drop_last());
        assert(in_alphabet(code[code.len() - 1]));
        assert(code.drop_last().push(code.last()) =~= code);
    }
}

proof fn code_is_alphabet(bits: int)
    requires
        0 <= bits < 0x100_0000_0000,
    ensures
        code_chars(bits).len() == 8,
        forall|i: int| 0 <= i < 8 ==> in_alphabet(#[trigger] code_chars(bits)[i]),
{
    assert forall|i: int| 0 <= i < 8 implies in_alphabet(#[trigger] code_chars(bits)[i]) by {
        let n = bits / place(i) % 32;
        assert(0 <= n < 32);
        crockford_is_the_alphabet(crockford(n));
    }
}

/// `code` in small letters.
pub open spec fn small_letters(code: Seq<char>) -> Seq<char> {
    code.map_values(|c: char| crate::text::lower(c))
}

/// Case makes no difference to what a code comes to.
pub proof fn a_code_reads_the_same_in_small_letters(code: Seq<char>)
    ensures
        folded(small_letters(code)) == folded(code),
    decreases code.len(),
{
    if code.len() > 0 {
        a_code_reads_the_same_in_small_letters(code.drop_last());
        assert(small_letters(code).drop_last() =~= small_letters(code.drop_last()));
        assert(small_letters(code).last() == crate::text::lower(code.last()));
    }
}

/// A fresh code reads back as the characters it is made of, shown as it is,
/// with anything that spaces in place of its dash, and with nothing there.
pub proof fn a_code_reads_back_however_it_is_spaced(bits: int, between: Seq<char>)
    requires
        0 <= bits < 0x100_0000_0000,
        forall|i: int| 0 <= i < between.len() ==> spacing(#[trigger] between[i]),
    ensures
        is_code(code_chars(bits)),
        folded(code_text(bits)) == code_chars(bits),
        folded(code_chars(bits).take(4) + between + code_chars(bits).skip(4)) == code_chars(bits),
{
    code_is_alphabet(bits);
    let chars = code_chars(bits);
    let head = chars.take(4);
    let tail = chars.skip(4);
    assert forall|i: int| 0 <= i < 4 implies in_alphabet(#[trigger] head[i]) by {
        assert(head[i] == chars[i]);
    }
    assert forall|i: int| 0 <= i < 4 implies in_alphabet(#[trigger] tail[i]) by {
        assert(tail[i] == chars[i + 4]);
    }
    alphabet_folds_to_itself(head);
    alphabet_folds_to_itself(tail);
    spacing_folds_away(between);
    folded_in_parts(head, between);
    folded_in_parts(head + between, tail);
    assert(head + Seq::<char>::empty() =~= head);
    assert(head + tail =~= chars);
    assert(code_text(bits) =~= head + seq!['-'] + tail);
    let dash = seq!['-'];
    spacing_folds_away(dash);
    folded_in_parts(head, dash);
    folded_in_parts(head + dash, tail);
}

proof fn spacing_folds_away(between: Seq<char>)
    requires
        forall|i: int| 0 <= i < between.len() ==> spacing(#[trigger] between[i]),
    ensures
        folded(between) == Seq::<char>::empty(),
    decreases between.len(),
{
    if between.len() > 0 {
        assert(spacing(between[between.len() - 1]));
        assert forall|i: int| 0 <= i < between.drop_last().len() implies spacing(
            #[trigger] between.drop_last()[i],
        ) by {
            assert(between.drop_last()[i] == between[i]);
        }
        spacing_folds_away(between.drop_last());
    }
}

// ---------- fingerprints and slots ----------
/// Two bytes as four capital hex digits.
pub open spec fn four_digits(bytes: Seq<u8>, at: int) -> Seq<char> {
    seq![
        crate::backend::form::hex_capital(bytes[at] as int / 16),
        crate::backend::form::hex_capital(bytes[at] as int % 16),
        crate::backend::form::hex_capital(bytes[at + 1] as int / 16),
        crate::backend::form::hex_capital(bytes[at + 1] as int % 16),
    ]
}

/// A key's fingerprint, to compare by eye on both screens: the first four
/// bytes of its SHA-256, "A1F3 09C2".
pub fn fingerprint(key: &[u8]) -> (shown: String)
    ensures
        shown@ == four_digits(crate::outside::sha256_of(key@), 0).push(' ') + four_digits(
            crate::outside::sha256_of(key@),
            2,
        ),
{
    let digest = sha256(key);
    let mut shown = String::new();
    push_hex_capitals(&mut shown, digest[0]);
    push_hex_capitals(&mut shown, digest[1]);
    shown.push(' ');
    push_hex_capitals(&mut shown, digest[2]);
    push_hex_capitals(&mut shown, digest[3]);
    assert(shown@ =~= four_digits(digest@, 0).push(' ') + four_digits(digest@, 2));
    shown
}

/// What names a slot: the protocol, the side, and the code.
pub open spec fn slot_name(code: Seq<char>, side: Seq<char>) -> Seq<u8> {
    encode_utf8("ducktape:link:v1\0"@) + encode_utf8(side) + encode_utf8("\0"@) + encode_utf8(code)
}

/// Where a slot is on its host: `/r/` and the digest of its name.
pub open spec fn slot_path(code: Seq<char>, side: Seq<char>) -> Seq<char> {
    "/r/"@ + crate::outside::base64(crate::outside::sha256_of(slot_name(code, side)))
}

/// The relay slot for one side of a code: `request` (new to old) or `consent`
/// (old to new).
pub fn slot(page: &str, code: &str, side: &str) -> (url: Result<String, String>)
    requires
        page@.len() <= 0x200_0000,
    ensures
        match (url, crate::backend::address::address_on(page@, slot_path(code@, side@))) {
            (Ok(url), Ok(text)) => url@ == text,
            (Err(said), Err(error)) => said@ == "The auth host address is unusable: "@ + error,
            _ => false,
        },
        url matches Ok(url) ==> crate::outside::ends_with(
            url@,
            slot_path(code@, side@).skip(1),
        ),
{
    let mut name: Vec<u8> = Vec::new();
    push_all(&mut name, "ducktape:link:v1\0".as_bytes());
    push_all(&mut name, side.as_bytes());
    push_all(&mut name, "\0".as_bytes());
    push_all(&mut name, code.as_bytes());
    assert(name@ =~= slot_name(code@, side@));
    let digest = sha256(name.as_slice());
    let id = base64_encode(digest.as_slice());
    let path = joined("/r/", id.as_str());
    proof {
        reveal_strlit("/r/");
        base64_is_plain(digest@);
        base64_length(digest@);
        assert(crate::outside::plain_path(path@)) by {
            assert forall|i: int| 3 <= i < path@.len() implies path@[i] == #[trigger] id@[i - 3] by {}
            assert forall|i: int| 0 <= i < path@.len() implies {
                ||| 'a' <= #[trigger] path@[i] <= 'z'
                ||| 'A' <= path@[i] <= 'Z'
                ||| '0' <= path@[i] <= '9'
                ||| path@[i] == '-'
                ||| path@[i] == '_'
                ||| path@[i] == '/' && (i == 0 || path@[i - 1] != '/')
            } by {
                if i >= 3 {
                    assert(path@[i] == id@[i - 3]);
                }
            }
        }
    }
    match address_of(page, path.as_str()) {
        Ok(url) => Ok(url),
        Err(error) => Err(joined("The auth host address is unusable: ", error.as_str())),
    }
}

/// Base64url is letters, digits, `-` and `_`.
pub proof fn base64_is_plain(bytes: Seq<u8>)
    ensures
        forall|i: int|
            0 <= i < crate::outside::base64(bytes).len() ==> {
                ||| 'a' <= #[trigger] crate::outside::base64(bytes)[i] <= 'z'
                ||| 'A' <= crate::outside::base64(bytes)[i] <= 'Z'
                ||| '0' <= crate::outside::base64(bytes)[i] <= '9'
                ||| crate::outside::base64(bytes)[i] == '-'
                ||| crate::outside::base64(bytes)[i] == '_'
            },
    decreases bytes.len(),
{
    if bytes.len() > 3 {
        base64_is_plain(bytes.skip(3));
        assert forall|i: int| 0 <= i < crate::outside::base64(bytes).len() implies {
            ||| 'a' <= #[trigger] crate::outside::base64(bytes)[i] <= 'z'
            ||| 'A' <= crate::outside::base64(bytes)[i] <= 'Z'
            ||| '0' <= crate::outside::base64(bytes)[i] <= '9'
            ||| crate::outside::base64(bytes)[i] == '-'
            ||| crate::outside::base64(bytes)[i] == '_'
        } by {
            if i >= 4 {
                assert(crate::outside::base64(bytes)[i] == crate::outside::base64(
                    bytes.skip(3),
                )[i - 4]);
            }
        }
    } else if bytes.len() == 3 {
        assert(crate::outside::base64(bytes.skip(3)).len() == 0);
    }
}

/// How long an encoding is.
pub proof fn base64_length(bytes: Seq<u8>)
    ensures
        crate::outside::base64(bytes).len() == (4 * bytes.len() + 2) / 3,
    decreases bytes.len(),
{
    if bytes.len() >= 3 {
        base64_length(bytes.skip(3));
    }
}

proof fn symbol_is_injective(a: int, b: int)
    requires
        0 <= a < 64,
        0 <= b < 64,
        crate::outside::symbol(a) == crate::outside::symbol(b),
    ensures
        a == b,
{
}

/// An encoding is of one thing only.
pub proof fn base64_is_injective(a: Seq<u8>, b: Seq<u8>)
    requires
        crate::outside::base64(a) == crate::outside::base64(b),
    ensures
        a == b,
    decreases a.len(),
{
    base64_length(a);
    base64_length(b);
    let x = crate::outside::base64(a);
    let y = crate::outside::base64(b);
    assert(a.len() == b.len());
    if a.len() >= 3 {
        assert(x[0] == y[0] && x[1] == y[1] && x[2] == y[2] && x[3] == y[3]);
        assert(crate::outside::base64(a.skip(3)) =~= x.skip(4));
        assert(crate::outside::base64(b.skip(3)) =~= y.skip(4));
        base64_is_injective(a.skip(3), b.skip(3));
        symbol_is_injective(a[0] as int / 4, b[0] as int / 4);
        symbol_is_injective(
            a[0] as int % 4 * 16 + a[1] as int / 16,
            b[0] as int % 4 * 16 + b[1] as int / 16,
        );
        symbol_is_injective(
            a[1] as int % 16 * 4 + a[2] as int / 64,
            b[1] as int % 16 * 4 + b[2] as int / 64,
        );
        symbol_is_injective(a[2] as int % 64, b[2] as int % 64);
        assert(a[0] == b[0] && a[1] == b[1] && a[2] == b[2]);
        assert forall|i: int| 0 <= i < a.len() implies a[i] == b[i] by {
            if i >= 3 {
                assert(a.skip(3)[i - 3] == b.skip(3)[i - 3]);
            }
        }
        assert(a =~= b);
    } else if a.len() == 2 {
        assert(x[0] == y[0] && x[1] == y[1] && x[2] == y[2]);
        assert(a =~= b);
    } else if a.len() == 1 {
        assert(x[0] == y[0] && x[1] == y[1]);
        assert(a =~= b);
    } else {
        assert(a =~= b);
    }
}

/// On either side, a slot's name is of one code only: whoever is given another
/// code is at another name.
pub proof fn a_name_is_of_one_code(code: Seq<char>, other: Seq<char>, side: Seq<char>)
    ensures
        slot_name(code, side) == slot_name(other, side) <==> code == other,
{
    let head = encode_utf8("ducktape:link:v1\0"@) + encode_utf8(side) + encode_utf8("\0"@);
    if slot_name(code, side) == slot_name(other, side) {
        assert(slot_name(code, side) =~= head + encode_utf8(code));
        assert(slot_name(other, side) =~= head + encode_utf8(other));
        let ours = encode_utf8(code);
        let theirs = encode_utf8(other);
        assert(ours.len() == theirs.len());
        assert forall|i: int| 0 <= i < ours.len() implies ours[i] == theirs[i] by {
            assert((head + ours)[head.len() + i] == ours[i]);
            assert((head + theirs)[head.len() + i] == theirs[i]);
        }
        assert(ours =~= theirs);
        crate::text::utf8_is_injective(code, other);
    }
}

/// A request's slot and a consent's are never named alike, whatever the codes.
pub proof fn the_two_sides_are_named_apart(code: Seq<char>, other: Seq<char>)
    ensures
        slot_name(code, "request"@) != slot_name(other, "consent"@),
{
    reveal_strlit("request");
    reveal_strlit("consent");
    let head = encode_utf8("ducktape:link:v1\0"@);
    is_ascii_chars_encode_utf8("request"@);
    is_ascii_chars_encode_utf8("consent"@);
    let a = slot_name(code, "request"@);
    let b = slot_name(other, "consent"@);
    assert(a[head.len() as int] == encode_utf8("request"@)[0]);
    assert(b[head.len() as int] == encode_utf8("consent"@)[0]);
}

/// An address ends with the id of one slot only: 43 characters, which no other
/// digest has.
pub proof fn an_address_is_of_one_slot(url: Seq<char>, digest: Seq<u8>, other: Seq<u8>)
    requires
        digest.len() == 32,
        other.len() == 32,
        crate::outside::ends_with(url, ("/r/"@ + crate::outside::base64(digest)).skip(1)),
        crate::outside::ends_with(url, ("/r/"@ + crate::outside::base64(other)).skip(1)),
    ensures
        digest == other,
        crate::outside::base64(digest).len() == 43,
{
    reveal_strlit("/r/");
    base64_length(digest);
    base64_length(other);
    let x = ("/r/"@ + crate::outside::base64(digest)).skip(1);
    let y = ("/r/"@ + crate::outside::base64(other)).skip(1);
    assert(x == y);
    assert(crate::outside::base64(digest) =~= x.skip(2));
    assert(crate::outside::base64(other) =~= y.skip(2));
    base64_is_injective(digest, other);
}

// ---------- the relay ----------
/// What one request of the relay came to: nothing, or a status, and its text
/// where that could be read.
#[derive(Debug)]
pub enum Fetched {
    Unreachable,
    Answered { status: u16, text: Option<String> },
}

/// A status as it is shown.
pub open spec fn shown(status: u16) -> Seq<char> {
    crate::text::decimal(status as nat) + " "@ + crate::outside::status_reason(status)
}

/// Whether `sent` is what came of posting a message.
pub open spec fn posted(fetched: Fetched, sent: Result<(), String>) -> bool {
    match fetched {
        Fetched::Unreachable => sent matches Err(said) && said@
            == "Can't reach the auth host. Check the connection and try again."@,
        Fetched::Answered { status, .. } => if 200 <= status < 300 {
            sent is Ok
        } else {
            sent matches Err(said) && said@ == "The auth host refused the message ("@ + shown(
                status,
            ) + ")."@
        },
    }
}

/// What came of posting a message: nothing more to say for a success.
pub fn post(fetched: &Fetched) -> (sent: Result<(), String>)
    requires
        fetched matches Fetched::Answered { status, .. } ==> 100 <= *status <= 999,
    ensures
        posted(*fetched, sent),
{
    match fetched {
        Fetched::Unreachable => Err(
            "Can't reach the auth host. Check the connection and try again.".to_owned(),
        ),
        Fetched::Answered { status, .. } => if 200 <= *status && *status < 300 {
            Ok(())
        } else {
            Err(
                joined3(
                    "The auth host refused the message (",
                    status_text(*status).as_str(),
                    ").",
                ),
            )
        },
    }
}

/// Whether `taken` is what one look at a slot came to: its message, or `None`
/// while nothing has arrived.
pub open spec fn looked(fetched: Fetched, taken: Result<Option<String>, String>) -> bool {
    match fetched {
        Fetched::Unreachable => taken matches Err(said) && said@ == "Can't reach the auth host."@,
        Fetched::Answered { status, text } => if status == 200 {
            match text {
                Some(text) => taken == Ok::<Option<String>, String>(Some(text)),
                None => taken matches Err(said) && said@ == "Lost the message on the way."@,
            }
        } else if status == 204 {
            taken == Ok::<Option<String>, String>(None)
        } else {
            taken matches Err(said) && said@ == "The auth host refused ("@ + shown(status) + ")."@
        },
    }
}

/// One look at a slot: its message, or `None` while nothing has arrived.
pub fn take(fetched: Fetched) -> (taken: Result<Option<String>, String>)
    requires
        fetched matches Fetched::Answered { status, .. } ==> 100 <= status <= 999,
    ensures
        looked(fetched, taken),
{
    match fetched {
        Fetched::Unreachable => Err("Can't reach the auth host.".to_owned()),
        Fetched::Answered { status, text } => if status == 200 {
            match text {
                Some(text) => Ok(Some(text)),
                None => Err("Lost the message on the way.".to_owned()),
            }
        } else if status == 204 {
            Ok(None)
        } else {
            Err(joined3("The auth host refused (", status_text(status).as_str(), ")."))
        },
    }
}

// ---------- what rides there ----------
/// A new device asking to join: which network, and its key.
#[derive(Debug)]
pub struct Request {
    pub network: String,
    pub key: Vec<u8>,
}

/// A key of the account consenting to another joining it.
#[derive(Debug)]
pub struct Consent {
    pub key: Vec<u8>,
    pub account: u64,
    pub expires_at: u64,
    pub proof: Vec<u8>,
}

/// The bytes a JSON object's field holds in hexadecimal.
pub open spec fn json_bytes(json: Seq<char>, field: Seq<char>) -> Option<Seq<u8>> {
    match crate::outside::json_text(json, field) {
        Some(text) => crate::backend::hex::hex_bytes(text),
        None => None,
    }
}

fn bytes_in(json: &str, field: &str) -> (bytes: Option<Vec<u8>>)
    ensures
        match (bytes, json_bytes(json@, field@)) {
            (Some(bytes), Some(held)) => bytes@ == held,
            (None, None) => true,
            _ => false,
        },
{
    match json_string(json, field) {
        Some(text) => hex_decode(text.as_str()),
        None => None,
    }
}

/// Whether `consent` is what `json` says, or else what is the matter with it.
pub open spec fn consent_in(json: Seq<char>, consent: Result<Consent, String>) -> bool {
    if !crate::outside::is_json(json) {
        consent matches Err(said) && said@ == "The other device's answer is unreadable."@
    } else if json_bytes(json, "key"@) is None {
        consent matches Err(said) && said@ == "The other device's answer has no "@ + "key"@ + "."@
    } else if crate::outside::json_number(json, "account"@) is None {
        consent matches Err(said) && said@ == "The other device's answer names no account."@
    } else if crate::outside::json_number(json, "expires_at"@) is None {
        consent matches Err(said) && said@ == "The other device's answer has no deadline."@
    } else if json_bytes(json, "proof"@) is None {
        consent matches Err(said) && said@ == "The other device's answer has no "@ + "proof"@ + "."@
    } else {
        consent matches Ok(consent) && consent.key@ == json_bytes(json, "key"@)->0
            && consent.account == crate::outside::json_number(json, "account"@)->0
            && consent.expires_at == crate::outside::json_number(json, "expires_at"@)->0
            && consent.proof@ == json_bytes(json, "proof"@)->0
    }
}

fn no_field(field: &str) -> (said: String)
    ensures
        said@ == "The other device's answer has no "@ + field@ + "."@,
{
    joined3("The other device's answer has no ", field, ".")
}

/// The consent in an answer.
pub fn parse_consent(json: &str) -> (consent: Result<Consent, String>)
    ensures
        consent_in(json@, consent),
{
    if !json_reads(json) {
        return Err("The other device's answer is unreadable.".to_owned());
    }
    let key = match bytes_in(json, "key") {
        Some(key) => key,
        None => {
            return Err(no_field("key"));
        },
    };
    let account: u64 = match json_unsigned(json, "account") {
        Some(account) => account,
        None => {
            return Err("The other device's answer names no account.".to_owned());
        },
    };
    let expires_at: u64 = match json_unsigned(json, "expires_at") {
        Some(expires_at) => expires_at,
        None => {
            return Err("The other device's answer has no deadline.".to_owned());
        },
    };
    let proof_bytes = match bytes_in(json, "proof") {
        Some(held) => held,
        None => {
            return Err(no_field("proof"));
        },
    };
    Ok(Consent { key, account, expires_at, proof: proof_bytes })
}

/// Whether `json` is a message that says `consent`.
pub open spec fn says_consent(json: Seq<char>, consent: Consent) -> bool {
    &&& crate::outside::is_json(json)
    &&& crate::outside::json_number(json, "v"@) == Some(1u64)
    &&& crate::outside::json_number(json, "account"@) == Some(consent.account)
    &&& crate::outside::json_text(json, "key"@) == Some(
        crate::backend::hex::hex_text(consent.key@),
    )
    &&& crate::outside::json_number(json, "expires_at"@) == Some(consent.expires_at)
    &&& crate::outside::json_text(json, "proof"@) == Some(
        crate::backend::hex::hex_text(consent.proof@),
    )
}

/// The message that hands a consent over.
pub fn consent_message(consent: &Consent) -> (json: String)
    ensures
        says_consent(json@, *consent),
{
    let mut object = json_object();
    put_number(&mut object, "v", 1);
    put_number(&mut object, "account", consent.account);
    put_text(&mut object, "key", hex_encode(consent.key.as_slice()).as_str());
    put_number(&mut object, "expires_at", consent.expires_at);
    put_text(&mut object, "proof", hex_encode(consent.proof.as_slice()).as_str());
    proof {
        fields_are_apart();
    }
    json_of(object)
}

/// The names of a message's fields are different names.
proof fn fields_are_apart()
    ensures
        "v"@.len() == 1,
        "key"@.len() == 3,
        "proof"@.len() == 5,
        "account"@.len() == 7,
        "network"@.len() == 7,
        "expires_at"@.len() == 10,
        "account"@[0] != "network"@[0],
{
    reveal_strlit("v");
    reveal_strlit("key");
    reveal_strlit("proof");
    reveal_strlit("account");
    reveal_strlit("network");
    reveal_strlit("expires_at");
}

/// A consent that is handed over is the one that is read.
pub proof fn a_consent_survives_the_trip(
    json: Seq<char>,
    consent: Consent,
    read: Result<Consent, String>,
)
    ensures
        says_consent(json, consent) && consent_in(json, read) ==> (read matches Ok(read)
            && read.key@ == consent.key@ && read.account == consent.account && read.expires_at
            == consent.expires_at && read.proof@ == consent.proof@),
{
    crate::backend::hex::hex_reads_back(consent.key@);
    crate::backend::hex::hex_reads_back(consent.proof@);
}

/// Whether `request` is what `json` asks, or else what is the matter with it.
/// A key is 32 bytes; a request that names no network is of none.
pub open spec fn request_in(json: Seq<char>, request: Result<Request, String>) -> bool {
    if !crate::outside::is_json(json) {
        request matches Err(said) && said@ == "The new device's request is unreadable."@
    } else {
        match json_bytes(json, "key"@) {
            Some(key) if key.len() == 32 => request matches Ok(request) && request.key@ == key
                && request.network@ == (match crate::outside::json_text(json, "network"@) {
                Some(network) => network,
                None => Seq::empty(),
            }),
            _ => request matches Err(said) && said@ == "The new device's request has no key."@,
        }
    }
}

/// The request in a message.
pub fn parse_request(json: &str) -> (request: Result<Request, String>)
    ensures
        request_in(json@, request),
{
    if !json_reads(json) {
        return Err("The new device's request is unreadable.".to_owned());
    }
    match bytes_in(json, "key") {
        Some(key) if key.len() == 32 => {
            let network = match json_string(json, "network") {
                Some(network) => network,
                None => String::new(),
            };
            Ok(Request { network, key })
        },
        _ => Err("The new device's request has no key.".to_owned()),
    }
}

/// Whether `json` is a message that asks `request`.
pub open spec fn says_request(json: Seq<char>, network: Seq<char>, key: Seq<u8>) -> bool {
    &&& crate::outside::is_json(json)
    &&& crate::outside::json_number(json, "v"@) == Some(1u64)
    &&& crate::outside::json_text(json, "network"@) == Some(network)
    &&& crate::outside::json_text(json, "key"@) == Some(crate::backend::hex::hex_text(key))
}

/// The message that puts a device's key up.
pub fn request_message(network: &str, key: &[u8]) -> (json: String)
    ensures
        says_request(json@, network@, key@),
{
    let mut object = json_object();
    put_number(&mut object, "v", 1);
    put_text(&mut object, "network", network);
    put_text(&mut object, "key", hex_encode(key).as_str());
    proof {
        fields_are_apart();
    }
    json_of(object)
}

/// A request that is put up is the one that is found.
pub proof fn a_request_survives_the_trip(
    json: Seq<char>,
    network: Seq<char>,
    key: Seq<u8>,
    read: Result<Request, String>,
)
    requires
        key.len() == 32,
    ensures
        says_request(json, network, key) && request_in(json, read) ==> (read matches Ok(read)
            && read.key@ == key && read.network@ == network),
{
    crate::backend::hex::hex_reads_back(key);
}

// ---------- what these come to ----------
/// Crockford's characters are as many as there are five bits: each stands for
/// five bits only.
pub proof fn a_character_is_of_five_bits(n: int, m: int)
    requires
        0 <= n < 32,
        0 <= m < 32,
    ensures
        crockford(n) == crockford(m) <==> n == m,
        n < m <==> (crockford(n) as u32) < (crockford(m) as u32),
{
}

/// Forty bits are their eight places of five.
proof fn bits_are_their_places(bits: int)
    requires
        0 <= bits < 0x100_0000_0000,
    ensures
        bits == (bits / 0x8_0000_0000 % 32) * 0x8_0000_0000 + (bits / 0x4000_0000 % 32)
            * 0x4000_0000 + (bits / 0x200_0000 % 32) * 0x200_0000 + (bits / 0x10_0000 % 32)
            * 0x10_0000 + (bits / 0x8000 % 32) * 0x8000 + (bits / 0x400 % 32) * 0x400 + (bits / 0x20
            % 32) * 0x20 + bits % 32,
{
    assert(bits / 0x8_0000_0000 % 32 == bits / 0x8_0000_0000);
    assert(bits / 0x4000_0000 == (bits / 0x8_0000_0000) * 32 + bits / 0x4000_0000 % 32);
    assert(bits / 0x200_0000 == (bits / 0x4000_0000) * 32 + bits / 0x200_0000 % 32);
    assert(bits / 0x10_0000 == (bits / 0x200_0000) * 32 + bits / 0x10_0000 % 32);
    assert(bits / 0x8000 == (bits / 0x10_0000) * 32 + bits / 0x8000 % 32);
    assert(bits / 0x400 == (bits / 0x8000) * 32 + bits / 0x400 % 32);
    assert(bits / 0x20 == (bits / 0x400) * 32 + bits / 0x20 % 32);
    assert(bits == (bits / 0x20) * 32 + bits % 32);
}

/// The same character in a place is the same five bits there.
proof fn a_place_is_read(bits: int, other: int, nth: int)
    requires
        0 <= nth < 8,
        code_chars(bits) == code_chars(other),
    ensures
        bits / place(nth) % 32 == other / place(nth) % 32,
{
    let ours = bits / place(nth) % 32;
    let theirs = other / place(nth) % 32;
    assert(code_chars(bits)[nth] == crockford(ours));
    assert(code_chars(other)[nth] == crockford(theirs));
    a_character_is_of_five_bits(ours, theirs);
}

/// A code is of its forty bits only: no two draws are shown as one code.
pub proof fn a_code_is_of_its_bits(bits: int, other: int)
    requires
        0 <= bits < 0x100_0000_0000,
        0 <= other < 0x100_0000_0000,
    ensures
        code_chars(bits) == code_chars(other) <==> bits == other,
{
    if code_chars(bits) == code_chars(other) {
        a_place_is_read(bits, other, 0);
        a_place_is_read(bits, other, 1);
        a_place_is_read(bits, other, 2);
        a_place_is_read(bits, other, 3);
        a_place_is_read(bits, other, 4);
        a_place_is_read(bits, other, 5);
        a_place_is_read(bits, other, 6);
        a_place_is_read(bits, other, 7);
        bits_are_their_places(bits);
        bits_are_their_places(other);
    }
}

/// A typed character counts for nothing where it only spaces, and for the
/// character it stands for otherwise: its capital, with an O a zero, and an I
/// and an L a one.
pub proof fn a_character_folds(c: char)
    ensures
        folded(seq![c]) == (if crate::text::white_space(c) || c == '-' {
            Seq::<char>::empty()
        } else if c == 'o' || c == 'O' {
            seq!['0']
        } else if c == 'i' || c == 'I' || c == 'l' || c == 'L' {
            seq!['1']
        } else if 'a' <= c <= 'z' {
            seq![(c as u32 - 32) as char]
        } else {
            seq![c]
        }),
{
    reveal_with_fuel(folded, 2);
    assert(seq![c].drop_last() =~= Seq::<char>::empty());
    assert(Seq::<char>::empty().push(fold(c)) =~= seq![fold(c)]);
}

/// A code is eight characters, each a digit or a capital other than I, L, O
/// and U.
pub proof fn a_code_is_eight_characters(code: Seq<char>)
    ensures
        is_code(code) <==> code.len() == 8 && forall|i: int|
            0 <= i < code.len() ==> ('0' <= #[trigger] code[i] <= '9' || 'A' <= code[i] <= 'Z')
                && code[i] != 'I' && code[i] != 'L' && code[i] != 'O' && code[i] != 'U',
{
    if code.len() == 8 && (forall|i: int|
        0 <= i < code.len() ==> ('0' <= #[trigger] code[i] <= '9' || 'A' <= code[i] <= 'Z')
            && code[i] != 'I' && code[i] != 'L' && code[i] != 'O' && code[i] != 'U') {
        assert forall|i: int| 0 <= i < 8 implies in_alphabet(#[trigger] code[i]) by {}
    }
    if is_code(code) {
        assert forall|i: int| 0 <= i < code.len() implies ('0' <= #[trigger] code[i] <= '9' || 'A'
            <= code[i] <= 'Z') && code[i] != 'I' && code[i] != 'L' && code[i] != 'O' && code[i]
            != 'U' by {
            assert(in_alphabet(code[i]));
        }
    }
}

/// A message is sent exactly where the host answered with success.
pub proof fn a_message_is_sent_on_success(fetched: Fetched, sent: Result<(), String>)
    ensures
        posted(fetched, sent) ==> (sent is Ok <==> (fetched matches Fetched::Answered {
            status,
            ..
        } && status as int / 100 == 2)),
{
}

/// A look finds a message exactly where the host hands one over, that message;
/// nothing yet exactly where the slot is empty; and is an error otherwise.
pub proof fn a_look_finds_what_was_left(fetched: Fetched, taken: Result<Option<String>, String>)
    ensures
        looked(fetched, taken) ==> {
            &&& (taken matches Ok(None)) <==> (fetched matches Fetched::Answered { status, .. }
                && status == 204)
            &&& (taken matches Ok(Some(_))) <==> (fetched matches Fetched::Answered {
                status,
                text: Some(_),
            } && status == 200)
            &&& taken matches Ok(Some(message)) ==> (fetched matches Fetched::Answered {
                text: Some(text),
                ..
            } && text == message)
        },
{
}

/// A consent is read exactly where all of it is there, and as it is there.
pub proof fn a_consent_is_read_whole_or_not_at_all(
    json: Seq<char>,
    consent: Result<Consent, String>,
)
    ensures
        consent_in(json, consent) ==> (consent is Ok <==> crate::outside::is_json(json)
            && json_bytes(json, "key"@) is Some && crate::outside::json_number(
            json,
            "account"@,
        ) is Some && crate::outside::json_number(json, "expires_at"@) is Some && json_bytes(
            json,
            "proof"@,
        ) is Some),
        consent_in(json, consent) ==> (consent matches Ok(read) ==> json_bytes(json, "key"@) == Some(
            read.key@,
        ) && crate::outside::json_number(json, "account"@) == Some(read.account)
            && crate::outside::json_number(json, "expires_at"@) == Some(read.expires_at)
            && json_bytes(json, "proof"@) == Some(read.proof@)),
{
}

/// A request is read exactly where it holds a key of 32 bytes, and as it stands.
pub proof fn a_request_is_read_by_its_key(json: Seq<char>, request: Result<Request, String>)
    ensures
        request_in(json, request) ==> (request is Ok <==> crate::outside::is_json(json)
            && json_bytes(json, "key"@) is Some && json_bytes(json, "key"@)->0.len() == 32),
        request_in(json, request) ==> (request matches Ok(read) ==> json_bytes(json, "key"@) == Some(
            read.key@,
        ) && (match crate::outside::json_text(json, "network"@) {
            Some(network) => read.network@ == network,
            None => read.network@.len() == 0,
        })),
{
}

/// A fingerprint is the first four bytes of the key's digest, in capital hex
/// digits, two bytes on each side of a space.
pub proof fn a_fingerprint_is_of_the_keys_digest(key: &[u8], shown: String, nth: int)
    requires
        call_ensures(fingerprint, (key,), shown),
        0 <= nth < 4,
    ensures
        shown@.len() == 9,
        shown@[4] == ' ',
        ({
            let at = if nth < 2 {
                2 * nth
            } else {
                2 * nth + 1
            };
            let (high, low) = (shown@[at], shown@[at + 1]);
            &&& ('0' <= high <= '9') || ('A' <= high <= 'F')
            &&& ('0' <= low <= '9') || ('A' <= low <= 'F')
            &&& crate::outside::sha256_of(key@)[nth] == 16 * crate::backend::hex::worth(high)
                + crate::backend::hex::worth(low)
        }),
{
    let digest = crate::outside::sha256_of(key@);
    let byte = digest[nth];
    let at = if nth < 2 {
        2 * nth
    } else {
        2 * nth + 1
    };
    assert(shown@[at] == crate::backend::form::hex_capital(byte as int / 16));
    assert(shown@[at + 1] == crate::backend::form::hex_capital(byte as int % 16));
}

/// What the person reads of a message that did not arrive, and of a look that
/// came back with nothing to read.
pub proof fn a_relay_that_fails_says_how(
    fetched: Fetched,
    sent: Result<(), String>,
    taken: Result<Option<String>, String>,
)
    requires
        call_ensures(post, (&fetched,), sent),
        call_ensures(take, (fetched,), taken),
    ensures
        fetched is Unreachable ==> sent is Err && sent->Err_0@
            == "Can't reach the auth host. Check the connection and try again."@ && taken is Err
            && taken->Err_0@ == "Can't reach the auth host."@,
        fetched matches Fetched::Answered { status, text } ==> {
            let shown = crate::text::decimal(status as nat) + " "@ + crate::outside::status_reason(
                status,
            );
            &&& sent is Ok <==> 200 <= status <= 299
            &&& sent is Err ==> sent->Err_0@ == "The auth host refused the message ("@ + shown
                + ")."@
            &&& status == 200 && text is Some ==> taken == Ok::<Option<String>, String>(text)
            &&& status == 200 && text is None ==> taken is Err && taken->Err_0@
                == "Lost the message on the way."@
            &&& status == 204 ==> taken == Ok::<Option<String>, String>(None)
            &&& status != 200 && status != 204 ==> taken is Err && taken->Err_0@
                == "The auth host refused ("@ + shown + ")."@
        },
{
}

/// What is the matter with a consent that cannot be read is told in order: that
/// it is unreadable, then its key, its account, its deadline and its proof.
pub proof fn what_a_consent_lacks_is_named(json: &str, consent: Result<Consent, String>)
    requires
        call_ensures(parse_consent, (json,), consent),
    ensures
        ({
            let key = json_bytes(json@, "key"@) is Some;
            let account = crate::outside::json_number(json@, "account"@) is Some;
            let deadline = crate::outside::json_number(json@, "expires_at"@) is Some;
            let proof_bytes = json_bytes(json@, "proof"@) is Some;
            let reads = crate::outside::is_json(json@);
            &&& consent is Ok <==> reads && key && account && deadline && proof_bytes
            &&& !reads ==> consent->Err_0@ == "The other device's answer is unreadable."@
            &&& reads && !key ==> consent->Err_0@ == "The other device's answer has no "@ + "key"@
                + "."@
            &&& reads && key && !account ==> consent->Err_0@
                == "The other device's answer names no account."@
            &&& reads && key && account && !deadline ==> consent->Err_0@
                == "The other device's answer has no deadline."@
            &&& reads && key && account && deadline && !proof_bytes ==> consent->Err_0@
                == "The other device's answer has no "@ + "proof"@ + "."@
        }),
{
}

/// The same of a request: that it is unreadable, then that it has no key of 32
/// bytes. A network it does not name is none.
pub proof fn what_a_request_lacks_is_named(json: &str, request: Result<Request, String>)
    requires
        call_ensures(parse_request, (json,), request),
    ensures
        ({
            let key = json_bytes(json@, "key"@);
            let reads = crate::outside::is_json(json@);
            &&& request is Ok <==> reads && key is Some && key->0.len() == 32
            &&& request matches Ok(request) ==> request.key@ == key->0
            &&& request is Ok && crate::outside::json_text(json@, "network"@) is Some
                ==> request->Ok_0.network@ == crate::outside::json_text(json@, "network"@)->0
            &&& request is Ok && crate::outside::json_text(json@, "network"@) is None
                ==> request->Ok_0.network@.len() == 0
            &&& !reads ==> request->Err_0@ == "The new device's request is unreadable."@
            &&& reads && request is Err ==> request->Err_0@
                == "The new device's request has no key."@
        }),
{
}

/// A slot's name is the protocol's, then the side, then the code, with a zero
/// behind each but the last.
pub proof fn a_slot_is_named_by_side_and_code(code: Seq<char>, side: Seq<char>)
    ensures
        slot_name(code, side) == encode_utf8("ducktape:link:v1\0"@ + side + "\0"@ + code),
{
    crate::text::utf8_of_concat("ducktape:link:v1\0"@, side);
    crate::text::utf8_of_concat("ducktape:link:v1\0"@ + side, "\0"@);
    crate::text::utf8_of_concat("ducktape:link:v1\0"@ + side + "\0"@, code);
}

/// A slot's address is the page's with the slot's path for its own, without a
/// query or a fragment; and there is none exactly where the page's address has
/// no such.
pub proof fn a_slot_is_on_the_pages_host(
    page: &str,
    code: &str,
    side: &str,
    url: Result<String, String>,
    bared: String,
    address: &str,
)
    requires
        call_ensures(slot, (page, code, side), url),
        call_ensures(crate::backend::address::bare_address, (address,), bared),
    ensures
        ({
            let path = "/r/"@ + crate::outside::base64(
                crate::outside::sha256_of(
                    encode_utf8("ducktape:link:v1\0"@ + side@ + "\0"@ + code@),
                ),
            );
            let whole = crate::outside::address_with_path(page@, path);
            &&& url is Ok <==> whole is Ok
            &&& whole is Ok && whole->Ok_0 == address@ ==> url->Ok_0@ == bared@
            &&& whole is Err ==> url->Err_0@ == "The auth host address is unusable: "@ + whole->Err_0
        }),
{
    a_slot_is_named_by_side_and_code(code@, side@);
}

} // verus!
