//! Percent-encoding out, and `application/x-www-form-urlencoded` in: the two
//! halves of a message that crosses the auth host.

use vstd::prelude::*;
use vstd::utf8::*;

use crate::text::same_bytes;
use crate::text::string_of_utf8;

verus! {

/// The bytes that stand for themselves: ASCII letters and digits, `-`, `_`,
/// `.` and `~`.
pub open spec fn unreserved(byte: u8) -> bool {
    ||| 48 <= byte <= 57
    ||| 65 <= byte <= 90
    ||| 97 <= byte <= 122
    ||| byte == 45
    ||| byte == 95
    ||| byte == 46
    ||| byte == 126
}

/// The capital hex digit of `n`.
pub open spec fn hex_capital(n: int) -> char {
    if n < 10 {
        (48 + n) as char
    } else {
        (55 + n) as char
    }
}

/// One byte, percent-encoded unless it stands for itself.
pub open spec fn percent(byte: u8) -> Seq<char> {
    if unreserved(byte) {
        seq![byte as char]
    } else {
        seq!['%', hex_capital(byte as int / 16), hex_capital(byte as int % 16)]
    }
}

/// `bytes`, percent-encoded.
pub open spec fn percent_encoded(bytes: Seq<u8>) -> Seq<char>
    decreases bytes.len(),
{
    if bytes.len() == 0 {
        Seq::empty()
    } else {
        percent_encoded(bytes.drop_last()) + percent(bytes.last())
    }
}

/// The value of a hex digit of either case.
pub open spec fn hex_value(digit: u8) -> Option<u8> {
    if 48 <= digit <= 57 {
        Some((digit - 48) as u8)
    } else if 65 <= digit <= 70 {
        Some((digit - 55) as u8)
    } else if 97 <= digit <= 102 {
        Some((digit - 87) as u8)
    } else {
        None
    }
}

/// The byte two characters after a `%` name, when both are hex digits.
pub open spec fn escaped(first: u8, second: u8) -> Option<u8> {
    match (hex_value(first), hex_value(second)) {
        (Some(high), Some(low)) => Some((high * 16 + low) as u8),
        _ => None,
    }
}

/// The byte an escape beginning at `at` names, where one begins there.
pub open spec fn escape_at(value: Seq<u8>, at: int) -> Option<u8> {
    if value[at] == 37 && at + 3 <= value.len() {
        escaped(value[at + 1], value[at + 2])
    } else {
        None
    }
}

/// `value` from `at` on, decoded: escapes are their bytes, a plus sign is a
/// space, and anything else, a lone `%` among it, is itself.
pub open spec fn form_decoded(value: Seq<u8>, at: int) -> Seq<u8>
    decreases value.len() - at,
{
    if at >= value.len() {
        Seq::empty()
    } else {
        match escape_at(value, at) {
            Some(byte) => seq![byte] + form_decoded(value, at + 3),
            None => seq![
                if value[at] == 43 {
                    32u8
                } else {
                    value[at]
                },
            ] + form_decoded(value, at + 1),
        }
    }
}

/// The first place `byte` stands in `bytes` from `at` on, or their end.
pub open spec fn find_byte(bytes: Seq<u8>, byte: u8, at: int) -> int
    decreases bytes.len() - at,
{
    if at >= bytes.len() {
        bytes.len() as int
    } else if bytes[at] == byte {
        at
    } else {
        find_byte(bytes, byte, at + 1)
    }
}

/// The value of one `name=value` pair, when it is `name`'s and is text.
pub open spec fn pair_value(pair: Seq<u8>, name: Seq<u8>) -> Option<Seq<char>> {
    let at = find_byte(pair, 61, 0);
    if at >= pair.len() || form_decoded(pair.take(at), 0) != name {
        None
    } else {
        let value = form_decoded(pair.skip(at + 1), 0);
        if valid_utf8(value) {
            Some(decode_utf8(value))
        } else {
            None
        }
    }
}

/// The first pair of `body`, from the one beginning at `at` on, that gives
/// `name` a value.
pub open spec fn field_value(body: Seq<u8>, name: Seq<u8>, at: int) -> Option<Seq<char>>
    decreases body.len() - at + 1,
{
    if at < 0 || at > body.len() {
        None
    } else {
        let end = pair_end(body, at);
        match pair_value(body.subrange(at, end), name) {
            Some(value) => Some(value),
            None => field_value(body, name, end + 1),
        }
    }
}

/// Where the pair beginning at `at` ends: at its `&`, or the body's end.
pub open spec fn pair_end(body: Seq<u8>, at: int) -> int {
    if at <= find_byte(body, 38, at) <= body.len() {
        find_byte(body, 38, at)
    } else {
        body.len() as int
    }
}

proof fn find_byte_shape(bytes: Seq<u8>, byte: u8, at: int)
    requires
        0 <= at <= bytes.len(),
    ensures
        at <= find_byte(bytes, byte, at) <= bytes.len(),
        forall|i: int| at <= i < find_byte(bytes, byte, at) ==> bytes[i] != byte,
        find_byte(bytes, byte, at) < bytes.len() ==> bytes[find_byte(bytes, byte, at)] == byte,
    decreases bytes.len() - at,
{
    if at < bytes.len() && bytes[at] != byte {
        find_byte_shape(bytes, byte, at + 1);
    }
}

proof fn find_byte_is(bytes: Seq<u8>, byte: u8, at: int, place: int)
    requires
        0 <= at <= place <= bytes.len(),
        forall|i: int| at <= i < place ==> bytes[i] != byte,
        place < bytes.len() ==> bytes[place] == byte,
    ensures
        find_byte(bytes, byte, at) == place,
    decreases place - at,
{
    if at < place {
        find_byte_is(bytes, byte, at + 1, place);
    }
}

// ---------- the code ----------
fn capital(n: u8) -> (digit: char)
    requires
        n < 16,
    ensures
        digit == hex_capital(n as int),
{
    if n < 10 {
        (48 + n) as char
    } else {
        (55 + n) as char
    }
}

/// Writes `byte` as two capital hex digits.
pub fn push_hex_capitals(out: &mut String, byte: u8)
    ensures
        final(out)@ == old(out)@ + seq![
            hex_capital(byte as int / 16),
            hex_capital(byte as int % 16),
        ],
{
    out.push(capital(byte / 16));
    out.push(capital(byte % 16));
    assert(out@ =~= old(out)@ + seq![
        hex_capital(byte as int / 16),
        hex_capital(byte as int % 16),
    ]);
}

/// `value`'s UTF-8, percent-encoded.
pub fn url_encode(value: &str) -> (encoded: String)
    ensures
        encoded@ == percent_encoded(encode_utf8(value@)),
{
    let bytes = value.as_bytes();
    let mut encoded = String::new();
    let mut at: usize = 0;
    while at < bytes.len()
        invariant
            at <= bytes@.len(),
            encoded@ == percent_encoded(bytes@.take(at as int)),
        decreases bytes@.len() - at,
    {
        let byte: u8 = bytes[at];
        let ghost before = encoded@;
        let plain = (48 <= byte && byte <= 57) || (65 <= byte && byte <= 90) || (97 <= byte && byte
            <= 122) || byte == 45 || byte == 95 || byte == 46 || byte == 126;
        if plain {
            encoded.push(byte as char);
            assert(encoded@ =~= before + percent(byte));
        } else {
            encoded.push('%');
            push_hex_capitals(&mut encoded, byte);
            assert(encoded@ =~= before + percent(byte));
        }
        assert(bytes@.take(at + 1).drop_last() =~= bytes@.take(at as int));
        at += 1;
    }
    assert(bytes@.take(at as int) =~= bytes@);
    encoded
}

/// The value of a hex digit of either case.
pub fn hex_digit(digit: u8) -> (value: Option<u8>)
    ensures
        value == hex_value(digit),
{
    if 48 <= digit && digit <= 57 {
        Some((digit - 48) as u8)
    } else if 65 <= digit && digit <= 70 {
        Some((digit - 55) as u8)
    } else if 97 <= digit && digit <= 102 {
        Some((digit - 87) as u8)
    } else {
        None
    }
}

fn unescape(first: u8, second: u8) -> (byte: Option<u8>)
    ensures
        byte == escaped(first, second),
{
    match (hex_digit(first), hex_digit(second)) {
        (Some(high), Some(low)) => Some(high * 16 + low),
        _ => None,
    }
}

/// One side of a form's pair, decoded.
pub fn form_decode(value: &[u8]) -> (decoded: Vec<u8>)
    ensures
        decoded@ == form_decoded(value@, 0),
{
    let mut decoded: Vec<u8> = Vec::new();
    let mut at: usize = 0;
    while at < value.len()
        invariant
            at <= value@.len(),
            decoded@ + form_decoded(value@, at as int) == form_decoded(value@, 0),
        decreases value@.len() - at,
    {
        let named = if value[at] == 37 && value.len() - at >= 3 {
            unescape(value[at + 1], value[at + 2])
        } else {
            None
        };
        let ghost before = decoded@;
        match named {
            Some(byte) => {
                decoded.push(byte);
                assert(before + (seq![byte] + form_decoded(value@, at + 3)) =~= decoded@
                    + form_decoded(value@, at + 3));
                at += 3;
            },
            None => {
                let byte: u8 = if value[at] == 43 {
                    32
                } else {
                    value[at]
                };
                decoded.push(byte);
                assert(before + (seq![byte] + form_decoded(value@, at + 1)) =~= decoded@
                    + form_decoded(value@, at + 1));
                at += 1;
            },
        }
    }
    assert(decoded@ + Seq::<u8>::empty() =~= decoded@);
    decoded
}

fn find(bytes: &[u8], byte: u8, at: usize) -> (place: usize)
    requires
        at <= bytes@.len(),
    ensures
        place == find_byte(bytes@, byte, at as int),
        at <= place <= bytes@.len(),
{
    let mut place: usize = at;
    while place < bytes.len() && bytes[place] != byte
        invariant
            at <= place <= bytes@.len(),
            find_byte(bytes@, byte, at as int) == find_byte(bytes@, byte, place as int),
        decreases bytes@.len() - place,
    {
        place += 1;
    }
    place
}

fn value_of(pair: &[u8], name: &[u8]) -> (value: Option<String>)
    ensures
        match (value, pair_value(pair@, name@)) {
            (Some(value), Some(text)) => value@ == text,
            (None, None) => true,
            _ => false,
        },
{
    let at = find(pair, 61, 0);
    if at >= pair.len() {
        return None;
    }
    let key = form_decode(vstd::slice::slice_subrange(pair, 0, at));
    assert(pair@.subrange(0, at as int) =~= pair@.take(at as int));
    if !same_bytes(key.as_slice(), name) {
        return None;
    }
    let value = form_decode(vstd::slice::slice_subrange(pair, at + 1, pair.len()));
    assert(pair@.subrange(at + 1, pair@.len() as int) =~= pair@.skip(at + 1));
    let text = string_of_utf8(value);
    proof {
        if text is Some {
            encode_utf8_decode_utf8(text->0@);
        }
    }
    text
}

/// One field of a form, decoded: the first pair that gives `name` a value
/// which is text.
pub fn form_field(body: &[u8], name: &str) -> (value: Option<String>)
    ensures
        match (value, field_value(body@, encode_utf8(name@), 0)) {
            (Some(value), Some(text)) => value@ == text,
            (None, None) => true,
            _ => false,
        },
{
    let wanted = name.as_bytes();
    let mut at: usize = 0;
    loop
        invariant
            wanted@ == encode_utf8(name@),
            at <= body@.len(),
            field_value(body@, wanted@, 0) == field_value(body@, wanted@, at as int),
        decreases body@.len() - at,
    {
        let end = find(body, 38, at);
        let found = value_of(vstd::slice::slice_subrange(body, at, end), wanted);
        if found.is_some() {
            return found;
        }
        if end == body.len() {
            assert(field_value(body@, wanted@, end + 1) is None);
            return None;
        }
        at = end + 1;
    }
}

/// The form the relay takes a message in: its one field, `result`.
pub fn result_form(message: &str) -> (form: String)
    ensures
        form@ == "result="@ + percent_encoded(encode_utf8(message@)),
{
    let mut form = "result=".to_owned();
    form.append(url_encode(message).as_str());
    form
}

// ---------- what goes out comes back ----------
/// The bytes of ASCII characters, one for one.
spec fn ascii_bytes(chars: Seq<char>) -> Seq<u8> {
    Seq::new(chars.len(), |i: int| chars[i] as u8)
}

/// A percent-encoding is ASCII, and holds neither of a form's separators.
proof fn percent_is_plain(bytes: Seq<u8>)
    ensures
        is_ascii_chars(percent_encoded(bytes)),
        forall|i: int|
            0 <= i < percent_encoded(bytes).len() ==> {
                &&& #[trigger] percent_encoded(bytes)[i] != '&'
                &&& percent_encoded(bytes)[i] != '='
                &&& percent_encoded(bytes)[i] != '+'
                &&& percent_encoded(bytes)[i] as u32 <= 127
            },
    decreases bytes.len(),
{
    if bytes.len() > 0 {
        percent_is_plain(bytes.drop_last());
        let byte = bytes.last();
        assert forall|i: int| 0 <= i < percent(byte).len() implies {
            &&& #[trigger] percent(byte)[i] != '&'
            &&& percent(byte)[i] != '='
            &&& percent(byte)[i] != '+'
            &&& percent(byte)[i] as u32 <= 127
        } by {}
        assert forall|i: int| 0 <= i < percent_encoded(bytes).len() implies {
            &&& #[trigger] percent_encoded(bytes)[i] != '&'
            &&& percent_encoded(bytes)[i] != '='
            &&& percent_encoded(bytes)[i] != '+'
            &&& percent_encoded(bytes)[i] as u32 <= 127
        } by {
            let shorter = percent_encoded(bytes.drop_last());
            if i < shorter.len() {
                assert(percent_encoded(bytes)[i] == shorter[i]);
            } else {
                assert(percent_encoded(bytes)[i] == percent(byte)[i - shorter.len()]);
            }
        }
    }
}

/// Decoding two stretches end to end, where no escape straddles them.
proof fn decoded_in_parts(first: Seq<u8>, second: Seq<u8>, at: int)
    requires
        0 <= at <= first.len(),
        whole_escapes(first, at),
    ensures
        form_decoded(first + second, at) == form_decoded(first, at) + form_decoded(second, 0),
    decreases first.len() - at,
{
    let both = first + second;
    if at == first.len() {
        decoded_after(first, second, 0);
        assert(form_decoded(first, at) + form_decoded(second, 0) =~= form_decoded(second, 0));
    } else if first[at] == 37 {
        decoded_in_parts(first, second, at + 3);
        assert(form_decoded(both, at) =~= form_decoded(first, at) + form_decoded(second, 0));
    } else {
        decoded_in_parts(first, second, at + 1);
        assert(form_decoded(both, at) =~= form_decoded(first, at) + form_decoded(second, 0));
    }
}

proof fn decoded_after(first: Seq<u8>, second: Seq<u8>, at: int)
    requires
        0 <= at <= second.len(),
    ensures
        form_decoded(first + second, first.len() + at) == form_decoded(second, at),
    decreases second.len() - at,
{
    let both = first + second;
    if at < second.len() {
        assert(both[first.len() + at] == second[at]);
        match escape_at(second, at) {
            Some(_) => {
                decoded_after(first, second, at + 3);
            },
            None => {
                decoded_after(first, second, at + 1);
            },
        }
    }
}

/// Every `%` from `at` on begins a whole escape.
spec fn whole_escapes(value: Seq<u8>, at: int) -> bool
    decreases value.len() - at,
{
    if at >= value.len() {
        at == value.len()
    } else if value[at] == 37 {
        escape_at(value, at) is Some && whole_escapes(value, at + 3)
    } else {
        whole_escapes(value, at + 1)
    }
}

proof fn whole_in_parts(first: Seq<u8>, second: Seq<u8>, at: int)
    requires
        0 <= at <= first.len(),
        whole_escapes(first, at),
        whole_escapes(second, 0),
    ensures
        whole_escapes(first + second, at),
    decreases first.len() - at,
{
    if at == first.len() {
        whole_after(first, second, 0);
    } else if first[at] == 37 {
        whole_in_parts(first, second, at + 3);
    } else {
        whole_in_parts(first, second, at + 1);
    }
}

proof fn whole_after(first: Seq<u8>, second: Seq<u8>, at: int)
    requires
        0 <= at,
        whole_escapes(second, at),
    ensures
        whole_escapes(first + second, first.len() + at),
    decreases second.len() - at,
{
    if at < second.len() {
        assert((first + second)[first.len() + at] == second[at]);
        if second[at] == 37 {
            whole_after(first, second, at + 3);
        } else {
            whole_after(first, second, at + 1);
        }
    }
}

proof fn one_byte_comes_back(byte: u8)
    ensures
        whole_escapes(ascii_bytes(percent(byte)), 0),
        form_decoded(ascii_bytes(percent(byte)), 0) == seq![byte],
{
    reveal_with_fuel(form_decoded, 3);
    reveal_with_fuel(whole_escapes, 3);
    let encoded = ascii_bytes(percent(byte));
    if !unreserved(byte) {
        let high = (byte / 16) as u8;
        let low = (byte % 16) as u8;
        assert(hex_value(encoded[1]) == Some(high));
        assert(hex_value(encoded[2]) == Some(low));
        assert(high * 16 + low == byte);
        assert(form_decoded(encoded, 0) =~= seq![byte]);
    } else {
        assert(form_decoded(encoded, 0) =~= seq![byte]);
    }
}

proof fn encoding_comes_back(bytes: Seq<u8>)
    ensures
        whole_escapes(ascii_bytes(percent_encoded(bytes)), 0),
        form_decoded(ascii_bytes(percent_encoded(bytes)), 0) == bytes,
    decreases bytes.len(),
{
    if bytes.len() > 0 {
        let shorter = ascii_bytes(percent_encoded(bytes.drop_last()));
        let last = ascii_bytes(percent(bytes.last()));
        encoding_comes_back(bytes.drop_last());
        one_byte_comes_back(bytes.last());
        assert(ascii_bytes(percent_encoded(bytes)) =~= shorter + last);
        whole_in_parts(shorter, last, 0);
        decoded_in_parts(shorter, last, 0);
        assert(bytes.drop_last() + seq![bytes.last()] =~= bytes);
    } else {
        assert(form_decoded(ascii_bytes(percent_encoded(bytes)), 0) =~= bytes);
    }
}

/// Decoding a percent-encoding gives the bytes back, whatever they are.
pub proof fn form_decode_undoes_url_encode(bytes: Seq<u8>)
    ensures
        form_decoded(encode_utf8(percent_encoded(bytes)), 0) == bytes,
{
    percent_is_plain(bytes);
    is_ascii_chars_encode_utf8(percent_encoded(bytes));
    assert(encode_utf8(percent_encoded(bytes)) =~= ascii_bytes(percent_encoded(bytes)));
    encoding_comes_back(bytes);
}

/// A name and its value, as a form writes them.
pub open spec fn pair_text(pair: (Seq<char>, Seq<char>)) -> Seq<char> {
    percent_encoded(encode_utf8(pair.0)) + "="@ + percent_encoded(encode_utf8(pair.1))
}

/// The form of `pairs`.
pub open spec fn form_text(pairs: Seq<(Seq<char>, Seq<char>)>) -> Seq<char>
    decreases pairs.len(),
{
    if pairs.len() == 0 {
        Seq::empty()
    } else if pairs.len() == 1 {
        pair_text(pairs[0])
    } else {
        pair_text(pairs[0]) + "&"@ + form_text(pairs.skip(1))
    }
}

/// The value of the first of `pairs` with the name `name`.
pub open spec fn first_named(pairs: Seq<(Seq<char>, Seq<char>)>, name: Seq<char>) -> Option<Seq<char>>
    decreases pairs.len(),
{
    if pairs.len() == 0 {
        None
    } else if pairs[0].0 == name {
        Some(pairs[0].1)
    } else {
        first_named(pairs.skip(1), name)
    }
}

proof fn find_byte_after(first: Seq<u8>, second: Seq<u8>, byte: u8, at: int)
    requires
        0 <= at <= second.len(),
    ensures
        find_byte(first + second, byte, first.len() + at) == first.len() + find_byte(
            second,
            byte,
            at,
        ),
    decreases second.len() - at,
{
    if at < second.len() {
        assert((first + second)[first.len() + at] == second[at]);
        if second[at] != byte {
            find_byte_after(first, second, byte, at + 1);
        }
    }
}

/// What stands before a pair's beginning has no say in what follows.
proof fn field_after(first: Seq<u8>, second: Seq<u8>, name: Seq<u8>, at: int)
    requires
        0 <= at,
    ensures
        field_value(first + second, name, first.len() + at) == field_value(second, name, at),
    decreases second.len() - at + 1,
{
    if at <= second.len() {
        let both = first + second;
        find_byte_after(first, second, 38, at);
        find_byte_shape(second, 38, at);
        let end = pair_end(second, at);
        assert(pair_end(both, first.len() + at) == first.len() + end);
        assert(both.subrange(first.len() + at, first.len() + end) =~= second.subrange(at, end));
        field_after(first, second, name, end + 1);
    }
}

/// A pair's bytes: ASCII, without a separator but its own.
proof fn pair_bytes(pair: (Seq<char>, Seq<char>))
    ensures
        is_ascii_chars(pair_text(pair)),
        encode_utf8(pair_text(pair)) == encode_utf8(percent_encoded(encode_utf8(pair.0))).push(61)
            + encode_utf8(percent_encoded(encode_utf8(pair.1))),
        forall|i: int|
            0 <= i < encode_utf8(pair_text(pair)).len() ==> #[trigger] encode_utf8(
                pair_text(pair),
            )[i] != 38,
        forall|i: int|
            0 <= i < encode_utf8(percent_encoded(encode_utf8(pair.0))).len()
                ==> #[trigger] encode_utf8(percent_encoded(encode_utf8(pair.0)))[i] != 61,
{
    reveal_strlit("=");
    let name = percent_encoded(encode_utf8(pair.0));
    let value = percent_encoded(encode_utf8(pair.1));
    let text = pair_text(pair);
    percent_is_plain(encode_utf8(pair.0));
    percent_is_plain(encode_utf8(pair.1));
    assert forall|i: int| 0 <= i < text.len() implies {
        &&& 0 <= (#[trigger] text[i]) as nat <= 127
        &&& text[i] != '&'
    } by {
        if i < name.len() {
            assert(text[i] == name[i]);
        } else if i > name.len() {
            assert(text[i] == value[i - name.len() - 1]);
        }
    }
    assert(is_ascii_chars(text));
    is_ascii_chars_encode_utf8(text);
    is_ascii_chars_encode_utf8(name);
    is_ascii_chars_encode_utf8(value);
    let bytes = encode_utf8(text);
    let parts = encode_utf8(name).push(61) + encode_utf8(value);
    assert forall|i: int| 0 <= i < bytes.len() implies bytes[i] == parts[i] by {
        if i < name.len() {
            assert(text[i] == name[i]);
        } else if i > name.len() {
            assert(text[i] == value[i - name.len() - 1]);
        }
    }
    assert(bytes =~= parts);
    assert forall|i: int| 0 <= i < bytes.len() implies #[trigger] bytes[i] != 38 by {
        assert(text[i] != '&');
    }
    assert forall|i: int| 0 <= i < encode_utf8(name).len() implies #[trigger] encode_utf8(
        name,
    )[i] != 61 by {
        assert(name[i] != '=');
    }
}

/// A pair gives its name its value, and no other name any.
proof fn a_pair_gives_its_value(pair: (Seq<char>, Seq<char>), name: Seq<char>)
    ensures
        pair_value(encode_utf8(pair_text(pair)), encode_utf8(name)) == (if pair.0 == name {
            Some(pair.1)
        } else {
            None
        }),
{
    pair_bytes(pair);
    let bytes = encode_utf8(pair_text(pair));
    let key = encode_utf8(percent_encoded(encode_utf8(pair.0)));
    let value = encode_utf8(percent_encoded(encode_utf8(pair.1)));
    assert forall|i: int| 0 <= i < key.len() implies #[trigger] bytes[i] != 61 by {
        assert(bytes[i] == key[i]);
    }
    assert(bytes[key.len() as int] == 61);
    find_byte_is(bytes, 61, 0, key.len() as int);
    assert(bytes.take(key.len() as int) =~= key);
    assert(bytes.skip(key.len() as int + 1) =~= value);
    form_decode_undoes_url_encode(encode_utf8(pair.0));
    form_decode_undoes_url_encode(encode_utf8(pair.1));
    encode_utf8_valid_utf8(pair.1);
    encode_utf8_decode_utf8(pair.1);
    if pair.0 != name && encode_utf8(pair.0) == encode_utf8(name) {
        crate::text::utf8_is_injective(pair.0, name);
    }
}

/// Whatever names and values a form is made of, a name reads back as the value
/// of its first pair, and as nothing exactly where no pair has it.
pub proof fn a_form_gives_back_its_fields(pairs: Seq<(Seq<char>, Seq<char>)>, name: Seq<char>)
    ensures
        field_value(encode_utf8(form_text(pairs)), encode_utf8(name), 0) == first_named(
            pairs,
            name,
        ),
        match first_named(pairs, name) {
            Some(value) => exists|i: int|
                0 <= i < pairs.len() && #[trigger] pairs[i] == (name, value) && forall|j: int|
                    0 <= j < i ==> (#[trigger] pairs[j]).0 != name,
            None => forall|i: int| 0 <= i < pairs.len() ==> (#[trigger] pairs[i]).0 != name,
        },
    decreases pairs.len(),
{
    let body = encode_utf8(form_text(pairs));
    let wanted = encode_utf8(name);
    reveal_with_fuel(field_value, 3);
    if pairs.len() == 0 {
        assert(form_text(pairs) =~= Seq::<char>::empty());
        assert(body =~= Seq::<u8>::empty());
        assert(body.subrange(0, 0) =~= body);
    } else {
        let first = encode_utf8(pair_text(pairs[0]));
        let rest = pairs.skip(1);
        pair_bytes(pairs[0]);
        a_pair_gives_its_value(pairs[0], name);
        a_form_gives_back_its_fields(rest, name);
        if pairs.len() == 1 {
            find_byte_is(body, 38, 0, body.len() as int);
            assert(body.subrange(0, body.len() as int) =~= first);
        } else {
            let tail = encode_utf8(form_text(rest));
            let head = first.push(38);
            reveal_strlit("&");
            crate::text::utf8_of_concat(pair_text(pairs[0]) + "&"@, form_text(rest));
            crate::text::utf8_of_concat(pair_text(pairs[0]), "&"@);
            is_ascii_chars_encode_utf8("&"@);
            assert(encode_utf8("&"@) =~= seq![38u8]);
            assert(body =~= head + tail);
            find_byte_is(body, 38, 0, first.len() as int);
            assert(body.subrange(0, first.len() as int) =~= first);
            field_after(head, tail, wanted, 0);
        }
        if pairs[0].0 == name {
            assert(pairs[0] == (name, pairs[0].1));
        } else if let Some(value) = first_named(rest, name) {
            let i = choose|i: int|
                0 <= i < rest.len() && #[trigger] rest[i] == (name, value) && forall|j: int|
                    0 <= j < i ==> (#[trigger] rest[j]).0 != name;
            assert(pairs[i + 1] == (name, value));
            assert forall|j: int| 0 <= j < i + 1 implies (#[trigger] pairs[j]).0 != name by {
                if j > 0 {
                    assert(rest[j - 1] == pairs[j]);
                }
            }
        } else {
            assert forall|j: int| 0 <= j < pairs.len() implies (#[trigger] pairs[j]).0 != name by {
                if j > 0 {
                    assert(rest[j - 1] == pairs[j]);
                }
            }
        }
    }
}

/// The message a form carries is the one read out of it, whatever it says.
pub proof fn a_message_survives_its_form(message: Seq<char>)
    ensures
        field_value(
            encode_utf8("result="@ + percent_encoded(encode_utf8(message))),
            encode_utf8("result"@),
            0,
        ) == Some(message),
{
    reveal_strlit("result=");
    reveal_strlit("result");
    let bytes = encode_utf8(message);
    let encoded = percent_encoded(bytes);
    let form = "result="@ + encoded;
    percent_is_plain(bytes);
    assert(is_ascii_chars(form)) by {
        assert forall|i: int| 0 <= i < form.len() implies 0 <= (#[trigger] form[i]) as nat <= 127 by {
            if i >= 7 {
                assert(form[i] == encoded[i - 7]);
            }
        }
    }
    is_ascii_chars_encode_utf8(form);
    is_ascii_chars_encode_utf8(encoded);
    is_ascii_chars_encode_utf8("result"@);
    let body = encode_utf8(form);
    let name = encode_utf8("result"@);
    assert forall|i: int| 0 <= i < body.len() implies body[i] != 38 && (i != 6 ==> body[i] != 61) by {
        if i >= 7 {
            assert(form[i] == encoded[i - 7]);
        }
    }
    find_byte_is(body, 38, 0, body.len() as int);
    let pair = body.subrange(0, body.len() as int);
    assert(pair =~= body);
    find_byte_is(pair, 61, 0, 6);
    assert(pair.take(6) =~= name);
    assert(pair.skip(7) =~= encode_utf8(encoded)) by {
        assert forall|i: int| 0 <= i < encoded.len() implies pair.skip(7)[i] == encode_utf8(
            encoded,
        )[i] by {
            assert(form[i + 7] == encoded[i]);
        }
    }
    form_decode_undoes_url_encode(bytes);
    reveal_with_fuel(form_decoded, 8);
    assert(form_decoded(name, 0) =~= name);
    encode_utf8_valid_utf8(message);
    encode_utf8_decode_utf8(message);
}

/// Text of letters, digits, `-`, `_`, `.` and `~` only is its own encoding.
pub proof fn plain_text_is_its_own_encoding(text: Seq<char>)
    requires
        forall|i: int|
            0 <= i < text.len() ==> {
                ||| 'a' <= #[trigger] text[i] <= 'z'
                ||| 'A' <= text[i] <= 'Z'
                ||| '0' <= text[i] <= '9'
                ||| text[i] == '-'
                ||| text[i] == '_'
                ||| text[i] == '.'
                ||| text[i] == '~'
            },
    ensures
        percent_encoded(encode_utf8(text)) == text,
    decreases text.len(),
{
    assert(is_ascii_chars(text));
    is_ascii_chars_encode_utf8(text);
    if text.len() == 0 {
        assert(encode_utf8(text) =~= Seq::<u8>::empty());
        assert(percent_encoded(encode_utf8(text)) =~= text);
    } else {
        let shorter = text.drop_last();
        assert forall|i: int| 0 <= i < shorter.len() implies {
            ||| 'a' <= #[trigger] shorter[i] <= 'z'
            ||| 'A' <= shorter[i] <= 'Z'
            ||| '0' <= shorter[i] <= '9'
            ||| shorter[i] == '-'
            ||| shorter[i] == '_'
            ||| shorter[i] == '.'
            ||| shorter[i] == '~'
        } by {
            assert(shorter[i] == text[i]);
        }
        assert(is_ascii_chars(shorter));
        is_ascii_chars_encode_utf8(shorter);
        plain_text_is_its_own_encoding(shorter);
        let bytes = encode_utf8(text);
        assert(bytes.drop_last() =~= encode_utf8(shorter)) by {
            assert forall|i: int| 0 <= i < shorter.len() implies bytes.drop_last()[i]
                == encode_utf8(shorter)[i] by {
                assert(shorter[i] == text[i]);
            }
        }
        let last = text[text.len() - 1];
        assert(bytes.last() == last as u8);
        assert(percent(bytes.last()) =~= seq![last]);
        assert(percent_encoded(bytes) =~= text);
    }
}

proof fn decoded_from(value: Seq<u8>, at: int, from: int)
    requires
        0 <= from <= at,
        from <= value.len(),
    ensures
        form_decoded(value, at) == form_decoded(value.skip(from), at - from),
    decreases value.len() + 3 - at,
{
    if at < value.len() {
        let rest = value.skip(from);
        assert(rest[at - from] == value[at]);
        if at + 3 <= value.len() {
            assert(rest[at - from + 1] == value[at + 1]);
            assert(rest[at - from + 2] == value[at + 2]);
        }
        decoded_from(value, at + 3, from);
        decoded_from(value, at + 1, from);
    }
}

/// A form decodes from its beginning on. A plus sign is a space; a percent sign
/// before two hex digits is the byte they write, whatever their case; any other
/// byte is itself, a percent sign before anything else among them.
pub proof fn a_form_decodes_from_its_beginning(first: u8, rest: Seq<u8>)
    ensures
        ({
            let decoded = form_decoded(seq![first] + rest, 0);
            let hex = |digit: u8|
                ('0' as u8 <= digit <= '9' as u8) || ('A' as u8 <= digit <= 'F' as u8) || ('a' as u8
                    <= digit <= 'f' as u8);
            let escape = first == '%' as u8 && rest.len() >= 2 && hex(rest[0]) && hex(rest[1]);
            &&& first == '+' as u8 ==> decoded == seq![' ' as u8] + form_decoded(rest, 0)
            &&& first != '+' as u8 && !escape ==> decoded == seq![first] + form_decoded(rest, 0)
            &&& escape ==> decoded.len() > 0 && decoded.skip(1) == form_decoded(rest.skip(2), 0)
                && decoded[0] == 16 * crate::backend::hex::worth(rest[0] as char)
                + crate::backend::hex::worth(rest[1] as char)
        }),
        form_decoded(Seq::<u8>::empty(), 0).len() == 0,
{
    let value = seq![first] + rest;
    decoded_from(value, 1, 1);
    assert(value.skip(1) =~= rest);
    if value.len() >= 3 {
        decoded_from(value, 3, 3);
        assert(value.skip(3) =~= rest.skip(2));
        assert(value[1] == rest[0] && value[2] == rest[1]);
    }
    if let Some(byte) = escape_at(value, 0) {
        assert((seq![byte] + form_decoded(value, 3)).skip(1) =~= form_decoded(value, 3));
    }
}

/// What a byte is encoded as: letters, digits, `-`, `_`, `.` and `~` as they
/// are, and every other byte as a percent sign and the two capital hex digits
/// that write it.
pub proof fn a_byte_is_itself_or_three_characters(bytes: Seq<u8>, byte: u8)
    ensures
        ({
            let c = byte as char;
            let plain = ('a' <= c <= 'z') || ('A' <= c <= 'Z') || ('0' <= c <= '9') || c == '-' || c
                == '_' || c == '.' || c == '~';
            let before = percent_encoded(bytes);
            let after = percent_encoded(bytes.push(byte));
            &&& after.take(before.len() as int) == before
            &&& plain ==> after == before.push(c)
            &&& !plain ==> {
                let (high, low) = (after[after.len() - 2], after[after.len() - 1]);
                &&& after.len() == before.len() + 3
                &&& after[after.len() - 3] == '%'
                &&& ('0' <= high <= '9') || ('A' <= high <= 'F')
                &&& ('0' <= low <= '9') || ('A' <= low <= 'F')
                &&& byte == 16 * crate::backend::hex::worth(high)
                    + crate::backend::hex::worth(low)
            }
        }),
        percent_encoded(Seq::<u8>::empty()).len() == 0,
{
    let more = bytes.push(byte);
    assert(more.drop_last() =~= bytes);
    let before = percent_encoded(bytes);
    let after = percent_encoded(more);
    assert(after == before + percent(byte));
    assert(after.take(before.len() as int) =~= before);
    if unreserved(byte) {
        assert(after =~= before.push(byte as char));
    } else {
        let high = hex_capital(byte as int / 16);
        let low = hex_capital(byte as int % 16);
        assert(after[after.len() - 2] == high);
        assert(after[after.len() - 1] == low);
    }
}

/// Of the bytes only the digits and the letters to F, of either case, are hex
/// digits, and each counts what it writes.
pub proof fn a_hex_digit_counts_what_it_writes(digit: u8, value: Option<u8>)
    requires
        call_ensures(hex_digit, (digit,), value),
    ensures
        value is Some <==> ('0' as u8 <= digit <= '9' as u8) || ('A' as u8 <= digit <= 'F' as u8) || (
        'a' as u8 <= digit <= 'f' as u8),
        value matches Some(value) ==> value == crate::backend::hex::worth(digit as char) && value
            < 16,
{
}

} // verus!
