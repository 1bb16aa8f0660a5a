//! What this crate has from other crates, and what it takes each to do.

use vstd::prelude::*;

verus! {

// ---------- sha2 ----------
/// SHA-256 of some bytes.
pub uninterp spec fn sha256_of(bytes: Seq<u8>) -> Seq<u8>;

/// `sha2::Sha256::digest`: the digest of `bytes`, the same for the same bytes.
#[verifier::external_body]
pub(crate) fn sha256(bytes: &[u8]) -> (digest: [u8; 32])
    ensures
        digest@ == sha256_of(bytes@),
{
    <sha2::Sha256 as sha2::Digest>::digest(bytes).into()
}

// ---------- rand ----------
/// `rand::random`: any number at all.
#[verifier::external_body]
pub(crate) fn random_u64() -> (bits: u64) {
    rand::random::<u64>()
}

/// `rand::random`: any bytes at all.
#[verifier::external_body]
pub(crate) fn random_bytes() -> (bytes: [u8; 32]) {
    rand::random::<[u8; 32]>()
}

// ---------- base64 ----------
/// The symbol that stands for six bits: letters, digits, `-` and `_`.
pub open spec fn symbol(bits: int) -> char {
    if bits < 26 {
        (65 + bits) as char
    } else if bits < 52 {
        (71 + bits) as char
    } else if bits < 62 {
        (bits - 4) as char
    } else if bits == 62 {
        '-'
    } else {
        '_'
    }
}

/// `bytes` in base64url without padding: four symbols for every three bytes,
/// and of what is left over just the symbols that its bits reach into.
pub open spec fn base64(bytes: Seq<u8>) -> Seq<char>
    decreases bytes.len(),
{
    if bytes.len() == 0 {
        Seq::empty()
    } else if bytes.len() == 1 {
        seq![symbol(bytes[0] as int / 4), symbol(bytes[0] as int % 4 * 16)]
    } else if bytes.len() == 2 {
        seq![
            symbol(bytes[0] as int / 4),
            symbol(bytes[0] as int % 4 * 16 + bytes[1] as int / 16),
            symbol(bytes[1] as int % 16 * 4),
        ]
    } else {
        seq![
            symbol(bytes[0] as int / 4),
            symbol(bytes[0] as int % 4 * 16 + bytes[1] as int / 16),
            symbol(bytes[1] as int % 16 * 4 + bytes[2] as int / 64),
            symbol(bytes[2] as int % 64),
        ] + base64(bytes.skip(3))
    }
}

/// `base64`'s `URL_SAFE_NO_PAD.encode`, which counts out its output's length
/// in a `usize`.
#[verifier::external_body]
pub(crate) fn base64_encode(bytes: &[u8]) -> (text: String)
    requires
        bytes@.len() <= usize::MAX / 2,
    ensures
        text@ == base64(bytes@),
{
    base64::Engine::encode(&base64::engine::general_purpose::URL_SAFE_NO_PAD, bytes)
}

/// `base64`'s `URL_SAFE_NO_PAD.decode`: the bytes `text` is the encoding of.
/// It takes no padding, no foreign symbol, no lone symbol at the end and no
/// stray bits in the last one, so it is `None` exactly for a text that is the
/// encoding of nothing.
#[verifier::external_body]
pub(crate) fn base64_decode(text: &str) -> (bytes: Option<Vec<u8>>)
    ensures
        bytes matches Some(decoded) ==> base64(decoded@) == text@,
        bytes is None ==> forall|other: Seq<u8>| #[trigger] base64(other) != text@,
{
    base64::Engine::decode(&base64::engine::general_purpose::URL_SAFE_NO_PAD, text).ok()
}

// ---------- url ----------
/// The address of the page at `page` with its path set to `path`, or what is
/// the matter with `page`.
pub uninterp spec fn address_with_path(page: Seq<char>, path: Seq<char>) -> Result<
    Seq<char>,
    Seq<char>,
>;

/// Whether `path` is `/` and then only letters, digits, `-`, `_` and `/`, with
/// no two of these slashes together.
pub open spec fn plain_path(path: Seq<char>) -> bool {
    &&& path.len() > 0
    &&& path[0] == '/'
    &&& forall|i: int|
        0 <= i < path.len() ==> {
            ||| 'a' <= #[trigger] path[i] <= 'z'
            ||| 'A' <= path[i] <= 'Z'
            ||| '0' <= path[i] <= '9'
            ||| path[i] == '-'
            ||| path[i] == '_'
            ||| path[i] == '/' && (i == 0 || path[i - 1] != '/')
        }
}

/// Whether `tail` ends `text`.
pub open spec fn ends_with(text: Seq<char>, tail: Seq<char>) -> bool {
    tail.len() <= text.len() && text.skip(text.len() - tail.len()) == tail
}

/// `reqwest`'s `Url::set_path`, from text to text: `page` parsed, and its path
/// set to `path`; its query and its fragment stay. Addresses are counted in a
/// `u32`, and setting a path panics past that. A character is written out as
/// 126 at the most (18 letters of a host's name, each of 7 at the most), so
/// both are kept under that. A plain path is what the address
/// then has before its query and fragment, but for its first `/`, which an
/// address without a host escapes. What pages parse, and to what, goes unsaid.
#[verifier::external_body]
pub(crate) fn url_with_path(page: &str, path: &str) -> (url: Result<String, String>)
    requires
        page@.len() <= 0x200_0000,
        path@.len() <= 0x1_0000,
    ensures
        match (url, address_with_path(page@, path@)) {
            (Ok(url), Ok(text)) => url@ == text,
            (Err(error), Err(text)) => error@ == text,
            _ => false,
        },
        url matches Ok(url) ==> plain_path(path@) ==> ends_with(
            crate::backend::address::bare(url@),
            path@.skip(1),
        ),
{
    let mut url = reqwest::Url::parse(page).map_err(|error| error.to_string())?;
    url.set_path(path);
    Ok(url.into())
}

// ---------- http ----------
/// The reason phrase of a status, where it has one.
pub uninterp spec fn status_reason(code: u16) -> Seq<char>;

/// How `reqwest`'s `StatusCode` is shown: its number and its reason phrase.
/// Which phrase goes with which number goes unsaid.
#[verifier::external_body]
pub(crate) fn status_text(code: u16) -> (text: String)
    requires
        100 <= code <= 999,
    ensures
        text@ == crate::text::decimal(code as nat) + " "@ + status_reason(code),
{
    reqwest::StatusCode::from_u16(code).map(|status| status.to_string()).unwrap_or_default()
}

// ---------- serde_json ----------
/// Whether a text is JSON.
pub uninterp spec fn is_json(text: Seq<char>) -> bool;

/// The string a JSON object's field holds.
pub uninterp spec fn json_text(text: Seq<char>, field: Seq<char>) -> Option<Seq<char>>;

/// The number a JSON object's field holds, where that is a natural number no
/// wider than 64 bits.
pub uninterp spec fn json_number(text: Seq<char>, field: Seq<char>) -> Option<u64>;

/// `serde_json::from_str`: whether `text` is JSON.
#[verifier::external_body]
pub(crate) fn json_reads(text: &str) -> (reads: bool)
    ensures
        reads == is_json(text@),
{
    serde_json::from_str::<serde_json::Value>(text).is_ok()
}

/// `Value::as_str` of an object's field: its string, and `None` where `text`
/// is not JSON, is no object, has no such field, or has something else in it.
#[verifier::external_body]
pub(crate) fn json_string(text: &str, field: &str) -> (value: Option<String>)
    ensures
        match (value, json_text(text@, field@)) {
            (Some(value), Some(held)) => value@ == held,
            (None, None) => true,
            _ => false,
        },
        !is_json(text@) ==> value is None,
{
    serde_json::from_str::<serde_json::Value>(text).ok().and_then(
        |value| value[field].as_str().map(String::from),
    )
}

/// `Value::as_u64` of an object's field.
#[verifier::external_body]
pub(crate) fn json_unsigned(text: &str, field: &str) -> (value: Option<u64>)
    ensures
        value == json_number(text@, field@),
        !is_json(text@) ==> value is None,
{
    serde_json::from_str::<serde_json::Value>(text).ok().and_then(|value| value[field].as_u64())
}

#[verifier::external_type_specification]
#[verifier::external_body]
pub struct ExJsonValue(serde_json::Value);

#[verifier::external_type_specification]
#[verifier::external_body]
#[verifier::reject_recursive_types(K)]
#[verifier::reject_recursive_types(V)]
pub struct ExJsonObject<K, V>(serde_json::Map<K, V>);

/// The strings in a JSON object under way, by field.
pub uninterp spec fn object_texts(
    object: serde_json::Map<String, serde_json::Value>,
) -> Map<Seq<char>, Seq<char>>;

/// The numbers in a JSON object under way, by field.
pub uninterp spec fn object_numbers(
    object: serde_json::Map<String, serde_json::Value>,
) -> Map<Seq<char>, u64>;

/// Whether a JSON object under way holds strings and numbers only.
pub uninterp spec fn object_is_flat(object: serde_json::Map<String, serde_json::Value>) -> bool;

/// `serde_json::Map::new`: an object with no fields.
#[verifier::external_body]
pub(crate) fn json_object() -> (object: serde_json::Map<String, serde_json::Value>)
    ensures
        object_is_flat(object),
        forall|field: Seq<char>| !(#[trigger] object_texts(object).dom().contains(field)),
        forall|field: Seq<char>| !(#[trigger] object_numbers(object).dom().contains(field)),
{
    serde_json::Map::new()
}

/// `serde_json::Map::insert` of a string: the field holds it, and whatever it
/// held is gone.
#[verifier::external_body]
pub(crate) fn put_text(
    object: &mut serde_json::Map<String, serde_json::Value>,
    field: &str,
    text: &str,
)
    ensures
        object_is_flat(*old(object)) ==> object_is_flat(*final(object)),
        object_texts(*final(object)) == object_texts(*old(object)).insert(field@, text@),
        object_numbers(*final(object)) == object_numbers(*old(object)).remove(field@),
{
    let _ = object.insert(String::from(field), serde_json::Value::from(text));
}

/// `serde_json::Map::insert` of a number: the field holds it, and whatever it
/// held is gone.
#[verifier::external_body]
pub(crate) fn put_number(
    object: &mut serde_json::Map<String, serde_json::Value>,
    field: &str,
    number: u64,
)
    ensures
        object_is_flat(*old(object)) ==> object_is_flat(*final(object)),
        object_numbers(*final(object)) == object_numbers(*old(object)).insert(field@, number),
        object_texts(*final(object)) == object_texts(*old(object)).remove(field@),
{
    let _ = object.insert(String::from(field), serde_json::Value::from(number));
}

/// `serde_json::Value`'s `Display` of an object: JSON, which reads back field
/// by field as what was put in. An object with nothing nested in it is well
/// within the depth the parser goes to.
#[verifier::external_body]
pub(crate) fn json_of(object: serde_json::Map<String, serde_json::Value>) -> (text: String)
    requires
        object_is_flat(object),
    ensures
        is_json(text@),
        forall|field: Seq<char>|
            #[trigger] json_text(text@, field) == (if object_texts(object).dom().contains(field) {
                Some(object_texts(object)[field])
            } else {
                None
            }),
        forall|field: Seq<char>|
            #[trigger] json_number(text@, field) == (if object_numbers(object).dom().contains(
                field,
            ) {
                Some(object_numbers(object)[field])
            } else {
                None
            }),
{
    serde_json::Value::Object(object).to_string()
}

// ---------- commonware ----------
/// The public key of an ed25519 secret.
pub uninterp spec fn ed25519_public(secret: Seq<u8>) -> Seq<u8>;

/// The signature an ed25519 secret makes of a message under a namespace.
pub uninterp spec fn ed25519_signature(
    secret: Seq<u8>,
    namespace: Seq<u8>,
    message: Seq<u8>,
) -> Seq<u8>;

/// `commonware_cryptography`'s ed25519 `Signer::public_key`: the 32 bytes of
/// the public key of `secret`, which any 32 bytes are one of.
#[verifier::external_body]
pub(crate) fn public_key(secret: &[u8; 32]) -> (key: Vec<u8>)
    ensures
        key@ == ed25519_public(secret@),
        key@.len() == 32,
{
    let key = <commonware_cryptography::ed25519::PrivateKey as commonware_codec::DecodeExt<()>>::decode(
        commonware_codec::Copying(secret),
    ).expect("32 bytes");
    commonware_cryptography::Signer::public_key(&key).as_ref().to_vec()
}

/// `commonware_cryptography`'s ed25519 `Signer::sign`: the 64 bytes of the
/// signature, the same for the same secret, namespace and message. The
/// namespace's length is written in a `u32`.
#[verifier::external_body]
pub(crate) fn sign(secret: &[u8; 32], namespace: &[u8], message: &[u8]) -> (signature: Vec<u8>)
    requires
        namespace@.len() <= u32::MAX,
    ensures
        signature@ == ed25519_signature(secret@, namespace@, message@),
        signature@.len() == 64,
{
    let key = <commonware_cryptography::ed25519::PrivateKey as commonware_codec::DecodeExt<()>>::decode(
        commonware_codec::Copying(secret),
    ).expect("32 bytes");
    commonware_cryptography::Signer::sign(&key, namespace, message).as_ref().to_vec()
}

} // verus!
