//! Passkeys: an ACCOUNT's key, held by the person's authenticator. This
//! device's ed25519 key still signs every write; a passkey only creates the
//! account with it, and admits a new device's key into it later.
//!
//! The app speaks no WebAuthn. The ceremony runs on the auth page in the
//! system browser: the request rides the URL fragment, and the result comes
//! back as a top-level form POST to a one-shot loopback listener, or, from a
//! phone, through the auth host's relay.

use vstd::prelude::*;
use vstd::utf8::*;

use crate::backend::address::address_of;
use crate::backend::form::url_encode;
use crate::backend::join::Fetched;
use crate::backend::noded::Body;
use crate::backend::noded::Frame;
use crate::backend::noded::KeyScheme;
use crate::backend::noded::Refusal;
use crate::backend::noded::receipt::Outcome as Ran;
use crate::backend::wire::bytes_of;
use crate::backend::wire::push_all;
use crate::outside::base64_decode;
use crate::outside::base64_encode;
use crate::outside::json_reads;
use crate::outside::json_string;
use crate::outside::random_bytes;
use crate::outside::sha256;
use crate::outside::status_text;
use crate::text::chars_of;
use crate::text::joined;
use crate::text::joined3;
use crate::text::same_bytes;
use crate::text::same_text;

verus! {

/// The live page. Its host IS the RP ID every passkey is scoped to.
pub const AUTH_PAGE: &'static str = "https://auth.ducktape.industries/";

/// How long a consent stays good, in the node's milliseconds.
pub const CONSENT_TTL_MS: u64 = 900_000;

/// A consent's deadline, against block time (unix ms), `now` being this
/// device's clock; the time it stays good absorbs ordinary skew.
pub fn expires_at(now: u64) -> (deadline: u64)
    requires
        now + CONSENT_TTL_MS <= u64::MAX,
    ensures
        deadline == now + CONSENT_TTL_MS,
{
    now + CONSENT_TTL_MS
}

// ---------- the account a passkey names ----------
/// What a network is hashed as.
pub open spec fn chain_name(network: Seq<char>) -> Seq<u8> {
    encode_utf8("ducktape:passkey-account:v1\0"@) + encode_utf8(network)
}

/// `user.id`: the hash of the network, and then the account number, its low
/// byte first.
pub open spec fn handle_of(network: Seq<char>, number: u64) -> Seq<u8> {
    crate::outside::sha256_of(chain_name(network)) + crate::backend::wire::le(number as nat, 8)
}

/// The hash of a network.
pub fn chain_hash(network: &str) -> (hash: [u8; 32])
    ensures
        hash@ == crate::outside::sha256_of(chain_name(network@)),
{
    let mut name: Vec<u8> = Vec::new();
    push_all(&mut name, "ducktape:passkey-account:v1\0".as_bytes());
    push_all(&mut name, network.as_bytes());
    assert(name@ =~= chain_name(network@));
    sha256(name.as_slice())
}

/// The `user.id` of an account.
pub fn user_handle(network: &str, number: u64) -> (handle: [u8; 40])
    ensures
        handle@ == handle_of(network@, number),
{
    let hash = chain_hash(network);
    let mut bytes: Vec<u8> = Vec::new();
    push_all(&mut bytes, hash.as_slice());
    crate::backend::wire::push_le(&mut bytes, number, 8);
    proof {
        crate::backend::wire::u64_bytes(number);
        assert(bytes@ =~= handle_of(network@, number));
    }
    let mut handle: [u8; 40] = [0u8; 40];
    let mut nth: usize = 0;
    while nth < 40
        invariant
            nth <= 40,
            bytes@.len() == 40,
            forall|i: int| 0 <= i < nth ==> handle@[i] == bytes@[i],
        decreases 40 - nth,
    {
        handle[nth] = bytes[nth];
        nth += 1;
    }
    assert(handle@ =~= bytes@);
    handle
}

/// Whether `number` is what `handle` names on `network`, or else what is the
/// matter with it.
pub open spec fn names_account(
    network: Seq<char>,
    handle: Option<Seq<u8>>,
    number: Result<u64, String>,
) -> bool {
    match handle {
        Some(handle) if handle.len() == 40 => {
            if handle.take(32) != crate::outside::sha256_of(chain_name(network)) {
                number matches Err(said) && said@
                    == "That passkey belongs to another network. Choose one for "@ + network + "."@
            } else {
                number == Ok::<u64, String>(
                    crate::backend::wire::of_le(handle.skip(32)) as u64,
                )
            }
        },
        _ => number matches Err(said) && said@
            == "That passkey wasn't made by Ducktape. Choose a Ducktape passkey."@,
    }
}

/// The account a passkey's (unsigned) `userHandle` names on `network`. A hint
/// only: the consent that follows must verify against a key the account holds.
pub fn account_of_handle(network: &str, handle: Option<&[u8]>) -> (number: Result<u64, String>)
    ensures
        names_account(
            network@,
            match handle {
                Some(bytes) => Some(bytes@),
                None => None,
            },
            number,
        ),
{
    let bytes = match handle {
        Some(bytes) if bytes.len() == 40 => bytes,
        _ => {
            return Err(
                "That passkey wasn't made by Ducktape. Choose a Ducktape passkey.".to_owned(),
            );
        },
    };
    let hash = chain_hash(network);
    let named = vstd::slice::slice_subrange(bytes, 0, 32);
    assert(named@ =~= bytes@.take(32));
    if !same_bytes(named, hash.as_slice()) {
        return Err(
            joined3("That passkey belongs to another network. Choose one for ", network, "."),
        );
    }
    let number: u64 = crate::backend::wire::u64_at(bytes, 32);
    assert(bytes@.subrange(32, 40) =~= bytes@.skip(32));
    Ok(number)
}

/// A handle names, on its own network, the account it was made for.
pub proof fn a_handle_names_its_account(
    network: Seq<char>,
    number: u64,
    handle: [u8; 40],
    named: Result<u64, String>,
)
    ensures
        handle@ == handle_of(network, number) && names_account(network, Some(handle@), named)
            ==> named == Ok::<u64, String>(number),
{
    crate::backend::wire::u64_bytes(number);
    if handle@ == handle_of(network, number) {
        assert(handle@.len() == 40);
        assert(handle@.take(32) =~= crate::outside::sha256_of(chain_name(network)));
        assert(handle@.skip(32) =~= crate::backend::wire::le(number as nat, 8));
    }
}

/// A handle is refused on a network with another hash.
pub proof fn a_handle_names_nothing_on_another_network(
    network: Seq<char>,
    other: Seq<char>,
    number: u64,
    handle: [u8; 40],
    named: Result<u64, String>,
)
    ensures
        handle@ == handle_of(network, number) && crate::outside::sha256_of(chain_name(network))
            != crate::outside::sha256_of(chain_name(other)) && names_account(
            other,
            Some(handle@),
            named,
        ) ==> named is Err,
{
    crate::backend::wire::u64_bytes(number);
    if handle@ == handle_of(network, number) {
        assert(handle@.len() == 40);
        assert(handle@.take(32) =~= crate::outside::sha256_of(chain_name(network)));
    }
}

// ---------- the page ----------
/// What the page is asked for.
#[derive(Debug)]
pub enum Request {
    /// A new passkey; the challenge is pass-through.
    Create { user: [u8; 40], name: String },
    /// An assertion by any passkey the person chooses.
    Get { challenge: [u8; 32] },
}

/// The address that asks `page` for `request`, to answer at `callback`; a new
/// passkey's challenge is `nonce`.
pub open spec fn request_text(
    page: Seq<char>,
    request: Request,
    nonce: Seq<u8>,
    callback: Seq<char>,
) -> Seq<char> {
    let fields = match request {
        Request::Create { user, name } => "op=create&challenge="@ + crate::outside::base64(nonce)
            + "&user="@ + crate::outside::base64(user@) + "&name="@
            + crate::backend::form::percent_encoded(encode_utf8(name@)),
        Request::Get { challenge } => "op=get&challenge="@ + crate::outside::base64(challenge@),
    };
    page + "#"@ + fields + "&cb="@ + crate::backend::form::percent_encoded(encode_utf8(callback))
}

/// The address of a request with `nonce` for a new passkey's challenge.
pub fn request_url_with(page: &str, request: &Request, nonce: &[u8; 32], callback: &str) -> (url:
    String)
    ensures
        url@ == request_text(page@, *request, nonce@, callback@),
{
    let mut url = joined(page, "#");
    let fields = match request {
        Request::Create { user, name } => {
            let mut fields = "op=create&challenge=".to_owned();
            fields.append(base64_encode(nonce.as_slice()).as_str());
            fields.append("&user=");
            fields.append(base64_encode(user.as_slice()).as_str());
            fields.append("&name=");
            fields.append(url_encode(name.as_str()).as_str());
            fields
        },
        Request::Get { challenge } => {
            let mut fields = "op=get&challenge=".to_owned();
            fields.append(base64_encode(challenge.as_slice()).as_str());
            fields
        },
    };
    url.append(fields.as_str());
    url.append("&cb=");
    url.append(url_encode(callback).as_str());
    url
}

/// The address of a request. An assertion's is the same every time; a new
/// passkey's has a fresh challenge in it.
pub fn request_url(page: &str, request: &Request, callback: &str) -> (url: String)
    ensures
        exists|nonce: Seq<u8>|
            nonce.len() == 32 && url@ == #[trigger] request_text(page@, *request, nonce, callback@),
        request is Get ==> url@ == request_text(page@, *request, Seq::empty(), callback@),
{
    let nonce = random_bytes();
    let url = request_url_with(page, request, &nonce, callback);
    assert(url@ == request_text(page@, *request, nonce@, callback@));
    url
}

/// What the page answered: a new passkey's public key, or an assertion.
#[derive(Debug)]
pub enum Outcome {
    /// the 33-byte compressed SEC1 point
    Created(Vec<u8>),
    Asserted(Assertion),
}

/// What an authenticator signed, and its signature; `user_handle` is unsigned.
#[derive(Debug)]
pub struct Assertion {
    pub authenticator_data: Vec<u8>,
    pub client_data_json: Vec<u8>,
    /// raw `R` then `S`
    pub signature: Vec<u8>,
    pub user_handle: Option<Vec<u8>>,
}

/// A sentence for the page's `DOMException` name.
pub open spec fn ceremony_words(name: Seq<char>) -> Seq<char> {
    if name == "NotAllowedError"@ || name == "AbortError"@ {
        "The passkey step was cancelled or timed out. Try again."@
    } else if name == "InvalidStateError"@ {
        "That authenticator already holds a passkey for this account."@
    } else if name == "SecurityError"@ {
        "The browser refused a passkey on this page."@
    } else if name == "NotSupportedError"@ {
        "This browser or authenticator doesn't support passkeys."@
    } else {
        "The passkey step failed ("@ + name + "). Try again."@
    }
}

/// A sentence for the page's `DOMException` name.
pub fn ceremony_error(name: &str) -> (said: String)
    ensures
        said@ == ceremony_words(name@),
{
    if same_text(name, "NotAllowedError") || same_text(name, "AbortError") {
        "The passkey step was cancelled or timed out. Try again.".to_owned()
    } else if same_text(name, "InvalidStateError") {
        "That authenticator already holds a passkey for this account.".to_owned()
    } else if same_text(name, "SecurityError") {
        "The browser refused a passkey on this page.".to_owned()
    } else if same_text(name, "NotSupportedError") {
        "This browser or authenticator doesn't support passkeys.".to_owned()
    } else {
        joined3("The passkey step failed (", name, "). Try again.")
    }
}

/// Whether `bytes` are what a JSON object's field holds in base64, or `None`
/// where it holds none.
pub open spec fn binary_in(json: Seq<char>, field: Seq<char>, bytes: Option<Seq<u8>>) -> bool {
    match bytes {
        Some(bytes) => crate::outside::json_text(json, field) == Some(
            crate::outside::base64(bytes),
        ),
        None => match crate::outside::json_text(json, field) {
            Some(text) => forall|bytes: Seq<u8>| #[trigger] crate::outside::base64(bytes) != text,
            None => true,
        },
    }
}

/// Whether a JSON object's field holds bytes in base64.
pub open spec fn has_binary(json: Seq<char>, field: Seq<char>) -> bool {
    exists|bytes: Seq<u8>| #[trigger] binary_in(json, field, Some(bytes))
}

fn binary(json: &str, field: &str) -> (bytes: Option<Vec<u8>>)
    ensures
        binary_in(
            json@,
            field@,
            match bytes {
                Some(bytes) => Some(bytes@),
                None => None,
            },
        ),
        bytes is Some <==> has_binary(json@, field@),
{
    match json_string(json, field) {
        None => None,
        Some(text) => {
            let bytes = base64_decode(text.as_str());
            proof {
                if bytes is Some {
                    assert(binary_in(json@, field@, Some(bytes->0@)));
                }
            }
            bytes
        },
    }
}

fn missing(field: &str) -> (said: String)
    ensures
        said@ == missing_words(field@),
{
    joined3("The browser's answer is missing ", field, ". Try again.")
}

/// What an answer without `field` reads as.
pub open spec fn missing_words(field: Seq<char>) -> Seq<char> {
    "The browser's answer is missing "@ + field + ". Try again."@
}

/// Whether `json` answers with a key just made.
pub open spec fn makes_key(json: Seq<char>) -> bool {
    &&& crate::outside::is_json(json)
    &&& crate::outside::json_text(json, "error"@) is None
    &&& crate::outside::json_text(json, "op"@) == Some("create"@)
    &&& has_binary(json, "publicKey"@)
}

/// Whether `outcome` is what `json` answers, or else what is the matter with
/// it: an error the page reports, no step, the first field that is missing, or
/// a key just made that no verifier takes (it does where it is `wellformed`).
pub open spec fn result_in(
    json: Seq<char>,
    wellformed: bool,
    outcome: Result<Outcome, String>,
) -> bool {
    if !crate::outside::is_json(json) {
        outcome matches Err(said) && said@
            == "The browser sent back something unreadable. Try again."@
    } else if crate::outside::json_text(json, "error"@) is Some {
        outcome matches Err(said) && said@ == ceremony_words(
            crate::outside::json_text(json, "error"@)->0,
        )
    } else if crate::outside::json_text(json, "op"@) == Some("create"@) {
        if !has_binary(json, "publicKey"@) {
            outcome matches Err(said) && said@ == missing_words("publicKey"@)
        } else if !wellformed {
            outcome matches Err(said) && said@ == "The browser returned a key Ducktape can't use."@
        } else {
            outcome matches Ok(Outcome::Created(key)) && binary_in(
                json,
                "publicKey"@,
                Some(key@),
            )
        }
    } else if crate::outside::json_text(json, "op"@) == Some("get"@) {
        if !has_binary(json, "authenticatorData"@) {
            outcome matches Err(said) && said@ == missing_words("authenticatorData"@)
        } else if !has_binary(json, "clientDataJSON"@) {
            outcome matches Err(said) && said@ == missing_words("clientDataJSON"@)
        } else if !has_binary(json, "signature"@) {
            outcome matches Err(said) && said@ == missing_words("signature"@)
        } else {
            outcome matches Ok(Outcome::Asserted(assertion)) && binary_in(
                json,
                "authenticatorData"@,
                Some(assertion.authenticator_data@),
            ) && binary_in(json, "clientDataJSON"@, Some(assertion.client_data_json@)) && binary_in(
                json,
                "signature"@,
                Some(assertion.signature@),
            ) && binary_in(
                json,
                "userHandle"@,
                match assertion.user_handle {
                    Some(handle) => Some(handle@),
                    None => None,
                },
            )
        }
    } else {
        outcome matches Err(said) && said@ == "The browser's answer names no step. Try again."@
    }
}

/// The key just made that `json` answers with, when it does: whether it is one
/// a verifier takes decides what the answer comes to.
pub fn key_in(json: &str) -> (key: Option<Vec<u8>>)
    ensures
        match key {
            Some(key) => makes_key(json@) && binary_in(json@, "publicKey"@, Some(key@)),
            None => !makes_key(json@),
        },
{
    if !json_reads(json) || json_string(json, "error").is_some() {
        return None;
    }
    match json_string(json, "op") {
        Some(op) => if same_text(op.as_str(), "create") {
            binary(json, "publicKey")
        } else {
            None
        },
        None => None,
    }
}

/// What the page answered. `wellformed` says of a key just made (see
/// [`key_in`]) whether it is one a verifier takes; it says nothing of any
/// other answer.
pub fn parse_result(json: &str, wellformed: bool) -> (outcome: Result<Outcome, String>)
    ensures
        result_in(json@, wellformed, outcome),
{
    if !json_reads(json) {
        return Err("The browser sent back something unreadable. Try again.".to_owned());
    }
    if let Some(error) = json_string(json, "error") {
        return Err(ceremony_error(error.as_str()));
    }
    let op = match json_string(json, "op") {
        Some(op) => op,
        None => {
            return Err("The browser's answer names no step. Try again.".to_owned());
        },
    };
    if same_text(op.as_str(), "create") {
        return match binary(json, "publicKey") {
            Some(key) => if wellformed {
                Ok(Outcome::Created(key))
            } else {
                Err("The browser returned a key Ducktape can't use.".to_owned())
            },
            None => Err(missing("publicKey")),
        };
    }
    if !same_text(op.as_str(), "get") {
        return Err("The browser's answer names no step. Try again.".to_owned());
    }
    proof {
        reveal_strlit("create");
        reveal_strlit("get");
    }
    let authenticator_data = match binary(json, "authenticatorData") {
        Some(bytes) => bytes,
        None => {
            return Err(missing("authenticatorData"));
        },
    };
    let client_data_json = match binary(json, "clientDataJSON") {
        Some(bytes) => bytes,
        None => {
            return Err(missing("clientDataJSON"));
        },
    };
    let signature = match binary(json, "signature") {
        Some(bytes) => bytes,
        None => {
            return Err(missing("signature"));
        },
    };
    let user_handle = binary(json, "userHandle");
    Ok(
        Outcome::Asserted(
            Assertion { authenticator_data, client_data_json, signature, user_handle },
        ),
    )
}

/// The key that is judged is the key the answer comes to.
pub proof fn the_key_judged_is_the_key_taken(
    json: Seq<char>,
    judged: Seq<u8>,
    outcome: Result<Outcome, String>,
)
    ensures
        makes_key(json) && binary_in(json, "publicKey"@, Some(judged)) && result_in(
            json,
            true,
            outcome,
        ) ==> (outcome matches Ok(Outcome::Created(key)) && key@ == judged),
{
    if makes_key(json) && binary_in(json, "publicKey"@, Some(judged)) && result_in(
        json,
        true,
        outcome,
    ) {
        crate::backend::join::base64_is_injective(outcome->Ok_0->Created_0@, judged);
    }
}

/// The key of a step that made one.
pub fn created(outcome: Result<Outcome, String>) -> (key: Result<Vec<u8>, String>)
    ensures
        match outcome {
            Ok(Outcome::Created(made)) => key == Ok::<Vec<u8>, String>(made),
            Ok(Outcome::Asserted(_)) => key matches Err(said) && said@
                == "The browser answered a different step. Try again."@,
            Err(said) => key == Err::<Vec<u8>, String>(said),
        },
{
    match outcome {
        Ok(Outcome::Created(key)) => Ok(key),
        Ok(Outcome::Asserted(_)) => Err(
            "The browser answered a different step. Try again.".to_owned(),
        ),
        Err(said) => Err(said),
    }
}

/// The assertion of a step that asked for one.
pub fn asserted(outcome: Result<Outcome, String>) -> (assertion: Result<Assertion, String>)
    ensures
        match outcome {
            Ok(Outcome::Asserted(made)) => assertion == Ok::<Assertion, String>(made),
            Ok(Outcome::Created(_)) => assertion matches Err(said) && said@
                == "The browser answered a different step. Try again."@,
            Err(said) => assertion == Err::<Assertion, String>(said),
        },
{
    match outcome {
        Ok(Outcome::Asserted(assertion)) => Ok(assertion),
        Ok(Outcome::Created(_)) => Err(
            "The browser answered a different step. Try again.".to_owned(),
        ),
        Err(said) => Err(said),
    }
}

// ---------- the node's words ----------
/// Whether `word` stands anywhere in `text`.
pub open spec fn says(text: Seq<char>, word: Seq<char>) -> bool {
    exists|at: int| 0 <= at && #[trigger] crate::backend::noded::stands_at(text, word, at)
}

fn mentions(text: &str, word: &str) -> (yes: bool)
    ensures
        yes == says(text@, word@),
{
    let chars = chars_of(text);
    let wanted = chars_of(word);
    if wanted.len() > chars.len() {
        return false;
    }
    let last: usize = chars.len() - wanted.len();
    let mut at: usize = 0;
    loop
        invariant
            chars@ == text@,
            wanted@ == word@,
            last + wanted.len() == chars.len(),
            at <= last,
            forall|i: int|
                0 <= i < at ==> !#[trigger] crate::backend::noded::stands_at(text@, word@, i),
        decreases last - at,
    {
        let part = vstd::slice::slice_subrange(chars.as_slice(), at, at + wanted.len());
        if same_chars(part, wanted.as_slice()) {
            assert(crate::backend::noded::stands_at(text@, word@, at as int));
            return true;
        }
        if at == last {
            return false;
        }
        at += 1;
    }
}

fn same_chars(a: &[char], b: &[char]) -> (same: bool)
    ensures
        same == (a@ == b@),
{
    if a.len() != b.len() {
        return false;
    }
    let mut at: usize = 0;
    while at < a.len()
        invariant
            a@.len() == b@.len(),
            at <= a@.len(),
            forall|i: int| 0 <= i < at ==> a@[i] == b@[i],
        decreases a@.len() - at,
    {
        if a[at] != b[at] {
            return false;
        }
        at += 1;
    }
    assert(a@ =~= b@);
    true
}

/// What the person reads of a node's sentence: a consent that ran out is told
/// by its words, and everything else as it is put for people (`worded`).
pub fn node_error(sentence: &str, worded: String) -> (said: String)
    ensures
        said@ == (if says(sentence@, "expired"@) {
            "That took too long and the consent expired. Try again."@
        } else {
            worded@
        }),
{
    if mentions(sentence, "expired") {
        return "That took too long and the consent expired. Try again.".to_owned();
    }
    worded
}

/// What the person reads of a refusal, where `already_exists` is the reason
/// that something already exists, which here is only ever this key's account.
pub open spec fn refusal_words(refusal: Refusal, already_exists: Seq<char>, worded: Seq<char>) -> Seq<
    char,
> {
    if refusal.reason@ == already_exists {
        "This device's key already belongs to an account. Unlock it instead."@
    } else if says(refusal.sentence@, "expired"@) {
        "That took too long and the consent expired. Try again."@
    } else {
        worded
    }
}

/// What the person reads of a refusal.
pub fn rejected(refusal: &Refusal, already_exists: &str, worded: String) -> (said: String)
    ensures
        said@ == refusal_words(*refusal, already_exists@, worded@),
{
    if same_text(refusal.reason.as_str(), already_exists) {
        return "This device's key already belongs to an account. Unlock it instead.".to_owned();
    }
    node_error(refusal.sentence.as_str(), worded)
}

/// What came of a submitted frame: what its run put out, or what the person
/// reads of its refusal.
pub fn submitted(ran: Ran, already_exists: &str, worded: String) -> (output: Result<
    Vec<u8>,
    String,
>)
    ensures
        match ran {
            Ran::Applied { output: put_out } => output == Ok::<Vec<u8>, String>(put_out),
            Ran::Rejected(refusal) => output matches Err(said) && said@ == refusal_words(
                refusal,
                already_exists@,
                worded@,
            ),
        },
{
    match ran {
        Ran::Applied { output } => Ok(output),
        Ran::Rejected(refusal) => Err(rejected(&refusal, already_exists, worded)),
    }
}

// ---------- frames a passkey signs ----------
/// A frame body whose signer is the passkey `pubkey`.
pub fn passkey_body(pubkey: &[u8], network: &str, seq: u64, target: &str, payload: Vec<u8>) -> (body:
    Body)
    ensures
        body.scheme == KeyScheme::Secp256r1,
        body.signer@ == pubkey@,
        body.network@ == encode_utf8(network@),
        body.seq == seq,
        body.target@ == target@,
        body.payload == payload,
{
    Body {
        scheme: KeyScheme::Secp256r1,
        signer: bytes_of(pubkey),
        network: bytes_of(network.as_bytes()),
        seq,
        target: target.to_owned(),
        payload,
    }
}

/// The frame `body` completed by `proof`, or `None` when that is not the
/// body's signer signing it (`verified`): another passkey answered.
pub fn passkey_frame(body: Body, proof_bytes: Vec<u8>, verified: bool) -> (frame: Option<Frame>)
    ensures
        frame == (if verified {
            Some(Frame { body, proof: proof_bytes })
        } else {
            None
        }),
{
    if verified {
        Some(Frame { body, proof: proof_bytes })
    } else {
        None
    }
}

// ---------- the relay ----------
/// Where a touch's slot is on the auth host: `/r/` and 32 bytes in base64.
pub open spec fn relay_path(id: Seq<u8>) -> Seq<char> {
    "/r/"@ + crate::outside::base64(id)
}

/// Whether `url` is the slot `id` on the host of `page`, or else what is the
/// matter with that.
pub open spec fn is_slot(page: Seq<char>, id: Seq<u8>, url: Result<String, String>) -> bool {
    match (url, crate::backend::address::address_on(page, relay_path(id))) {
        (Ok(url), Ok(text)) => url@ == text && crate::outside::ends_with(
            url@,
            relay_path(id).skip(1),
        ),
        (Err(said), Err(error)) => said@ == "The auth page address is unusable: "@ + error,
        _ => false,
    }
}

/// The slot `id` on the host of `page`.
pub fn relay_at(page: &str, id: &[u8; 32]) -> (url: Result<String, String>)
    requires
        page@.len() <= 0x200_0000,
    ensures
        is_slot(page@, id@, url),
{
    let path = joined("/r/", base64_encode(id.as_slice()).as_str());
    proof {
        reveal_strlit("/r/");
        crate::backend::join::base64_length(id@);
        crate::backend::join::base64_is_plain(id@);
        let name = crate::outside::base64(id@);
        assert(crate::outside::plain_path(path@)) by {
            assert forall|i: int| 3 <= i < path@.len() implies path@[i] == #[trigger] name[i - 3] by {}
            assert forall|i: int| 0 <= i < path@.len() implies {
                ||| 'a' <= #[trigger] path@[i] <= 'z'
                ||| 'A' <= path@[i] <= 'Z'
                ||| '0' <= path@[i] <= '9'
                ||| path@[i] == '-'
                ||| path@[i] == '_'
                ||| path@[i] == '/' && (i == 0 || path@[i - 1] != '/')
            } by {
                if i >= 3 {
                    assert(path@[i] == name[i - 3]);
                }
            }
        }
    }
    match address_of(page, path.as_str()) {
        Ok(url) => Ok(url),
        Err(error) => Err(joined("The auth page address is unusable: ", error.as_str())),
    }
}

/// A fresh slot on the host of `page`, which accepts only its own: 32 random
/// bytes are its only lock.
pub fn relay(page: &str) -> (url: Result<String, String>)
    requires
        page@.len() <= 0x200_0000,
    ensures
        exists|id: Seq<u8>| id.len() == 32 && #[trigger] is_slot(page@, id, url),
{
    let id = random_bytes();
    let url = relay_at(page, &id);
    assert(is_slot(page@, id@, url));
    url
}

/// How long one touch may take before the app stops waiting, in milliseconds.
pub const CEREMONY_TIMEOUT: u64 = 300_000;

/// How often a touch on the phone asks the auth host for its answer, in
/// milliseconds.
pub const RELAY_POLL: u64 = 1_500;

/// What follows a look at the slot.
#[derive(Debug)]
pub enum Polled {
    /// Ask again later.
    Again,
    Answer(Result<Outcome, String>),
}

/// Whether a look at the slot ends the wait: it does not while the host is out
/// of reach, nor while the slot is empty.
pub open spec fn settles(fetched: Fetched) -> bool {
    fetched matches Fetched::Answered { status, .. } && status != 204
}

/// Whether `outcome` is what a look at the slot answers, when it ends the
/// wait; `wellformed` says of a key it brings whether a verifier takes it.
pub open spec fn relayed(
    fetched: Fetched,
    wellformed: bool,
    outcome: Result<Outcome, String>,
) -> bool {
    fetched matches Fetched::Answered { status, text } && if status == 200 {
        match text {
            Some(text) => result_in(text@, wellformed, outcome),
            None => outcome matches Err(said) && said@
                == "Lost the phone's answer on the way. Try again."@,
        }
    } else {
        outcome matches Err(said) && said@ == "The auth host refused to relay the phone's answer ("@
            + crate::backend::join::shown(status) + "). Try again."@
    }
}

/// Whether what came back carries a status that is one.
pub open spec fn status_fits(fetched: Fetched) -> bool {
    fetched matches Fetched::Answered { status, .. } ==> 100 <= status <= 999
}

/// The key just made that a look at the slot brings, when it does.
pub open spec fn brings_key(fetched: Fetched) -> bool {
    fetched matches Fetched::Answered { status: 200, text: Some(text) } && makes_key(text@)
}

/// The key just made that a look at the slot brings, when it does: it is to be
/// judged before the look is.
pub fn key_fetched(fetched: &Fetched) -> (key: Option<Vec<u8>>)
    ensures
        match key {
            Some(key) => brings_key(*fetched) && binary_in(
                fetched->text->0@,
                "publicKey"@,
                Some(key@),
            ),
            None => !brings_key(*fetched),
        },
{
    match fetched {
        Fetched::Answered { status, text: Some(text) } => if *status == 200 {
            key_in(text.as_str())
        } else {
            None
        },
        _ => None,
    }
}

/// What follows a look at the slot: its answer, when it has one; another look
/// while it has none, or the host is out of reach, which the ceremony's
/// timeout bounds; and otherwise the host's refusal. `wellformed` says of a
/// key the look brings (see [`key_fetched`]) whether a verifier takes it.
pub fn polled(fetched: Fetched, wellformed: bool) -> (next: Polled)
    requires
        status_fits(fetched),
    ensures
        next is Answer <==> settles(fetched),
        next matches Polled::Answer(outcome) ==> relayed(fetched, wellformed, outcome),
{
    match fetched {
        Fetched::Unreachable => Polled::Again,
        Fetched::Answered { status, text } => if status == 200 {
            match text {
                Some(text) => Polled::Answer(parse_result(text.as_str(), wellformed)),
                None => Polled::Answer(
                    Err("Lost the phone's answer on the way. Try again.".to_owned()),
                ),
            }
        } else if status == 204 {
            Polled::Again
        } else {
            Polled::Answer(
                Err(
                    joined3(
                        "The auth host refused to relay the phone's answer (",
                        status_text(status).as_str(),
                        "). Try again.",
                    ),
                ),
            )
        },
    }
}

/// Where the wait for the phone's answer stands.
#[derive(Clone, Copy, Debug, PartialEq, Eq, Structural)]
pub enum RelayWait {
    /// Between looks.
    Resting,
    /// A look at the slot is under way.
    Looking,
    Over,
}

/// What the wait is told.
#[derive(Debug)]
pub enum RelayTold {
    /// It is time for a look, if the phone was picked.
    Woke { picked: bool },
    /// What a look came back with, and of a key it brings whether a verifier
    /// takes it.
    Fetched { fetched: Fetched, wellformed: bool },
}

/// What the wait asks for.
#[derive(Debug)]
pub enum RelayAsk {
    /// A look at the slot.
    Look,
    /// To be woken in a while.
    Sleep,
    /// Nothing more: this is the answer.
    Done(Result<Outcome, String>),
    /// Nothing: it was told what it did not ask for.
    Nothing,
}

/// Whether the wait, told `told` where it stood as `before`, stands as `after`
/// and asks `ask`: for a look if and only if the phone was picked, and for
/// another rest until a look settles it.
pub open spec fn relay_stepped(
    before: RelayWait,
    told: RelayTold,
    after: RelayWait,
    ask: RelayAsk,
) -> bool {
    match (before, told) {
        (RelayWait::Resting, RelayTold::Woke { picked }) => if picked {
            after is Looking && ask is Look
        } else {
            after is Resting && ask is Sleep
        },
        (RelayWait::Looking, RelayTold::Fetched { fetched, wellformed }) => if settles(fetched) {
            after is Over && (ask matches RelayAsk::Done(outcome) && relayed(
                fetched,
                wellformed,
                outcome,
            ))
        } else {
            after is Resting && ask is Sleep
        },
        _ => after == before && ask is Nothing,
    }
}

impl RelayWait {
    /// A wait that has not looked yet.
    pub fn begin() -> (wait: Self)
        ensures
            wait is Resting,
    {
        RelayWait::Resting
    }

    /// How the wait stands, and what it asks, told `told`.
    pub fn step(self, told: RelayTold) -> (next: (Self, RelayAsk))
        requires
            told matches RelayTold::Fetched { fetched, .. } ==> status_fits(fetched),
        ensures
            relay_stepped(self, told, next.0, next.1),
    {
        match (self, told) {
            (RelayWait::Resting, RelayTold::Woke { picked }) => if picked {
                (RelayWait::Looking, RelayAsk::Look)
            } else {
                (RelayWait::Resting, RelayAsk::Sleep)
            },
            (RelayWait::Looking, RelayTold::Fetched { fetched, wellformed }) => match polled(
                fetched,
                wellformed,
            ) {
                Polled::Answer(outcome) => (RelayWait::Over, RelayAsk::Done(outcome)),
                Polled::Again => (RelayWait::Resting, RelayAsk::Sleep),
            },
            (wait, _) => (wait, RelayAsk::Nothing),
        }
    }
}

/// One step of a wait: what it was told, how it stood after, what it asked.
pub struct RelayStep {
    pub told: RelayTold,
    pub after: RelayWait,
    pub ask: RelayAsk,
}

/// How a wait stands after `steps`.
pub open spec fn stands_after(steps: Seq<RelayStep>) -> RelayWait {
    if steps.len() == 0 {
        RelayWait::Resting
    } else {
        steps.last().after
    }
}

/// Whether `steps` are the steps of a wait from its beginning.
pub open spec fn is_wait(steps: Seq<RelayStep>) -> bool
    decreases steps.len(),
{
    steps.len() > 0 ==> is_wait(steps.drop_last()) && relay_stepped(
        stands_after(steps.drop_last()),
        steps.last().told,
        steps.last().after,
        steps.last().ask,
    )
}

/// How many looks `steps` ask for.
pub open spec fn looks(steps: Seq<RelayStep>) -> nat
    decreases steps.len(),
{
    if steps.len() == 0 {
        0
    } else {
        looks(steps.drop_last()) + if steps.last().ask is Look {
            1nat
        } else {
            0nat
        }
    }
}

/// What the looks of `steps` came back with, in order.
pub open spec fn came_back(steps: Seq<RelayStep>) -> Seq<Fetched>
    decreases steps.len(),
{
    if steps.len() == 0 {
        Seq::empty()
    } else {
        let before = came_back(steps.drop_last());
        match steps.last().told {
            RelayTold::Fetched { fetched, .. } if stands_after(steps.drop_last()) is Looking => before.push(
                fetched,
            ),
            _ => before,
        }
    }
}

/// However a wait goes: it asks for a look only when told that the phone was
/// picked; it looks once for each answer that came back, and once more while a
/// look is under way; and it is over exactly when the last of these settled
/// it, none before having done so.
pub proof fn the_slot_is_asked_until_it_answers(steps: Seq<RelayStep>)
    requires
        is_wait(steps),
    ensures
        forall|i: int|
            0 <= i < steps.len() && (#[trigger] steps[i]).ask is Look ==> steps[i].told
                == (RelayTold::Woke { picked: true }),
        looks(steps) == came_back(steps).len() + if stands_after(steps) is Looking {
            1nat
        } else {
            0nat
        },
        stands_after(steps) is Over <==> came_back(steps).len() > 0 && settles(
            came_back(steps).last(),
        ),
        forall|i: int|
            0 <= i < came_back(steps).len() - 1 ==> !settles(#[trigger] came_back(steps)[i]),
        (forall|i: int|
            0 <= i < steps.len() ==> (#[trigger] steps[i]).told != (RelayTold::Woke { picked: true }))
            ==> looks(steps) == 0,
    decreases steps.len(),
{
    if steps.len() > 0 {
        let before = steps.drop_last();
        the_slot_is_asked_until_it_answers(before);
        assert forall|i: int|
            0 <= i < steps.len() && (#[trigger] steps[i]).ask is Look implies steps[i].told == (
        RelayTold::Woke { picked: true }) by {
            if i < before.len() {
                assert(before[i] == steps[i]);
            }
        }
        if forall|i: int|
            0 <= i < steps.len() ==> (#[trigger] steps[i]).told != (RelayTold::Woke {
                picked: true,
            }) {
            assert forall|i: int| 0 <= i < before.len() implies (#[trigger] before[i]).told != (
            RelayTold::Woke { picked: true }) by {
                assert(before[i] == steps[i]);
            }
            assert(steps[steps.len() - 1] == steps.last());
        }
    }
}

/// What a touch comes to: the first answer there was, or `None` where none
/// came in time.
pub fn first_answer(answer: Option<Result<Outcome, String>>) -> (outcome: Result<Outcome, String>)
    ensures
        match answer {
            Some(answered) => outcome == answered,
            None => outcome matches Err(said) && said@
                == "Nothing came back from the passkey. Try again."@,
        },
{
    match answer {
        Some(answered) => answered,
        None => Err("Nothing came back from the passkey. Try again.".to_owned()),
    }
}

// ---------- what these come to ----------
/// The pairs a request rides as.
pub open spec fn request_pairs(
    request: Request,
    nonce: Seq<u8>,
    callback: Seq<char>,
) -> Seq<(Seq<char>, Seq<char>)> {
    match request {
        Request::Create { user, name } => seq![
            ("op"@, "create"@),
            ("challenge"@, crate::outside::base64(nonce)),
            ("user"@, crate::outside::base64(user@)),
            ("name"@, name@),
            ("cb"@, callback),
        ],
        Request::Get { challenge } => seq![
            ("op"@, "get"@),
            ("challenge"@, crate::outside::base64(challenge@)),
            ("cb"@, callback),
        ],
    }
}

/// The names and steps of a request are written as they are.
proof fn request_words_are_plain()
    ensures
        crate::backend::form::percent_encoded(encode_utf8("op"@)) == "op"@,
        crate::backend::form::percent_encoded(encode_utf8("challenge"@)) == "challenge"@,
        crate::backend::form::percent_encoded(encode_utf8("user"@)) == "user"@,
        crate::backend::form::percent_encoded(encode_utf8("name"@)) == "name"@,
        crate::backend::form::percent_encoded(encode_utf8("cb"@)) == "cb"@,
        crate::backend::form::percent_encoded(encode_utf8("create"@)) == "create"@,
        crate::backend::form::percent_encoded(encode_utf8("get"@)) == "get"@,
{
    reveal_strlit("op");
    reveal_strlit("challenge");
    reveal_strlit("user");
    reveal_strlit("name");
    reveal_strlit("cb");
    reveal_strlit("create");
    reveal_strlit("get");
    crate::backend::form::plain_text_is_its_own_encoding("op"@);
    crate::backend::form::plain_text_is_its_own_encoding("challenge"@);
    crate::backend::form::plain_text_is_its_own_encoding("user"@);
    crate::backend::form::plain_text_is_its_own_encoding("name"@);
    crate::backend::form::plain_text_is_its_own_encoding("cb"@);
    crate::backend::form::plain_text_is_its_own_encoding("create"@);
    crate::backend::form::plain_text_is_its_own_encoding("get"@);
}

/// The words between a request's values are its names and its separators.
proof fn request_words_are_pairs()
    ensures
        "op=create&challenge="@ == "op"@ + "="@ + "create"@ + "&"@ + ("challenge"@ + "="@),
        "op=get&challenge="@ == "op"@ + "="@ + "get"@ + "&"@ + ("challenge"@ + "="@),
        "&user="@ == "&"@ + ("user"@ + "="@),
        "&name="@ == "&"@ + ("name"@ + "="@),
        "&cb="@ == "&"@ + ("cb"@ + "="@),
{
    reveal_strlit("=");
    reveal_strlit("&");
    reveal_strlit("op");
    reveal_strlit("challenge");
    reveal_strlit("user");
    reveal_strlit("name");
    reveal_strlit("cb");
    reveal_strlit("create");
    reveal_strlit("get");
    reveal_strlit("op=create&challenge=");
    reveal_strlit("op=get&challenge=");
    reveal_strlit("&user=");
    reveal_strlit("&name=");
    reveal_strlit("&cb=");
    assert("op=create&challenge="@ =~= "op"@ + "="@ + "create"@ + "&"@ + ("challenge"@ + "="@));
    assert("op=get&challenge="@ =~= "op"@ + "="@ + "get"@ + "&"@ + ("challenge"@ + "="@));
    assert("&user="@ =~= "&"@ + ("user"@ + "="@));
    assert("&name="@ =~= "&"@ + ("name"@ + "="@));
    assert("&cb="@ =~= "&"@ + ("cb"@ + "="@));
}

/// A form of three pairs, written out.
proof fn three_pairs(pairs: Seq<(Seq<char>, Seq<char>)>)
    requires
        pairs.len() == 3,
    ensures
        crate::backend::form::form_text(pairs) == crate::backend::form::pair_text(pairs[0]) + "&"@
            + (crate::backend::form::pair_text(pairs[1]) + "&"@ + crate::backend::form::pair_text(
            pairs[2],
        )),
{
    reveal_with_fuel(crate::backend::form::form_text, 3);
    let rest = pairs.skip(1);
    let last = rest.skip(1);
    assert(rest[0] == pairs[1] && last[0] == pairs[2]);
}

/// A form of five pairs, written out.
proof fn five_pairs(pairs: Seq<(Seq<char>, Seq<char>)>)
    requires
        pairs.len() == 5,
    ensures
        crate::backend::form::form_text(pairs) == crate::backend::form::pair_text(pairs[0]) + "&"@
            + (crate::backend::form::pair_text(pairs[1]) + "&"@ + (crate::backend::form::pair_text(
            pairs[2],
        ) + "&"@ + (crate::backend::form::pair_text(pairs[3]) + "&"@
            + crate::backend::form::pair_text(pairs[4])))),
{
    let rest = pairs.skip(1);
    let more = rest.skip(1);
    reveal_with_fuel(crate::backend::form::form_text, 3);
    three_pairs(more);
    assert(rest[0] == pairs[1]);
    assert(more[0] == pairs[2] && more[1] == pairs[3] && more[2] == pairs[4]);
}

/// The page reads out of an address's fragment what it was asked: the step, the
/// challenge, where to answer, and for a new passkey whose it is and its name,
/// each whatever it says.
pub proof fn the_page_reads_what_it_is_asked(
    page: Seq<char>,
    request: Request,
    nonce: Seq<u8>,
    callback: Seq<char>,
    name: Seq<char>,
) -> (fragment: Seq<char>)
    ensures
        request_text(page, request, nonce, callback) == page + "#"@ + fragment,
        crate::backend::form::field_value(encode_utf8(fragment), encode_utf8(name), 0)
            == crate::backend::form::first_named(request_pairs(request, nonce, callback), name),
{
    let pairs = request_pairs(request, nonce, callback);
    let fragment = crate::backend::form::form_text(pairs);
    crate::backend::form::a_form_gives_back_its_fields(pairs, name);
    request_words_are_plain();
    request_words_are_pairs();
    let head = page + "#"@;
    let back = crate::backend::form::percent_encoded(encode_utf8(callback));
    match request {
        Request::Create { user, name } => {
            let a = crate::outside::base64(nonce);
            let b = crate::outside::base64(user@);
            let c = crate::backend::form::percent_encoded(encode_utf8(name@));
            crate::backend::join::base64_is_plain(nonce);
            crate::backend::join::base64_is_plain(user@);
            crate::backend::form::plain_text_is_its_own_encoding(a);
            crate::backend::form::plain_text_is_its_own_encoding(b);
            five_pairs(pairs);
            create_regrouped(head, a, b, c, back);
        },
        Request::Get { challenge } => {
            let a = crate::outside::base64(challenge@);
            crate::backend::join::base64_is_plain(challenge@);
            crate::backend::form::plain_text_is_its_own_encoding(a);
            three_pairs(pairs);
            get_regrouped(head, a, back);
        },
    }
    fragment
}

proof fn get_regrouped(head: Seq<char>, a: Seq<char>, back: Seq<char>)
    ensures
        head + ("op"@ + "="@ + "get"@ + "&"@ + ("challenge"@ + "="@) + a) + ("&"@ + ("cb"@ + "="@))
            + back == head + ("op"@ + "="@ + "get"@ + "&"@ + ("challenge"@ + "="@ + a + "&"@ + (
        "cb"@ + "="@ + back))),
{
    let first = "op"@ + "="@ + "get"@ + "&"@;
    let second = "challenge"@ + "="@;
    let third = "cb"@ + "="@;
    assert(head + (first + second + a) + ("&"@ + third) + back =~= head + (first + (second + a
        + "&"@ + (third + back))));
}

proof fn create_regrouped(
    head: Seq<char>,
    a: Seq<char>,
    b: Seq<char>,
    c: Seq<char>,
    back: Seq<char>,
)
    ensures
        head + ("op"@ + "="@ + "create"@ + "&"@ + ("challenge"@ + "="@) + a + ("&"@ + ("user"@
            + "="@)) + b + ("&"@ + ("name"@ + "="@)) + c) + ("&"@ + ("cb"@ + "="@)) + back == head
            + ("op"@ + "="@ + "create"@ + "&"@ + ("challenge"@ + "="@ + a + "&"@ + ("user"@ + "="@
            + b + "&"@ + ("name"@ + "="@ + c + "&"@ + ("cb"@ + "="@ + back))))),
{
    let first = "op"@ + "="@ + "create"@ + "&"@;
    let second = "challenge"@ + "="@;
    let third = "user"@ + "="@;
    let fourth = "name"@ + "="@;
    let fifth = "cb"@ + "="@;
    assert(head + (first + second + a + ("&"@ + third) + b + ("&"@ + fourth) + c) + ("&"@ + fifth)
        + back =~= head + (first + (second + a + "&"@ + (third + b + "&"@ + (fourth + c + "&"@ + (
    fifth + back))))));
}

/// An answer is taken for no more than it says: with an error in it, it is that
/// error; a key just made only where it says so and a verifier takes the key;
/// an assertion only where it says so and holds all three parts of one.
pub proof fn an_answer_is_taken_for_what_it_says(
    json: Seq<char>,
    wellformed: bool,
    outcome: Result<Outcome, String>,
)
    ensures
        result_in(json, wellformed, outcome) ==> {
            &&& !crate::outside::is_json(json) ==> outcome is Err
            &&& crate::outside::is_json(json) && crate::outside::json_text(json, "error"@) is Some
                ==> (outcome matches Err(said) && said@ == ceremony_words(
                crate::outside::json_text(json, "error"@)->0,
            ))
            &&& outcome matches Ok(Outcome::Created(key)) ==> wellformed && crate::outside::json_text(
                json,
                "op"@,
            ) == Some("create"@) && crate::outside::json_text(json, "error"@) is None
                && crate::outside::json_text(json, "publicKey"@) == Some(
                crate::outside::base64(key@),
            )
            &&& outcome matches Ok(Outcome::Asserted(assertion)) ==> crate::outside::json_text(
                json,
                "op"@,
            ) == Some("get"@) && crate::outside::json_text(json, "error"@) is None
                && crate::outside::json_text(json, "authenticatorData"@) == Some(
                crate::outside::base64(assertion.authenticator_data@),
            ) && crate::outside::json_text(json, "clientDataJSON"@) == Some(
                crate::outside::base64(assertion.client_data_json@),
            ) && crate::outside::json_text(json, "signature"@) == Some(
                crate::outside::base64(assertion.signature@),
            ) && (assertion.user_handle matches Some(handle) ==> crate::outside::json_text(
                json,
                "userHandle"@,
            ) == Some(crate::outside::base64(handle@)))
            &&& crate::outside::is_json(json) && crate::outside::json_text(json, "error"@) is None
                && crate::outside::json_text(json, "op"@) == Some("create"@) && wellformed && (
            exists|key: Seq<u8>|
                crate::outside::json_text(json, "publicKey"@) == Some(
                    #[trigger] crate::outside::base64(key),
                )) ==> (outcome matches Ok(Outcome::Created(_)))
            &&& crate::outside::is_json(json) && crate::outside::json_text(json, "error"@) is None
                && crate::outside::json_text(json, "op"@) == Some("get"@) && (exists|key: Seq<u8>|
                crate::outside::json_text(json, "authenticatorData"@) == Some(
                    #[trigger] crate::outside::base64(key),
                )) && (exists|key: Seq<u8>|
                crate::outside::json_text(json, "clientDataJSON"@) == Some(
                    #[trigger] crate::outside::base64(key),
                )) && (exists|key: Seq<u8>|
                crate::outside::json_text(json, "signature"@) == Some(
                    #[trigger] crate::outside::base64(key),
                )) ==> (outcome matches Ok(Outcome::Asserted(_)))
        },
{
    reveal_strlit("create");
    reveal_strlit("get");
    assert forall|field: Seq<char>| (exists|key: Seq<u8>|
        crate::outside::json_text(json, field) == Some(
            #[trigger] crate::outside::base64(key),
        )) implies #[trigger] has_binary(json, field) by {
        let key = choose|key: Seq<u8>|
            crate::outside::json_text(json, field) == Some(
                #[trigger] crate::outside::base64(key),
            );
        assert(binary_in(json, field, Some(key)));
    }
    assert("create"@.len() != "get"@.len());
}

/// A handle is of one account on one network: another number is another handle,
/// and so is another network whose hash is another.
pub proof fn a_handle_is_of_one_account(network: Seq<char>, number: u64, other: u64)
    ensures
        handle_of(network, number) == handle_of(network, other) <==> number == other,
{
    crate::backend::wire::u64_bytes(number);
    crate::backend::wire::u64_bytes(other);
    if handle_of(network, number) == handle_of(network, other) {
        let hash = crate::outside::sha256_of(chain_name(network));
        let ours = crate::backend::wire::le(number as nat, 8);
        let theirs = crate::backend::wire::le(other as nat, 8);
        assert forall|i: int| 0 <= i < 8 implies ours[i] == theirs[i] by {
            assert((hash + ours)[hash.len() + i] == ours[i]);
            assert((hash + theirs)[hash.len() + i] == theirs[i]);
        }
        assert(ours =~= theirs);
    }
}

/// A network is hashed by its own name: two networks are hashed as one only
/// where they are one.
pub proof fn a_chain_name_is_of_one_network(network: Seq<char>, other: Seq<char>)
    ensures
        chain_name(network) == chain_name(other) <==> network == other,
{
    if chain_name(network) == chain_name(other) {
        let head = encode_utf8("ducktape:passkey-account:v1\0"@);
        let ours = encode_utf8(network);
        let theirs = encode_utf8(other);
        assert((head + ours).len() == (head + theirs).len());
        assert forall|i: int| 0 <= i < ours.len() implies ours[i] == theirs[i] by {
            assert((head + ours)[head.len() + i] == ours[i]);
            assert((head + theirs)[head.len() + i] == theirs[i]);
        }
        assert(ours =~= theirs);
        crate::text::utf8_is_injective(network, other);
    }
}

/// A handle of the wrong length, or none, names no account; and one of this
/// network names one whatever its number.
pub proof fn a_handle_names_an_account_by_its_shape(
    network: Seq<char>,
    handle: Option<Seq<u8>>,
    named: Result<u64, String>,
)
    ensures
        names_account(network, handle, named) ==> (named is Ok <==> handle is Some
            && handle->0.len() == 40 && handle->0.take(32) == crate::outside::sha256_of(
            chain_name(network),
        )),
{
}

/// A sentence says a word exactly where it is something, the word, and
/// something more.
pub proof fn a_word_is_said_anywhere(text: Seq<char>, word: Seq<char>)
    ensures
        says(text, word) <==> exists|before: Seq<char>, after: Seq<char>|
            text == #[trigger] (before + word + after),
{
    if says(text, word) {
        let at = choose|at: int|
            0 <= at && #[trigger] crate::backend::noded::stands_at(text, word, at);
        assert(text =~= text.take(at) + word + text.skip(at + word.len()));
    }
    if exists|before: Seq<char>, after: Seq<char>| text == #[trigger] (before + word + after) {
        let (before, after) = choose|before: Seq<char>, after: Seq<char>|
            text == #[trigger] (before + word + after);
        assert(text.subrange(before.len() as int, before.len() as int + word.len()) =~= word);
        assert(crate::backend::noded::stands_at(text, word, before.len() as int));
    }
}

/// A refusal for what already exists is told apart from one for a consent that
/// ran out, and that from any other, which is put as it is for people.
pub proof fn a_refusal_reads_by_its_reason(
    refusal: Refusal,
    already_exists: Seq<char>,
    worded: Seq<char>,
)
    ensures
        refusal.reason@ == already_exists ==> refusal_words(refusal, already_exists, worded)
            == "This device's key already belongs to an account. Unlock it instead."@,
        refusal.reason@ != already_exists && says(refusal.sentence@, "expired"@) ==> refusal_words(
            refusal,
            already_exists,
            worded,
        ) == "That took too long and the consent expired. Try again."@,
        refusal.reason@ != already_exists && !says(refusal.sentence@, "expired"@) ==> refusal_words(
            refusal,
            already_exists,
            worded,
        ) == worded,
{
}

/// A look at the slot ends the wait exactly where the host answered and the
/// slot was not empty. An answer then is what the phone's page says, and
/// anything but a message that was read is an error.
pub proof fn a_look_settles_what_it_finds(
    fetched: Fetched,
    wellformed: bool,
    outcome: Result<Outcome, String>,
)
    ensures
        settles(fetched) <==> (fetched matches Fetched::Answered { status, .. } && status != 204),
        relayed(fetched, wellformed, outcome) && outcome is Ok ==> (
        fetched matches Fetched::Answered { status, text: Some(text) } && status == 200
            && result_in(text@, wellformed, outcome)),
        relayed(fetched, wellformed, outcome) && (fetched matches Fetched::Answered {
            status,
            text: Some(text),
        } && status == 200) ==> result_in(fetched->text->0@, wellformed, outcome),
{
}

/// A consent is good for a quarter of an hour.
pub proof fn a_consent_is_good_for_a_while(now: u64, deadline: u64)
    requires
        call_ensures(expires_at, (now,), deadline),
    ensures
        deadline - now == 15 * 60 * 1000,
{
}

/// A handle is the hash of the protocol's name and the network's, and then the
/// account's number in eight bytes.
pub proof fn a_handle_is_its_network_and_its_number(
    network: &str,
    number: u64,
    hash: [u8; 32],
    handle: [u8; 40],
)
    requires
        call_ensures(chain_hash, (network,), hash),
        call_ensures(user_handle, (network, number), handle),
    ensures
        hash@ == crate::outside::sha256_of(
            encode_utf8("ducktape:passkey-account:v1\0"@) + encode_utf8(network@),
        ),
        handle@ == hash@ + crate::backend::wire::eight(number as nat),
{
    crate::backend::wire::numbers_go_lowest_byte_first(0, 0, number);
}

/// A handle is of this network or it names nothing here: the number it ends
/// with is taken where it is 40 bytes and begins with the network's hash, and
/// what is the matter is told apart otherwise.
pub proof fn a_handle_is_taken_on_its_own_network(
    network: &str,
    handle: Option<&[u8]>,
    named: Result<u64, String>,
    hash: [u8; 32],
    number: u64,
)
    requires
        call_ensures(account_of_handle, (network, handle), named),
        call_ensures(chain_hash, (network,), hash),
    ensures
        handle matches Some(bytes) ==> bytes@ == hash@ + crate::backend::wire::eight(number as nat)
            ==> named == Ok::<u64, String>(number),
        named is Ok <==> handle is Some && handle->0@.len() == 40 && handle->0@.take(32) == hash@,
        named matches Ok(number) ==> handle->0@.skip(32) == crate::backend::wire::eight(
            number as nat,
        ),
        handle is None || handle->0@.len() != 40 ==> named->Err_0@
            == "That passkey wasn't made by Ducktape. Choose a Ducktape passkey."@,
        handle is Some && handle->0@.len() == 40 && handle->0@.take(32) != hash@ ==> named->Err_0@
            == "That passkey belongs to another network. Choose one for "@ + network@ + "."@,
{
    crate::backend::wire::numbers_go_lowest_byte_first(0, 0, number);
    crate::backend::wire::u64_bytes(number);
    if let Some(bytes) = handle {
        let tail = bytes@.skip(32);
        if bytes@ == hash@ + crate::backend::wire::eight(number as nat) {
            assert(bytes@.take(32) =~= hash@);
            assert(tail =~= crate::backend::wire::le(number as nat, 8));
        }
        if bytes@.len() == 40 {
            crate::backend::wire::what_is_decoded_was_encoded::<u64>(
                tail,
                crate::backend::wire::of_le(tail) as u64,
            );
            assert(tail.take(8) =~= tail);
            assert(tail.skip(8).len() == 0);
            crate::backend::wire::numbers_go_lowest_byte_first(
                0,
                0,
                crate::backend::wire::of_le(tail) as u64,
            );
        }
    }
}

/// What the person reads of a step that failed, by the browser's name for it.
pub proof fn a_failed_step_reads_by_its_name(name: &str, said: String)
    requires
        call_ensures(ceremony_error, (name,), said),
    ensures
        name@ == "NotAllowedError"@ || name@ == "AbortError"@ ==> said@
            == "The passkey step was cancelled or timed out. Try again."@,
        name@ == "InvalidStateError"@ ==> said@
            == "That authenticator already holds a passkey for this account."@,
        name@ == "SecurityError"@ ==> said@ == "The browser refused a passkey on this page."@,
        name@ == "NotSupportedError"@ ==> said@
            == "This browser or authenticator doesn't support passkeys."@,
        name@ != "NotAllowedError"@ && name@ != "AbortError"@ && name@ != "InvalidStateError"@
            && name@ != "SecurityError"@ && name@ != "NotSupportedError"@ ==> said@
            == "The passkey step failed ("@ + name@ + "). Try again."@,
{
    reveal_strlit("NotAllowedError");
    reveal_strlit("AbortError");
    reveal_strlit("InvalidStateError");
    reveal_strlit("SecurityError");
    reveal_strlit("NotSupportedError");
    assert("NotAllowedError"@[0] == 'N' && "NotAllowedError"@[3] == 'A');
    assert("AbortError"@[0] == 'A');
    assert("InvalidStateError"@[0] == 'I');
    assert("SecurityError"@[0] == 'S');
    assert("NotSupportedError"@[0] == 'N' && "NotSupportedError"@[3] == 'S');
}

/// A step is answered by what it asked for: a key by a key and an assertion by
/// an assertion, the other is told apart, and what went wrong is passed on.
pub proof fn a_step_is_answered_by_what_it_asked_for(
    outcome: Result<Outcome, String>,
    key: Result<Vec<u8>, String>,
    assertion: Result<Assertion, String>,
)
    requires
        call_ensures(created, (outcome,), key),
        call_ensures(asserted, (outcome,), assertion),
    ensures
        outcome matches Ok(Outcome::Created(made)) ==> key == Ok::<Vec<u8>, String>(made)
            && assertion is Err && assertion->Err_0@
            == "The browser answered a different step. Try again."@,
        outcome matches Ok(Outcome::Asserted(made)) ==> assertion == Ok::<Assertion, String>(made)
            && key is Err && key->Err_0@ == "The browser answered a different step. Try again."@,
        outcome matches Err(said) ==> key == Err::<Vec<u8>, String>(said) && assertion == Err::<
            Assertion,
            String,
        >(said),
{
}

/// What a run put out is handed over as it is; and what the person reads of a
/// refusal is of its reason first, then of a consent that ran out.
pub proof fn a_run_puts_out_what_it_did(
    ran: Ran,
    already_exists: &str,
    worded: String,
    output: Result<Vec<u8>, String>,
)
    requires
        call_ensures(submitted, (ran, already_exists, worded), output),
    ensures
        ran matches Ran::Applied { output: put_out } ==> output == Ok::<Vec<u8>, String>(put_out),
        ran matches Ran::Rejected(refusal) ==> output is Err && (refusal.reason@ == already_exists@
            ==> output->Err_0@
            == "This device's key already belongs to an account. Unlock it instead."@) && (
        refusal.reason@ != already_exists@ && says(refusal.sentence@, "expired"@)
            ==> output->Err_0@ == "That took too long and the consent expired. Try again."@) && (
        refusal.reason@ != already_exists@ && !says(refusal.sentence@, "expired"@)
            ==> output->Err_0@ == worded@),
{
}

/// A passkey's frame is the body it was asked to sign, under its own key and
/// scheme, with its proof; and there is none where the proof is not its own.
pub proof fn a_passkeys_frame_is_the_body_it_signed(
    pubkey: &[u8],
    network: &str,
    seq: u64,
    target: &str,
    payload: Vec<u8>,
    body: Body,
    proof_bytes: Vec<u8>,
    verified: bool,
    frame: Option<Frame>,
)
    requires
        call_ensures(passkey_body, (pubkey, network, seq, target, payload), body),
        call_ensures(passkey_frame, (body, proof_bytes, verified), frame),
    ensures
        body.scheme is Secp256r1,
        body.signer@ == pubkey@,
        body.network@ == encode_utf8(network@),
        body.seq == seq,
        body.target@ == target@,
        body.payload == payload,
        frame is Some <==> verified,
        frame matches Some(frame) ==> frame.body == body && frame.proof == proof_bytes,
{
}

/// What came first is the answer; where nothing came that is said.
pub proof fn the_first_answer_is_the_answer(
    answer: Option<Result<Outcome, String>>,
    outcome: Result<Outcome, String>,
)
    requires
        call_ensures(first_answer, (answer,), outcome),
    ensures
        answer matches Some(answered) ==> outcome == answered,
        answer is None ==> outcome is Err && outcome->Err_0@
            == "Nothing came back from the passkey. Try again."@,
{
}

/// What a wait does at each turn: it begins resting, looks once the phone was
/// picked, rests after a look that settles nothing, and is over with the answer
/// of one that does; what it did not ask for changes nothing.
pub proof fn a_wait_looks_when_the_phone_was_picked(
    begun: RelayWait,
    wait: RelayWait,
    told: RelayTold,
    next: (RelayWait, RelayAsk),
)
    requires
        call_ensures(RelayWait::begin, (), begun),
        call_ensures(RelayWait::step, (wait, told), next),
    ensures
        begun is Resting,
        next.1 is Look <==> wait is Resting && told == (RelayTold::Woke { picked: true }),
        next.1 is Look ==> next.0 is Looking,
        next.1 is Done <==> wait is Looking && told is Fetched && told->fetched is Answered
            && told->fetched->status != 204,
        next.1 is Done ==> next.0 is Over,
        next.1 is Sleep ==> next.0 is Resting,
        next.1 is Nothing ==> next.0 == wait,
        next.1 is Sleep <==> (wait is Resting && told == (RelayTold::Woke { picked: false })) || (
        wait is Looking && told is Fetched && (told->fetched is Unreachable || told->fetched->status
            == 204)),
{
}

/// A touch's slot is of its own 32 bytes: no others lead to the same address.
pub proof fn a_slot_is_of_its_own_bytes(
    page: &str,
    id: &[u8; 32],
    other: &[u8; 32],
    url: Result<String, String>,
    elsewhere: Result<String, String>,
)
    requires
        call_ensures(relay_at, (page, id), url),
        call_ensures(relay_at, (page, other), elsewhere),
    ensures
        url is Ok && elsewhere is Ok && url->Ok_0@ == elsewhere->Ok_0@ ==> id@ == other@,
        url is Ok ==> url->Ok_0@.skip(url->Ok_0@.len() - 43) == crate::outside::base64(id@),
{
    reveal_strlit("/r/");
    if url is Ok && elsewhere is Ok && url->Ok_0@ == elsewhere->Ok_0@ {
        crate::backend::join::an_address_is_of_one_slot(url->Ok_0@, id@, other@);
    }
    if let Ok(url) = url {
        crate::backend::join::an_address_is_of_one_slot(url@, id@, id@);
        let tail = relay_path(id@).skip(1);
        assert(tail.skip(2) =~= crate::outside::base64(id@));
        assert(url@.skip(url@.len() - 43) =~= tail.skip(2)) by {
            let end = url@.skip(url@.len() - tail.len());
            assert(end == tail);
            assert(url@.skip(url@.len() - 43) =~= end.skip(2));
        }
    }
}

/// What is the matter with the page's answer is told in order: that it is
/// unreadable, the failure it reports, that it names no step, and then the
/// first field it lacks; a key no verifier takes is told apart.
pub proof fn what_an_answer_lacks_is_named(
    json: &str,
    wellformed: bool,
    outcome: Result<Outcome, String>,
)
    requires
        call_ensures(parse_result, (json, wellformed), outcome),
    ensures
        ({
            let reads = crate::outside::is_json(json@);
            let error = crate::outside::json_text(json@, "error"@);
            let op = crate::outside::json_text(json@, "op"@);
            let fine = reads && error is None;
            &&& !reads ==> outcome is Err && outcome->Err_0@
                == "The browser sent back something unreadable. Try again."@
            &&& reads && error is Some ==> outcome is Err && outcome->Err_0@ == ceremony_words(
                error->0,
            )
            &&& fine && op != Some("create"@) && op != Some("get"@) ==> outcome is Err
                && outcome->Err_0@ == "The browser's answer names no step. Try again."@
            &&& fine && op == Some("create"@) && !has_binary(json@, "publicKey"@) ==> outcome is Err
                && outcome->Err_0@ == "The browser's answer is missing "@ + "publicKey"@
                + ". Try again."@
            &&& fine && op == Some("create"@) && has_binary(json@, "publicKey"@) && !wellformed
                ==> outcome is Err && outcome->Err_0@
                == "The browser returned a key Ducktape can't use."@
        }),
{
    reveal_strlit("create");
    reveal_strlit("get");
}

/// The same of an assertion's fields, each in its turn; the handle may be
/// missing.
pub proof fn what_an_assertion_lacks_is_named(
    json: &str,
    wellformed: bool,
    outcome: Result<Outcome, String>,
)
    requires
        call_ensures(parse_result, (json, wellformed), outcome),
    ensures
        crate::outside::is_json(json@) && crate::outside::json_text(json@, "error"@) is None
            && crate::outside::json_text(json@, "op"@) == Some("get"@) ==> {
            let data = has_binary(json@, "authenticatorData"@);
            let client = has_binary(json@, "clientDataJSON"@);
            let signed = has_binary(json@, "signature"@);
            &&& outcome is Ok <==> data && client && signed
            &&& !data ==> outcome->Err_0@ == "The browser's answer is missing "@
                + "authenticatorData"@ + ". Try again."@
            &&& data && !client ==> outcome->Err_0@ == "The browser's answer is missing "@
                + "clientDataJSON"@ + ". Try again."@
            &&& data && client && !signed ==> outcome->Err_0@ == "The browser's answer is missing "@
                + "signature"@ + ". Try again."@
            &&& outcome is Ok ==> outcome->Ok_0 is Asserted
        },
{
    reveal_strlit("create");
    reveal_strlit("get");
    assert("create"@.len() != "get"@.len());
}

/// What the person reads of a look that brought no answer.
pub proof fn a_look_that_fails_says_how(fetched: Fetched, wellformed: bool, next: Polled)
    requires
        call_ensures(polled, (fetched, wellformed), next),
    ensures
        fetched is Unreachable ==> next is Again,
        fetched matches Fetched::Answered { status, text } ==> {
            &&& next is Again <==> status == 204
            &&& status == 200 && text is None ==> (next matches Polled::Answer(Err(said)) && said@
                == "Lost the phone's answer on the way. Try again."@)
            &&& status == 200 && text is Some ==> (next matches Polled::Answer(outcome)
                && result_in(text->0@, wellformed, outcome))
            &&& status != 200 && status != 204 ==> (next matches Polled::Answer(Err(said)) && said@
                == "The auth host refused to relay the phone's answer ("@ + (crate::text::decimal(
                status as nat,
            ) + " "@ + crate::outside::status_reason(status)) + "). Try again."@)
        },
{
}

/// A page whose address cannot be used is told of in words that begin so.
pub proof fn an_unusable_page_is_told_of(page: &str, id: &[u8; 32], url: Result<String, String>)
    requires
        call_ensures(relay_at, (page, id), url),
    ensures
        url matches Err(said) ==> said@.len() >= "The auth page address is unusable: "@.len()
            && said@.take("The auth page address is unusable: "@.len() as int)
            == "The auth page address is unusable: "@,
{
    if let Err(said) = url {
        assert(said@.take("The auth page address is unusable: "@.len() as int)
            =~= "The auth page address is unusable: "@);
    }
}

/// A key a request or a look brings is judged exactly where the answer it comes
/// with makes one: there is no error, the step is a key's, and a key is there.
pub proof fn a_key_is_judged_where_one_is_made(
    json: &str,
    key: Option<Vec<u8>>,
    fetched: Fetched,
    found: Option<Vec<u8>>,
)
    requires
        call_ensures(key_in, (json,), key),
        call_ensures(key_fetched, (&fetched,), found),
    ensures
        key is Some <==> crate::outside::is_json(json@) && crate::outside::json_text(
            json@,
            "error"@,
        ) is None && crate::outside::json_text(json@, "op"@) == Some("create"@) && has_binary(
            json@,
            "publicKey"@,
        ),
        key is Some ==> crate::outside::json_text(json@, "publicKey"@) == Some(
            crate::outside::base64(key->0@),
        ),
        found is Some ==> fetched is Answered && fetched->status == 200 && fetched->text is Some,
        fetched matches Fetched::Answered { status: 200, text: Some(text) } ==> (found is Some
            <==> makes_key(text@)),
        found is Some ==> crate::outside::json_text(fetched->text->0@, "publicKey"@) == Some(
            crate::outside::base64(found->0@),
        ),
{
}

/// A slot's address is the page's with the slot's path for its own, without a
/// query or a fragment; and there is none exactly where the page's address has
/// no such.
pub proof fn a_slot_is_on_the_pages_host(
    page: &str,
    id: &[u8; 32],
    url: Result<String, String>,
    bared: String,
    address: &str,
)
    requires
        call_ensures(relay_at, (page, id), url),
        call_ensures(crate::backend::address::bare_address, (address,), bared),
    ensures
        ({
            let path = "/r/"@ + crate::outside::base64(id@);
            let whole = crate::outside::address_with_path(page@, path);
            &&& url is Ok <==> whole is Ok
            &&& whole is Ok && whole->Ok_0 == address@ ==> url->Ok_0@ == bared@
            &&& whole is Err ==> url->Err_0@ == "The auth page address is unusable: "@ + whole->Err_0
        }),
{
}

} // verus!
