//! Handles, requests to the auth page, its answers and the relay.

use base64::engine::general_purpose::URL_SAFE_NO_PAD as B64;
use base64::Engine;
use commonware_codec::DecodeExt;
use commonware_codec::Encode;
use commonware_cryptography::ed25519;
use commonware_cryptography::Signer;
use commonware_cryptography::Verifier;
use sha2::Digest;

use ducktape::backend::address::bare_address;
use ducktape::backend::flow::recovery::JoinWithRecoveryKey;
use ducktape::backend::flow::Ask;
use ducktape::backend::flow::Told;
use ducktape::backend::form::url_encode;
use ducktape::backend::identity::consenting_key;
use ducktape::backend::identity::Account;
use ducktape::backend::identity::Control;
use ducktape::backend::identity::HeldKey;
use ducktape::backend::identity::Op;
use ducktape::backend::identity::Reply;
use ducktape::backend::join::Fetched;
use ducktape::backend::noded::Frame;
use ducktape::backend::noded::KeyScheme;
use ducktape::backend::noded::receipt::Outcome as Ran;
use ducktape::backend::noded::Refusal;
use ducktape::backend::passkey::account_of_handle;
use ducktape::backend::passkey::asserted;
use ducktape::backend::passkey::ceremony_error;
use ducktape::backend::passkey::chain_hash;
use ducktape::backend::passkey::created;
use ducktape::backend::passkey::expires_at;
use ducktape::backend::passkey::first_answer;
use ducktape::backend::passkey::key_fetched;
use ducktape::backend::passkey::key_in;
use ducktape::backend::passkey::node_error;
use ducktape::backend::passkey::parse_result;
use ducktape::backend::passkey::passkey_body;
use ducktape::backend::passkey::passkey_frame;
use ducktape::backend::passkey::polled;
use ducktape::backend::passkey::rejected;
use ducktape::backend::passkey::relay;
use ducktape::backend::passkey::relay_at;
use ducktape::backend::passkey::request_url;
use ducktape::backend::passkey::submitted;
use ducktape::backend::passkey::request_url_with;
use ducktape::backend::passkey::user_handle;
use ducktape::backend::passkey::Assertion;
use ducktape::backend::passkey::Outcome;
use ducktape::backend::passkey::Polled;
use ducktape::backend::passkey::RelayAsk;
use ducktape::backend::passkey::RelayTold;
use ducktape::backend::passkey::RelayWait;
use ducktape::backend::passkey::Request;
use ducktape::backend::passkey::AUTH_PAGE;

fn assertion() -> Assertion {
    Assertion {
        authenticator_data: vec![1],
        client_data_json: vec![2],
        signature: vec![3],
        user_handle: None,
    }
}

/// Whether a key is of a compressed point's shape: a verifier takes no other.
fn shaped(key: &[u8]) -> bool {
    key.len() == 33 && (key[0] == 2 || key[0] == 3)
}

/// What `json` answers, with the key it brings judged by its shape.
fn parsed(json: &str) -> Result<Outcome, String> {
    parse_result(json, key_in(json).map_or(true, |key| shaped(&key)))
}

#[test]
fn a_passkey_signed_frame_verifies_as_the_node_verifies_it() {
    let body = || passkey_body(&[2; 33], "testkit", 0, "identity", vec![1, 2, 3]);
    let frame = passkey_frame(body(), vec![9; 64], true).expect("its own signer");
    let decoded = Frame::decode(&frame.encode()).unwrap();
    assert_eq!(decoded.body.scheme, KeyScheme::Secp256r1);
    assert_eq!(decoded.body.signer, vec![2; 33]);
    assert_eq!(decoded.body.network, b"testkit");
    assert_eq!(decoded.body.target, "identity");
    assert_eq!(decoded.body.preimage(), body().preimage());
    assert_eq!(decoded.proof, vec![9; 64]);

    // another passkey answering is caught before the node sees it
    assert!(passkey_frame(decoded.body, vec![9; 64], false).is_none());
}

#[test]
fn a_passkey_consent_verifies_and_names_the_key_that_gave_it() {
    let handle = user_handle("testkit", 12);
    assert_eq!(account_of_handle("testkit", Some(&handle)), Ok(12));
    let held = |scheme, byte| HeldKey { scheme, key: vec![byte; 33] };
    let account = Account {
        number: 12,
        name: "ada".to_owned(),
        control: Control::Person,
        keys: vec![
            held(KeyScheme::Ed25519, 5),
            held(KeyScheme::Secp256r1, 6),
            held(KeyScheme::Secp256r1, 7),
        ],
    };
    assert_eq!(
        consenting_key(&account, &vec![false, false, true]),
        Some(vec![7; 33])
    );
    assert_eq!(
        consenting_key(&account, &vec![false, true, true]),
        Some(vec![6; 33]),
        "the first that verifies"
    );
    assert_eq!(
        consenting_key(&account, &vec![true, false, false]),
        None,
        "only passkeys consent here"
    );
    assert_eq!(consenting_key(&account, &vec![false, false, false]), None);
}

#[test]
fn a_device_consent_admits_a_passkey() {
    let device = ed25519::PrivateKey::from_seed(1);
    let secret: [u8; 32] = device.encode().as_ref().try_into().unwrap();
    let person = Account {
        number: 12,
        name: "ada".to_owned(),
        control: Control::Person,
        keys: vec![],
    };
    let heard = vec![
        Told::Reply(Ok(Reply::Number(Some(12)))),
        Told::Reply(Ok(Reply::Account(Some(person)))),
        Told::Key(Ok(vec![5])),
        Told::Reply(Ok(Reply::Generation(0))),
    ];
    let flow = heard
        .into_iter()
        .fold(JoinWithRecoveryKey::begin("testkit", &secret).0, |flow, told| {
            flow.step(told, 0, &secret).0
        });
    let namespace = b"a consent's namespace".to_vec();
    let preimage = b"admission".to_vec();
    let told = Told::Preimage { namespace: namespace.clone(), preimage: preimage.clone() };
    let Ask::SubmitSeated(Op::AddKey { consent, .. }) = flow.step(told, 0, &secret).1 else {
        panic!("a write");
    };
    assert_eq!(consent.key, device.public_key().as_ref());
    let key = ed25519::PublicKey::decode(commonware_codec::Copying(&consent.key[..])).unwrap();
    let proof = ed25519::Signature::decode(commonware_codec::Copying(&consent.proof[..])).unwrap();
    assert!(key.verify(&namespace, &preimage, &proof));
    assert!(!key.verify(b"ducktape:frame", &preimage, &proof));
    assert!(!key.verify(&namespace, b"another", &proof));
}

#[test]
fn a_frame_a_device_signs_verifies() {
    let device = ed25519::PrivateKey::from_seed(1);
    let secret: [u8; 32] = device.encode().as_ref().try_into().unwrap();
    let frame = Frame::sign(&secret, b"testkit", 0, "identity", b"admission".to_vec());
    let key = ed25519::PublicKey::decode(commonware_codec::Copying(&frame.body.signer[..])).unwrap();
    let proof = ed25519::Signature::decode(commonware_codec::Copying(&frame.proof[..])).unwrap();
    assert!(key.verify(b"ducktape:frame", &frame.body.preimage(), &proof));
    assert!(!key.verify(b"ducktape:other", &frame.body.preimage(), &proof));
}

#[test]
fn a_user_handle_names_its_network_and_account() {
    let handle = user_handle("testkit", 258);
    assert_eq!(account_of_handle("testkit", Some(&handle)), Ok(258));
    assert!(account_of_handle("other", Some(&handle)).is_err());
    assert!(account_of_handle("testkit", None).is_err());
    assert!(account_of_handle("testkit", Some(&[1; 39])).is_err());
}

#[test]
fn a_handle_is_a_networks_hash_and_a_number() {
    let mut hash = sha2::Sha256::new();
    hash.update(b"ducktape:passkey-account:v1\0testkit");
    let expected: [u8; 32] = hash.finalize().into();
    assert_eq!(chain_hash("testkit"), expected);
    let handle = user_handle("testkit", 258);
    assert_eq!(handle[..32], expected);
    assert_eq!(handle[32..], [2, 1, 0, 0, 0, 0, 0, 0]);
    assert_eq!(
        account_of_handle("other", Some(&handle)).unwrap_err(),
        "That passkey belongs to another network. Choose one for other."
    );
    assert_eq!(
        account_of_handle("testkit", Some(&[1; 41])).unwrap_err(),
        "That passkey wasn't made by Ducktape. Choose a Ducktape passkey."
    );
}

#[test]
fn the_request_rides_the_fragment() {
    let url = request_url(
        AUTH_PAGE,
        &Request::Get { challenge: [0xff; 32] },
        "http://127.0.0.1:1/cb/x",
    );
    assert_eq!(
        url,
        format!(
            "{AUTH_PAGE}#op=get&challenge={}&cb=http%3A%2F%2F127.0.0.1%3A1%2Fcb%2Fx",
            B64.encode([0xff; 32])
        )
    );
    let create = request_url(
        AUTH_PAGE,
        &Request::Create { user: [1; 40], name: "ada · testkit".into() },
        "cb",
    );
    assert!(create.contains("&name=ada%20%C2%B7%20testkit&cb=cb"));
    assert!(create.contains(&format!("&user={}&", B64.encode([1; 40]))));
}

#[test]
fn a_new_passkeys_challenge_is_fresh_and_rides_along() {
    let request = Request::Create { user: [1; 40], name: "ada".into() };
    assert_ne!(
        request_url(AUTH_PAGE, &request, "cb"),
        request_url(AUTH_PAGE, &request, "cb")
    );
    assert_eq!(
        request_url_with("p", &request, &[7; 32], "c b"),
        format!(
            "p#op=create&challenge={}&user={}&name=ada&cb=c%20b",
            B64.encode([7; 32]),
            B64.encode([1; 40])
        )
    );
}

#[test]
fn a_page_error_reads_as_a_sentence() {
    let error = parsed(r#"{"op":"get","error":"NotAllowedError","message":"x"}"#);
    assert_eq!(error.unwrap_err(), ceremony_error("NotAllowedError"));
    let short_key = format!(r#"{{"op":"create","publicKey":"{}"}}"#, B64.encode([2; 32]));
    assert_eq!(key_in(&short_key), Some(vec![2; 32]));
    assert!(parsed(&short_key).is_err());
    let whole_key = format!(r#"{{"op":"create","publicKey":"{}"}}"#, B64.encode([2; 33]));
    assert!(matches!(parsed(&whole_key), Ok(Outcome::Created(key)) if key == vec![2; 33]));
}

#[test]
fn each_exception_has_its_sentence() {
    assert_eq!(
        ceremony_error("AbortError"),
        "The passkey step was cancelled or timed out. Try again."
    );
    assert_eq!(
        ceremony_error("InvalidStateError"),
        "That authenticator already holds a passkey for this account."
    );
    assert_eq!(
        ceremony_error("SecurityError"),
        "The browser refused a passkey on this page."
    );
    assert_eq!(
        ceremony_error("NotSupportedError"),
        "This browser or authenticator doesn't support passkeys."
    );
    assert_eq!(ceremony_error("Odd"), "The passkey step failed (Odd). Try again.");
}

#[test]
fn an_answer_is_read_field_by_field() {
    let said = |json: &str| parsed(json).unwrap_err();
    assert_eq!(said("?"), "The browser sent back something unreadable. Try again.");
    assert_eq!(said("{}"), "The browser's answer names no step. Try again.");
    assert_eq!(said(r#"{"op":"put"}"#), "The browser's answer names no step. Try again.");
    assert_eq!(
        said(r#"{"op":"create","publicKey":"a"}"#),
        "The browser's answer is missing publicKey. Try again."
    );
    assert_eq!(
        said(r#"{"op":"create","publicKey":"AA=="}"#),
        "The browser's answer is missing publicKey. Try again."
    );
    assert_eq!(
        said(r#"{"op":"get"}"#),
        "The browser's answer is missing authenticatorData. Try again."
    );
    assert_eq!(
        said(r#"{"op":"get","authenticatorData":"AA"}"#),
        "The browser's answer is missing clientDataJSON. Try again."
    );
    assert_eq!(
        said(r#"{"op":"get","authenticatorData":"AA","clientDataJSON":"AQ"}"#),
        "The browser's answer is missing signature. Try again."
    );
    let whole = r#"{"op":"get","authenticatorData":"AA","clientDataJSON":"AQ","signature":"_-8"}"#;
    let Ok(Outcome::Asserted(made)) = parsed(whole) else {
        panic!("an assertion");
    };
    assert_eq!(made.authenticator_data, vec![0]);
    assert_eq!(made.client_data_json, vec![1]);
    assert_eq!(made.signature, vec![0xff, 0xef]);
    assert_eq!(made.user_handle, None);
    let handled = whole.replace('}', r#","userHandle":"AgM"}"#);
    let Ok(Outcome::Asserted(made)) = parsed(&handled) else {
        panic!("an assertion");
    };
    assert_eq!(made.user_handle, Some(vec![2, 3]));
}

#[test]
fn a_key_no_verifier_takes_is_refused() {
    let made = format!(r#"{{"op":"create","publicKey":"{}"}}"#, B64.encode([9]));
    assert_eq!(key_in(&made), Some(vec![9]));
    assert_eq!(
        parse_result(&made, false).unwrap_err(),
        "The browser returned a key Ducktape can't use."
    );
    assert!(matches!(parse_result(&made, true), Ok(Outcome::Created(key)) if key == vec![9]));
    let asserted = r#"{"op":"get","authenticatorData":"AA","clientDataJSON":"AQ","signature":"Ag"}"#;
    assert!(matches!(parse_result(asserted, false), Ok(Outcome::Asserted(_))));
    for keyless in [asserted, "?", "{}", r#"{"op":"create"}"#, r#"{"op":"create","error":"x","publicKey":"AA"}"#] {
        assert_eq!(key_in(keyless), None);
    }
    let answered = |status| Fetched::Answered { status, text: Some(made.clone()) };
    assert_eq!(key_fetched(&answered(200)), Some(vec![9]));
    assert_eq!(key_fetched(&answered(404)), None);
    assert_eq!(key_fetched(&Fetched::Unreachable), None);
}

#[test]
fn a_step_takes_only_its_own_answer() {
    let another = "The browser answered a different step. Try again.";
    assert_eq!(created(Ok(Outcome::Created(vec![4]))), Ok(vec![4]));
    assert_eq!(created(Ok(Outcome::Asserted(assertion()))).unwrap_err(), another);
    assert_eq!(created(Err("x".to_owned())).unwrap_err(), "x");
    assert_eq!(
        asserted(Ok(Outcome::Asserted(assertion()))).unwrap().signature,
        vec![3]
    );
    assert_eq!(asserted(Ok(Outcome::Created(vec![4]))).unwrap_err(), another);
    assert_eq!(asserted(Err("x".to_owned())).unwrap_err(), "x");
}

#[test]
fn an_identity_refusal_reads_by_its_token() {
    let taken = Refusal { reason: "already_exists".into(), sentence: "reworded upstream".into() };
    assert!(rejected(&taken, "already_exists", "reworded upstream".into())
        .starts_with("This device's key already belongs"));
    let expired =
        Refusal { reason: "unauthorized".into(), sentence: "the consent has expired".into() };
    assert!(rejected(&expired, "already_exists", "the consent has expired".into())
        .contains("consent expired"));
}

#[test]
fn another_refusal_reads_as_it_is_worded() {
    let refusal = || Refusal { reason: "r".into(), sentence: "exp ired".into() };
    assert_eq!(rejected(&refusal(), "already_exists", "Worded.".into()), "Worded.");
    assert_eq!(
        node_error("it expired.", "Worded.".into()),
        "That took too long and the consent expired. Try again."
    );
    assert_eq!(node_error("expire", "Worded.".into()), "Worded.");
    let applied = Ran::Applied { output: vec![4] };
    assert_eq!(submitted(applied, "already_exists", String::new()), Ok(vec![4]));
    assert_eq!(
        submitted(Ran::Rejected(refusal()), "r", "Worded.".into()).unwrap_err(),
        "This device's key already belongs to an account. Unlock it instead."
    );
    assert_eq!(
        submitted(Ran::Rejected(refusal()), "already_exists", "Worded.".into()).unwrap_err(),
        "Worded."
    );
}

#[test]
fn a_consent_stays_good_a_quarter_of_an_hour() {
    assert_eq!(expires_at(1_000), 901_000);
}

#[test]
fn a_relay_slot_is_minted_on_the_pages_origin() {
    let url = relay("https://auth.example/.duck/auth?x#y").unwrap();
    let id = url.strip_prefix("https://auth.example/r/").unwrap();
    assert_eq!(B64.decode(id).unwrap().len(), 32);
    assert_ne!(relay("https://a/").unwrap(), relay("https://a/").unwrap());
    assert!(relay("not a url").is_err());
    // the QR carries the slot as the page's callback
    let asked = request_url("https://auth.example/", &Request::Get { challenge: [0; 32] }, &url);
    assert!(asked.ends_with(&format!("&cb=https%3A%2F%2Fauth.example%2Fr%2F{id}")));
}

#[test]
fn a_slot_is_its_id_on_the_pages_host() {
    assert_eq!(
        relay_at("https://a/x/y?z", &[0xfb; 32]).unwrap(),
        format!("https://a/r/{}", B64.encode([0xfb; 32]))
    );
    assert_eq!(
        relay_at("/x", &[0; 32]).unwrap_err(),
        "The auth page address is unusable: relative URL without a base"
    );
    let path = format!("r/{}", B64.encode([0xfb; 32]));
    for (page, start) in [
        ("http://u:p@H:8080/a?b=/?c#d?e", "http://u:p@h:8080/"),
        ("https://a#x?y", "https://a/"),
        ("file://host/etc?x", "file://host/"),
        ("mailto:x@y?subject=z", "mailto:%2F"),
        ("web+demo:/.//x#y", "web+demo:/./"),
    ] {
        assert_eq!(relay_at(page, &[0xfb; 32]).unwrap(), format!("{start}{path}"));
    }
}

#[test]
fn a_bare_address_has_no_query_and_no_fragment() {
    assert_eq!(bare_address("https://a/b?c#d"), "https://a/b");
    assert_eq!(bare_address("https://a/b#d?c"), "https://a/b");
    assert_eq!(bare_address("https://a/b"), "https://a/b");
    assert_eq!(bare_address("?"), "");
}

/// Runs a wait over `answers`, one for each look, with the phone picked from
/// the `picked`th time it wakes on; how often it looked, and its answer, if it
/// came to one within `rounds`.
fn wait(
    answers: Vec<Fetched>,
    picked: usize,
    rounds: usize,
) -> (usize, Option<Result<Outcome, String>>) {
    let mut answers = answers.into_iter();
    let mut looks = 0;
    let mut waiting = RelayWait::begin();
    for round in 0..rounds {
        let (next, ask) = waiting.step(RelayTold::Woke { picked: round >= picked });
        waiting = next;
        if !matches!(ask, RelayAsk::Look) {
            assert!(matches!(ask, RelayAsk::Sleep));
            continue;
        }
        looks += 1;
        let empty = Fetched::Answered { status: 204, text: Some(String::new()) };
        let fetched = answers.next().unwrap_or(empty);
        let wellformed = key_fetched(&fetched).map_or(true, |key| shaped(&key));
        let (next, ask) = waiting.step(RelayTold::Fetched { fetched, wellformed });
        waiting = next;
        match ask {
            RelayAsk::Done(outcome) => {
                assert_eq!(waiting, RelayWait::Over);
                return (looks, Some(outcome));
            }
            ask => assert!(matches!(ask, RelayAsk::Sleep)),
        }
    }
    (looks, None)
}

fn empty() -> Fetched {
    Fetched::Answered { status: 204, text: Some(String::new()) }
}

#[test]
fn the_relay_polls_through_204s_to_the_phones_answer() {
    let created = format!(r#"{{"op":"create","publicKey":"{}"}}"#, B64.encode([2; 33]));
    let answer = || Fetched::Answered { status: 200, text: Some(created.clone()) };
    let (looks, outcome) = wait(vec![empty(), empty(), answer()], 0, 10);
    assert_eq!(looks, 3);
    assert!(matches!(outcome, Some(Ok(Outcome::Created(key))) if key == vec![2; 33]));
    // a host out of reach is asked again
    let (looks, outcome) = wait(vec![Fetched::Unreachable, answer(), empty()], 0, 10);
    assert_eq!(looks, 2);
    assert!(matches!(outcome, Some(Ok(Outcome::Created(_)))));
    assert!(matches!(polled(empty(), true), Polled::Again));
    assert!(matches!(polled(Fetched::Unreachable, true), Polled::Again));
}

#[test]
fn the_relay_is_not_polled_until_the_phone_is_picked_and_then_times_out() {
    // never picked: the slot is never asked
    let (looks, outcome) = wait(vec![], usize::MAX, 100);
    assert_eq!(looks, 0);
    assert_eq!(
        first_answer(outcome).unwrap_err(),
        "Nothing came back from the passkey. Try again."
    );
    // picked: the slot is asked
    let (looks, outcome) = wait(vec![], 3, 10);
    assert_eq!(looks, 7);
    assert!(outcome.is_none());
    assert!(first_answer(Some(Ok(Outcome::Created(vec![2])))).is_ok());
}

#[test]
fn a_wait_takes_only_what_it_asked_for() {
    let (still, ask) = RelayWait::begin().step(RelayTold::Fetched { fetched: empty(), wellformed: true });
    assert_eq!(still, RelayWait::Resting);
    assert!(matches!(ask, RelayAsk::Nothing));
    let (over, ask) = RelayWait::Over.step(RelayTold::Woke { picked: true });
    assert_eq!(over, RelayWait::Over);
    assert!(matches!(ask, RelayAsk::Nothing));
}

#[test]
fn a_relay_refusal_reads_as_a_sentence() {
    let Polled::Answer(outcome) = polled(Fetched::Answered { status: 404, text: None }, true) else {
        panic!("an answer");
    };
    assert_eq!(
        outcome.unwrap_err(),
        "The auth host refused to relay the phone's answer (404 Not Found). Try again."
    );
    let Polled::Answer(lost) = polled(Fetched::Answered { status: 200, text: None }, true) else {
        panic!("an answer");
    };
    assert_eq!(lost.unwrap_err(), "Lost the phone's answer on the way. Try again.");
}

#[test]
fn a_relayed_answer_that_fails_verification_is_refused() {
    let bad_key = format!(r#"{{"op":"create","publicKey":"{}"}}"#, B64.encode([2; 32]));
    let answers = vec![Fetched::Answered { status: 200, text: Some(bad_key) }];
    let outcome = wait(answers, 0, 1).1.expect("an answer");
    assert_eq!(
        outcome.unwrap_err(),
        "The browser returned a key Ducktape can't use."
    );
    let stranger = format!(
        r#"{{"op":"get","authenticatorData":"{}","clientDataJSON":"{}","signature":"{}"}}"#,
        B64.encode([1; 37]),
        B64.encode(b"{}"),
        B64.encode([3; 64])
    );
    let answers = vec![Fetched::Answered { status: 200, text: Some(stranger) }];
    let Some(Ok(Outcome::Asserted(assertion))) = wait(answers, 0, 1).1 else {
        panic!("an assertion");
    };
    assert_eq!(assertion.signature, vec![3; 64]);
    let body = passkey_body(&[2; 33], "testkit", 0, "identity", vec![1]);
    assert!(passkey_frame(body, assertion.signature, false).is_none());
}

#[test]
fn encoded_text_keeps_only_plain_characters() {
    assert_eq!(url_encode("aZ09-_.~"), "aZ09-_.~");
    assert_eq!(url_encode("a b&=+%/·"), "a%20b%26%3D%2B%25%2F%C2%B7");
    assert_eq!(url_encode(""), "");
}
