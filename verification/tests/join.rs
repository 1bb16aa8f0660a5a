//! Codes, slots and the messages two devices leave for each other.

use base64::engine::general_purpose::URL_SAFE_NO_PAD;
use base64::Engine;
use sha2::Digest;

use ducktape::backend::flow::recovery::key_of_phrase;
use ducktape::backend::flow::recovery::JoinWithRecoveryKey;
use ducktape::backend::hex::hex_decode;
use ducktape::backend::hex::hex_encode;
use ducktape::backend::join::code_of_bits;
use ducktape::backend::join::consent_message;
use ducktape::backend::join::fingerprint;
use ducktape::backend::join::new_code;
use ducktape::backend::join::normalized;
use ducktape::backend::join::parse_consent;
use ducktape::backend::join::parse_request;
use ducktape::backend::join::post;
use ducktape::backend::join::request_message;
use ducktape::backend::join::slot;
use ducktape::backend::join::take;
use ducktape::backend::join::Consent;
use ducktape::backend::join::Fetched;

fn answered(status: u16, text: &str) -> Fetched {
    Fetched::Answered { status, text: Some(text.to_owned()) }
}

#[test]
fn a_code_reads_back_however_it_is_typed() {
    for _ in 0..50 {
        let code = new_code();
        assert_eq!(code.len(), 9);
        let folded = normalized(&code).expect("its own code parses");
        assert_eq!(
            normalized(&code.to_lowercase().replace('-', " ")),
            Some(folded)
        );
    }
    assert_eq!(
        normalized("kq4m-9xpo"),
        Some("KQ4M9XP0".into()),
        "O reads as 0"
    );
    assert_eq!(normalized("KQ4M-9XP"), None);
    assert_eq!(normalized("KQ4M-9XPU"), None, "U is not in the alphabet");
}

#[test]
fn the_two_sides_of_a_code_are_different_slots() {
    let page = "https://auth.ducktape.industries/";
    let request = slot(page, "KQ4M9XPT", "request").unwrap();
    let consent = slot(page, "KQ4M9XPT", "consent").unwrap();
    assert_ne!(request, consent);
    // the relay takes 43-character ids only
    let id = request.rsplit('/').next().unwrap();
    assert_eq!(id.len(), 43);
    assert!(request.starts_with("https://auth.ducktape.industries/r/"));
}

#[test]
fn a_consent_survives_the_trip() {
    let mut object = serde_json::Map::new();
    object.insert("v".to_owned(), serde_json::Value::from(1));
    object.insert("account".to_owned(), serde_json::Value::from(17));
    object.insert("key".to_owned(), serde_json::Value::from(hex_encode(&[1, 2])));
    object.insert("expires_at".to_owned(), serde_json::Value::from(99));
    object.insert("proof".to_owned(), serde_json::Value::from(hex_encode(&[3])));
    let json = serde_json::Value::Object(object).to_string();
    let consent = parse_consent(&json).unwrap();
    assert_eq!((consent.account, consent.expires_at), (17, 99));
    assert_eq!((consent.key, consent.proof), (vec![1, 2], vec![3]));
    assert!(parse_consent("{}").is_err());
}

#[test]
fn a_recovery_phrase_makes_one_key_and_fingerprints_are_short() {
    let seed: Vec<u8> = (1..33).collect();
    let a = key_of_phrase(Some(&seed)).unwrap();
    let b = key_of_phrase(Some(&seed)).unwrap();
    let public = |secret| JoinWithRecoveryKey::begin("testkit", secret).0.public;
    assert_eq!(public(&a), public(&b));
    assert!(key_of_phrase(None).is_err());
    assert_eq!(fingerprint(&public(&a)).len(), 9);
}

#[test]
fn a_fingerprint_is_the_front_of_a_hash() {
    // SHA-256 of nothing begins e3b0c442
    assert_eq!(fingerprint(&[]), "E3B0 C442");
}

#[test]
fn a_code_is_its_bits_five_at_a_time() {
    assert_eq!(code_of_bits(0), "0000-0000");
    assert_eq!(code_of_bits(0xff_ffff_ffff), "ZZZZ-ZZZZ");
    assert_eq!(code_of_bits(1), "0000-0001");
    assert_eq!(code_of_bits(31 << 35 | 10), "Z000-000A");
}

#[test]
fn a_code_drops_spaces_and_reads_confused_letters_as_digits() {
    assert_eq!(normalized(" k q4m\u{2003}9x\tpt\n"), Some("KQ4M9XPT".to_owned()));
    assert_eq!(normalized("oilO-ILil"), Some("01101111".to_owned()));
    assert_eq!(normalized(""), None);
    assert_eq!(normalized("KQ4M-9XPT0"), None);
    assert_eq!(normalized("KQ4M-9XP\u{e9}"), None);
    assert_eq!(normalized("KQ4M-9X\u{e9}"), None);
}

#[test]
fn a_slot_is_named_by_the_hash_of_its_side_and_code() {
    let mut hash = sha2::Sha256::new();
    hash.update(b"ducktape:link:v1\0request\0KQ4M9XPT");
    let expected = format!("https://auth.example/r/{}", URL_SAFE_NO_PAD.encode(hash.finalize()));
    let url = slot("https://auth.example/.duck/auth?x#y", "KQ4M9XPT", "request").unwrap();
    assert_eq!(url, expected);
    let error = slot("not a url", "KQ4M9XPT", "request").unwrap_err();
    assert_eq!(error, "The auth host address is unusable: relative URL without a base");
}

#[test]
fn a_posted_message_is_taken_or_refused() {
    assert_eq!(post(&answered(200, "")), Ok(()));
    assert_eq!(post(&answered(299, "")), Ok(()));
    assert_eq!(
        post(&answered(300, "")),
        Err("The auth host refused the message (300 Multiple Choices).".to_owned())
    );
    assert_eq!(
        post(&answered(413, "")),
        Err("The auth host refused the message (413 Payload Too Large).".to_owned())
    );
    assert_eq!(
        post(&Fetched::Unreachable),
        Err("Can't reach the auth host. Check the connection and try again.".to_owned())
    );
}

#[test]
fn a_look_at_a_slot_finds_a_message_nothing_or_a_refusal() {
    assert_eq!(take(answered(200, "{}")), Ok(Some("{}".to_owned())));
    assert_eq!(take(answered(204, "")), Ok(None));
    assert_eq!(
        take(answered(404, "")),
        Err("The auth host refused (404 Not Found).".to_owned())
    );
    assert_eq!(
        take(answered(599, "")),
        Err("The auth host refused (599 <unknown status code>).".to_owned())
    );
    assert_eq!(
        take(Fetched::Answered { status: 200, text: None }),
        Err("Lost the message on the way.".to_owned())
    );
    assert_eq!(take(Fetched::Unreachable), Err("Can't reach the auth host.".to_owned()));
}

#[test]
fn a_consent_handed_over_reads_back() {
    let consent = Consent {
        key: vec![0, 255],
        account: u64::MAX,
        expires_at: 5,
        proof: vec![9; 64],
    };
    let read = parse_consent(&consent_message(&consent)).unwrap();
    assert_eq!(read.key, consent.key);
    assert_eq!(read.account, consent.account);
    assert_eq!(read.expires_at, consent.expires_at);
    assert_eq!(read.proof, consent.proof);
}

#[test]
fn an_answer_says_what_it_lacks() {
    let said = |json: &str| parse_consent(json).unwrap_err();
    assert_eq!(said("nope"), "The other device's answer is unreadable.");
    assert_eq!(said("[]"), "The other device's answer has no key.");
    assert_eq!(said(r#"{"key":"0"}"#), "The other device's answer has no key.");
    assert_eq!(said(r#"{"key":"0g"}"#), "The other device's answer has no key.");
    assert_eq!(said(r#"{"key":"00"}"#), "The other device's answer names no account.");
    assert_eq!(
        said(r#"{"key":"00","account":-1}"#),
        "The other device's answer names no account."
    );
    assert_eq!(
        said(r#"{"key":"00","account":1}"#),
        "The other device's answer has no deadline."
    );
    assert_eq!(
        said(r#"{"key":"00","account":1,"expires_at":2}"#),
        "The other device's answer has no proof."
    );
}

#[test]
fn a_request_put_up_reads_back() {
    let json = request_message("test \"net\"", &[3; 32]);
    let request = parse_request(&json).unwrap();
    assert_eq!(request.network, "test \"net\"");
    assert_eq!(request.key, vec![3; 32]);
    let value: serde_json::Value = serde_json::from_str(&json).unwrap();
    assert_eq!(value["v"].as_u64(), Some(1));
}

#[test]
fn a_request_needs_a_key_of_its_length_and_no_network() {
    assert_eq!(
        parse_request("{").unwrap_err(),
        "The new device's request is unreadable."
    );
    let short = format!(r#"{{"network":"n","key":"{}"}}"#, hex_encode(&[1; 31]));
    assert_eq!(
        parse_request(&short).unwrap_err(),
        "The new device's request has no key."
    );
    let nowhere = format!(r#"{{"network":7,"key":"{}"}}"#, hex_encode(&[1; 32]));
    assert_eq!(parse_request(&nowhere).unwrap().network, "");
}

#[test]
fn hex_reads_back_and_refuses_what_is_none() {
    let bytes: Vec<u8> = (0..=255).collect();
    assert_eq!(hex_decode(&hex_encode(&bytes)), Some(bytes));
    assert_eq!(hex_encode(&[0x0a, 0xf0]), "0af0");
    assert_eq!(hex_decode(""), Some(vec![]));
    assert_eq!(hex_decode("0"), None);
    assert_eq!(hex_decode("0\u{e9}"), None);
    assert_eq!(hex_decode("+1"), None);
}
