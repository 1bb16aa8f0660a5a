//! The flows that put keys on accounts, step by step.

use commonware_codec::DecodeExt;
use commonware_cryptography::ed25519;
use commonware_cryptography::Signer;

use ducktape::backend::flow::account::AccountOfKey;
use ducktape::backend::flow::account::CreatePlainAccount;
use ducktape::backend::flow::create::CreateAccount;
use ducktape::backend::flow::device::find_request;
use ducktape::backend::flow::device::found_request;
use ducktape::backend::flow::device::Approve;
use ducktape::backend::flow::device::JoinFromDevice;
use ducktape::backend::flow::device::WAIT;
use ducktape::backend::flow::recovery::key_of_phrase;
use ducktape::backend::flow::recovery::AddRecoveryKey;
use ducktape::backend::flow::recovery::JoinWithRecoveryKey;
use ducktape::backend::flow::sign_in::SignIn;
use ducktape::backend::flow::Ask;
use ducktape::backend::flow::Told;
use ducktape::backend::identity::create;
use ducktape::backend::identity::number_made;
use ducktape::backend::identity::person;
use ducktape::backend::identity::Account;
use ducktape::backend::identity::Control;
use ducktape::backend::identity::HeldKey;
use ducktape::backend::identity::Op;
use ducktape::backend::identity::Query;
use ducktape::backend::identity::Reply;
use ducktape::backend::join::parse_consent;
use ducktape::backend::join::parse_request;
use ducktape::backend::join::request_message;
use ducktape::backend::join::slot;
use ducktape::backend::join::Consent;
use ducktape::backend::join::Fetched;
use ducktape::backend::join::Request;
use ducktape::backend::noded::Frame;
use ducktape::backend::noded::KeyScheme;
use ducktape::backend::passkey::user_handle;
use ducktape::backend::passkey::Assertion;
use ducktape::backend::passkey::Outcome;
use ducktape::backend::passkey::Request as Touch;

const PAGE: &str = "https://auth.example/";
const NOW: u64 = 1_000;
const DEADLINE: u64 = NOW + 900_000;

fn account(control: Control) -> Account {
    Account {
        number: 12,
        name: "ada".to_owned(),
        control,
        keys: vec![
            HeldKey { scheme: KeyScheme::Ed25519, key: vec![1] },
            HeldKey { scheme: KeyScheme::Secp256r1, key: vec![2] },
        ],
    }
}

fn holder() -> Told {
    Told::Reply(Ok(Reply::Account(Some(account(Control::Person)))))
}

fn assertion(handle: Option<Vec<u8>>) -> Assertion {
    Assertion {
        authenticator_data: vec![1],
        client_data_json: vec![2],
        signature: vec![3],
        user_handle: handle,
    }
}

fn fetched(status: u16, text: &str) -> Told {
    Told::Fetched(Fetched::Answered { status, text: Some(text.to_owned()) })
}

fn consent_of(op: &Op) -> (&str, KeyScheme, &Consent) {
    match op {
        Op::AddKey { scheme, label: Some(label), consent } => (label, *scheme, consent),
        other => panic!("{other:?}"),
    }
}

fn said<T: std::fmt::Debug>(ask: Ask<T>) -> String {
    match ask {
        Ask::Done(Err(said)) => said,
        other => panic!("{other:?}"),
    }
}

#[test]
fn an_account_is_found_by_its_key() {
    let (look, ask) = AccountOfKey::begin(vec![5]);
    assert!(matches!(ask, Ask::Ask(Query::OfKey { key }) if key == vec![5]));
    let (look, ask) = look.step(Told::Slept);
    assert!(matches!(ask, Ask::Wait), "what it did not ask for");
    let (look, ask) = look.step(Told::Reply(Ok(Reply::Number(Some(12)))));
    assert!(matches!(ask, Ask::Ask(Query::Get { number: 12 })));
    let (over, ask) = look.step(holder());
    assert!(matches!(ask, Ask::Done(Ok(Some((12, name)))) if name == "ada"));
    assert!(matches!(over.step(holder()).1, Ask::Wait));
    let none = AccountOfKey::Number.step(Told::Reply(Ok(Reply::Number(None)))).1;
    assert!(matches!(none, Ask::Done(Ok(None))));
    let gone = AccountOfKey::Account { number: 1 }.step(Told::Reply(Ok(Reply::Other))).1;
    assert!(matches!(gone, Ask::Done(Ok(None))));
    assert_eq!(said(AccountOfKey::Number.step(Told::Reply(Err("down".into()))).1), "down");
}

#[test]
fn an_account_is_made_by_the_seated_key() {
    assert!(matches!(
        create("ada".to_owned()),
        Op::Create { name, scheme: KeyScheme::Ed25519 } if name == "ada"
    ));
    assert_eq!(number_made(&[12, 0, 0, 0, 0, 0, 0, 0], "no".to_owned()), Ok(12));
    assert_eq!(number_made(&[12], "no".to_owned()), Err("no".to_owned()));
    assert_eq!(number_made(&[0; 9], "no".to_owned()), Err("no".to_owned()));
}

#[test]
fn a_plain_account_is_made_once() {
    let start = || CreatePlainAccount::begin(" ada ").0.step(Told::Key(Ok(vec![5]))).0;
    let (flow, ask) = start().step(Told::Reply(Ok(Reply::Number(None))));
    assert!(matches!(ask, Ask::Create { name } if name == " ada "));
    let ask = flow.step(Told::Number(Ok(7))).1;
    assert!(matches!(ask, Ask::Done(Ok((7, name))) if name == "ada"));
    // a retry after a lost answer: the account it has is the answer
    let (flow, ask) = start().step(Told::Reply(Ok(Reply::Number(Some(12)))));
    assert!(matches!(ask, Ask::Ask(Query::Get { number: 12 })));
    assert!(matches!(flow.step(holder()).1, Ask::Done(Ok((12, name))) if name == "ada"));
    let locked = CreatePlainAccount::begin("ada").0.step(Told::Key(Err("locked".into()))).1;
    assert_eq!(said(locked), "locked");
}

#[test]
fn a_passkey_account_takes_two_touches() {
    let (flow, ask) = CreateAccount::begin("testkit", "ada", "identity");
    assert!(matches!(ask, Ask::SeatedKey));
    let (flow, ask) = flow.step(Told::Key(Ok(vec![5])), NOW);
    assert!(matches!(ask, Ask::Ask(Query::OfKey { key }) if key == vec![5]));
    let (flow, ask) = flow.step(Told::Reply(Ok(Reply::Number(None))), NOW);
    assert!(matches!(ask, Ask::Create { name } if name == "ada"));
    let (flow, ask) = flow.step(Told::Number(Ok(12)), NOW);
    let Ask::Touch(Touch::Create { user, name }) = ask else {
        panic!("a new passkey");
    };
    assert_eq!(user, user_handle("testkit", 12));
    assert_eq!(name, "ada \u{b7} testkit");
    let (flow, ask) = flow.step(Told::Touched(Ok(Outcome::Created(vec![2; 33]))), NOW);
    assert!(matches!(ask, Ask::Ask(Query::Generation { key }) if key == vec![2; 33]));
    let (flow, ask) = flow.step(Told::Reply(Ok(Reply::Generation(4))), NOW);
    let Ask::SeatedSign(admission) = ask else {
        panic!("a consent");
    };
    assert_eq!(admission.network, b"testkit");
    assert_eq!(admission.scheme, KeyScheme::Secp256r1);
    assert_eq!(admission.key, vec![2; 33]);
    assert_eq!((admission.generation, admission.account), (4, 12));
    assert_eq!(admission.expires_at, DEADLINE);
    let (flow, ask) = flow.step(Told::Signed(Ok((vec![5], vec![6]))), NOW + 5);
    assert!(matches!(ask, Ask::NextSeq(key) if key == vec![2; 33]));
    let (flow, ask) = flow.step(Told::NextSeq(Ok(3)), NOW);
    let Ask::Encode(add) = ask else {
        panic!("the write");
    };
    let (label, scheme, consent) = consent_of(&add);
    assert_eq!((label, scheme), ("Passkey", KeyScheme::Secp256r1));
    assert_eq!((&consent.key, &consent.proof), (&vec![5], &vec![6]));
    assert_eq!((consent.account, consent.expires_at), (12, DEADLINE));
    let (flow, ask) = flow.step(Told::Payload(vec![8, 9]), NOW);
    let Ask::AssertFrame { preimage } = ask else {
        panic!("a frame");
    };
    let (flow, ask) = flow.step(Told::Touched(Ok(Outcome::Asserted(assertion(None)))), NOW);
    let Ask::VerifyFrame { signer, preimage: over, assertion: made } = ask else {
        panic!("a frame to verify");
    };
    assert_eq!((signer, &over), (vec![2; 33], &preimage));
    assert_eq!(made.signature, vec![3]);
    let (flow, ask) = flow.step(Told::Proof { proof: vec![7; 64], verified: true }, NOW);
    let Ask::Submit(bytes) = ask else {
        panic!("a frame to submit");
    };
    let frame = Frame::decode(&bytes).expect("a frame");
    assert_eq!(frame.body.preimage(), preimage);
    assert_eq!(frame.body.scheme, KeyScheme::Secp256r1);
    assert_eq!((frame.body.seq, frame.body.target.as_str()), (3, "identity"));
    assert_eq!((frame.body.payload, frame.proof), (vec![8, 9], vec![7; 64]));
    assert!(matches!(flow.step(Told::Output(Ok(vec![])), NOW).1, Ask::Done(Ok(()))));
}

#[test]
fn a_device_that_holds_an_account_keeps_it() {
    let start = || {
        let flow = CreateAccount::begin("testkit", "ada", "identity").0;
        let flow = flow.step(Told::Key(Ok(vec![5])), NOW).0;
        flow.step(Told::Reply(Ok(Reply::Number(Some(12)))), NOW).0
    };
    let ask = start().step(holder(), NOW).1;
    assert!(matches!(ask, Ask::Touch(Touch::Create { user, .. }) if user == user_handle("testkit", 12)));
    let agent = account(Control::Managed { manager: 3 });
    let ask = start().step(Told::Reply(Ok(Reply::Account(Some(agent)))), NOW).1;
    assert_eq!(
        said(ask),
        "This key belongs to ada (account 12), an agent managed by account 3. Passkeys are for a person's own account: sign in with a person's key."
    );
    let ask = start().step(Told::Reply(Ok(Reply::Account(None))), NOW).1;
    assert_eq!(said(ask), "This names an account testkit does not have.");
}

#[test]
fn another_passkey_than_the_new_one_is_caught() {
    let flow = CreateAccount::begin("testkit", "ada", "identity").0;
    let steps = vec![
        Told::Key(Ok(vec![5])),
        Told::Reply(Ok(Reply::Other)),
        Told::Number(Ok(12)),
        Told::Touched(Ok(Outcome::Created(vec![2; 33]))),
        Told::Reply(Ok(Reply::Generation(0))),
        Told::Signed(Ok((vec![5], vec![6]))),
        Told::NextSeq(Ok(0)),
        Told::Payload(vec![]),
        Told::Touched(Ok(Outcome::Asserted(assertion(None)))),
    ];
    let flow = steps.into_iter().fold(flow, |flow, told| flow.step(told, NOW).0);
    let ask = flow.step(Told::Proof { proof: vec![], verified: false }, NOW).1;
    assert_eq!(
        said(ask),
        "That was a different passkey than the one just made. Choose the new one."
    );
}

#[test]
fn a_module_takes_no_passkey() {
    let module = account(Control::Module { module: "kv".to_owned() });
    assert_eq!(
        person(&module),
        Err("This key belongs to the account of the module kv, which takes no passkey.".to_owned())
    );
    assert_eq!(person(&account(Control::Person)), Ok(()));
}

#[test]
fn signing_in_takes_the_same_passkey_twice() {
    let drawn = |ask| match ask {
        Ask::Touch(Touch::Get { challenge }) => challenge,
        _ => panic!("a touch"),
    };
    assert_ne!(drawn(SignIn::begin("testkit").1), drawn(SignIn::begin("testkit").1));
    let (flow, ask) = SignIn::begin_with("testkit", [7; 32]);
    assert_eq!(drawn(ask), [7; 32]);
    let handle = user_handle("testkit", 12).to_vec();
    let touched = |handle| Told::Touched(Ok(Outcome::Asserted(assertion(handle))));
    let (flow, ask) = flow.step(touched(Some(handle)), NOW);
    assert!(matches!(ask, Ask::Ask(Query::Get { number: 12 })));
    let (flow, ask) = flow.step(holder(), NOW);
    assert!(matches!(ask, Ask::SeatedKey));
    let (flow, ask) = flow.step(Told::Key(Ok(vec![5])), NOW);
    assert!(matches!(ask, Ask::Ask(Query::Generation { key }) if key == vec![5]));
    let (flow, ask) = flow.step(Told::Reply(Ok(Reply::Generation(1))), NOW);
    let Ask::AssertConsent(admission) = ask else {
        panic!("a consent");
    };
    assert_eq!((admission.scheme, &admission.key), (KeyScheme::Ed25519, &vec![5]));
    let (flow, ask) = flow.step(touched(None), NOW);
    let Ask::VerifyConsent { admission: over, keys, .. } = ask else {
        panic!("verdicts");
    };
    assert_eq!((over.network, over.key), (admission.network, admission.key));
    assert_eq!((over.generation, over.account, over.expires_at), (1, 12, DEADLINE));
    let keys: Vec<_> = keys.into_iter().map(|held| (held.scheme, held.key)).collect();
    assert_eq!(keys, vec![(KeyScheme::Ed25519, vec![1]), (KeyScheme::Secp256r1, vec![2])]);
    let verdict = Told::Consented { proof: vec![6], verifies: vec![false, true] };
    let (flow, ask) = flow.step(verdict, NOW);
    let Ask::SubmitSeated(op) = ask else {
        panic!("a write");
    };
    let (label, scheme, consent) = consent_of(&op);
    assert_eq!((label, scheme), ("Desktop", KeyScheme::Ed25519));
    assert_eq!((&consent.key, consent.account), (&vec![2], 12));
    assert_eq!((consent.expires_at, &consent.proof), (DEADLINE, &vec![6]));
    assert!(matches!(flow.step(Told::Output(Ok(vec![])), NOW).1, Ask::Done(Ok(()))));
    assert_eq!(
        said(SignIn::begin("testkit").0.step(touched(None), NOW).1),
        "That passkey wasn't made by Ducktape. Choose a Ducktape passkey."
    );
}

#[test]
fn signing_in_with_another_passkey_is_refused() {
    let handle = user_handle("testkit", 12).to_vec();
    let steps = vec![
        Told::Touched(Ok(Outcome::Asserted(assertion(Some(handle))))),
        holder(),
        Told::Key(Ok(vec![5])),
        Told::Reply(Ok(Reply::Generation(1))),
        Told::Touched(Ok(Outcome::Asserted(assertion(None)))),
    ];
    let flow = steps
        .into_iter()
        .fold(SignIn::begin("testkit").0, |flow, told| flow.step(told, NOW).0);
    let verdict = Told::Consented { proof: vec![6], verifies: vec![true, false] };
    assert_eq!(
        said(flow.step(verdict, NOW).1),
        "That passkey isn't on this account. Use the same passkey both times."
    );
}

#[test]
fn a_device_joins_with_what_another_approves() {
    let (joining, ask) = JoinFromDevice::begin("testkit", PAGE, "kq4m-9xpt");
    assert!(matches!(ask, Ask::SeatedKey));
    let (joining, ask) = joining.step(Told::Key(Ok(vec![5; 32])), NOW);
    let Ask::Post { url, json } = ask else {
        panic!("a request put up");
    };
    assert_eq!(url, slot(PAGE, "KQ4M9XPT", "request").unwrap());
    let (joining, ask) = joining.step(fetched(200, ""), NOW);
    let Ask::Take { url: answer } = ask else {
        panic!("a look");
    };
    assert_eq!(answer, slot(PAGE, "KQ4M9XPT", "consent").unwrap());
    let (joining, ask) = joining.step(fetched(204, ""), NOW + WAIT);
    assert!(matches!(ask, Ask::Sleep), "not over until the wait is");
    let (joining, ask) = joining.step(Told::Slept, NOW);
    assert!(matches!(ask, Ask::Take { url } if url == answer));

    // the other device finds the request and approves it
    assert!(matches!(find_request(PAGE, "KQ4M 9XPT"), Ask::Take { url: at } if at == url));
    let request = found_request(Fetched::Answered { status: 200, text: Some(json) }).unwrap();
    assert_eq!((request.network.as_str(), &request.key), ("testkit", &vec![5; 32]));
    let (approving, ask) = Approve::begin("testkit", PAGE, 12, "KQ4M9XPT", &request);
    assert!(matches!(ask, Ask::Ask(Query::Generation { key }) if key == vec![5; 32]));
    let (approving, ask) = approving.step(Told::Reply(Ok(Reply::Generation(2))), NOW);
    let Ask::SeatedSign(admission) = ask else {
        panic!("a consent");
    };
    assert_eq!((admission.key, admission.account), (vec![5; 32], 12));
    assert_eq!((admission.scheme, admission.generation), (KeyScheme::Ed25519, 2));
    let (approving, ask) = approving.step(Told::Signed(Ok((vec![8; 32], vec![9; 64]))), NOW);
    let Ask::Post { url: over, json: handed } = ask else {
        panic!("a consent handed over");
    };
    assert_eq!(over, answer);
    assert_eq!(parse_consent(&handed).unwrap().key, vec![8; 32]);
    assert!(matches!(approving.step(fetched(200, ""), NOW).1, Ask::Done(Ok(()))));

    let (joining, ask) = joining.step(fetched(200, &handed), NOW);
    let Ask::SubmitSeated(op) = ask else {
        panic!("a write");
    };
    let (label, scheme, consent) = consent_of(&op);
    assert_eq!((label, scheme), ("Desktop", KeyScheme::Ed25519));
    assert_eq!((&consent.key, &consent.proof), (&vec![8; 32], &vec![9; 64]));
    assert_eq!((consent.account, consent.expires_at), (12, DEADLINE));
    assert!(matches!(joining.step(Told::Output(Ok(vec![])), NOW).1, Ask::Done(Ok(()))));
}

#[test]
fn a_device_no_one_approves_gives_up() {
    let steps = vec![Told::Key(Ok(vec![5; 32])), fetched(201, "")];
    let flow = steps
        .into_iter()
        .fold(JoinFromDevice::begin("testkit", PAGE, "KQ4M9XPT").0, |flow, told| {
            flow.step(told, NOW).0
        });
    assert_eq!(
        said(flow.step(fetched(204, ""), NOW + WAIT + 1).1),
        "No device approved in time. Start again for a new code."
    );
    assert_eq!(
        said(JoinFromDevice::begin("testkit", PAGE, "KQ4M").1),
        "That code is malformed."
    );
    let nowhere = JoinFromDevice::begin("testkit", "?", "KQ4M9XPT").0;
    assert_eq!(
        said(nowhere.step(Told::Key(Ok(vec![5; 32])), NOW).1),
        "The auth host address is unusable: relative URL without a base"
    );
}

#[test]
fn an_approval_is_for_a_device_that_waits_on_this_network() {
    assert_eq!(
        said(find_request(PAGE, "KQ4M")),
        "A code is 8 letters and digits, like KQ4M-9XPT."
    );
    assert_eq!(
        found_request(Fetched::Answered { status: 204, text: None }).unwrap_err(),
        "No device is waiting on that code. Check it, or start again on the new device."
    );
    assert_eq!(
        found_request(Fetched::Unreachable).unwrap_err(),
        "Can't reach the auth host."
    );
    let request = Request { network: "other".to_owned(), key: vec![5; 32] };
    assert_eq!(
        said(Approve::begin("testkit", PAGE, 12, "KQ4M9XPT", &request).1),
        "That device is on other, not testkit. Approve it from a device on other."
    );
    let request = Request { network: "testkit".to_owned(), key: vec![5; 32] };
    assert_eq!(
        said(Approve::begin("testkit", PAGE, 12, "KQ4M", &request).1),
        "That code is malformed."
    );
    let flow = Approve::begin("testkit", PAGE, 12, "KQ4M9XPT", &request).0;
    assert_eq!(
        said(flow.step(Told::Reply(Ok(Reply::Other)), NOW).1),
        "identity answered something other than a generation"
    );
    assert_eq!(parse_request(&request_message("n", &[1; 32])).unwrap().network, "n");
}

#[test]
fn a_recovery_key_signs_its_own_way_onto_the_account() {
    let secret = [4; 32];
    let key = ed25519::PrivateKey::decode(commonware_codec::Copying(&secret[..])).unwrap();
    let public = key.public_key().as_ref().to_vec();
    let (flow, ask) = AddRecoveryKey::begin("testkit", "identity", &secret);
    assert_eq!(flow.public, public);
    assert!(matches!(ask, Ask::SeatedKey));
    let (flow, ask) = flow.step(Told::Key(Ok(vec![5])), NOW, &secret);
    assert!(matches!(ask, Ask::Ask(Query::OfKey { key }) if key == vec![5]));
    let (flow, ask) = flow.step(Told::Reply(Ok(Reply::Number(Some(12)))), NOW, &secret);
    assert!(matches!(ask, Ask::Ask(Query::Get { number: 12 })));
    let (flow, ask) = flow.step(holder(), NOW, &secret);
    assert!(matches!(ask, Ask::Ask(Query::Generation { key }) if key == public));
    let (flow, ask) = flow.step(Told::Reply(Ok(Reply::Generation(1))), NOW, &secret);
    assert!(matches!(ask, Ask::SeatedSign(admission) if admission.key == public));
    let (flow, ask) = flow.step(Told::Signed(Ok((vec![5], vec![6]))), NOW, &secret);
    assert!(matches!(ask, Ask::NextSeq(key) if key == public));
    let (flow, ask) = flow.step(Told::NextSeq(Ok(3)), NOW, &secret);
    let Ask::Encode(add) = ask else {
        panic!("the write");
    };
    assert_eq!(consent_of(&add).0, "Recovery key");
    let (flow, ask) = flow.step(Told::Payload(vec![8, 9]), NOW, &secret);
    let Ask::Submit(bytes) = ask else {
        panic!("a frame");
    };
    let frame = Frame::decode(&bytes).expect("a frame");
    assert_eq!(frame.body.signer, public);
    assert_eq!((frame.body.seq, &frame.body.payload), (3, &vec![8, 9]));
    assert_eq!(
        frame.proof,
        key.sign(b"ducktape:frame", &frame.body.preimage()).as_ref().to_vec()
    );
    assert!(matches!(flow.step(Told::Output(Ok(vec![])), NOW, &secret).1, Ask::Done(Ok(()))));
    let flow = AddRecoveryKey::begin("testkit", "identity", &secret).0;
    let flow = flow.step(Told::Key(Ok(vec![5])), NOW, &secret).0;
    assert_eq!(
        said(flow.step(Told::Reply(Ok(Reply::Number(None))), NOW, &secret).1),
        "This device's key holds no account yet."
    );
    let flow = AddRecoveryKey::begin("testkit", "identity", &secret).0;
    let flow = flow.step(Told::Key(Ok(vec![5])), NOW, &secret).0;
    assert_eq!(
        said(flow.step(Told::Reply(Ok(Reply::Generation(1))), NOW, &secret).1),
        "identity answered something other than an account number"
    );
}

#[test]
fn a_device_joins_by_a_recovery_keys_consent() {
    let secret = [4; 32];
    let key = ed25519::PrivateKey::decode(commonware_codec::Copying(&secret[..])).unwrap();
    let public = key.public_key().as_ref().to_vec();
    let (flow, ask) = JoinWithRecoveryKey::begin("testkit", &secret);
    assert!(matches!(ask, Ask::Ask(Query::OfKey { key }) if key == public));
    let (flow, _) = flow.step(Told::Reply(Ok(Reply::Number(Some(12)))), NOW, &secret);
    let (flow, ask) = flow.step(holder(), NOW, &secret);
    assert!(matches!(ask, Ask::SeatedKey));
    let (flow, _) = flow.step(Told::Key(Ok(vec![5])), NOW, &secret);
    let (flow, ask) = flow.step(Told::Reply(Ok(Reply::Generation(1))), NOW, &secret);
    assert!(matches!(ask, Ask::Preimage(admission) if admission.key == vec![5]));
    let told = Told::Preimage { namespace: b"consent".to_vec(), preimage: b"bytes".to_vec() };
    let (flow, ask) = flow.step(told, NOW, &secret);
    let Ask::SubmitSeated(op) = ask else {
        panic!("a write");
    };
    let (label, _, consent) = consent_of(&op);
    assert_eq!((label, &consent.key), ("Desktop", &public));
    assert_eq!(consent.proof, key.sign(b"consent", b"bytes").as_ref().to_vec());
    assert_eq!((consent.account, consent.expires_at), (12, DEADLINE));
    assert!(matches!(flow.step(Told::Output(Ok(vec![])), NOW, &secret).1, Ask::Done(Ok(()))));
    let flow = JoinWithRecoveryKey::begin("testkit", &secret).0;
    assert_eq!(
        said(flow.step(Told::Reply(Ok(Reply::Number(None))), NOW, &secret).1),
        "That recovery key isn't on an account on testkit."
    );
}

#[test]
fn a_recovery_key_is_the_seed_its_words_make() {
    let seed: Vec<u8> = (0..32).collect();
    assert_eq!(key_of_phrase(Some(&seed)).unwrap().to_vec(), seed);
    assert_eq!(key_of_phrase(Some(&seed[1..])).unwrap_err(), "Those words make no key.");
    assert_eq!(
        key_of_phrase(None).unwrap_err(),
        "Those words aren't a recovery key \u{2014} check each one."
    );
}
