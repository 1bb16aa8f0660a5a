//! Frames, receipts and the rest of what passes between a client and a node.

use commonware_codec::DecodeExt;
use commonware_codec::Encode;
use commonware_cryptography::ed25519;
use commonware_cryptography::Signer;
use commonware_cryptography::Verifier;

use ducktape::backend::noded::answered;
use ducktape::backend::noded::receipt::Outcome;
use ducktape::backend::noded::receipt::Receipt;
use ducktape::backend::noded::route;
use ducktape::backend::noded::state::Change;
use ducktape::backend::noded::state::Status;
use ducktape::backend::noded::streamed;
use ducktape::backend::noded::unframe;
use ducktape::backend::noded::BlockRef;
use ducktape::backend::noded::Blocks;
use ducktape::backend::noded::Body;
use ducktape::backend::noded::Client;
use ducktape::backend::noded::Error;
use ducktape::backend::noded::Finalized;
use ducktape::backend::noded::Frame;
use ducktape::backend::noded::Get;
use ducktape::backend::noded::KeyScheme;
use ducktape::backend::noded::Layer;
use ducktape::backend::noded::Query;
use ducktape::backend::noded::Refusal;
use ducktape::backend::noded::Streamed;
use ducktape::backend::noded::Tx;
use ducktape::backend::wire::decode;
use ducktape::backend::wire::encode;

const FRAME_NAMESPACE: &[u8] = b"ducktape:frame";

fn secret_of(key: &ed25519::PrivateKey) -> [u8; 32] {
    key.encode().as_ref().try_into().expect("32 bytes")
}

fn verifies(signer: &[u8], namespace: &[u8], message: &[u8], proof: &[u8]) -> bool {
    let key = ed25519::PublicKey::decode(commonware_codec::Copying(signer)).expect("a key");
    let signature = ed25519::Signature::decode(commonware_codec::Copying(proof)).expect("64 bytes");
    key.verify(namespace, message, &signature)
}

#[test]
fn frame_signs_its_body_and_names_the_signer() {
    let key = ed25519::PrivateKey::from_seed(7);
    let frame = Frame::sign(&secret_of(&key), b"net", 3, "demo", vec![1, 2]);
    assert_eq!(frame.body.signer, key.public_key().as_ref().to_vec());
    assert_eq!(frame.body.scheme, KeyScheme::Ed25519);
    let decoded = Frame::decode(&frame.encode()).unwrap();
    assert_eq!(format!("{decoded:?}"), format!("{frame:?}"));
    assert_eq!(frame.proof.len(), 64);
    assert!(verifies(
        &frame.body.signer,
        FRAME_NAMESPACE,
        &frame.body.preimage(),
        &frame.proof
    ));
    assert_eq!(
        frame.proof,
        key.sign(FRAME_NAMESPACE, &frame.body.preimage()).as_ref().to_vec()
    );
}

/// The bytes of a submission with one nested run: program "a", Applied [7],
/// no events, nested [program "b", Applied [], no events, nested []].
#[test]
fn receipt_decodes_the_hosts_nested_runs() {
    let bytes = [
        1, 0, 0, 0, b'a', 0, 1, 0, 0, 0, 7, 0, 0, 0, 0, 1, 0, 0, 0, //
        1, 0, 0, 0, b'b', 0, 0, 0, 0, 0, 0, 0, 0, 0, 0, 0, 0, 0,
    ];
    let receipt: Receipt = decode(&bytes).unwrap();
    assert_eq!(receipt.program, "a");
    assert!(matches!(&receipt.outcome, Outcome::Applied { output } if *output == vec![7]));
    assert_eq!(receipt.nested.len(), 1);
    assert_eq!(receipt.nested[0].program, "b");
}

#[test]
fn unframe_drops_the_git_header() {
    assert_eq!(unframe(b"blob 3\0abc"), Some(&b"abc"[..]));
    assert_eq!(unframe(b"no header"), None);
}

#[test]
fn a_body_begins_behind_the_first_zero() {
    assert_eq!(unframe(b""), None);
    assert_eq!(unframe(b"\0"), Some(&b""[..]));
    assert_eq!(unframe(b"blob 3\0a\0b"), Some(&b"a\0b"[..]));
}

#[test]
fn a_frame_is_its_bodys_fields_and_its_proof() {
    let frame = Frame {
        body: Body {
            scheme: KeyScheme::Secp256r1,
            signer: vec![1, 2],
            network: b"net".to_vec(),
            seq: 0x0102,
            target: "d\u{e9}".to_owned(),
            payload: vec![],
        },
        proof: vec![9],
    };
    let expected = [
        1, 2, 0, 0, 0, 1, 2, 3, 0, 0, 0, b'n', b'e', b't', 2, 1, 0, 0, 0, 0, 0, 0, 3, 0, 0, 0,
        b'd', 0xc3, 0xa9, 0, 0, 0, 0,
    ];
    assert_eq!(frame.body.preimage(), expected);
    let mut whole = expected.to_vec();
    whole.extend([1, 0, 0, 0, 9]);
    assert_eq!(frame.encode(), whole);
}

#[test]
fn a_frame_cut_short_or_run_on_is_none() {
    let frame = Frame::sign(&[5; 32], b"net", 3, "demo", vec![1, 2]);
    let bytes = frame.encode();
    for at in 0..bytes.len() {
        assert!(Frame::decode(&bytes[..at]).is_none());
    }
    let mut longer = bytes.clone();
    longer.push(0);
    assert!(Frame::decode(&longer).is_none());
    let mut scheme = bytes.clone();
    scheme[0] = 2;
    assert!(Frame::decode(&scheme).is_none());
}

#[test]
fn values_are_written_as_borsh_writes_them() {
    assert_eq!(encode(&7u8), borsh::to_vec(&7u8).unwrap());
    assert_eq!(encode(&0x0102_0304u32), borsh::to_vec(&0x0102_0304u32).unwrap());
    assert_eq!(encode(&u64::MAX), borsh::to_vec(&u64::MAX).unwrap());
    assert_eq!(
        encode(&(7u8, "d\u{e9}mo".to_owned())),
        borsh::to_vec(&(7u8, "d\u{e9}mo".to_owned())).unwrap()
    );
    assert_eq!(encode(&None::<u64>), borsh::to_vec(&None::<u64>).unwrap());
    assert_eq!(
        encode(&Some(vec![1u8, 2])),
        borsh::to_vec(&Some(vec![1u8, 2])).unwrap()
    );
    assert_eq!(
        encode(&vec!["a".to_owned(), String::new()]),
        borsh::to_vec(&vec!["a".to_owned(), String::new()]).unwrap()
    );
    let blocks = Blocks { before: Some(9), limit: 20 };
    assert_eq!(encode(&blocks), borsh::to_vec(&(Some(9u64), 20u32)).unwrap());
    let get = Get { layer: Layer::Preconfirmed, program: "p".to_owned(), key: vec![1] };
    assert_eq!(
        encode(&get),
        borsh::to_vec(&(1u8, "p".to_owned(), vec![1u8])).unwrap()
    );
    let query = Query { layer: Layer::Confirmed, frame: vec![4, 5] };
    assert_eq!(encode(&query), borsh::to_vec(&(0u8, vec![4u8, 5])).unwrap());
    assert_eq!(encode(&BlockRef::Height(3)), borsh::to_vec(&(0u8, 3u64)).unwrap());
    assert_eq!(
        encode(&BlockRef::Id([6; 32])),
        borsh::to_vec(&(1u8, [6u8; 32])).unwrap()
    );
}

#[test]
fn a_block_reads_back() {
    let block = Finalized {
        height: 3,
        id: [1; 32],
        parent: [2; 32],
        time: 4,
        epoch: 5,
        proposer: Some(vec![6]),
        txs: vec![Tx {
            hash: [7; 32],
            signer: vec![8],
            seq: 9,
            target: "t".to_owned(),
            payload: vec![10],
        }],
    };
    let bytes = encode(&block);
    assert_eq!(
        bytes,
        borsh::to_vec(&(
            3u64,
            [1u8; 32],
            [2u8; 32],
            4u64,
            5u64,
            Some(vec![6u8]),
            vec![([7u8; 32], vec![8u8], 9u64, "t".to_owned(), vec![10u8])],
        ))
        .unwrap()
    );
    let read: Finalized = decode(&bytes).unwrap();
    assert_eq!(format!("{read:?}"), format!("{block:?}"));
}

#[test]
fn text_that_is_none_does_not_decode() {
    assert!(decode::<String>(&[1, 0, 0, 0, 0xff]).is_none());
    assert!(decode::<Option<u8>>(&[2, 0]).is_none());
    assert_eq!(decode::<Option<u8>>(&[0]), Some(None));
    assert!(decode::<Vec<u8>>(&[255, 255, 255, 255, 1]).is_none());
}

#[test]
fn a_rejected_run_names_its_reason() {
    let mut bytes = vec![1, 0, 0, 0, b'a', 1];
    bytes.extend([2, 0, 0, 0, b'n', b'o', 3, 0, 0, 0, b'b', b'a', b'd']);
    bytes.extend([1, 0, 0, 0, 1, 0, 0, 0, 5]);
    bytes.extend([0, 0, 0, 0]);
    let receipt: Receipt = decode(&bytes).unwrap();
    assert!(matches!(
        &receipt.outcome,
        Outcome::Rejected(Refusal { reason, sentence }) if reason == "no" && sentence == "bad"
    ));
    assert_eq!(receipt.events, vec![vec![5]]);
    assert!(receipt.nested.is_empty());
    bytes.push(0);
    assert!(decode::<Receipt>(&bytes).is_none());
    assert!(decode::<Receipt>(&bytes[..10]).is_none());
}

#[test]
fn a_stream_is_its_binary_messages_and_its_end() {
    let garbled = || Refusal { reason: "r".to_owned(), sentence: "s".to_owned() };
    let item = |message| streamed::<u64>(message, garbled());
    assert!(matches!(item(Streamed::Binary(vec![7, 0, 0, 0, 0, 0, 0, 0])), Some(Ok(7))));
    assert!(matches!(
        item(Streamed::Binary(vec![7])),
        Some(Err(Error::Decode(said))) if said.sentence == "s"
    ));
    assert!(item(Streamed::Other).is_none());
    assert!(matches!(
        item(Streamed::Lost("gone".to_owned())),
        Some(Err(Error::Transport(said))) if said == "gone"
    ));
}

#[test]
fn an_answer_is_a_value_a_refusal_or_a_failure() {
    let garbled = || Refusal { reason: "decode".to_owned(), sentence: "not borsh".to_owned() };
    assert!(matches!(answered::<u64>(200, &[7, 0, 0, 0, 0, 0, 0, 0], garbled()), Ok(7)));
    assert!(matches!(
        answered::<u64>(200, &[7], garbled()),
        Err(Error::Decode(Refusal { reason, .. })) if reason == "decode"
    ));
    let refusal = Refusal { reason: "stale".to_owned(), sentence: "too old".to_owned() };
    assert!(matches!(
        answered::<u64>(400, &encode(&refusal), garbled()),
        Err(Error::Refused(Refusal { reason, sentence })) if reason == "stale" && sentence == "too old"
    ));
    assert!(matches!(answered::<u64>(400, b"x", garbled()), Err(Error::Decode(_))));
    let failed = answered::<u64>(502, b"bad \xff gateway", garbled());
    assert!(matches!(
        failed,
        Err(Error::Failed { status: 502, sentence }) if sentence == "bad \u{fffd} gateway"
    ));
}

#[test]
fn a_receipt_reads_back() {
    let run = |program: &str, nested| Receipt {
        program: program.to_owned(),
        outcome: Outcome::Applied { output: vec![1] },
        events: vec![vec![2], vec![]],
        nested,
    };
    let receipt = run("a", vec![run("b", vec![run("c", vec![])]), run("d", vec![])]);
    let read: Receipt = decode(&encode(&receipt)).unwrap();
    assert_eq!(format!("{read:?}"), format!("{receipt:?}"));
}

#[test]
fn a_status_and_a_change_are_written_field_by_field() {
    let status = Status {
        network: "net".to_owned(),
        time: 1,
        block_time_ms: 2,
        epoch_length: 3,
        height: 4,
        tip: [5; 32],
        root: [6u8; 32],
        epoch: 7,
        identity: vec![8],
        contract: 1,
        genesis: [9; 32],
    };
    let bytes = encode(&status);
    assert_eq!(
        bytes,
        borsh::to_vec(&(
            ("net".to_owned(), 1u64, 2u64, 3u64, 4u64, [5u8; 32]),
            ([6u8; 32], 7u64, vec![8u8], 1u32, [9u8; 32]),
        ))
        .unwrap()
    );
    let read: Status<[u8; 32]> = decode(&bytes).unwrap();
    assert_eq!(format!("{read:?}"), format!("{status:?}"));
    let change = Change { height: 1, root: 2u64, writes: vec![(vec![3], None), (vec![], Some(vec![4]))] };
    let bytes = encode(&change);
    assert_eq!(
        bytes,
        borsh::to_vec(&(1u64, 2u64, vec![(vec![3u8], None), (vec![], Some(vec![4u8]))])).unwrap()
    );
    let read: Change<u64> = decode(&bytes).unwrap();
    assert_eq!(format!("{read:?}"), format!("{change:?}"));
}

#[test]
fn an_error_reads_as_a_sentence() {
    let refusal = || Refusal { reason: "stale".to_owned(), sentence: "too old".to_owned() };
    assert_eq!(Error::Refused(refusal()).sentence(), "stale: too old");
    assert_eq!(Error::Decode(refusal()).sentence(), "stale: too old");
    assert_eq!(
        Error::Failed { status: 503, sentence: "later".to_owned() }.sentence(),
        "node answered 503: later"
    );
    assert_eq!(Error::Transport("gone".to_owned()).sentence(), "gone");
}

#[test]
fn a_client_answers_at_its_base() {
    let client = Client::new("https://node.example//");
    assert_eq!(client.endpoint(), "https://node.example");
    assert_eq!(client.url(route::STATUS), "https://node.example/v1/status");
    assert_eq!(client.changes_url("kv"), "wss://node.example/v1/changes/kv");
    assert_eq!(Client::new("///").endpoint(), "");
    assert_eq!(
        Client::new("http://http.example").changes_url("kv"),
        "ws://http.example/v1/changes/kv"
    );
    assert_eq!(
        Client::new("unix:/node").changes_url("kv"),
        "unix:/node/v1/changes/kv"
    );
}
