//! Recovery keys: put on the account by a device that is on it, and taken to
//! by a device that is not yet.
//!
//! The flows are lent the recovery key's secret where they need it, and keep
//! only its public key.

use vstd::prelude::*;
use vstd::utf8::*;

use crate::backend::flow::Ask;
use crate::backend::flow::Told;
use crate::backend::identity::Op;
use crate::backend::identity::Query;
use crate::backend::identity::Reply;
use crate::backend::identity::account_in;
use crate::backend::identity::add_key;
use crate::backend::identity::admission;
use crate::backend::identity::person;
use crate::backend::noded::Frame;
use crate::backend::noded::KeyScheme;
use crate::backend::wire::Wire;
use crate::backend::wire::bytes_of;
use crate::outside::public_key;
use crate::outside::sign;
use crate::text::joined3;

verus! {

// ---------- the key ----------
/// Whether `secret` is the recovery key of `seed`, which is what its words
/// make: the seed itself, of 32 bytes. There is none where the words make no
/// seed, or one of another length.
pub open spec fn key_of_seed(seed: Option<Seq<u8>>, secret: Result<[u8; 32], String>) -> bool {
    match seed {
        Some(bytes) => if bytes.len() == 32 {
            secret matches Ok(secret) && secret@ == bytes
        } else {
            secret matches Err(said) && said@ == "Those words make no key."@
        },
        None => secret matches Err(said) && said@
            == "Those words aren't a recovery key — check each one."@,
    }
}

/// The secret of a recovery key, from the seed its words make.
pub fn key_of_phrase(seed: Option<&[u8]>) -> (secret: Result<[u8; 32], String>)
    ensures
        key_of_seed(
            match seed {
                Some(bytes) => Some(bytes@),
                None => None,
            },
            secret,
        ),
{
    match seed {
        Some(bytes) => {
            if bytes.len() != 32 {
                return Err("Those words make no key.".to_owned());
            }
            let mut secret: [u8; 32] = [0; 32];
            let mut at: usize = 0;
            while at < 32
                invariant
                    at <= 32,
                    bytes@.len() == 32,
                    secret@.take(at as int) == bytes@.take(at as int),
                decreases 32 - at,
            {
                secret[at] = bytes[at];
                assert(secret@.take(at + 1) =~= bytes@.take(at + 1));
                at += 1;
            }
            assert(secret@.take(32) =~= secret@);
            assert(bytes@.take(32) =~= bytes@);
            Ok(secret)
        },
        None => Err("Those words aren't a recovery key — check each one.".to_owned()),
    }
}

/// Whatever list of words it is that makes seeds of phrases (`seed_of`) and
/// phrases of seeds (`words_of`): a phrase makes one key, however often it is
/// asked, or none at all; one that makes no seed makes no key; and where the
/// list reads back the words it gives a seed of 32 bytes, these make a key, and
/// it is that seed's.
pub proof fn a_phrase_makes_one_key(
    seed_of: spec_fn(Seq<char>) -> Option<Seq<u8>>,
    words_of: spec_fn(Seq<u8>) -> Seq<char>,
    phrase: Seq<char>,
    seed: Seq<u8>,
    once: Result<[u8; 32], String>,
    again: Result<[u8; 32], String>,
)
    ensures
        key_of_seed(seed_of(phrase), once) && key_of_seed(seed_of(phrase), again) ==> match (
            once,
            again,
        ) {
            (Ok(once), Ok(again)) => once@ == again@ && crate::outside::ed25519_public(once@)
                == crate::outside::ed25519_public(again@),
            (Err(once), Err(again)) => once@ == again@,
            _ => false,
        },
        seed_of(phrase) is None && key_of_seed(seed_of(phrase), once) ==> once is Err,
        seed.len() == 32 && seed_of(words_of(seed)) == Some(seed) && key_of_seed(
            seed_of(words_of(seed)),
            once,
        ) ==> (once matches Ok(secret) && secret@ == seed),
{
}

// ---------- onto the account ----------
/// Where the flow stands: what it asked for last, and what it holds.
pub enum AddPhase {
    /// The seated key.
    Key,
    /// The account it is on.
    Number,
    /// Whose that is.
    Holder { number: u64 },
    /// The recovery key's generation.
    Admitting { number: u64 },
    /// The seated key's consent to it.
    Signing { number: u64, expires_at: u64 },
    /// The number of its first frame.
    Sequencing { add: Op },
    /// The bytes of the write that adds it.
    Encoding { seq: u64 },
    /// The node's answer.
    Submitting,
    Over,
}

/// Puts a recovery key on the account this device's seated key holds: this
/// device consents, the recovery key signs its own write.
pub struct AddRecoveryKey {
    pub network: String,
    pub module: String,
    pub public: Vec<u8>,
    pub phase: AddPhase,
}

/// Whether `bytes` are the frame by which the key of `secret` says `payload`.
pub open spec fn is_frame(
    bytes: Seq<u8>,
    secret: Seq<u8>,
    network: Seq<char>,
    seq: u64,
    module: Seq<char>,
    payload: Seq<u8>,
) -> bool {
    let body = crate::backend::noded::BodyView {
        scheme: KeyScheme::Ed25519,
        signer: crate::outside::ed25519_public(secret),
        network: encode_utf8(network),
        seq,
        target: module,
        payload,
    };
    bytes == <Frame as Wire>::put(
        crate::backend::noded::FrameView {
            body,
            proof: crate::outside::ed25519_signature(
                secret,
                crate::backend::noded::frame_namespace(),
                <crate::backend::noded::Body as Wire>::put(body),
            ),
        },
    )
}

/// Whether telling the flow `told` at `now` makes it `after`, asking `ask`.
pub open spec fn add_stepped(
    before: AddRecoveryKey,
    told: Told,
    now: u64,
    secret: Seq<u8>,
    after: AddRecoveryKey,
    ask: Ask<()>,
) -> bool {
    &&& after.network == before.network
    &&& after.module == before.module
    &&& after.public == before.public
    &&& match (before.phase, told) {
        (AddPhase::Key, Told::Key(Ok(device))) => after.phase is Number
            && crate::backend::flow::asks_of_key(ask, device@),
        (AddPhase::Key, Told::Key(Err(said))) => after.phase is Over
            && crate::backend::flow::fails(ask, said@),
        (AddPhase::Number, Told::Reply(Ok(Reply::Number(Some(number))))) => after.phase == (
        AddPhase::Holder { number }) && crate::backend::flow::asks_account(ask, number),
        (AddPhase::Number, Told::Reply(Ok(Reply::Number(None)))) => after.phase is Over
            && crate::backend::flow::fails(ask, "This device's key holds no account yet."@),
        (AddPhase::Number, Told::Reply(Ok(_))) => after.phase is Over
            && crate::backend::flow::fails(ask, crate::backend::flow::no_number()),
        (AddPhase::Number, Told::Reply(Err(said))) => after.phase is Over
            && crate::backend::flow::fails(ask, said@),
        (AddPhase::Holder { number }, Told::Reply(Ok(Reply::Account(Some(account))))) => {
            match crate::backend::identity::not_a_person(account) {
                None => after.phase == (AddPhase::Admitting { number })
                    && crate::backend::flow::asks_generation(ask, before.public@),
                Some(said) => after.phase is Over && crate::backend::flow::fails(ask, said),
            }
        },
        (AddPhase::Holder { .. }, Told::Reply(Ok(_))) => after.phase is Over
            && crate::backend::flow::fails(
            ask,
            crate::backend::identity::no_account(before.network@),
        ),
        (AddPhase::Holder { .. }, Told::Reply(Err(said))) => after.phase is Over
            && crate::backend::flow::fails(ask, said@),
        (AddPhase::Admitting { number }, Told::Reply(Ok(Reply::Generation(generation)))) => {
            &&& ask matches Ask::SeatedSign(admission) && crate::backend::identity::admits(
                admission,
                before.network@,
                KeyScheme::Ed25519,
                before.public@,
                generation,
                number,
                now,
            )
            &&& after.phase == (AddPhase::Signing {
                number,
                expires_at: (now + crate::backend::passkey::CONSENT_TTL_MS) as u64,
            })
        },
        (AddPhase::Admitting { .. }, Told::Reply(Ok(_))) => after.phase is Over
            && crate::backend::flow::fails(ask, crate::backend::flow::no_generation()),
        (AddPhase::Admitting { .. }, Told::Reply(Err(said))) => after.phase is Over
            && crate::backend::flow::fails(ask, said@),
        (AddPhase::Signing { number, expires_at }, Told::Signed(Ok((device, proof_bytes)))) => {
            &&& after.phase matches AddPhase::Sequencing { add } && crate::backend::identity::adds(
                add,
                KeyScheme::Ed25519,
                "Recovery key"@,
                device@,
                number,
                expires_at,
                proof_bytes@,
            )
            &&& ask matches Ask::NextSeq(key) && key@ == before.public@
        },
        (AddPhase::Signing { .. }, Told::Signed(Err(said))) => after.phase is Over
            && crate::backend::flow::fails(ask, said@),
        (AddPhase::Sequencing { add }, Told::NextSeq(Ok(seq))) => after.phase == (
        AddPhase::Encoding { seq }) && ask == Ask::<()>::Encode(add),
        (AddPhase::Sequencing { .. }, Told::NextSeq(Err(said))) => after.phase is Over
            && crate::backend::flow::fails(ask, said@),
        (AddPhase::Encoding { seq }, Told::Payload(payload)) => after.phase is Submitting
            && (ask matches Ask::Submit(frame) && is_frame(
            frame@,
            secret,
            before.network@,
            seq,
            before.module@,
            payload@,
        )),
        (AddPhase::Submitting, Told::Output(Ok(_))) => after.phase is Over && ask == Ask::Done(
            Ok::<(), String>(()),
        ),
        (AddPhase::Submitting, Told::Output(Err(said))) => after.phase is Over
            && crate::backend::flow::fails(ask, said@),
        _ => after.phase == before.phase && ask is Wait,
    }
}

impl AddRecoveryKey {
    /// Begins: the flow, and what it asks first.
    pub fn begin(network: &str, module: &str, secret: &[u8; 32]) -> (begun: (Self, Ask<()>))
        ensures
            begun.0.network@ == network@,
            begun.0.module@ == module@,
            begun.0.public@ == crate::outside::ed25519_public(secret@),
            begun.0.phase is Key,
            begun.1 is SeatedKey,
    {
        (
            AddRecoveryKey {
                network: network.to_owned(),
                module: module.to_owned(),
                public: public_key(secret),
                phase: AddPhase::Key,
            },
            Ask::SeatedKey,
        )
    }

    fn at(self, phase: AddPhase, ask: Ask<()>) -> (next: (Self, Ask<()>))
        ensures
            next.0 == (AddRecoveryKey { phase, ..self }),
            next.1 == ask,
    {
        (
            AddRecoveryKey {
                network: self.network,
                module: self.module,
                public: self.public,
                phase,
            },
            ask,
        )
    }

    /// What the flow asks next, told `told` at `now` (unix ms).
    pub fn step(self, told: Told, now: u64, secret: &[u8; 32]) -> (next: (Self, Ask<()>))
        requires
            encode_utf8(self.network@).len() <= u32::MAX,
            encode_utf8(self.module@).len() <= u32::MAX,
            told matches Told::Payload(payload) ==> payload@.len() <= u32::MAX,
            now + crate::backend::passkey::CONSENT_TTL_MS <= u64::MAX,
        ensures
            add_stepped(self, told, now, secret@, next.0, next.1),
    {
        let AddRecoveryKey { network, module, public, phase } = self;
        let flow = AddRecoveryKey { network, module, public, phase: AddPhase::Over };
        match (phase, told) {
            (AddPhase::Key, Told::Key(key)) => match key {
                Ok(device) => flow.at(AddPhase::Number, Ask::Ask(Query::OfKey { key: device })),
                Err(said) => flow.at(AddPhase::Over, Ask::Done(Err(said))),
            },
            (AddPhase::Number, Told::Reply(reply)) => match reply {
                Ok(Reply::Number(Some(number))) => flow.at(
                    AddPhase::Holder { number },
                    Ask::Ask(Query::Get { number }),
                ),
                Ok(Reply::Number(None)) => flow.at(
                    AddPhase::Over,
                    Ask::Done(Err("This device's key holds no account yet.".to_owned())),
                ),
                Ok(_) => flow.at(
                    AddPhase::Over,
                    Ask::Done(
                        Err(
                            "identity answered something other than an account number".to_owned(),
                        ),
                    ),
                ),
                Err(said) => flow.at(AddPhase::Over, Ask::Done(Err(said))),
            },
            (AddPhase::Holder { number }, Told::Reply(reply)) => match reply {
                Ok(reply) => match account_in(reply, flow.network.as_str()) {
                    Ok(account) => match person(&account) {
                        Ok(_) => {
                            let ask = Ask::Ask(
                                Query::Generation { key: bytes_of(flow.public.as_slice()) },
                            );
                            flow.at(AddPhase::Admitting { number }, ask)
                        },
                        Err(said) => flow.at(AddPhase::Over, Ask::Done(Err(said))),
                    },
                    Err(said) => flow.at(AddPhase::Over, Ask::Done(Err(said))),
                },
                Err(said) => flow.at(AddPhase::Over, Ask::Done(Err(said))),
            },
            (AddPhase::Admitting { number }, Told::Reply(reply)) => match reply {
                Ok(Reply::Generation(generation)) => {
                    let asked = admission(
                        flow.network.as_str(),
                        KeyScheme::Ed25519,
                        flow.public.as_slice(),
                        generation,
                        number,
                        now,
                    );
                    let expires_at = asked.expires_at;
                    flow.at(AddPhase::Signing { number, expires_at }, Ask::SeatedSign(asked))
                },
                Ok(_) => flow.at(
                    AddPhase::Over,
                    Ask::Done(
                        Err("identity answered something other than a generation".to_owned()),
                    ),
                ),
                Err(said) => flow.at(AddPhase::Over, Ask::Done(Err(said))),
            },
            (AddPhase::Signing { number, expires_at }, Told::Signed(signed)) => match signed {
                Ok((device, proof_bytes)) => {
                    let add = add_key(
                        KeyScheme::Ed25519,
                        "Recovery key",
                        device,
                        number,
                        expires_at,
                        proof_bytes,
                    );
                    let ask = Ask::NextSeq(bytes_of(flow.public.as_slice()));
                    flow.at(AddPhase::Sequencing { add }, ask)
                },
                Err(said) => flow.at(AddPhase::Over, Ask::Done(Err(said))),
            },
            (AddPhase::Sequencing { add }, Told::NextSeq(seq)) => match seq {
                Ok(seq) => flow.at(AddPhase::Encoding { seq }, Ask::Encode(add)),
                Err(said) => flow.at(AddPhase::Over, Ask::Done(Err(said))),
            },
            (AddPhase::Encoding { seq }, Told::Payload(payload)) => {
                let frame = Frame::sign(
                    secret,
                    flow.network.as_str().as_bytes(),
                    seq,
                    flow.module.as_str(),
                    payload,
                );
                proof {
                    crate::backend::wire::bytes_are_their_own_view(frame.body.signer);
                    crate::backend::wire::bytes_are_their_own_view(frame.body.network);
                    crate::backend::wire::bytes_are_their_own_view(frame.body.payload);
                    crate::backend::wire::bytes_are_their_own_view(frame.proof);
                }
                let bytes = frame.encode();
                flow.at(AddPhase::Submitting, Ask::Submit(bytes))
            },
            (AddPhase::Submitting, Told::Output(output)) => match output {
                Ok(_) => flow.at(AddPhase::Over, Ask::Done(Ok(()))),
                Err(said) => flow.at(AddPhase::Over, Ask::Done(Err(said))),
            },
            (phase, _) => flow.at(phase, Ask::Wait),
        }
    }
}

// ---------- from the account ----------
/// Where the flow stands: what it asked for last, and what it holds.
pub enum RecoverPhase {
    /// The account the recovery key is on.
    Number,
    /// Whose that is.
    Holder { number: u64 },
    /// The seated key.
    Key { number: u64 },
    /// That key's generation.
    Admitting { number: u64, device: Vec<u8> },
    /// The bytes the recovery key consents over.
    Consenting { number: u64, expires_at: u64 },
    /// The node's answer.
    Submitting,
    Over,
}

/// This device's seated key joins the account a recovery key is on; that key
/// consents.
pub struct JoinWithRecoveryKey {
    pub network: String,
    pub public: Vec<u8>,
    pub phase: RecoverPhase,
}

/// What is said of a recovery key that is on no account.
pub open spec fn not_on_an_account(network: Seq<char>) -> Seq<char> {
    "That recovery key isn't on an account on "@ + network + "."@
}

/// Whether telling the flow `told` at `now` makes it `after`, asking `ask`.
pub open spec fn recover_stepped(
    before: JoinWithRecoveryKey,
    told: Told,
    now: u64,
    secret: Seq<u8>,
    after: JoinWithRecoveryKey,
    ask: Ask<()>,
) -> bool {
    &&& after.network == before.network
    &&& after.public == before.public
    &&& match (before.phase, told) {
        (RecoverPhase::Number, Told::Reply(Ok(Reply::Number(Some(number))))) => after.phase == (
        RecoverPhase::Holder { number }) && crate::backend::flow::asks_account(ask, number),
        (RecoverPhase::Number, Told::Reply(Ok(Reply::Number(None)))) => after.phase is Over
            && crate::backend::flow::fails(ask, not_on_an_account(before.network@)),
        (RecoverPhase::Number, Told::Reply(Ok(_))) => after.phase is Over
            && crate::backend::flow::fails(ask, crate::backend::flow::no_number()),
        (RecoverPhase::Number, Told::Reply(Err(said))) => after.phase is Over
            && crate::backend::flow::fails(ask, said@),
        (RecoverPhase::Holder { number }, Told::Reply(Ok(Reply::Account(Some(account))))) => {
            match crate::backend::identity::not_a_person(account) {
                None => after.phase == (RecoverPhase::Key { number }) && ask is SeatedKey,
                Some(said) => after.phase is Over && crate::backend::flow::fails(ask, said),
            }
        },
        (RecoverPhase::Holder { .. }, Told::Reply(Ok(_))) => after.phase is Over
            && crate::backend::flow::fails(
            ask,
            crate::backend::identity::no_account(before.network@),
        ),
        (RecoverPhase::Holder { .. }, Told::Reply(Err(said))) => after.phase is Over
            && crate::backend::flow::fails(ask, said@),
        (RecoverPhase::Key { number }, Told::Key(Ok(device))) => after.phase == (
        RecoverPhase::Admitting { number, device }) && crate::backend::flow::asks_generation(
            ask,
            device@,
        ),
        (RecoverPhase::Key { .. }, Told::Key(Err(said))) => after.phase is Over
            && crate::backend::flow::fails(ask, said@),
        (
            RecoverPhase::Admitting { number, device },
            Told::Reply(Ok(Reply::Generation(generation))),
        ) => {
            &&& ask matches Ask::Preimage(admission) && crate::backend::identity::admits(
                admission,
                before.network@,
                KeyScheme::Ed25519,
                device@,
                generation,
                number,
                now,
            )
            &&& after.phase == (RecoverPhase::Consenting {
                number,
                expires_at: (now + crate::backend::passkey::CONSENT_TTL_MS) as u64,
            })
        },
        (RecoverPhase::Admitting { .. }, Told::Reply(Ok(_))) => after.phase is Over
            && crate::backend::flow::fails(ask, crate::backend::flow::no_generation()),
        (RecoverPhase::Admitting { .. }, Told::Reply(Err(said))) => after.phase is Over
            && crate::backend::flow::fails(ask, said@),
        (
            RecoverPhase::Consenting { number, expires_at },
            Told::Preimage { namespace, preimage },
        ) => after.phase is Submitting && (ask matches Ask::SubmitSeated(op)
            && crate::backend::identity::adds(
            op,
            KeyScheme::Ed25519,
            "Desktop"@,
            before.public@,
            number,
            expires_at,
            crate::outside::ed25519_signature(secret, namespace@, preimage@),
        )),
        (RecoverPhase::Submitting, Told::Output(Ok(_))) => after.phase is Over && ask == Ask::Done(
            Ok::<(), String>(()),
        ),
        (RecoverPhase::Submitting, Told::Output(Err(said))) => after.phase is Over
            && crate::backend::flow::fails(ask, said@),
        _ => after.phase == before.phase && ask is Wait,
    }
}

impl JoinWithRecoveryKey {
    /// Begins: the flow, and what it asks first.
    pub fn begin(network: &str, secret: &[u8; 32]) -> (begun: (Self, Ask<()>))
        ensures
            begun.0.network@ == network@,
            begun.0.public@ == crate::outside::ed25519_public(secret@),
            begun.0.phase is Number,
            crate::backend::flow::asks_of_key(begun.1, begun.0.public@),
    {
        let public = public_key(secret);
        let ask = Ask::Ask(Query::OfKey { key: bytes_of(public.as_slice()) });
        (
            JoinWithRecoveryKey {
                network: network.to_owned(),
                public,
                phase: RecoverPhase::Number,
            },
            ask,
        )
    }

    fn at(self, phase: RecoverPhase, ask: Ask<()>) -> (next: (Self, Ask<()>))
        ensures
            next.0 == (JoinWithRecoveryKey { phase, ..self }),
            next.1 == ask,
    {
        (JoinWithRecoveryKey { network: self.network, public: self.public, phase }, ask)
    }

    /// What the flow asks next, told `told` at `now` (unix ms).
    pub fn step(self, told: Told, now: u64, secret: &[u8; 32]) -> (next: (Self, Ask<()>))
        requires
            told matches Told::Preimage { namespace, .. } ==> namespace@.len() <= u32::MAX,
            now + crate::backend::passkey::CONSENT_TTL_MS <= u64::MAX,
        ensures
            recover_stepped(self, told, now, secret@, next.0, next.1),
    {
        let JoinWithRecoveryKey { network, public, phase } = self;
        let flow = JoinWithRecoveryKey { network, public, phase: RecoverPhase::Over };
        match (phase, told) {
            (RecoverPhase::Number, Told::Reply(reply)) => match reply {
                Ok(Reply::Number(Some(number))) => flow.at(
                    RecoverPhase::Holder { number },
                    Ask::Ask(Query::Get { number }),
                ),
                Ok(Reply::Number(None)) => {
                    let said = joined3(
                        "That recovery key isn't on an account on ",
                        flow.network.as_str(),
                        ".",
                    );
                    flow.at(RecoverPhase::Over, Ask::Done(Err(said)))
                },
                Ok(_) => flow.at(
                    RecoverPhase::Over,
                    Ask::Done(
                        Err(
                            "identity answered something other than an account number".to_owned(),
                        ),
                    ),
                ),
                Err(said) => flow.at(RecoverPhase::Over, Ask::Done(Err(said))),
            },
            (RecoverPhase::Holder { number }, Told::Reply(reply)) => match reply {
                Ok(reply) => match account_in(reply, flow.network.as_str()) {
                    Ok(account) => match person(&account) {
                        Ok(_) => flow.at(RecoverPhase::Key { number }, Ask::SeatedKey),
                        Err(said) => flow.at(RecoverPhase::Over, Ask::Done(Err(said))),
                    },
                    Err(said) => flow.at(RecoverPhase::Over, Ask::Done(Err(said))),
                },
                Err(said) => flow.at(RecoverPhase::Over, Ask::Done(Err(said))),
            },
            (RecoverPhase::Key { number }, Told::Key(key)) => match key {
                Ok(device) => {
                    let ask = Ask::Ask(Query::Generation { key: bytes_of(device.as_slice()) });
                    flow.at(RecoverPhase::Admitting { number, device }, ask)
                },
                Err(said) => flow.at(RecoverPhase::Over, Ask::Done(Err(said))),
            },
            (RecoverPhase::Admitting { number, device }, Told::Reply(reply)) => match reply {
                Ok(Reply::Generation(generation)) => {
                    let asked = admission(
                        flow.network.as_str(),
                        KeyScheme::Ed25519,
                        device.as_slice(),
                        generation,
                        number,
                        now,
                    );
                    let expires_at = asked.expires_at;
                    flow.at(RecoverPhase::Consenting { number, expires_at }, Ask::Preimage(asked))
                },
                Ok(_) => flow.at(
                    RecoverPhase::Over,
                    Ask::Done(
                        Err("identity answered something other than a generation".to_owned()),
                    ),
                ),
                Err(said) => flow.at(RecoverPhase::Over, Ask::Done(Err(said))),
            },
            (
                RecoverPhase::Consenting { number, expires_at },
                Told::Preimage { namespace, preimage },
            ) => {
                let proof_bytes = sign(secret, namespace.as_slice(), preimage.as_slice());
                let key = bytes_of(flow.public.as_slice());
                let add = add_key(
                    KeyScheme::Ed25519,
                    "Desktop",
                    key,
                    number,
                    expires_at,
                    proof_bytes,
                );
                flow.at(RecoverPhase::Submitting, Ask::SubmitSeated(add))
            },
            (RecoverPhase::Submitting, Told::Output(output)) => match output {
                Ok(_) => flow.at(RecoverPhase::Over, Ask::Done(Ok(()))),
                Err(said) => flow.at(RecoverPhase::Over, Ask::Done(Err(said))),
            },
            (phase, _) => flow.at(phase, Ask::Wait),
        }
    }
}

// ---------- laws ----------
/// The write that adds a recovery key carries the consent that was signed: to
/// the recovery key, for the account the device holds, until the deadline in
/// the admission.
pub proof fn the_recovery_key_is_added_by_the_consent_signed(
    admitting: AddRecoveryKey,
    generation: u64,
    now: u64,
    secret: Seq<u8>,
    signing: AddRecoveryKey,
    signs: Ask<()>,
    device: Vec<u8>,
    proof_bytes: Vec<u8>,
    later: u64,
    sequencing: AddRecoveryKey,
    sequences: Ask<()>,
)
    ensures
        admitting.phase is Admitting && now + crate::backend::passkey::CONSENT_TTL_MS <= u64::MAX
            && add_stepped(
            admitting,
            Told::Reply(Ok(Reply::Generation(generation))),
            now,
            secret,
            signing,
            signs,
        ) && add_stepped(
            signing,
            Told::Signed(Ok((device, proof_bytes))),
            later,
            secret,
            sequencing,
            sequences,
        ) ==> (signs matches Ask::SeatedSign(admission)
            && sequencing.phase matches AddPhase::Sequencing { add } && admission.key@
            == admitting.public@ && admission.account == admitting.phase->Admitting_number
            && crate::backend::identity::adds(
            add,
            admission.scheme,
            "Recovery key"@,
            device@,
            admission.account,
            admission.expires_at,
            proof_bytes@,
        )),
{
}

/// The write by which a device joins carries the recovery key's consent: its
/// signature over the bytes of the admission, which is of the device's key to
/// the account the recovery key is on.
pub proof fn the_device_joins_by_the_recovery_keys_consent(
    admitting: JoinWithRecoveryKey,
    generation: u64,
    now: u64,
    secret: Seq<u8>,
    consenting: JoinWithRecoveryKey,
    consents: Ask<()>,
    namespace: Vec<u8>,
    preimage: Vec<u8>,
    later: u64,
    joining: JoinWithRecoveryKey,
    joins: Ask<()>,
)
    ensures
        admitting.phase is Admitting && now + crate::backend::passkey::CONSENT_TTL_MS <= u64::MAX
            && recover_stepped(
            admitting,
            Told::Reply(Ok(Reply::Generation(generation))),
            now,
            secret,
            consenting,
            consents,
        ) && recover_stepped(
            consenting,
            Told::Preimage { namespace, preimage },
            later,
            secret,
            joining,
            joins,
        ) ==> (consents matches Ask::Preimage(admission) && admission.key@
            == admitting.phase->device@ && admission.account == admitting.phase->Admitting_number
            && (joins matches Ask::SubmitSeated(op) && crate::backend::identity::adds(
            op,
            admission.scheme,
            "Desktop"@,
            admitting.public@,
            admission.account,
            admission.expires_at,
            crate::outside::ed25519_signature(secret, namespace@, preimage@),
        ))),
{
}

// ---------- a whole run ----------
/// Whether `steps` are the steps of the flow that begins as `begun`.
pub open spec fn add_run(begun: AddRecoveryKey, steps: Seq<crate::backend::flow::Step<AddRecoveryKey, ()>>, secret: Seq<u8>) -> bool
    decreases steps.len(),
{
    if steps.len() == 0 {
        begun.phase is Key
    } else {
        add_run(begun, steps.drop_last(), secret) && add_stepped(
            crate::backend::flow::flow_after(begun, steps.drop_last()),
            steps.last().told,
            steps.last().now,
            secret,
            steps.last().flow,
            steps.last().ask,
        )
    }
}

/// What the flow waits for is what it asked for.
spec fn add_run_waits(flow: AddRecoveryKey, asked: Ask<()>) -> bool {
    match flow.phase {
        AddPhase::Key => asked is SeatedKey,
        AddPhase::Number => asked is Ask,
        AddPhase::Holder { .. } => asked is Ask,
        AddPhase::Admitting { .. } => asked is Ask,
        AddPhase::Signing { .. } => asked is SeatedSign,
        AddPhase::Sequencing { add } => asked is NextSeq && add is AddKey,
        AddPhase::Encoding { .. } => asked matches Ask::Encode(op) && op is AddKey,
        AddPhase::Submitting => asked is Submit,
        AddPhase::Over => asked is Done,
    }
}

proof fn add_run_holds(
    begun: AddRecoveryKey,
    first: Ask<()>,
    steps: Seq<crate::backend::flow::Step<AddRecoveryKey, ()>>, secret: Seq<u8>,
)
    requires
        add_run(begun, steps, secret),
        first is SeatedKey,
    ensures
        add_run_waits(
            crate::backend::flow::flow_after(begun, steps),
            crate::backend::flow::pending(first, steps),
        ),
        crate::backend::flow::flow_after(begun, steps).network == begun.network,
        crate::backend::flow::flow_after(begun, steps).module == begun.module,
        crate::backend::flow::flow_after(begun, steps).public == begun.public,
    decreases steps.len(),
{
    if steps.len() > 0 {
        add_run_holds(begun, first, steps.drop_last(), secret);
    }
}

/// However adding a recovery key goes: the flow waits for what it asked for,
/// and anything else changes nothing. Whatever goes wrong with that ends it in
/// those words, and it is done exactly when the node takes its frame.
pub proof fn a_recovery_key_is_added_as_the_node_says(
    begun: AddRecoveryKey,
    first: Ask<()>,
    steps: Seq<crate::backend::flow::Step<AddRecoveryKey, ()>>, secret: Seq<u8>,
)
    ensures
        add_run(begun, steps, secret) && first is SeatedKey && steps.len() > 0 ==> {
            let asked = crate::backend::flow::pending(first, steps.drop_last());
            let last = steps.last();
            &&& last.ask is Wait <==> !crate::backend::flow::answers(asked, last.told)
            &&& last.ask is Wait ==> last.flow == crate::backend::flow::flow_after(
                begun,
                steps.drop_last(),
            )
            &&& crate::backend::flow::answers(asked, last.told)
                && crate::backend::flow::went_wrong(last.told) is Some ==> (
            last.ask matches Ask::Done(Err(said)) && said@ == crate::backend::flow::went_wrong(
                last.told,
            )->0)
            &&& (last.ask matches Ask::Done(Ok(_))) <==> asked is Submit && (
            last.told matches Told::Output(Ok(_)))
            &&& last.ask matches Ask::Encode(op) ==> op is AddKey
            &&& last.flow.network == begun.network && last.flow.module == begun.module
                && last.flow.public == begun.public
        },
{
    if add_run(begun, steps, secret) && first is SeatedKey && steps.len() > 0 {
        add_run_holds(begun, first, steps.drop_last(), secret);
        add_run_holds(begun, first, steps, secret);
    }
}

// ---------- a whole run ----------
/// Whether `steps` are the steps of the flow that begins as `begun`.
pub open spec fn recover_run(begun: JoinWithRecoveryKey, steps: Seq<crate::backend::flow::Step<JoinWithRecoveryKey, ()>>, secret: Seq<u8>) -> bool
    decreases steps.len(),
{
    if steps.len() == 0 {
        begun.phase is Number
    } else {
        recover_run(begun, steps.drop_last(), secret) && recover_stepped(
            crate::backend::flow::flow_after(begun, steps.drop_last()),
            steps.last().told,
            steps.last().now,
            secret,
            steps.last().flow,
            steps.last().ask,
        )
    }
}

/// What the flow waits for is what it asked for.
spec fn recover_run_waits(flow: JoinWithRecoveryKey, asked: Ask<()>) -> bool {
    match flow.phase {
        RecoverPhase::Number => asked is Ask,
        RecoverPhase::Holder { .. } => asked is Ask,
        RecoverPhase::Key { .. } => asked is SeatedKey,
        RecoverPhase::Admitting { .. } => asked is Ask,
        RecoverPhase::Consenting { .. } => asked is Preimage,
        RecoverPhase::Submitting => asked matches Ask::SubmitSeated(op) && op is AddKey,
        RecoverPhase::Over => asked is Done,
    }
}

proof fn recover_run_holds(
    begun: JoinWithRecoveryKey,
    first: Ask<()>,
    steps: Seq<crate::backend::flow::Step<JoinWithRecoveryKey, ()>>, secret: Seq<u8>,
)
    requires
        recover_run(begun, steps, secret),
        first is Ask,
    ensures
        recover_run_waits(
            crate::backend::flow::flow_after(begun, steps),
            crate::backend::flow::pending(first, steps),
        ),
        crate::backend::flow::flow_after(begun, steps).network == begun.network,
        crate::backend::flow::flow_after(begun, steps).public == begun.public,
    decreases steps.len(),
{
    if steps.len() > 0 {
        recover_run_holds(begun, first, steps.drop_last(), secret);
    }
}

/// However joining by a recovery key goes: the flow waits for what it asked
/// for, and anything else changes nothing. Whatever goes wrong with that ends
/// it in those words, and it is done exactly when the node takes the write
/// that adds the device's key.
pub proof fn a_device_joins_by_words_as_the_node_says(
    begun: JoinWithRecoveryKey,
    first: Ask<()>,
    steps: Seq<crate::backend::flow::Step<JoinWithRecoveryKey, ()>>, secret: Seq<u8>,
)
    ensures
        recover_run(begun, steps, secret) && first is Ask && steps.len() > 0 ==> {
            let asked = crate::backend::flow::pending(first, steps.drop_last());
            let last = steps.last();
            &&& last.ask is Wait <==> !crate::backend::flow::answers(asked, last.told)
            &&& last.ask is Wait ==> last.flow == crate::backend::flow::flow_after(
                begun,
                steps.drop_last(),
            )
            &&& crate::backend::flow::answers(asked, last.told)
                && crate::backend::flow::went_wrong(last.told) is Some ==> (
            last.ask matches Ask::Done(Err(said)) && said@ == crate::backend::flow::went_wrong(
                last.told,
            )->0)
            &&& (last.ask matches Ask::Done(Ok(_))) <==> (asked matches Ask::SubmitSeated(op)
                && op is AddKey) && (last.told matches Told::Output(Ok(_)))
            &&& last.flow.network == begun.network && last.flow.public == begun.public
        },
{
    if recover_run(begun, steps, secret) && first is Ask && steps.len() > 0 {
        recover_run_holds(begun, first, steps.drop_last(), secret);
        recover_run_holds(begun, first, steps, secret);
    }
}

/// The whole of putting a recovery key on the account the device holds, told
/// what it asks for: that account is a person's; the device's consent is to the
/// recovery key, for a quarter of an hour; and the recovery key signs the frame
/// of the write that carries it, under the number it was told.
pub proof fn the_whole_of_adding_a_recovery_key(
    begun: AddRecoveryKey,
    secret: Seq<u8>,
    device: Vec<u8>,
    at_key: u64,
    looking: AddRecoveryKey,
    looks: Ask<()>,
    number: u64,
    at_number: u64,
    reading: AddRecoveryKey,
    reads: Ask<()>,
    account: crate::backend::identity::Account,
    at_account: u64,
    admitting: AddRecoveryKey,
    admits: Ask<()>,
    generation: u64,
    now: u64,
    signing: AddRecoveryKey,
    signs: Ask<()>,
    signer: Vec<u8>,
    consent_proof: Vec<u8>,
    at_consent: u64,
    sequencing: AddRecoveryKey,
    sequences: Ask<()>,
    seq: u64,
    at_seq: u64,
    encoding: AddRecoveryKey,
    encodes: Ask<()>,
    payload: Vec<u8>,
    at_payload: u64,
    submitting: AddRecoveryKey,
    submits: Ask<()>,
)
    ensures
        begun.phase is Key && account.control is Person && now + 900_000 <= u64::MAX
            && add_stepped(begun, Told::Key(Ok(device)), at_key, secret, looking, looks)
            && add_stepped(
            looking,
            Told::Reply(Ok(Reply::Number(Some(number)))),
            at_number,
            secret,
            reading,
            reads,
        ) && add_stepped(
            reading,
            Told::Reply(Ok(Reply::Account(Some(account)))),
            at_account,
            secret,
            admitting,
            admits,
        ) && add_stepped(
            admitting,
            Told::Reply(Ok(Reply::Generation(generation))),
            now,
            secret,
            signing,
            signs,
        ) && add_stepped(
            signing,
            Told::Signed(Ok((signer, consent_proof))),
            at_consent,
            secret,
            sequencing,
            sequences,
        ) && add_stepped(
            sequencing,
            Told::NextSeq(Ok(seq)),
            at_seq,
            secret,
            encoding,
            encodes,
        ) && add_stepped(
            encoding,
            Told::Payload(payload),
            at_payload,
            secret,
            submitting,
            submits,
        ) ==> {
            let body = crate::backend::noded::BodyView {
                scheme: KeyScheme::Ed25519,
                signer: crate::outside::ed25519_public(secret),
                network: encode_utf8(begun.network@),
                seq,
                target: begun.module@,
                payload: payload@,
            };
            &&& looks matches Ask::Ask(Query::OfKey { key }) && key@ == device@
            &&& reads matches Ask::Ask(Query::Get { number: n }) && n == number
            &&& admits matches Ask::Ask(Query::Generation { key }) && key@ == begun.public@
            &&& signs matches Ask::SeatedSign(admission) && admission.network@ == encode_utf8(
                begun.network@,
            ) && admission.scheme == KeyScheme::Ed25519 && admission.key@ == begun.public@
                && admission.generation == generation && admission.account == number
                && admission.expires_at == now + 900_000
            &&& sequences matches Ask::NextSeq(key) && key@ == begun.public@
            &&& encodes matches Ask::Encode(Op::AddKey { scheme, label: Some(label), consent })
                && scheme == KeyScheme::Ed25519 && label@ == "Recovery key"@ && consent.key@
                == signer@ && consent.account == number && consent.expires_at == now + 900_000
                && consent.proof@ == consent_proof@
            &&& submits matches Ask::Submit(frame) && frame@ == <Frame as Wire>::put(
                crate::backend::noded::FrameView {
                    body,
                    proof: crate::outside::ed25519_signature(
                        secret,
                        encode_utf8("ducktape:frame"@),
                        <crate::backend::noded::Body as Wire>::put(body),
                    ),
                },
            )
        },
{
}

/// The whole of joining by a recovery key, told what it asks for: the account
/// is the one identity has for that key, and a person's; the seated key is the
/// one admitted to it, for a quarter of an hour; and the write adds it by the
/// recovery key's own signature over the bytes of that admission.
pub proof fn the_whole_of_joining_by_a_recovery_key(
    begun: JoinWithRecoveryKey,
    secret: Seq<u8>,
    number: u64,
    at_number: u64,
    reading: JoinWithRecoveryKey,
    reads: Ask<()>,
    account: crate::backend::identity::Account,
    at_account: u64,
    keyed: JoinWithRecoveryKey,
    keys: Ask<()>,
    device: Vec<u8>,
    at_key: u64,
    admitting: JoinWithRecoveryKey,
    admits: Ask<()>,
    generation: u64,
    now: u64,
    consenting: JoinWithRecoveryKey,
    consents: Ask<()>,
    namespace: Vec<u8>,
    preimage: Vec<u8>,
    at_preimage: u64,
    joining: JoinWithRecoveryKey,
    joins: Ask<()>,
)
    ensures
        begun.phase is Number && account.control is Person && now + 900_000 <= u64::MAX
            && recover_stepped(
            begun,
            Told::Reply(Ok(Reply::Number(Some(number)))),
            at_number,
            secret,
            reading,
            reads,
        ) && recover_stepped(
            reading,
            Told::Reply(Ok(Reply::Account(Some(account)))),
            at_account,
            secret,
            keyed,
            keys,
        ) && recover_stepped(keyed, Told::Key(Ok(device)), at_key, secret, admitting, admits)
            && recover_stepped(
            admitting,
            Told::Reply(Ok(Reply::Generation(generation))),
            now,
            secret,
            consenting,
            consents,
        ) && recover_stepped(
            consenting,
            Told::Preimage { namespace, preimage },
            at_preimage,
            secret,
            joining,
            joins,
        ) ==> {
            &&& reads matches Ask::Ask(Query::Get { number: n }) && n == number
            &&& keys is SeatedKey
            &&& admits matches Ask::Ask(Query::Generation { key }) && key@ == device@
            &&& consents matches Ask::Preimage(admission) && admission.network@ == encode_utf8(
                begun.network@,
            ) && admission.scheme == KeyScheme::Ed25519 && admission.key@ == device@
                && admission.generation == generation && admission.account == number
                && admission.expires_at == now + 900_000
            &&& joins matches Ask::SubmitSeated(Op::AddKey { scheme, label: Some(label), consent })
                && scheme == KeyScheme::Ed25519 && label@ == "Desktop"@ && consent.key@
                == begun.public@ && consent.account == number && consent.expires_at == now
                + 900_000 && consent.proof@ == crate::outside::ed25519_signature(
                secret,
                namespace@,
                preimage@,
            )
        },
{
}

/// A key that is on no account, or on one that is not a person's, is turned
/// away by both flows: the one adds nothing to it, the other joins nothing.
pub proof fn a_recovery_key_is_for_a_persons_account(
    adding: AddRecoveryKey,
    joining: JoinWithRecoveryKey,
    secret: Seq<u8>,
    reply: Reply,
    now: u64,
    added: AddRecoveryKey,
    adds: Ask<()>,
    joined: JoinWithRecoveryKey,
    joins: Ask<()>,
)
    ensures
        !(reply matches Reply::Number(Some(_))) ==> {
            &&& adding.phase is Number && add_stepped(
                adding,
                Told::Reply(Ok(reply)),
                now,
                secret,
                added,
                adds,
            ) ==> (adds matches Ask::Done(Err(_)))
            &&& joining.phase is Number && recover_stepped(
                joining,
                Told::Reply(Ok(reply)),
                now,
                secret,
                joined,
                joins,
            ) ==> (joins matches Ask::Done(Err(_)))
        },
        !(reply matches Reply::Account(Some(account)) && account.control is Person) ==> {
            &&& adding.phase is Holder && add_stepped(
                adding,
                Told::Reply(Ok(reply)),
                now,
                secret,
                added,
                adds,
            ) ==> (adds matches Ask::Done(Err(_)))
            &&& joining.phase is Holder && recover_stepped(
                joining,
                Told::Reply(Ok(reply)),
                now,
                secret,
                joined,
                joins,
            ) ==> (joins matches Ask::Done(Err(_)))
        },
{
}

/// A seed of 32 bytes is the secret it makes, byte for byte; none, or another
/// length, makes no key, and what is said tells the two apart.
pub proof fn a_seed_is_its_own_key(seed: Option<&[u8]>, secret: Result<[u8; 32], String>)
    requires
        call_ensures(key_of_phrase, (seed,), secret),
    ensures
        secret is Ok <==> seed is Some && seed->0@.len() == 32,
        secret matches Ok(secret) ==> secret@ == seed->0@,
        seed is None ==> secret->Err_0@ == "Those words aren't a recovery key — check each one."@,
        seed is Some && secret is Err ==> secret->Err_0@ == "Those words make no key."@,
{
}

/// Adding a recovery key begins with the seated key, and holds the recovery
/// key's public half; joining by one begins with the account it is on.
pub proof fn a_recovery_flow_begins_with_its_key(
    network: &str,
    module: &str,
    secret: &[u8; 32],
    added: (AddRecoveryKey, Ask<()>),
    joined: (JoinWithRecoveryKey, Ask<()>),
)
    requires
        call_ensures(AddRecoveryKey::begin, (network, module, secret), added),
        call_ensures(JoinWithRecoveryKey::begin, (network, secret), joined),
    ensures
        added.0.network@ == network@ && added.0.module@ == module@,
        added.0.public@ == crate::outside::ed25519_public(secret@),
        added.0.phase is Key && added.1 is SeatedKey,
        joined.0.network@ == network@,
        joined.0.public@ == crate::outside::ed25519_public(secret@),
        joined.0.phase is Number,
        joined.1 matches Ask::Ask(Query::OfKey { key }) && key@ == crate::outside::ed25519_public(
            secret@,
        ),
{
}

/// From the seated key to the recovery key: the seated key's account is asked
/// for, then whose it is, and a person's has the recovery key admitted to it.
pub proof fn a_recovery_key_is_added_to_the_seated_keys_account(
    flow: AddRecoveryKey,
    told: Told,
    now: u64,
    secret: &[u8; 32],
    next: (AddRecoveryKey, Ask<()>),
)
    requires
        call_ensures(AddRecoveryKey::step, (flow, told, now, secret), next),
    ensures
        flow.phase is Key ==> (told matches Told::Key(Ok(device)) ==> next.0.phase is Number && (
        next.1 matches Ask::Ask(Query::OfKey { key }) && key@ == device@)),
        flow.phase is Number ==> (told matches Told::Reply(Ok(Reply::Number(Some(number))))
            ==> next.0.phase == (AddPhase::Holder { number }) && (next.1 matches Ask::Ask(
            Query::Get { number: asked },
        ) && asked == number)),
        flow.phase is Number ==> (told matches Told::Reply(Ok(Reply::Number(None)))
            ==> next.0.phase is Over && (next.1 matches Ask::Done(Err(said)) && said@
            == "This device's key holds no account yet."@)),
        flow.phase is Number ==> (told matches Told::Reply(Ok(reply)) ==> !(reply is Number)
            ==> next.0.phase is Over && (next.1 matches Ask::Done(Err(said)) && said@
            == "identity answered something other than an account number"@)),
        flow.phase is Holder ==> (told matches Told::Reply(Ok(Reply::Account(Some(account))))
            ==> account.control is Person ==> next.0.phase == (AddPhase::Admitting {
            number: flow.phase->Holder_number,
        }) && (next.1 matches Ask::Ask(Query::Generation { key }) && key@ == flow.public@)),
        flow.phase is Holder ==> (told matches Told::Reply(Ok(Reply::Account(Some(account))))
            ==> !(account.control is Person) ==> next.0.phase is Over && (next.1 matches Ask::Done(
            Err(said),
        ) && Some(said@) == crate::backend::identity::not_a_person(account))),
        flow.phase is Holder ==> (told matches Told::Reply(Ok(reply)) ==> !(reply is Account
            && reply->Account_0 is Some) ==> next.0.phase is Over && (next.1 matches Ask::Done(
            Err(said),
        ) && said@ == "This names an account "@ + flow.network@ + " does not have."@)),
        flow.phase is Admitting ==> (told matches Told::Reply(Ok(reply)) ==> !(reply is Generation)
            ==> next.0.phase is Over && (next.1 matches Ask::Done(Err(said)) && said@
            == "identity answered something other than a generation"@)),
{
}

/// From a recovery key to the seated key: the recovery key's account is asked
/// for, then whose it is, and the seated key joins a person's.
pub proof fn a_device_joins_the_recovery_keys_account(
    flow: JoinWithRecoveryKey,
    told: Told,
    now: u64,
    secret: &[u8; 32],
    next: (JoinWithRecoveryKey, Ask<()>),
)
    requires
        call_ensures(JoinWithRecoveryKey::step, (flow, told, now, secret), next),
    ensures
        flow.phase is Number ==> (told matches Told::Reply(Ok(Reply::Number(Some(number))))
            ==> next.0.phase == (RecoverPhase::Holder { number }) && (next.1 matches Ask::Ask(
            Query::Get { number: asked },
        ) && asked == number)),
        flow.phase is Number ==> (told matches Told::Reply(Ok(Reply::Number(None)))
            ==> next.0.phase is Over && (next.1 matches Ask::Done(Err(said)) && said@
            == "That recovery key isn't on an account on "@ + flow.network@ + "."@)),
        flow.phase is Number ==> (told matches Told::Reply(Ok(reply)) ==> !(reply is Number)
            ==> next.0.phase is Over && (next.1 matches Ask::Done(Err(said)) && said@
            == "identity answered something other than an account number"@)),
        flow.phase is Holder ==> (told matches Told::Reply(Ok(Reply::Account(Some(account))))
            ==> account.control is Person ==> next.0.phase == (RecoverPhase::Key {
            number: flow.phase->Holder_number,
        }) && next.1 is SeatedKey),
        flow.phase is Holder ==> (told matches Told::Reply(Ok(Reply::Account(Some(account))))
            ==> !(account.control is Person) ==> next.0.phase is Over && (next.1 matches Ask::Done(
            Err(said),
        ) && Some(said@) == crate::backend::identity::not_a_person(account))),
        flow.phase is Holder ==> (told matches Told::Reply(Ok(reply)) ==> !(reply is Account
            && reply->Account_0 is Some) ==> next.0.phase is Over && (next.1 matches Ask::Done(
            Err(said),
        ) && said@ == "This names an account "@ + flow.network@ + " does not have."@)),
        flow.phase is Admitting ==> (told matches Told::Reply(Ok(reply)) ==> !(reply is Generation)
            ==> next.0.phase is Over && (next.1 matches Ask::Done(Err(said)) && said@
            == "identity answered something other than a generation"@)),
{
}

} // verus!
