//! A new account held by a passkey, with this device's seated key on it too.

use vstd::prelude::*;
use vstd::utf8::*;

use crate::backend::flow::Ask;
use crate::backend::flow::Told;
use crate::backend::identity::Op;
use crate::backend::identity::Query;
use crate::backend::identity::Reply;
use crate::backend::identity::account_in;
use crate::backend::identity::add_key;
use crate::backend::identity::admission;
use crate::backend::identity::person;
use crate::backend::noded::Body;
use crate::backend::noded::KeyScheme;
use crate::backend::passkey::Request;
use crate::backend::passkey::asserted;
use crate::backend::passkey::created;
use crate::backend::passkey::passkey_body;
use crate::backend::passkey::passkey_frame;
use crate::backend::passkey::user_handle;
use crate::backend::wire::Wire;
use crate::backend::wire::bytes_of;
use crate::text::joined3;

verus! {

/// Where the flow stands: what it asked for last, and what it holds.
pub enum CreatePhase {
    /// The seated key.
    Key,
    /// The account that key is on already.
    Number,
    /// Whose that account is.
    Holder { number: u64 },
    /// A new account.
    Creating,
    /// A new passkey.
    Making { number: u64 },
    /// The passkey's generation.
    Admitting { number: u64, passkey: Vec<u8> },
    /// The seated key's consent to the passkey.
    Signing { number: u64, passkey: Vec<u8>, expires_at: u64 },
    /// The number of the passkey's first frame.
    Sequencing { passkey: Vec<u8>, add: Op },
    /// The bytes of the write that adds it.
    Encoding { passkey: Vec<u8>, seq: u64 },
    /// The passkey's signature on the frame.
    Asserting { body: Body },
    /// Whether it is that passkey's.
    Verifying { body: Body },
    /// The node's answer.
    Submitting,
    Over,
}

/// A new account held by a passkey. Retry-safe: a device key that already
/// holds an account keeps it, and the passkey joins that one. `module` is
/// identity's name on the node.
pub struct CreateAccount {
    pub network: String,
    pub name: String,
    pub module: String,
    pub phase: CreatePhase,
}

/// What a new passkey is called.
pub open spec fn passkey_name(name: Seq<char>, network: Seq<char>) -> Seq<char> {
    name + " · "@ + network
}

/// Whether `ask` asks for a new passkey for the account `number`.
pub open spec fn asks_passkey(flow: CreateAccount, number: u64, ask: Ask<()>) -> bool {
    ask matches Ask::Touch(Request::Create { user, name }) && user@
        == crate::backend::passkey::handle_of(flow.network@, number) && name@ == passkey_name(
        flow.name@,
        flow.network@,
    )
}

/// Whether `body` is the frame body by which the passkey `passkey` says
/// `payload`.
pub open spec fn is_body(
    flow: CreateAccount,
    passkey: Seq<u8>,
    seq: u64,
    payload: Seq<u8>,
    body: Body,
) -> bool {
    &&& body.scheme == KeyScheme::Secp256r1
    &&& body.signer@ == passkey
    &&& body.network@ == encode_utf8(flow.network@)
    &&& body.seq == seq
    &&& body.target@ == flow.module@
    &&& body.payload@ == payload
}

/// Whether telling the flow `told` at `now` makes it `after`, asking `ask`.
pub open spec fn create_stepped(
    before: CreateAccount,
    told: Told,
    now: u64,
    after: CreateAccount,
    ask: Ask<()>,
) -> bool {
    &&& after.network == before.network
    &&& after.name == before.name
    &&& after.module == before.module
    &&& match (before.phase, told) {
        (CreatePhase::Key, Told::Key(Ok(device))) => after.phase is Number
            && crate::backend::flow::asks_of_key(ask, device@),
        (CreatePhase::Key, Told::Key(Err(said))) => after.phase is Over
            && crate::backend::flow::fails(ask, said@),
        (CreatePhase::Number, Told::Reply(Ok(Reply::Number(Some(number))))) => after.phase == (
        CreatePhase::Holder { number }) && crate::backend::flow::asks_account(ask, number),
        (CreatePhase::Number, Told::Reply(Ok(_))) => after.phase is Creating
            && (ask matches Ask::Create { name } && name@ == before.name@),
        (CreatePhase::Number, Told::Reply(Err(said))) => after.phase is Over
            && crate::backend::flow::fails(ask, said@),
        (CreatePhase::Holder { number }, Told::Reply(Ok(Reply::Account(Some(account))))) => {
            match crate::backend::identity::not_a_person(account) {
                None => after.phase == (CreatePhase::Making { number }) && asks_passkey(
                    before,
                    number,
                    ask,
                ),
                Some(said) => after.phase is Over && crate::backend::flow::fails(ask, said),
            }
        },
        (CreatePhase::Holder { .. }, Told::Reply(Ok(_))) => after.phase is Over
            && crate::backend::flow::fails(
            ask,
            crate::backend::identity::no_account(before.network@),
        ),
        (CreatePhase::Holder { .. }, Told::Reply(Err(said))) => after.phase is Over
            && crate::backend::flow::fails(ask, said@),
        (CreatePhase::Creating, Told::Number(Ok(number))) => after.phase == (CreatePhase::Making {
            number,
        }) && asks_passkey(before, number, ask),
        (CreatePhase::Creating, Told::Number(Err(said))) => after.phase is Over
            && crate::backend::flow::fails(ask, said@),
        (
            CreatePhase::Making { number },
            Told::Touched(Ok(crate::backend::passkey::Outcome::Created(passkey))),
        ) => after.phase == (CreatePhase::Admitting { number, passkey })
            && crate::backend::flow::asks_generation(ask, passkey@),
        (CreatePhase::Making { .. }, Told::Touched(Ok(_))) => after.phase is Over
            && crate::backend::flow::fails(
            ask,
            "The browser answered a different step. Try again."@,
        ),
        (CreatePhase::Making { .. }, Told::Touched(Err(said))) => after.phase is Over
            && crate::backend::flow::fails(ask, said@),
        (
            CreatePhase::Admitting { number, passkey },
            Told::Reply(Ok(Reply::Generation(generation))),
        ) => {
            &&& ask matches Ask::SeatedSign(admission) && crate::backend::identity::admits(
                admission,
                before.network@,
                KeyScheme::Secp256r1,
                passkey@,
                generation,
                number,
                now,
            )
            &&& after.phase == (CreatePhase::Signing {
                number,
                passkey,
                expires_at: (now + crate::backend::passkey::CONSENT_TTL_MS) as u64,
            })
        },
        (CreatePhase::Admitting { .. }, Told::Reply(Ok(_))) => after.phase is Over
            && crate::backend::flow::fails(ask, crate::backend::flow::no_generation()),
        (CreatePhase::Admitting { .. }, Told::Reply(Err(said))) => after.phase is Over
            && crate::backend::flow::fails(ask, said@),
        (
            CreatePhase::Signing { number, passkey, expires_at },
            Told::Signed(Ok((device, proof_bytes))),
        ) => {
            &&& after.phase matches CreatePhase::Sequencing { passkey: kept, add } && kept == passkey
                && crate::backend::identity::adds(
                add,
                KeyScheme::Secp256r1,
                "Passkey"@,
                device@,
                number,
                expires_at,
                proof_bytes@,
            )
            &&& ask matches Ask::NextSeq(key) && key@ == passkey@
        },
        (CreatePhase::Signing { .. }, Told::Signed(Err(said))) => after.phase is Over
            && crate::backend::flow::fails(ask, said@),
        (CreatePhase::Sequencing { passkey, add }, Told::NextSeq(Ok(seq))) => after.phase == (
        CreatePhase::Encoding { passkey, seq }) && ask == Ask::<()>::Encode(add),
        (CreatePhase::Sequencing { .. }, Told::NextSeq(Err(said))) => after.phase is Over
            && crate::backend::flow::fails(ask, said@),
        (CreatePhase::Encoding { passkey, seq }, Told::Payload(payload)) => {
            &&& after.phase matches CreatePhase::Asserting { body } && is_body(
                before,
                passkey@,
                seq,
                payload@,
                body,
            ) && (ask matches Ask::AssertFrame { preimage } && preimage@ == <Body as Wire>::put(
                body.deep_view(),
            ))
        },
        (
            CreatePhase::Asserting { body },
            Told::Touched(Ok(crate::backend::passkey::Outcome::Asserted(assertion))),
        ) => {
            &&& after.phase == (CreatePhase::Verifying { body })
            &&& ask matches Ask::VerifyFrame { signer, preimage, assertion: asked } && signer@
                == body.signer@ && preimage@ == <Body as Wire>::put(body.deep_view()) && asked
                == assertion
        },
        (CreatePhase::Asserting { .. }, Told::Touched(Ok(_))) => after.phase is Over
            && crate::backend::flow::fails(
            ask,
            "The browser answered a different step. Try again."@,
        ),
        (CreatePhase::Asserting { .. }, Told::Touched(Err(said))) => after.phase is Over
            && crate::backend::flow::fails(ask, said@),
        (CreatePhase::Verifying { body }, Told::Proof { proof: proof_bytes, verified }) => {
            if verified {
                &&& after.phase is Submitting
                &&& ask matches Ask::Submit(frame) && frame@ == <crate::backend::noded::Frame as Wire>::put(
                    crate::backend::noded::FrameView {
                        body: body.deep_view(),
                        proof: proof_bytes@,
                    },
                )
            } else {
                after.phase is Over && crate::backend::flow::fails(
                    ask,
                    "That was a different passkey than the one just made. Choose the new one."@,
                )
            }
        },
        (CreatePhase::Submitting, Told::Output(Ok(_))) => after.phase is Over && ask == Ask::Done(
            Ok::<(), String>(()),
        ),
        (CreatePhase::Submitting, Told::Output(Err(said))) => after.phase is Over
            && crate::backend::flow::fails(ask, said@),
        _ => after.phase == before.phase && ask is Wait,
    }
}

/// Whether what the flow holds can go into a frame.
pub open spec fn phase_fits(flow: CreateAccount) -> bool {
    &&& encode_utf8(flow.network@).len() <= u32::MAX
    &&& encode_utf8(flow.module@).len() <= u32::MAX
    &&& match flow.phase {
        CreatePhase::Admitting { passkey, .. } => passkey@.len() <= u32::MAX,
        CreatePhase::Signing { passkey, .. } => passkey@.len() <= u32::MAX,
        CreatePhase::Sequencing { passkey, .. } => passkey@.len() <= u32::MAX,
        CreatePhase::Encoding { passkey, .. } => passkey@.len() <= u32::MAX,
        CreatePhase::Asserting { body } => <Body as Wire>::fits(body.deep_view()),
        CreatePhase::Verifying { body } => <Body as Wire>::fits(body.deep_view()),
        _ => true,
    }
}

/// Whether what a flow is told can go into a frame.
pub open spec fn told_fits(told: Told) -> bool {
    match told {
        Told::Touched(Ok(crate::backend::passkey::Outcome::Created(key))) => key@.len() <= u32::MAX,
        Told::Payload(payload) => payload@.len() <= u32::MAX,
        Told::Proof { proof: proof_bytes, .. } => proof_bytes@.len() <= u32::MAX,
        _ => true,
    }
}

impl CreateAccount {
    /// Begins: the flow, and what it asks first.
    pub fn begin(network: &str, name: &str, module: &str) -> (begun: (Self, Ask<()>))
        requires
            encode_utf8(network@).len() <= u32::MAX,
            encode_utf8(module@).len() <= u32::MAX,
        ensures
            begun.0.network@ == network@,
            begun.0.name@ == name@,
            begun.0.module@ == module@,
            begun.0.phase is Key,
            begun.1 is SeatedKey,
            phase_fits(begun.0),
    {
        (
            CreateAccount {
                network: network.to_owned(),
                name: name.to_owned(),
                module: module.to_owned(),
                phase: CreatePhase::Key,
            },
            Ask::SeatedKey,
        )
    }

    fn touch(&self, number: u64) -> (ask: Ask<()>)
        ensures
            asks_passkey(*self, number, ask),
    {
        Ask::Touch(
            Request::Create {
                user: user_handle(self.network.as_str(), number),
                name: joined3(self.name.as_str(), " · ", self.network.as_str()),
            },
        )
    }

    fn at(self, phase: CreatePhase, ask: Ask<()>) -> (next: (Self, Ask<()>))
        ensures
            next.0 == (CreateAccount { phase, ..self }),
            next.1 == ask,
    {
        (CreateAccount { network: self.network, name: self.name, module: self.module, phase }, ask)
    }

    /// What the flow asks next, told `told` at `now` (unix ms).
    pub fn step(self, told: Told, now: u64) -> (next: (Self, Ask<()>))
        requires
            phase_fits(self),
            told_fits(told),
            now + crate::backend::passkey::CONSENT_TTL_MS <= u64::MAX,
        ensures
            create_stepped(self, told, now, next.0, next.1),
            phase_fits(next.0),
    {
        let CreateAccount { network, name, module, phase } = self;
        let flow = CreateAccount { network, name, module, phase: CreatePhase::Over };
        match (phase, told) {
            (CreatePhase::Key, Told::Key(key)) => match key {
                Ok(device) => flow.at(
                    CreatePhase::Number,
                    Ask::Ask(Query::OfKey { key: device }),
                ),
                Err(said) => flow.at(CreatePhase::Over, Ask::Done(Err(said))),
            },
            (CreatePhase::Number, Told::Reply(reply)) => match reply {
                Ok(Reply::Number(Some(number))) => flow.at(
                    CreatePhase::Holder { number },
                    Ask::Ask(Query::Get { number }),
                ),
                Ok(_) => {
                    let ask = Ask::Create { name: flow.name.clone() };
                    flow.at(CreatePhase::Creating, ask)
                },
                Err(said) => flow.at(CreatePhase::Over, Ask::Done(Err(said))),
            },
            (CreatePhase::Holder { number }, Told::Reply(reply)) => match reply {
                Ok(reply) => match account_in(reply, flow.network.as_str()) {
                    Ok(account) => match person(&account) {
                        Ok(_) => {
                            let ask = flow.touch(number);
                            flow.at(CreatePhase::Making { number }, ask)
                        },
                        Err(said) => flow.at(CreatePhase::Over, Ask::Done(Err(said))),
                    },
                    Err(said) => flow.at(CreatePhase::Over, Ask::Done(Err(said))),
                },
                Err(said) => flow.at(CreatePhase::Over, Ask::Done(Err(said))),
            },
            (CreatePhase::Creating, Told::Number(made)) => match made {
                Ok(number) => {
                    let ask = flow.touch(number);
                    flow.at(CreatePhase::Making { number }, ask)
                },
                Err(said) => flow.at(CreatePhase::Over, Ask::Done(Err(said))),
            },
            (CreatePhase::Making { number }, Told::Touched(outcome)) => match created(outcome) {
                Ok(passkey) => {
                    let ask = Ask::Ask(Query::Generation { key: bytes_of(passkey.as_slice()) });
                    flow.at(CreatePhase::Admitting { number, passkey }, ask)
                },
                Err(said) => flow.at(CreatePhase::Over, Ask::Done(Err(said))),
            },
            (CreatePhase::Admitting { number, passkey }, Told::Reply(reply)) => match reply {
                Ok(Reply::Generation(generation)) => {
                    let asked = admission(
                        flow.network.as_str(),
                        KeyScheme::Secp256r1,
                        passkey.as_slice(),
                        generation,
                        number,
                        now,
                    );
                    let expires_at = asked.expires_at;
                    flow.at(
                        CreatePhase::Signing { number, passkey, expires_at },
                        Ask::SeatedSign(asked),
                    )
                },
                Ok(_) => flow.at(
                    CreatePhase::Over,
                    Ask::Done(
                        Err("identity answered something other than a generation".to_owned()),
                    ),
                ),
                Err(said) => flow.at(CreatePhase::Over, Ask::Done(Err(said))),
            },
            (CreatePhase::Signing { number, passkey, expires_at }, Told::Signed(signed)) => {
                match signed {
                    Ok((device, proof_bytes)) => {
                        let add = add_key(
                            KeyScheme::Secp256r1,
                            "Passkey",
                            device,
                            number,
                            expires_at,
                            proof_bytes,
                        );
                        let ask = Ask::NextSeq(bytes_of(passkey.as_slice()));
                        flow.at(CreatePhase::Sequencing { passkey, add }, ask)
                    },
                    Err(said) => flow.at(CreatePhase::Over, Ask::Done(Err(said))),
                }
            },
            (CreatePhase::Sequencing { passkey, add }, Told::NextSeq(seq)) => match seq {
                Ok(seq) => flow.at(CreatePhase::Encoding { passkey, seq }, Ask::Encode(add)),
                Err(said) => flow.at(CreatePhase::Over, Ask::Done(Err(said))),
            },
            (CreatePhase::Encoding { passkey, seq }, Told::Payload(payload)) => {
                let body = passkey_body(
                    passkey.as_slice(),
                    flow.network.as_str(),
                    seq,
                    flow.module.as_str(),
                    payload,
                );
                proof {
                    crate::backend::wire::bytes_are_their_own_view(body.signer);
                    crate::backend::wire::bytes_are_their_own_view(body.network);
                    crate::backend::wire::bytes_are_their_own_view(body.payload);
                }
                let preimage = body.preimage();
                flow.at(CreatePhase::Asserting { body }, Ask::AssertFrame { preimage })
            },
            (CreatePhase::Asserting { body }, Told::Touched(outcome)) => match asserted(outcome) {
                Ok(assertion) => {
                    let signer = bytes_of(body.signer.as_slice());
                    let preimage = body.preimage();
                    flow.at(
                        CreatePhase::Verifying { body },
                        Ask::VerifyFrame { signer, preimage, assertion },
                    )
                },
                Err(said) => flow.at(CreatePhase::Over, Ask::Done(Err(said))),
            },
            (CreatePhase::Verifying { body }, Told::Proof { proof: proof_bytes, verified }) => {
                proof {
                    crate::backend::wire::bytes_are_their_own_view(proof_bytes);
                }
                match passkey_frame(body, proof_bytes, verified) {
                    Some(frame) => {
                        let bytes = frame.encode();
                        flow.at(CreatePhase::Submitting, Ask::Submit(bytes))
                    },
                    None => flow.at(
                        CreatePhase::Over,
                        Ask::Done(
                            Err(
                                "That was a different passkey than the one just made. Choose the new one.".to_owned(),
                            ),
                        ),
                    ),
                }
            },
            (CreatePhase::Submitting, Told::Output(output)) => match output {
                Ok(_) => flow.at(CreatePhase::Over, Ask::Done(Ok(()))),
                Err(said) => flow.at(CreatePhase::Over, Ask::Done(Err(said))),
            },
            (phase, _) => flow.at(phase, Ask::Wait),
        }
    }
}

/// The write that adds a passkey carries the consent that was signed: to the
/// passkey that was made, for the account it was made for, until the deadline
/// in the admission.
pub proof fn the_passkey_is_added_by_the_consent_signed(
    admitting: CreateAccount,
    generation: u64,
    now: u64,
    signing: CreateAccount,
    signs: Ask<()>,
    device: Vec<u8>,
    proof_bytes: Vec<u8>,
    later: u64,
    sequencing: CreateAccount,
    sequences: Ask<()>,
)
    ensures
        admitting.phase is Admitting && now + crate::backend::passkey::CONSENT_TTL_MS <= u64::MAX
            && create_stepped(
            admitting,
            Told::Reply(Ok(Reply::Generation(generation))),
            now,
            signing,
            signs,
        ) && create_stepped(
            signing,
            Told::Signed(Ok((device, proof_bytes))),
            later,
            sequencing,
            sequences,
        ) ==> (signs matches Ask::SeatedSign(admission)
            && sequencing.phase matches CreatePhase::Sequencing { passkey, add } && admission.key@
            == passkey@ && admission.account == admitting.phase->Admitting_number
            && crate::backend::identity::adds(
            add,
            admission.scheme,
            "Passkey"@,
            device@,
            admission.account,
            admission.expires_at,
            proof_bytes@,
        )),
{
}

/// A device key that already holds a person's account keeps it: no account is
/// made, and the passkey is made for that one.
pub proof fn a_retry_keeps_the_account(
    looking: CreateAccount,
    number: u64,
    now: u64,
    holding: CreateAccount,
    asks: Ask<()>,
    account: crate::backend::identity::Account,
    later: u64,
    making: CreateAccount,
    touches: Ask<()>,
)
    ensures
        looking.phase is Number && crate::backend::identity::not_a_person(account) is None
            && create_stepped(
            looking,
            Told::Reply(Ok(Reply::Number(Some(number)))),
            now,
            holding,
            asks,
        ) && create_stepped(
            holding,
            Told::Reply(Ok(Reply::Account(Some(account)))),
            later,
            making,
            touches,
        ) ==> crate::backend::flow::asks_account(asks, number) && asks_passkey(
            looking,
            number,
            touches,
        ),
{
}

// ---------- a whole run ----------
/// Whether `steps` are the steps of the flow that begins as `begun`.
pub open spec fn create_run(begun: CreateAccount, steps: Seq<crate::backend::flow::Step<CreateAccount, ()>>) -> bool
    decreases steps.len(),
{
    if steps.len() == 0 {
        begun.phase is Key
    } else {
        create_run(begun, steps.drop_last()) && create_stepped(
            crate::backend::flow::flow_after(begun, steps.drop_last()),
            steps.last().told,
            steps.last().now,
            steps.last().flow,
            steps.last().ask,
        )
    }
}

/// What the flow waits for is what it asked for.
spec fn create_run_waits(flow: CreateAccount, asked: Ask<()>) -> bool {
    match flow.phase {
        CreatePhase::Key => asked is SeatedKey,
        CreatePhase::Number => asked is Ask,
        CreatePhase::Holder { .. } => asked is Ask,
        CreatePhase::Creating => asked is Create,
        CreatePhase::Making { .. } => asked is Touch,
        CreatePhase::Admitting { .. } => asked is Ask,
        CreatePhase::Signing { .. } => asked is SeatedSign,
        CreatePhase::Sequencing { add, .. } => asked is NextSeq && add is AddKey,
        CreatePhase::Encoding { .. } => asked matches Ask::Encode(op) && op is AddKey,
        CreatePhase::Asserting { .. } => asked is AssertFrame,
        CreatePhase::Verifying { .. } => asked is VerifyFrame,
        CreatePhase::Submitting => asked is Submit,
        CreatePhase::Over => asked is Done,
    }
}

proof fn create_run_holds(
    begun: CreateAccount,
    first: Ask<()>,
    steps: Seq<crate::backend::flow::Step<CreateAccount, ()>>,
)
    requires
        create_run(begun, steps),
        first is SeatedKey,
    ensures
        create_run_waits(
            crate::backend::flow::flow_after(begun, steps),
            crate::backend::flow::pending(first, steps),
        ),
        crate::backend::flow::flow_after(begun, steps).network == begun.network,
        crate::backend::flow::flow_after(begun, steps).name == begun.name,
        crate::backend::flow::flow_after(begun, steps).module == begun.module,
    decreases steps.len(),
{
    if steps.len() > 0 {
        create_run_holds(begun, first, steps.drop_last());
    }
}

/// However making an account goes: the flow waits for what it asked for, and
/// anything else changes nothing. Whatever goes wrong with that ends it in
/// those words. It is done exactly when the node takes its frame; it makes an
/// account only after hearing that its key is on none; and it signs the write
/// that adds the passkey, and none other.
pub proof fn an_account_is_made_as_the_node_says(
    begun: CreateAccount,
    first: Ask<()>,
    steps: Seq<crate::backend::flow::Step<CreateAccount, ()>>,
)
    ensures
        create_run(begun, steps) && first is SeatedKey && steps.len() > 0 ==> {
            let asked = crate::backend::flow::pending(first, steps.drop_last());
            let last = steps.last();
            &&& last.ask is Wait <==> !crate::backend::flow::answers(asked, last.told)
            &&& last.ask is Wait ==> last.flow == crate::backend::flow::flow_after(
                begun,
                steps.drop_last(),
            )
            &&& crate::backend::flow::answers(asked, last.told)
                && crate::backend::flow::went_wrong(last.told) is Some ==> (
            last.ask matches Ask::Done(Err(said)) && said@ == crate::backend::flow::went_wrong(
                last.told,
            )->0)
            &&& (last.ask matches Ask::Done(Ok(_))) <==> asked is Submit && (
            last.told matches Told::Output(Ok(_)))
            &&& last.ask is Create ==> (last.told matches Told::Reply(Ok(reply)) && !(
            reply matches Reply::Number(Some(_)))) && (asked matches Ask::Ask(_))
            &&& last.ask matches Ask::Encode(op) ==> op is AddKey
            &&& last.ask is Submit ==> (last.told matches Told::Proof { verified, .. } && verified)
            &&& last.flow.network == begun.network && last.flow.name == begun.name
                && last.flow.module == begun.module
        },
{
    if create_run(begun, steps) && first is SeatedKey && steps.len() > 0 {
        create_run_holds(begun, first, steps.drop_last());
        create_run_holds(begun, first, steps);
    }
}

/// An account just made is the one its passkey is made for.
pub proof fn a_new_account_gets_the_passkey(
    creating: CreateAccount,
    number: u64,
    now: u64,
    making: CreateAccount,
    touches: Ask<()>,
)
    ensures
        creating.phase is Creating && create_stepped(
            creating,
            Told::Number(Ok(number)),
            now,
            making,
            touches,
        ) ==> making.phase == (CreatePhase::Making { number }) && (touches matches Ask::Touch(
            Request::Create { user, name },
        ) && user@ == crate::backend::passkey::handle_of(creating.network@, number) && name@
            == creating.name@ + " · "@ + creating.network@),
{
}

/// The whole of putting a new passkey on an account, told what it asks for: the
/// passkey that was made is the one admitted, to the account it was made for,
/// for a quarter of an hour; the device's consent to that is what the write
/// adds it by; and the frame the passkey signs, and nothing else, is what the
/// node is sent.
pub proof fn the_whole_of_adding_a_passkey(
    making: CreateAccount,
    number: u64,
    passkey: Vec<u8>,
    at_touch: u64,
    admitting: CreateAccount,
    admits: Ask<()>,
    generation: u64,
    now: u64,
    signing: CreateAccount,
    signs: Ask<()>,
    device: Vec<u8>,
    consent_proof: Vec<u8>,
    at_consent: u64,
    sequencing: CreateAccount,
    sequences: Ask<()>,
    seq: u64,
    at_seq: u64,
    encoding: CreateAccount,
    encodes: Ask<()>,
    payload: Vec<u8>,
    at_payload: u64,
    asserting: CreateAccount,
    asserts: Ask<()>,
    assertion: crate::backend::passkey::Assertion,
    at_assertion: u64,
    verifying: CreateAccount,
    verifies: Ask<()>,
    frame_proof: Vec<u8>,
    verified: bool,
    at_proof: u64,
    submitting: CreateAccount,
    submits: Ask<()>,
)
    ensures
        making.phase == (CreatePhase::Making { number }) && now + 900_000 <= u64::MAX
            && create_stepped(
            making,
            Told::Touched(Ok(crate::backend::passkey::Outcome::Created(passkey))),
            at_touch,
            admitting,
            admits,
        ) && create_stepped(
            admitting,
            Told::Reply(Ok(Reply::Generation(generation))),
            now,
            signing,
            signs,
        ) && create_stepped(
            signing,
            Told::Signed(Ok((device, consent_proof))),
            at_consent,
            sequencing,
            sequences,
        ) && create_stepped(
            sequencing,
            Told::NextSeq(Ok(seq)),
            at_seq,
            encoding,
            encodes,
        ) && create_stepped(
            encoding,
            Told::Payload(payload),
            at_payload,
            asserting,
            asserts,
        ) && create_stepped(
            asserting,
            Told::Touched(Ok(crate::backend::passkey::Outcome::Asserted(assertion))),
            at_assertion,
            verifying,
            verifies,
        ) && create_stepped(
            verifying,
            Told::Proof { proof: frame_proof, verified },
            at_proof,
            submitting,
            submits,
        ) ==> {
            let body = crate::backend::noded::BodyView {
                scheme: KeyScheme::Secp256r1,
                signer: passkey@,
                network: encode_utf8(making.network@),
                seq,
                target: making.module@,
                payload: payload@,
            };
            &&& admits matches Ask::Ask(Query::Generation { key }) && key@ == passkey@
            &&& signs matches Ask::SeatedSign(admission) && admission.network@ == encode_utf8(
                making.network@,
            ) && admission.scheme == KeyScheme::Secp256r1 && admission.key@ == passkey@
                && admission.generation == generation && admission.account == number
                && admission.expires_at == now + 900_000
            &&& sequences matches Ask::NextSeq(key) && key@ == passkey@
            &&& encodes matches Ask::Encode(Op::AddKey { scheme, label: Some(label), consent })
                && scheme == KeyScheme::Secp256r1 && label@ == "Passkey"@ && consent.key@
                == device@ && consent.account == number && consent.expires_at == now + 900_000
                && consent.proof@ == consent_proof@
            &&& asserts matches Ask::AssertFrame { preimage } && preimage@ == <Body as Wire>::put(
                body,
            )
            &&& verifies matches Ask::VerifyFrame { signer, preimage, assertion: made } && signer@
                == passkey@ && preimage@ == <Body as Wire>::put(body) && made == assertion
            &&& verified ==> (submits matches Ask::Submit(frame) && frame@
                == <crate::backend::noded::Frame as Wire>::put(
                crate::backend::noded::FrameView { body, proof: frame_proof@ },
            ))
            &&& !verified ==> crate::backend::flow::fails(
                submits,
                "That was a different passkey than the one just made. Choose the new one."@,
            )
        },
{
    if asserting.phase is Asserting {
        let body = asserting.phase->Asserting_body;
        crate::backend::wire::bytes_are_their_own_view(body.signer);
        crate::backend::wire::bytes_are_their_own_view(body.network);
        crate::backend::wire::bytes_are_their_own_view(body.payload);
    }
}

/// A key whose account is not there, or is not a person's, is given no passkey.
pub proof fn a_passkey_is_for_a_persons_account(
    flow: CreateAccount,
    reply: Reply,
    now: u64,
    after: CreateAccount,
    ask: Ask<()>,
)
    ensures
        flow.phase is Holder && !(reply matches Reply::Account(Some(account))
            && account.control is Person) && create_stepped(
            flow,
            Told::Reply(Ok(reply)),
            now,
            after,
            ask,
        ) ==> (ask matches Ask::Done(Err(_))),
{
}

/// Making an account begins with the seated key.
pub proof fn making_an_account_begins_with_the_seated_key(
    network: &str,
    name: &str,
    module: &str,
    begun: (CreateAccount, Ask<()>),
)
    requires
        call_ensures(CreateAccount::begin, (network, name, module), begun),
    ensures
        begun.0.network@ == network@ && begun.0.name@ == name@ && begun.0.module@ == module@,
        begun.0.phase is Key && begun.1 is SeatedKey,
{
}

/// From the seated key to the passkey: the key's account is asked for; where it
/// is on one that account is, and a person's gets the passkey; where it is on
/// none, one is made under the name.
pub proof fn a_key_on_an_account_gets_the_passkey_there(
    flow: CreateAccount,
    told: Told,
    now: u64,
    next: (CreateAccount, Ask<()>),
)
    requires
        call_ensures(CreateAccount::step, (flow, told, now), next),
    ensures
        flow.phase is Key ==> (told matches Told::Key(Ok(device)) ==> next.0.phase is Number && (
        next.1 matches Ask::Ask(Query::OfKey { key }) && key@ == device@)),
        flow.phase is Number ==> (told matches Told::Reply(Ok(Reply::Number(Some(number))))
            ==> next.0.phase == (CreatePhase::Holder { number }) && (next.1 matches Ask::Ask(
            Query::Get { number: asked },
        ) && asked == number)),
        flow.phase is Number ==> (told matches Told::Reply(Ok(reply)) ==> !(reply is Number
            && reply->Number_0 is Some) ==> next.0.phase is Creating && (next.1 matches Ask::Create {
            name,
        } && name@ == flow.name@)),
        flow.phase is Holder ==> (told matches Told::Reply(Ok(Reply::Account(Some(account))))
            ==> account.control is Person ==> next.0.phase == (CreatePhase::Making {
            number: flow.phase->Holder_number,
        }) && (next.1 matches Ask::Touch(Request::Create { user, name }) && user@
            == crate::backend::passkey::handle_of(flow.network@, flow.phase->Holder_number) && name@
            == flow.name@ + " · "@ + flow.network@)),
{
}

/// An answer of another sort than was asked for ends it, and says what it was.
pub proof fn an_answer_of_another_sort_ends_making_an_account(
    flow: CreateAccount,
    told: Told,
    now: u64,
    next: (CreateAccount, Ask<()>),
)
    requires
        call_ensures(CreateAccount::step, (flow, told, now), next),
    ensures
        flow.phase is Making ==> (told matches Told::Touched(
            Ok(crate::backend::passkey::Outcome::Asserted(_)),
        ) ==> next.0.phase is Over && (next.1 matches Ask::Done(Err(said)) && said@
            == "The browser answered a different step. Try again."@)),
        flow.phase is Asserting ==> (told matches Told::Touched(
            Ok(crate::backend::passkey::Outcome::Created(_)),
        ) ==> next.0.phase is Over && (next.1 matches Ask::Done(Err(said)) && said@
            == "The browser answered a different step. Try again."@)),
        flow.phase is Holder ==> (told matches Told::Reply(Ok(reply)) ==> !(reply is Account
            && reply->Account_0 is Some) ==> next.0.phase is Over && (next.1 matches Ask::Done(
            Err(said),
        ) && said@ == "This names an account "@ + flow.network@ + " does not have."@)),
        flow.phase is Holder ==> (told matches Told::Reply(Ok(Reply::Account(Some(account))))
            ==> !(account.control is Person) ==> next.0.phase is Over && (next.1 matches Ask::Done(
            Err(said),
        ) && Some(said@) == crate::backend::identity::not_a_person(account))),
        flow.phase is Admitting ==> (told matches Told::Reply(Ok(reply)) ==> !(reply is Generation)
            ==> next.0.phase is Over && (next.1 matches Ask::Done(Err(said)) && said@
            == "identity answered something other than a generation"@)),
{
}

} // verus!
