//! This device's seated key joins the account a passkey holds.

use vstd::prelude::*;

use crate::backend::flow::Ask;
use crate::backend::flow::Told;
use crate::backend::identity::Account;
use crate::backend::identity::Admission;
use crate::backend::identity::Op;
use crate::backend::identity::Query;
use crate::backend::identity::Reply;
use crate::backend::identity::account_in;
use crate::backend::identity::add_key;
use crate::backend::identity::admission;
use crate::backend::identity::consenting_key;
use crate::backend::identity::keys_of;
use crate::backend::identity::person;
use crate::backend::noded::KeyScheme;
use crate::backend::passkey::Assertion;
use crate::backend::passkey::Outcome;
use crate::backend::passkey::Request;
use crate::backend::passkey::account_of_handle;
use crate::backend::passkey::asserted;
use crate::backend::wire::bytes_of;
use crate::outside::random_bytes;

verus! {

/// Where the flow stands: what it asked for last, and what it holds.
pub enum SignInPhase {
    /// Which account the passkey holds.
    Hint,
    /// That account.
    Account { number: u64 },
    /// The seated key.
    Key { number: u64, account: Account },
    /// That key's generation.
    Admitting { number: u64, account: Account, device: Vec<u8> },
    /// The passkey's consent to its admission.
    Consenting { account: Account, admission: Admission },
    /// Which of the account's passkeys that was.
    Verifying { number: u64, account: Account, expires_at: u64 },
    /// The node's answer.
    Submitting,
    Over,
}

/// This device's seated key joins the account a passkey holds.
pub struct SignIn {
    pub network: String,
    pub phase: SignInPhase,
}

/// The handle in an assertion.
pub open spec fn handle_in(outcome: Outcome) -> Option<Seq<u8>> {
    match outcome {
        Outcome::Asserted(assertion) => match assertion.user_handle {
            Some(handle) => Some(handle@),
            None => None,
        },
        Outcome::Created(_) => None,
    }
}

/// Whether telling the flow `told` at `now` makes it `after`, asking `ask`.
pub open spec fn sign_in_stepped(
    before: SignIn,
    told: Told,
    now: u64,
    after: SignIn,
    ask: Ask<()>,
) -> bool {
    &&& after.network == before.network
    &&& match (before.phase, told) {
        (SignInPhase::Hint, Told::Touched(Ok(Outcome::Asserted(assertion)))) => {
            exists|named: Result<u64, String>| #[trigger]
                crate::backend::passkey::names_account(
                    before.network@,
                    handle_in(Outcome::Asserted(assertion)),
                    named,
                ) && match named {
                    Ok(number) => after.phase == (SignInPhase::Account { number })
                        && crate::backend::flow::asks_account(ask, number),
                    Err(said) => after.phase is Over && crate::backend::flow::fails(ask, said@),
                }
        },
        (SignInPhase::Hint, Told::Touched(Ok(_))) => after.phase is Over
            && crate::backend::flow::fails(
            ask,
            "The browser answered a different step. Try again."@,
        ),
        (SignInPhase::Hint, Told::Touched(Err(said))) => after.phase is Over
            && crate::backend::flow::fails(ask, said@),
        (SignInPhase::Account { number }, Told::Reply(Ok(Reply::Account(Some(account))))) => {
            match crate::backend::identity::not_a_person(account) {
                None => after.phase == (SignInPhase::Key { number, account }) && ask is SeatedKey,
                Some(said) => after.phase is Over && crate::backend::flow::fails(ask, said),
            }
        },
        (SignInPhase::Account { .. }, Told::Reply(Ok(_))) => after.phase is Over
            && crate::backend::flow::fails(
            ask,
            crate::backend::identity::no_account(before.network@),
        ),
        (SignInPhase::Account { .. }, Told::Reply(Err(said))) => after.phase is Over
            && crate::backend::flow::fails(ask, said@),
        (SignInPhase::Key { number, account }, Told::Key(Ok(device))) => after.phase == (
        SignInPhase::Admitting { number, account, device })
            && crate::backend::flow::asks_generation(ask, device@),
        (SignInPhase::Key { .. }, Told::Key(Err(said))) => after.phase is Over
            && crate::backend::flow::fails(ask, said@),
        (
            SignInPhase::Admitting { number, account, device },
            Told::Reply(Ok(Reply::Generation(generation))),
        ) => {
            &&& ask matches Ask::AssertConsent(admission) && crate::backend::identity::admits(
                admission,
                before.network@,
                KeyScheme::Ed25519,
                device@,
                generation,
                number,
                now,
            )
            &&& after.phase matches SignInPhase::Consenting { account: held, admission: kept }
                && held == account && crate::backend::identity::admits(
                kept,
                before.network@,
                KeyScheme::Ed25519,
                device@,
                generation,
                number,
                now,
            )
        },
        (SignInPhase::Admitting { .. }, Told::Reply(Ok(_))) => after.phase is Over
            && crate::backend::flow::fails(ask, crate::backend::flow::no_generation()),
        (SignInPhase::Admitting { .. }, Told::Reply(Err(said))) => after.phase is Over
            && crate::backend::flow::fails(ask, said@),
        (
            SignInPhase::Consenting { account, admission },
            Told::Touched(Ok(Outcome::Asserted(assertion))),
        ) => {
            &&& after.phase == (SignInPhase::Verifying {
                number: admission.account,
                account,
                expires_at: admission.expires_at,
            })
            &&& ask matches Ask::VerifyConsent { admission: over, keys, assertion: made } && over
                == admission && crate::backend::identity::same_keys(keys@, account.keys@) && made
                == assertion
        },
        (SignInPhase::Consenting { .. }, Told::Touched(Ok(_))) => after.phase is Over
            && crate::backend::flow::fails(
            ask,
            "The browser answered a different step. Try again."@,
        ),
        (SignInPhase::Consenting { .. }, Told::Touched(Err(said))) => after.phase is Over
            && crate::backend::flow::fails(ask, said@),
        (
            SignInPhase::Verifying { number, account, expires_at },
            Told::Consented { proof: proof_bytes, verifies: verified },
        ) => match crate::backend::identity::signer_among(account.keys@, verified@, 0) {
            Some(key) => after.phase is Submitting && (ask matches Ask::SubmitSeated(op)
                && crate::backend::identity::adds(
                op,
                KeyScheme::Ed25519,
                "Desktop"@,
                key,
                number,
                expires_at,
                proof_bytes@,
            )),
            None => after.phase is Over && crate::backend::flow::fails(
                ask,
                "That passkey isn't on this account. Use the same passkey both times."@,
            ),
        },
        (SignInPhase::Submitting, Told::Output(Ok(_))) => after.phase is Over && ask == Ask::Done(
            Ok::<(), String>(()),
        ),
        (SignInPhase::Submitting, Told::Output(Err(said))) => after.phase is Over
            && crate::backend::flow::fails(ask, said@),
        _ => after.phase == before.phase && ask is Wait,
    }
}

/// Whether `told` gives the flow one verdict for each key it asked about.
pub open spec fn verdicts_match(flow: SignIn, told: Told) -> bool {
    match (flow.phase, told) {
        (SignInPhase::Verifying { account, .. }, Told::Consented { verifies: verified, .. }) => verified@.len()
            == account.keys@.len(),
        _ => true,
    }
}

impl SignIn {
    /// Begins: the flow, and the touch it asks first, to `challenge`.
    pub fn begin_with(network: &str, challenge: [u8; 32]) -> (begun: (Self, Ask<()>))
        ensures
            begun.0.network@ == network@,
            begun.0.phase is Hint,
            begun.1 == Ask::<()>::Touch(Request::Get { challenge }),
    {
        (
            SignIn { network: network.to_owned(), phase: SignInPhase::Hint },
            Ask::Touch(Request::Get { challenge }),
        )
    }

    /// Begins with a challenge drawn at random.
    pub fn begin(network: &str) -> (begun: (Self, Ask<()>))
        ensures
            begun.0.network@ == network@,
            begun.0.phase is Hint,
            begun.1 matches Ask::Touch(Request::Get { .. }),
    {
        SignIn::begin_with(network, random_bytes())
    }

    fn at(self, phase: SignInPhase, ask: Ask<()>) -> (next: (Self, Ask<()>))
        ensures
            next.0 == (SignIn { phase, ..self }),
            next.1 == ask,
    {
        (SignIn { network: self.network, phase }, ask)
    }

    /// What the flow asks next, told `told` at `now` (unix ms).
    pub fn step(self, told: Told, now: u64) -> (next: (Self, Ask<()>))
        requires
            verdicts_match(self, told),
            now + crate::backend::passkey::CONSENT_TTL_MS <= u64::MAX,
        ensures
            sign_in_stepped(self, told, now, next.0, next.1),
    {
        let SignIn { network, phase } = self;
        let flow = SignIn { network, phase: SignInPhase::Over };
        match (phase, told) {
            (SignInPhase::Hint, Told::Touched(outcome)) => match asserted(outcome) {
                Ok(assertion) => {
                    let handle: Option<&[u8]> = match &assertion.user_handle {
                        Some(handle) => Some(handle.as_slice()),
                        None => None,
                    };
                    let named = account_of_handle(flow.network.as_str(), handle);
                    assert(crate::backend::passkey::names_account(
                        flow.network@,
                        handle_in(Outcome::Asserted(assertion)),
                        named,
                    ));
                    match named {
                        Ok(number) => flow.at(
                            SignInPhase::Account { number },
                            Ask::Ask(Query::Get { number }),
                        ),
                        Err(said) => flow.at(SignInPhase::Over, Ask::Done(Err(said))),
                    }
                },
                Err(said) => flow.at(SignInPhase::Over, Ask::Done(Err(said))),
            },
            (SignInPhase::Account { number }, Told::Reply(reply)) => match reply {
                Ok(reply) => match account_in(reply, flow.network.as_str()) {
                    Ok(account) => match person(&account) {
                        Ok(_) => flow.at(SignInPhase::Key { number, account }, Ask::SeatedKey),
                        Err(said) => flow.at(SignInPhase::Over, Ask::Done(Err(said))),
                    },
                    Err(said) => flow.at(SignInPhase::Over, Ask::Done(Err(said))),
                },
                Err(said) => flow.at(SignInPhase::Over, Ask::Done(Err(said))),
            },
            (SignInPhase::Key { number, account }, Told::Key(key)) => match key {
                Ok(device) => {
                    let ask = Ask::Ask(Query::Generation { key: bytes_of(device.as_slice()) });
                    flow.at(SignInPhase::Admitting { number, account, device }, ask)
                },
                Err(said) => flow.at(SignInPhase::Over, Ask::Done(Err(said))),
            },
            (SignInPhase::Admitting { number, account, device }, Told::Reply(reply)) => match reply {
                Ok(Reply::Generation(generation)) => {
                    let asked = admission(
                        flow.network.as_str(),
                        KeyScheme::Ed25519,
                        device.as_slice(),
                        generation,
                        number,
                        now,
                    );
                    let kept = asked.copy();
                    flow.at(
                        SignInPhase::Consenting { account, admission: kept },
                        Ask::AssertConsent(asked),
                    )
                },
                Ok(_) => flow.at(
                    SignInPhase::Over,
                    Ask::Done(
                        Err("identity answered something other than a generation".to_owned()),
                    ),
                ),
                Err(said) => flow.at(SignInPhase::Over, Ask::Done(Err(said))),
            },
            (SignInPhase::Consenting { account, admission }, Told::Touched(outcome)) => {
                match asserted(outcome) {
                    Ok(assertion) => {
                        let keys = keys_of(&account);
                        let number = admission.account;
                        let expires_at = admission.expires_at;
                        flow.at(
                            SignInPhase::Verifying { number, account, expires_at },
                            Ask::VerifyConsent { admission, keys, assertion },
                        )
                    },
                    Err(said) => flow.at(SignInPhase::Over, Ask::Done(Err(said))),
                }
            },
            (
                SignInPhase::Verifying { number, account, expires_at },
                Told::Consented { proof: proof_bytes, verifies: verified },
            ) => match consenting_key(&account, &verified) {
                Some(key) => {
                    let add = add_key(
                        KeyScheme::Ed25519,
                        "Desktop",
                        key,
                        number,
                        expires_at,
                        proof_bytes,
                    );
                    flow.at(SignInPhase::Submitting, Ask::SubmitSeated(add))
                },
                None => flow.at(
                    SignInPhase::Over,
                    Ask::Done(
                        Err(
                            "That passkey isn't on this account. Use the same passkey both times.".to_owned(),
                        ),
                    ),
                ),
            },
            (SignInPhase::Submitting, Told::Output(output)) => match output {
                Ok(_) => flow.at(SignInPhase::Over, Ask::Done(Ok(()))),
                Err(said) => flow.at(SignInPhase::Over, Ask::Done(Err(said))),
            },
            (phase, _) => flow.at(phase, Ask::Wait),
        }
    }
}

/// The write by which the device joins carries the consent the passkey gave:
/// by a passkey of the account its handle named, to the device's key, until
/// the deadline in the admission. The verdicts it rests on are asked for over
/// that very admission, of the keys of that very account.
pub proof fn the_device_joins_by_the_consent_given(
    admitting: SignIn,
    generation: u64,
    now: u64,
    consenting: SignIn,
    consents: Ask<()>,
    assertion: crate::backend::passkey::Assertion,
    later: u64,
    verifying: SignIn,
    verifies: Ask<()>,
    proof_bytes: Vec<u8>,
    verified: Vec<bool>,
    last: u64,
    joining: SignIn,
    joins: Ask<()>,
)
    ensures
        admitting.phase is Admitting && now + crate::backend::passkey::CONSENT_TTL_MS <= u64::MAX
            && sign_in_stepped(
            admitting,
            Told::Reply(Ok(Reply::Generation(generation))),
            now,
            consenting,
            consents,
        ) && sign_in_stepped(
            consenting,
            Told::Touched(Ok(Outcome::Asserted(assertion))),
            later,
            verifying,
            verifies,
        ) && sign_in_stepped(
            verifying,
            Told::Consented { proof: proof_bytes, verifies: verified },
            last,
            joining,
            joins,
        ) && joining.phase is Submitting ==> (consents matches Ask::AssertConsent(admission)
            && admission.key@ == admitting.phase->Admitting_device@ && admission.account
            == admitting.phase->Admitting_number && (verifies matches Ask::VerifyConsent {
            admission: over,
            keys,
            assertion: made,
        } && crate::backend::identity::same_admission(over, admission) && made == assertion
            && crate::backend::identity::same_keys(
            keys@,
            admitting.phase->Admitting_account.keys@,
        )) && (joins matches Ask::SubmitSeated(op)
            && crate::backend::identity::signer_among(
            admitting.phase->Admitting_account.keys@,
            verified@,
            0,
        ) matches Some(key) && crate::backend::identity::adds(
            op,
            admission.scheme,
            "Desktop"@,
            key,
            admission.account,
            admission.expires_at,
            proof_bytes@,
        ))),
{
}

// ---------- a whole run ----------
/// Whether `steps` are the steps of the flow that begins as `begun`.
pub open spec fn sign_in_run(begun: SignIn, steps: Seq<crate::backend::flow::Step<SignIn, ()>>) -> bool
    decreases steps.len(),
{
    if steps.len() == 0 {
        begun.phase is Hint
    } else {
        sign_in_run(begun, steps.drop_last()) && sign_in_stepped(
            crate::backend::flow::flow_after(begun, steps.drop_last()),
            steps.last().told,
            steps.last().now,
            steps.last().flow,
            steps.last().ask,
        )
    }
}

/// What the flow waits for is what it asked for.
spec fn sign_in_run_waits(flow: SignIn, asked: Ask<()>) -> bool {
    match flow.phase {
        SignInPhase::Hint => asked is Touch,
        SignInPhase::Account { .. } => asked is Ask,
        SignInPhase::Key { .. } => asked is SeatedKey,
        SignInPhase::Admitting { .. } => asked is Ask,
        SignInPhase::Consenting { .. } => asked is AssertConsent,
        SignInPhase::Verifying { .. } => asked is VerifyConsent,
        SignInPhase::Submitting => asked matches Ask::SubmitSeated(op) && op is AddKey,
        SignInPhase::Over => asked is Done,
    }
}

proof fn sign_in_run_holds(
    begun: SignIn,
    first: Ask<()>,
    steps: Seq<crate::backend::flow::Step<SignIn, ()>>,
)
    requires
        sign_in_run(begun, steps),
        first is Touch,
    ensures
        sign_in_run_waits(
            crate::backend::flow::flow_after(begun, steps),
            crate::backend::flow::pending(first, steps),
        ),
        crate::backend::flow::flow_after(begun, steps).network == begun.network,
    decreases steps.len(),
{
    if steps.len() > 0 {
        sign_in_run_holds(begun, first, steps.drop_last());
    }
}

/// However a sign-in goes: it waits for what it asked for, and anything else
/// changes nothing. Whatever goes wrong with that ends it in those words. And
/// it is done exactly when the node takes the write that adds the device's
/// key, and not otherwise.
pub proof fn a_sign_in_ends_as_the_node_says(
    begun: SignIn,
    first: Ask<()>,
    steps: Seq<crate::backend::flow::Step<SignIn, ()>>,
)
    ensures
        sign_in_run(begun, steps) && first is Touch && steps.len() > 0 ==> {
            let asked = crate::backend::flow::pending(first, steps.drop_last());
            let last = steps.last();
            &&& last.ask is Wait <==> !crate::backend::flow::answers(asked, last.told)
            &&& last.ask is Wait ==> last.flow == crate::backend::flow::flow_after(
                begun,
                steps.drop_last(),
            )
            &&& crate::backend::flow::answers(asked, last.told)
                && crate::backend::flow::went_wrong(last.told) is Some ==> (
            last.ask matches Ask::Done(Err(said)) && said@ == crate::backend::flow::went_wrong(
                last.told,
            )->0)
            &&& (last.ask matches Ask::Done(Ok(_))) <==> (asked matches Ask::SubmitSeated(op)
                && op is AddKey) && (last.told matches Told::Output(Ok(_)))
            &&& last.flow.network == begun.network
        },
{
    if sign_in_run(begun, steps) && first is Touch && steps.len() > 0 {
        sign_in_run_holds(begun, first, steps.drop_last());
        sign_in_run_holds(begun, first, steps);
    }
}

/// The whole of a sign-in, told what it asks for: the account the first touch
/// names is the one asked for, and a person's; the seated key is the one
/// admitted to it; the second touch consents to exactly that admission, for a
/// quarter of an hour; the verdicts are over it, of that account's keys; and
/// the write adds the seated key by the consent of the first passkey on the
/// account that the verdicts name. Where they name none there is no write.
pub proof fn the_whole_of_a_sign_in(
    hinted: SignIn,
    first: Assertion,
    at_first: u64,
    reading: SignIn,
    reads: Ask<()>,
    account: Account,
    at_account: u64,
    keyed: SignIn,
    keys: Ask<()>,
    device: Vec<u8>,
    at_key: u64,
    admitting: SignIn,
    admits: Ask<()>,
    generation: u64,
    now: u64,
    consenting: SignIn,
    consents: Ask<()>,
    second: Assertion,
    at_second: u64,
    verifying: SignIn,
    verifies: Ask<()>,
    proof_bytes: Vec<u8>,
    verdicts: Vec<bool>,
    at_last: u64,
    joining: SignIn,
    joins: Ask<()>,
)
    ensures
        hinted.phase is Hint && reading.phase is Account && account.control is Person
            && verdicts@.len() == account.keys@.len() && now + 900_000 <= u64::MAX
            && sign_in_stepped(
            hinted,
            Told::Touched(Ok(Outcome::Asserted(first))),
            at_first,
            reading,
            reads,
        ) && sign_in_stepped(
            reading,
            Told::Reply(Ok(Reply::Account(Some(account)))),
            at_account,
            keyed,
            keys,
        ) && sign_in_stepped(keyed, Told::Key(Ok(device)), at_key, admitting, admits)
            && sign_in_stepped(
            admitting,
            Told::Reply(Ok(Reply::Generation(generation))),
            now,
            consenting,
            consents,
        ) && sign_in_stepped(
            consenting,
            Told::Touched(Ok(Outcome::Asserted(second))),
            at_second,
            verifying,
            verifies,
        ) && sign_in_stepped(
            verifying,
            Told::Consented { proof: proof_bytes, verifies: verdicts },
            at_last,
            joining,
            joins,
        ) ==> {
            &&& reads matches Ask::Ask(Query::Get { number })
            &&& keys is SeatedKey
            &&& admits matches Ask::Ask(Query::Generation { key }) && key@ == device@
            &&& consents matches Ask::AssertConsent(admission) && admission.network@
                == vstd::utf8::encode_utf8(hinted.network@) && admission.scheme
                == KeyScheme::Ed25519 && admission.key@ == device@ && admission.generation
                == generation && admission.account == reads->Ask_0->number && admission.expires_at
                == now + 900_000
            &&& verifies matches Ask::VerifyConsent { admission, keys: asked, assertion }
                && assertion == second && admission.network@ == vstd::utf8::encode_utf8(
                hinted.network@,
            ) && admission.scheme == KeyScheme::Ed25519 && admission.key@ == device@
                && admission.generation == generation && admission.account
                == reads->Ask_0->number && admission.expires_at == now + 900_000 && asked@.len()
                == account.keys@.len() && forall|i: int|
                0 <= i < asked@.len() ==> (#[trigger] asked@[i]).scheme == account.keys@[i].scheme
                    && asked@[i].key@ == account.keys@[i].key@
            &&& (exists|k: int|
                0 <= k < account.keys@.len() && (#[trigger] account.keys@[k]).scheme
                    == KeyScheme::Secp256r1 && verdicts@[k]) <==> joins is SubmitSeated
            &&& !(joins is SubmitSeated) ==> crate::backend::flow::fails(
                joins,
                "That passkey isn't on this account. Use the same passkey both times."@,
            )
            &&& joins matches Ask::SubmitSeated(op) ==> (op matches Op::AddKey {
                scheme,
                label: Some(label),
                consent,
            } && scheme == KeyScheme::Ed25519 && label@ == "Desktop"@ && consent.account
                == reads->Ask_0->number && consent.expires_at == now + 900_000 && consent.proof@
                == proof_bytes@ && exists|k: int|
                0 <= k < account.keys@.len() && (#[trigger] account.keys@[k]).scheme
                    == KeyScheme::Secp256r1 && verdicts@[k] && consent.key@ == account.keys@[k].key@
                    && forall|j: int|
                    0 <= j < k ==> !((#[trigger] account.keys@[j]).scheme == KeyScheme::Secp256r1
                        && verdicts@[j]))
        },
{
    let signer = crate::backend::identity::the_first_that_verifies_signed(
        account.keys@,
        verdicts@,
        0,
    );
    if signer < account.keys@.len() {
        assert(account.keys@[signer].scheme == KeyScheme::Secp256r1 && verdicts@[signer]);
    }
}

/// A touch that names no account here, and an account that is not there or is
/// not a person's, end a sign-in with words.
pub proof fn a_sign_in_is_for_a_persons_account(
    flow: SignIn,
    reply: Reply,
    now: u64,
    after: SignIn,
    ask: Ask<()>,
)
    ensures
        flow.phase is Account && !(reply matches Reply::Account(Some(account))
            && account.control is Person) && sign_in_stepped(
            flow,
            Told::Reply(Ok(reply)),
            now,
            after,
            ask,
        ) ==> (ask matches Ask::Done(Err(_))),
{
}

/// The account a sign-in asks for is the one in the handle of the passkey
/// touched: one made for the account `number` on this network.
pub proof fn a_sign_in_asks_for_the_account_in_the_handle(
    hinted: SignIn,
    assertion: Assertion,
    number: u64,
    now: u64,
    reading: SignIn,
    reads: Ask<()>,
)
    ensures
        hinted.phase is Hint && assertion.user_handle is Some && assertion.user_handle->0@
            == crate::backend::passkey::handle_of(hinted.network@, number)
            && assertion.user_handle->0@.len() == 40 && sign_in_stepped(
            hinted,
            Told::Touched(Ok(Outcome::Asserted(assertion))),
            now,
            reading,
            reads,
        ) ==> reading.phase == (SignInPhase::Account { number }) && (reads matches Ask::Ask(
            Query::Get { number: n },
        ) && n == number),
{
    if assertion.user_handle is Some && assertion.user_handle->0@
        == crate::backend::passkey::handle_of(hinted.network@, number)
        && assertion.user_handle->0@.len() == 40 {
        let handle = assertion.user_handle->0@;
        crate::backend::wire::u64_bytes(number);
        assert(handle.take(32) =~= crate::outside::sha256_of(
            crate::backend::passkey::chain_name(hinted.network@),
        ));
        assert(handle.skip(32) =~= crate::backend::wire::le(number as nat, 8));
    }
}

/// A sign-in begins with a touch to the challenge it was given, and holds
/// nothing yet.
pub proof fn a_sign_in_begins_with_a_touch(
    network: &str,
    challenge: [u8; 32],
    begun: (SignIn, Ask<()>),
)
    requires
        call_ensures(SignIn::begin_with, (network, challenge), begun),
    ensures
        begun.0.network@ == network@,
        begun.0.phase is Hint,
        begun.1 matches Ask::Touch(Request::Get { challenge: asked }) && asked == challenge,
{
}

/// An answer of another sort than was asked for ends a sign-in, and says what
/// it was: a key made where a touch was asked for, no account, an account of no
/// person, and no generation.
pub proof fn an_answer_of_another_sort_ends_a_sign_in(
    flow: SignIn,
    told: Told,
    now: u64,
    next: (SignIn, Ask<()>),
)
    requires
        call_ensures(SignIn::step, (flow, told, now), next),
    ensures
        flow.phase is Hint || flow.phase is Consenting ==> (told matches Told::Touched(
            Ok(Outcome::Created(_)),
        ) ==> next.0.phase is Over && (next.1 matches Ask::Done(Err(said)) && said@
            == "The browser answered a different step. Try again."@)),
        flow.phase is Account ==> (told matches Told::Reply(Ok(reply)) ==> !(reply is Account
            && reply->Account_0 is Some) ==> next.0.phase is Over && (next.1 matches Ask::Done(
            Err(said),
        ) && said@ == "This names an account "@ + flow.network@ + " does not have."@)),
        flow.phase is Account ==> (told matches Told::Reply(Ok(Reply::Account(Some(account))))
            ==> !(account.control is Person) ==> next.0.phase is Over && (next.1 matches Ask::Done(
            Err(said),
        ) && Some(said@) == crate::backend::identity::not_a_person(account))),
        flow.phase is Admitting ==> (told matches Told::Reply(Ok(reply)) ==> !(reply is Generation)
            ==> next.0.phase is Over && (next.1 matches Ask::Done(Err(said)) && said@
            == "identity answered something other than a generation"@)),
{
}

/// A passkey whose handle names no account here ends a sign-in in the words
/// that say why.
pub proof fn a_foreign_passkey_ends_a_sign_in(
    flow: SignIn,
    assertion: Assertion,
    now: u64,
    next: (SignIn, Ask<()>),
)
    requires
        call_ensures(
            SignIn::step,
            (flow, Told::Touched(Ok(Outcome::Asserted(assertion))), now),
            next,
        ),
        flow.phase is Hint,
    ensures
        assertion.user_handle is None ==> (next.1 matches Ask::Done(Err(said)) && said@
            == "That passkey wasn't made by Ducktape. Choose a Ducktape passkey."@),
        assertion.user_handle is Some && assertion.user_handle->0@.len() != 40 ==> (
        next.1 matches Ask::Done(Err(said)) && said@
            == "That passkey wasn't made by Ducktape. Choose a Ducktape passkey."@),
        assertion.user_handle is Some && assertion.user_handle->0@.len() == 40
            && assertion.user_handle->0@.take(32) != crate::outside::sha256_of(
            vstd::utf8::encode_utf8("ducktape:passkey-account:v1\0"@) + vstd::utf8::encode_utf8(
                flow.network@,
            ),
        ) ==> (next.1 matches Ask::Done(Err(said)) && said@
            == "That passkey belongs to another network. Choose one for "@ + flow.network@ + "."@),
{
}

} // verus!
