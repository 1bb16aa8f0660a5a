//! A new device and one already on the account, meeting through the relay:
//! the new one puts its key up under a code and waits, the other finds it
//! there, and approves.

use vstd::prelude::*;

use crate::backend::flow::Ask;
use crate::backend::flow::Told;
use crate::backend::identity::Op;
use crate::backend::identity::Query;
use crate::backend::identity::Reply;
use crate::backend::identity::admission;
use crate::backend::join::Consent;
use crate::backend::join::Request;
use crate::backend::join::consent_message;
use crate::backend::join::normalized;
use crate::backend::join::parse_consent;
use crate::backend::join::parse_request;
use crate::backend::join::post;
use crate::backend::join::request_message;
use crate::backend::join::slot;
use crate::backend::join::take;
use crate::backend::noded::KeyScheme;
use crate::backend::wire::bytes_of;
use crate::text::joined3;
use crate::text::same_text;

verus! {

/// How long a new device waits for the other to approve, in milliseconds: the
/// relay's own hold.
pub const WAIT: u64 = 300_000;

/// How often it looks, in milliseconds.
pub const POLL: u64 = 1_500;

/// Whether a status that came back is one.
pub open spec fn status_fits(told: Told) -> bool {
    told matches Told::Fetched(crate::backend::join::Fetched::Answered { status, .. }) ==> 100
        <= status <= 999
}

/// Whether `url` is the slot for `side` of `code` on the host of `page`, or
/// else what is the matter with that.
pub open spec fn slot_is(
    page: Seq<char>,
    code: Seq<char>,
    side: Seq<char>,
    url: Result<String, String>,
) -> bool {
    match (
        url,
        crate::backend::address::address_on(page, crate::backend::join::slot_path(code, side)),
    ) {
        (Ok(url), Ok(text)) => url@ == text && crate::outside::ends_with(
            url@,
            crate::backend::join::slot_path(code, side).skip(1),
        ),
        (Err(said), Err(error)) => said@ == "The auth host address is unusable: "@ + error,
        _ => false,
    }
}

// ---------- the new device ----------
/// Where a new device's flow stands.
pub enum JoinPhase {
    /// The seated key was asked for.
    Key { code: String },
    /// The request is on its way up.
    Posting { code: String },
    /// A look at the answer's slot is under way.
    Looking { answer: String, deadline: u64 },
    /// The next look is a moment off.
    Sleeping { answer: String, deadline: u64 },
    /// The node was asked.
    Submitting,
    Over,
}

/// Puts this device's seated key up under a code, then waits for a device on
/// the account to consent, and joins with that consent.
pub struct JoinFromDevice {
    pub network: String,
    pub page: String,
    pub phase: JoinPhase,
}

/// Whether `ask` puts this device's key up in the slot at `url`.
pub open spec fn puts_up(ask: Ask<()>, url: Seq<char>, network: Seq<char>, key: Seq<u8>) -> bool {
    ask matches Ask::Post { url: to, json } && to@ == url && crate::backend::join::says_request(
        json@,
        network,
        key,
    )
}

/// Whether `ask` looks at the slot at `url`.
pub open spec fn looks_at<T>(ask: Ask<T>, url: Seq<char>) -> bool {
    ask matches Ask::Take { url: at } && at@ == url
}

/// Whether `ask` joins with `consent`.
pub open spec fn joins_with(ask: Ask<()>, consent: Consent) -> bool {
    ask matches Ask::SubmitSeated(op) && crate::backend::identity::adds(
        op,
        KeyScheme::Ed25519,
        "Desktop"@,
        consent.key@,
        consent.account,
        consent.expires_at,
        consent.proof@,
    )
}

/// Whether telling the flow `told` at `now` makes it `after`, asking `ask`.
/// `now` is a clock of milliseconds that only goes forward.
pub open spec fn join_stepped(
    before: JoinFromDevice,
    told: Told,
    now: u64,
    after: JoinFromDevice,
    ask: Ask<()>,
) -> bool {
    &&& after.network == before.network
    &&& after.page == before.page
    &&& match (before.phase, told) {
        (JoinPhase::Key { code }, Told::Key(Ok(device))) => exists|url: Result<
            String,
            String,
        >| #[trigger]
            slot_is(before.page@, code@, "request"@, url) && match url {
                Ok(url) => after.phase == (JoinPhase::Posting { code }) && puts_up(
                    ask,
                    url@,
                    before.network@,
                    device@,
                ),
                Err(said) => after.phase is Over && crate::backend::flow::fails(ask, said@),
            },
        (JoinPhase::Key { .. }, Told::Key(Err(said))) => after.phase is Over
            && crate::backend::flow::fails(ask, said@),
        (JoinPhase::Posting { code }, Told::Fetched(fetched)) => exists|
            sent: Result<(), String>,
            url: Result<String, String>,
        |
            #![trigger crate::backend::join::posted(fetched, sent), slot_is(
                before.page@,
                code@,
                "consent"@,
                url,
            )]
            crate::backend::join::posted(fetched, sent) && slot_is(
                before.page@,
                code@,
                "consent"@,
                url,
            ) && match (sent, url) {
                (Err(said), _) => after.phase is Over && crate::backend::flow::fails(ask, said@),
                (Ok(_), Err(said)) => after.phase is Over && crate::backend::flow::fails(
                    ask,
                    said@,
                ),
                (Ok(_), Ok(url)) => (after.phase matches JoinPhase::Looking { answer, deadline }
                    && answer@ == url@ && deadline == now + WAIT) && looks_at(ask, url@),
            },
        (JoinPhase::Looking { answer, deadline }, Told::Fetched(fetched)) => exists|
            taken: Result<Option<String>, String>,
        | #[trigger]
            crate::backend::join::looked(fetched, taken) && match taken {
                Err(said) => after.phase is Over && crate::backend::flow::fails(ask, said@),
                Ok(Some(json)) => exists|consent: Result<Consent, String>| #[trigger]
                    crate::backend::join::consent_in(json@, consent) && match consent {
                        Ok(consent) => after.phase is Submitting && joins_with(ask, consent),
                        Err(said) => after.phase is Over && crate::backend::flow::fails(
                            ask,
                            said@,
                        ),
                    },
                Ok(None) => if now > deadline {
                    after.phase is Over && crate::backend::flow::fails(
                        ask,
                        "No device approved in time. Start again for a new code."@,
                    )
                } else {
                    after.phase == (JoinPhase::Sleeping { answer, deadline }) && ask is Sleep
                },
            },
        (JoinPhase::Sleeping { answer, deadline }, Told::Slept) => after.phase == (
        JoinPhase::Looking { answer, deadline }) && looks_at(ask, answer@),
        (JoinPhase::Submitting, Told::Output(Ok(_))) => after.phase is Over && ask == Ask::Done(
            Ok::<(), String>(()),
        ),
        (JoinPhase::Submitting, Told::Output(Err(said))) => after.phase is Over
            && crate::backend::flow::fails(ask, said@),
        _ => after.phase == before.phase && ask is Wait,
    }
}

impl JoinFromDevice {
    /// Begins: the flow, and what it asks first. A code that is none ends it.
    pub fn begin(network: &str, page: &str, code: &str) -> (begun: (Self, Ask<()>))
        requires
            page@.len() <= 0x200_0000,
        ensures
            begun.0.network@ == network@,
            begun.0.page@ == page@,
            if crate::backend::join::is_code(crate::backend::join::folded(code@)) {
                &&& begun.0.phase matches JoinPhase::Key { code: named } && named@
                    == crate::backend::join::folded(code@)
                &&& begun.1 is SeatedKey
            } else {
                begun.0.phase is Over && crate::backend::flow::fails(
                    begun.1,
                    "That code is malformed."@,
                )
            },
    {
        let network = network.to_owned();
        let page = page.to_owned();
        match normalized(code) {
            Some(code) => (
                JoinFromDevice { network, page, phase: JoinPhase::Key { code } },
                Ask::SeatedKey,
            ),
            None => (
                JoinFromDevice { network, page, phase: JoinPhase::Over },
                Ask::Done(Err("That code is malformed.".to_owned())),
            ),
        }
    }

    fn at(self, phase: JoinPhase, ask: Ask<()>) -> (next: (Self, Ask<()>))
        ensures
            next.0 == (JoinFromDevice { phase, ..self }),
            next.1 == ask,
    {
        (JoinFromDevice { network: self.network, page: self.page, phase }, ask)
    }

    /// What the flow asks next, told `told` at `now`.
    pub fn step(self, told: Told, now: u64) -> (next: (Self, Ask<()>))
        requires
            self.page@.len() <= 0x200_0000,
            status_fits(told),
            now + WAIT <= u64::MAX,
        ensures
            join_stepped(self, told, now, next.0, next.1),
    {
        let JoinFromDevice { network, page, phase } = self;
        let flow = JoinFromDevice { network, page, phase: JoinPhase::Over };
        match (phase, told) {
            (JoinPhase::Key { code }, Told::Key(key)) => match key {
                Ok(device) => {
                    let url = slot(flow.page.as_str(), code.as_str(), "request");
                    assert(slot_is(flow.page@, code@, "request"@, url));
                    match url {
                        Ok(url) => {
                            let json = request_message(flow.network.as_str(), device.as_slice());
                            flow.at(JoinPhase::Posting { code }, Ask::Post { url, json })
                        },
                        Err(said) => flow.at(JoinPhase::Over, Ask::Done(Err(said))),
                    }
                },
                Err(said) => flow.at(JoinPhase::Over, Ask::Done(Err(said))),
            },
            (JoinPhase::Posting { code }, Told::Fetched(fetched)) => {
                let sent = post(&fetched);
                let url = slot(flow.page.as_str(), code.as_str(), "consent");
                assert(crate::backend::join::posted(fetched, sent));
                assert(slot_is(flow.page@, code@, "consent"@, url));
                match sent {
                    Err(said) => flow.at(JoinPhase::Over, Ask::Done(Err(said))),
                    Ok(_) => match url {
                        Err(said) => flow.at(JoinPhase::Over, Ask::Done(Err(said))),
                        Ok(answer) => {
                            let url = answer.clone();
                            flow.at(
                                JoinPhase::Looking { answer, deadline: now + WAIT },
                                Ask::Take { url },
                            )
                        },
                    },
                }
            },
            (JoinPhase::Looking { answer, deadline }, Told::Fetched(fetched)) => {
                let taken = take(fetched);
                assert(crate::backend::join::looked(fetched, taken));
                match taken {
                    Err(said) => flow.at(JoinPhase::Over, Ask::Done(Err(said))),
                    Ok(Some(json)) => {
                        let consent = parse_consent(json.as_str());
                        assert(crate::backend::join::consent_in(json@, consent));
                        match consent {
                            Ok(consent) => {
                                let op = Op::AddKey {
                                    scheme: KeyScheme::Ed25519,
                                    label: Some("Desktop".to_owned()),
                                    consent,
                                };
                                flow.at(JoinPhase::Submitting, Ask::SubmitSeated(op))
                            },
                            Err(said) => flow.at(JoinPhase::Over, Ask::Done(Err(said))),
                        }
                    },
                    Ok(None) => if now > deadline {
                        flow.at(
                            JoinPhase::Over,
                            Ask::Done(
                                Err(
                                    "No device approved in time. Start again for a new code.".to_owned(),
                                ),
                            ),
                        )
                    } else {
                        flow.at(JoinPhase::Sleeping { answer, deadline }, Ask::Sleep)
                    },
                }
            },
            (JoinPhase::Sleeping { answer, deadline }, Told::Slept) => {
                let url = answer.clone();
                flow.at(JoinPhase::Looking { answer, deadline }, Ask::Take { url })
            },
            (JoinPhase::Submitting, Told::Output(output)) => match output {
                Ok(_) => flow.at(JoinPhase::Over, Ask::Done(Ok(()))),
                Err(said) => flow.at(JoinPhase::Over, Ask::Done(Err(said))),
            },
            (phase, _) => flow.at(phase, Ask::Wait),
        }
    }
}

// ---------- a device already on the account ----------
/// Begins a look for the request a new device put up under `code`. Taking it
/// empties the slot: one code, one look.
pub fn find_request(page: &str, code: &str) -> (ask: Ask<Request>)
    requires
        page@.len() <= 0x200_0000,
    ensures
        if crate::backend::join::is_code(crate::backend::join::folded(code@)) {
            exists|url: Result<String, String>| #[trigger]
                slot_is(page@, crate::backend::join::folded(code@), "request"@, url) && match url {
                    Ok(url) => looks_at(ask, url@),
                    Err(said) => crate::backend::flow::fails(ask, said@),
                }
        } else {
            crate::backend::flow::fails(ask, "A code is 8 letters and digits, like KQ4M-9XPT."@)
        },
{
    match normalized(code) {
        Some(code) => {
            let url = slot(page, code.as_str(), "request");
            assert(slot_is(page@, code@, "request"@, url));
            match url {
                Ok(url) => Ask::Take { url },
                Err(said) => Ask::Done(Err(said)),
            }
        },
        None => Ask::Done(Err("A code is 8 letters and digits, like KQ4M-9XPT.".to_owned())),
    }
}

/// Whether `request` is what a look that came to `fetched` found.
pub open spec fn found_in(
    fetched: crate::backend::join::Fetched,
    request: Result<Request, String>,
) -> bool {
    exists|taken: Result<Option<String>, String>| #[trigger]
        crate::backend::join::looked(fetched, taken) && match taken {
            Err(said) => request matches Err(words) && words@ == said@,
            Ok(None) => request matches Err(words) && words@
                == "No device is waiting on that code. Check it, or start again on the new device."@,
            Ok(Some(json)) => crate::backend::join::request_in(json@, request),
        }
}

/// What the look found.
pub fn found_request(fetched: crate::backend::join::Fetched) -> (request: Result<Request, String>)
    requires
        fetched matches crate::backend::join::Fetched::Answered { status, .. } ==> 100 <= status
            <= 999,
    ensures
        found_in(fetched, request),
{
    let taken = take(fetched);
    assert(crate::backend::join::looked(fetched, taken));
    match taken {
        Err(said) => Err(said),
        Ok(None) => Err(
            "No device is waiting on that code. Check it, or start again on the new device.".to_owned(),
        ),
        Ok(Some(json)) => parse_request(json.as_str()),
    }
}

/// Where an approval stands.
pub enum ApprovePhase {
    /// The new key's generation was asked for.
    Admitting { code: String, key: Vec<u8> },
    /// This device's consent was.
    Signing { code: String, expires_at: u64 },
    /// The consent is on its way up.
    Posting,
    Over,
}

/// This device, seated and on `account`, consents to a request's key joining,
/// and hands the consent to the new device under the code.
pub struct Approve {
    pub network: String,
    pub page: String,
    pub account: u64,
    pub phase: ApprovePhase,
}

/// What is said of a device on another network.
pub open spec fn elsewhere(theirs: Seq<char>, ours: Seq<char>) -> Seq<char> {
    "That device is on "@ + theirs + ", not "@ + ours + ". Approve it from a device on "@ + theirs
        + "."@
}

/// Whether `ask` hands `account`'s consent over in the slot at `url`.
pub open spec fn hands_over(
    ask: Ask<()>,
    url: Seq<char>,
    key: Seq<u8>,
    account: u64,
    deadline: u64,
    proof_bytes: Seq<u8>,
) -> bool {
    ask matches Ask::Post { url: to, json } && to@ == url && exists|consent: Consent|
        consent.key@ == key && consent.account == account && consent.expires_at == deadline
            && consent.proof@ == proof_bytes && #[trigger] crate::backend::join::says_consent(
            json@,
            consent,
        )
}

/// Whether telling the flow `told` at `now` (unix ms) makes it `after`, asking
/// `ask`.
pub open spec fn approve_stepped(
    before: Approve,
    told: Told,
    now: u64,
    after: Approve,
    ask: Ask<()>,
) -> bool {
    &&& after.network == before.network
    &&& after.page == before.page
    &&& after.account == before.account
    &&& match (before.phase, told) {
        (ApprovePhase::Admitting { code, key }, Told::Reply(Ok(Reply::Generation(generation)))) => {
            &&& ask matches Ask::SeatedSign(admission) && crate::backend::identity::admits(
                admission,
                before.network@,
                KeyScheme::Ed25519,
                key@,
                generation,
                before.account,
                now,
            )
            &&& after.phase == (ApprovePhase::Signing {
                code,
                expires_at: (now + crate::backend::passkey::CONSENT_TTL_MS) as u64,
            })
        },
        (ApprovePhase::Admitting { .. }, Told::Reply(Ok(_))) => after.phase is Over
            && crate::backend::flow::fails(ask, crate::backend::flow::no_generation()),
        (ApprovePhase::Admitting { .. }, Told::Reply(Err(said))) => after.phase is Over
            && crate::backend::flow::fails(ask, said@),
        (ApprovePhase::Signing { code, expires_at }, Told::Signed(Ok((key, proof_bytes)))) => {
            exists|url: Result<String, String>| #[trigger]
                slot_is(before.page@, code@, "consent"@, url) && match url {
                    Ok(url) => after.phase is Posting && hands_over(
                        ask,
                        url@,
                        key@,
                        before.account,
                        expires_at,
                        proof_bytes@,
                    ),
                    Err(said) => after.phase is Over && crate::backend::flow::fails(ask, said@),
                }
        },
        (ApprovePhase::Signing { .. }, Told::Signed(Err(said))) => after.phase is Over
            && crate::backend::flow::fails(ask, said@),
        (ApprovePhase::Posting, Told::Fetched(fetched)) => after.phase is Over && exists|
            sent: Result<(), String>,
        | #[trigger]
            crate::backend::join::posted(fetched, sent) && ask == Ask::Done(sent),
        _ => after.phase == before.phase && ask is Wait,
    }
}

impl Approve {
    /// Begins: the flow, and what it asks first. A request from another
    /// network ends it, and so does a code that is none.
    pub fn begin(network: &str, page: &str, account: u64, code: &str, request: &Request) -> (begun: (
        Self,
        Ask<()>,
    ))
        requires
            page@.len() <= 0x200_0000,
        ensures
            begun.0.network@ == network@,
            begun.0.page@ == page@,
            begun.0.account == account,
            if request.network@ != network@ {
                begun.0.phase is Over && crate::backend::flow::fails(
                    begun.1,
                    elsewhere(request.network@, network@),
                )
            } else if crate::backend::join::is_code(crate::backend::join::folded(code@)) {
                &&& begun.0.phase matches ApprovePhase::Admitting { code: named, key } && named@
                    == crate::backend::join::folded(code@) && key@ == request.key@
                &&& crate::backend::flow::asks_generation(begun.1, request.key@)
            } else {
                begun.0.phase is Over && crate::backend::flow::fails(
                    begun.1,
                    "That code is malformed."@,
                )
            },
    {
        let flow = Approve {
            network: network.to_owned(),
            page: page.to_owned(),
            account,
            phase: ApprovePhase::Over,
        };
        if !same_text(request.network.as_str(), network) {
            let mut said = joined3("That device is on ", request.network.as_str(), ", not ");
            said.append(network);
            said.append(". Approve it from a device on ");
            said.append(request.network.as_str());
            said.append(".");
            return flow.at(ApprovePhase::Over, Ask::Done(Err(said)));
        }
        match normalized(code) {
            Some(code) => {
                let key = bytes_of(request.key.as_slice());
                let ask = Ask::Ask(Query::Generation { key: bytes_of(request.key.as_slice()) });
                flow.at(ApprovePhase::Admitting { code, key }, ask)
            },
            None => flow.at(
                ApprovePhase::Over,
                Ask::Done(Err("That code is malformed.".to_owned())),
            ),
        }
    }

    fn at(self, phase: ApprovePhase, ask: Ask<()>) -> (next: (Self, Ask<()>))
        ensures
            next.0 == (Approve { phase, ..self }),
            next.1 == ask,
    {
        (
            Approve { network: self.network, page: self.page, account: self.account, phase },
            ask,
        )
    }

    /// What the flow asks next, told `told` at `now` (unix ms).
    pub fn step(self, told: Told, now: u64) -> (next: (Self, Ask<()>))
        requires
            self.page@.len() <= 0x200_0000,
            status_fits(told),
            now + crate::backend::passkey::CONSENT_TTL_MS <= u64::MAX,
        ensures
            approve_stepped(self, told, now, next.0, next.1),
    {
        let Approve { network, page, account, phase } = self;
        let flow = Approve { network, page, account, phase: ApprovePhase::Over };
        match (phase, told) {
            (ApprovePhase::Admitting { code, key }, Told::Reply(reply)) => match reply {
                Ok(Reply::Generation(generation)) => {
                    let asked = admission(
                        flow.network.as_str(),
                        KeyScheme::Ed25519,
                        key.as_slice(),
                        generation,
                        account,
                        now,
                    );
                    let expires_at = asked.expires_at;
                    flow.at(ApprovePhase::Signing { code, expires_at }, Ask::SeatedSign(asked))
                },
                Ok(_) => flow.at(
                    ApprovePhase::Over,
                    Ask::Done(
                        Err("identity answered something other than a generation".to_owned()),
                    ),
                ),
                Err(said) => flow.at(ApprovePhase::Over, Ask::Done(Err(said))),
            },
            (ApprovePhase::Signing { code, expires_at }, Told::Signed(signed)) => match signed {
                Ok((key, proof_bytes)) => {
                    let url = slot(flow.page.as_str(), code.as_str(), "consent");
                    assert(slot_is(flow.page@, code@, "consent"@, url));
                    match url {
                        Ok(url) => {
                            let consent = Consent { key, account, expires_at, proof: proof_bytes };
                            let json = consent_message(&consent);
                            let ghost to = url@;
                            let ask = Ask::Post { url, json };
                            assert(hands_over(
                                ask,
                                to,
                                key@,
                                account,
                                expires_at,
                                proof_bytes@,
                            )) by {
                                assert(ask->Post_url@ == to);
                                assert(crate::backend::join::says_consent(ask->json@, consent));
                            }
                            flow.at(ApprovePhase::Posting, ask)
                        },
                        Err(said) => flow.at(ApprovePhase::Over, Ask::Done(Err(said))),
                    }
                },
                Err(said) => flow.at(ApprovePhase::Over, Ask::Done(Err(said))),
            },
            (ApprovePhase::Posting, Told::Fetched(fetched)) => {
                let sent = post(&fetched);
                assert(crate::backend::join::posted(fetched, sent));
                flow.at(ApprovePhase::Over, Ask::Done(sent))
            },
            (phase, _) => flow.at(phase, Ask::Wait),
        }
    }
}

/// What an approving device hands over is what the new device joins with: the
/// same key, account, deadline and proof.
pub proof fn an_approval_is_what_the_new_device_joins_with(
    handed: Ask<()>,
    url: Seq<char>,
    key: Seq<u8>,
    account: u64,
    deadline: u64,
    proof_bytes: Seq<u8>,
    read: Result<Consent, String>,
)
    ensures
        hands_over(handed, url, key, account, deadline, proof_bytes)
            && crate::backend::join::consent_in(handed->json@, read) ==> (read matches Ok(consent)
            && consent.key@ == key && consent.account == account && consent.expires_at == deadline
            && consent.proof@ == proof_bytes),
{
    if hands_over(handed, url, key, account, deadline, proof_bytes) {
        let consent = choose|consent: Consent|
            consent.key@ == key && consent.account == account && consent.expires_at == deadline
                && consent.proof@ == proof_bytes && #[trigger] crate::backend::join::says_consent(
                handed->json@,
                consent,
            );
        crate::backend::join::a_consent_survives_the_trip(handed->json@, consent, read);
    }
}

/// What an approving device hands over is the consent it signed: for its own
/// account, until the deadline in the admission of the key that was asked
/// about.
pub proof fn an_approval_hands_over_the_consent_signed(
    admitting: Approve,
    generation: u64,
    now: u64,
    signing: Approve,
    signs: Ask<()>,
    device: Vec<u8>,
    proof_bytes: Vec<u8>,
    later: u64,
    posting: Approve,
    posts: Ask<()>,
)
    ensures
        admitting.phase is Admitting && now + crate::backend::passkey::CONSENT_TTL_MS <= u64::MAX
            && approve_stepped(
            admitting,
            Told::Reply(Ok(Reply::Generation(generation))),
            now,
            signing,
            signs,
        ) && approve_stepped(
            signing,
            Told::Signed(Ok((device, proof_bytes))),
            later,
            posting,
            posts,
        ) && posting.phase is Posting ==> (signs matches Ask::SeatedSign(admission)
            && admission.key@ == admitting.phase->key@ && admission.account == admitting.account
            && hands_over(
            posts,
            posts->Post_url@,
            device@,
            admission.account,
            admission.expires_at,
            proof_bytes@,
        )),
{
}

// ---------- a whole run ----------
/// Whether `steps` are the steps of the flow that begins as `begun`.
pub open spec fn join_run(begun: JoinFromDevice, steps: Seq<crate::backend::flow::Step<JoinFromDevice, ()>>) -> bool
    decreases steps.len(),
{
    if steps.len() == 0 {
        begun.phase is Key
    } else {
        join_run(begun, steps.drop_last()) && join_stepped(
            crate::backend::flow::flow_after(begun, steps.drop_last()),
            steps.last().told,
            steps.last().now,
            steps.last().flow,
            steps.last().ask,
        )
    }
}

/// What the flow waits for is what it asked for.
spec fn join_run_waits(flow: JoinFromDevice, asked: Ask<()>) -> bool {
    match flow.phase {
        JoinPhase::Key { .. } => asked is SeatedKey,
        JoinPhase::Posting { .. } => asked is Post,
        JoinPhase::Looking { answer, .. } => asked matches Ask::Take { url } && url@ == answer@,
        JoinPhase::Sleeping { .. } => asked is Sleep,
        JoinPhase::Submitting => asked matches Ask::SubmitSeated(op) && op is AddKey,
        JoinPhase::Over => asked is Done,
    }
}

proof fn join_run_holds(
    begun: JoinFromDevice,
    first: Ask<()>,
    steps: Seq<crate::backend::flow::Step<JoinFromDevice, ()>>,
)
    requires
        join_run(begun, steps),
        first is SeatedKey,
    ensures
        join_run_waits(
            crate::backend::flow::flow_after(begun, steps),
            crate::backend::flow::pending(first, steps),
        ),
        crate::backend::flow::flow_after(begun, steps).network == begun.network,
        crate::backend::flow::flow_after(begun, steps).page == begun.page,
    decreases steps.len(),
{
    if steps.len() > 0 {
        join_run_holds(begun, first, steps.drop_last());
    }
}

/// However a new device's wait goes: it waits for what it asked for, and
/// anything else changes nothing. Whatever goes wrong with that ends it in
/// those words; a request that is not taken up ends it, and so does a slot
/// that is refused; it rests only while its slot is empty; and it is done
/// exactly when the node takes the write that adds its key.
pub proof fn a_new_device_joins_as_the_node_says(
    begun: JoinFromDevice,
    first: Ask<()>,
    steps: Seq<crate::backend::flow::Step<JoinFromDevice, ()>>,
)
    ensures
        join_run(begun, steps) && first is SeatedKey && steps.len() > 0 ==> {
            let asked = crate::backend::flow::pending(first, steps.drop_last());
            let last = steps.last();
            &&& last.ask is Wait <==> !crate::backend::flow::answers(asked, last.told)
            &&& last.ask is Wait ==> last.flow == crate::backend::flow::flow_after(
                begun,
                steps.drop_last(),
            )
            &&& crate::backend::flow::answers(asked, last.told)
                && crate::backend::flow::went_wrong(last.told) is Some ==> (
            last.ask matches Ask::Done(Err(said)) && said@ == crate::backend::flow::went_wrong(
                last.told,
            )->0)
            &&& (last.ask matches Ask::Done(Ok(_))) <==> (asked matches Ask::SubmitSeated(op)
                && op is AddKey) && (last.told matches Told::Output(Ok(_)))
            &&& last.ask is Sleep ==> (last.told matches Told::Fetched(
                crate::backend::join::Fetched::Answered { status, .. },
            ) && status == 204)
            &&& asked is Post && (last.told matches Told::Fetched(fetched)) && !(
            last.told matches Told::Fetched(
                crate::backend::join::Fetched::Answered { status, .. },
            ) && 200 <= status < 300) ==> (last.ask matches Ask::Done(Err(_)))
            &&& last.ask is SubmitSeated ==> asked is Take && (last.told matches Told::Fetched(
                crate::backend::join::Fetched::Answered { status, .. },
            ) && status == 200)
            &&& last.flow.network == begun.network && last.flow.page == begun.page
        },
{
    if join_run(begun, steps) && first is SeatedKey && steps.len() > 0 {
        join_run_holds(begun, first, steps.drop_last());
        join_run_holds(begun, first, steps);
    }
}

// ---------- a whole run ----------
/// Whether `steps` are the steps of the flow that begins as `begun`.
pub open spec fn approve_run(begun: Approve, steps: Seq<crate::backend::flow::Step<Approve, ()>>) -> bool
    decreases steps.len(),
{
    if steps.len() == 0 {
        begun.phase is Admitting
    } else {
        approve_run(begun, steps.drop_last()) && approve_stepped(
            crate::backend::flow::flow_after(begun, steps.drop_last()),
            steps.last().told,
            steps.last().now,
            steps.last().flow,
            steps.last().ask,
        )
    }
}

/// What the flow waits for is what it asked for.
spec fn approve_run_waits(flow: Approve, asked: Ask<()>) -> bool {
    match flow.phase {
        ApprovePhase::Admitting { .. } => asked is Ask,
        ApprovePhase::Signing { .. } => asked is SeatedSign,
        ApprovePhase::Posting => asked is Post,
        ApprovePhase::Over => asked is Done,
    }
}

proof fn approve_run_holds(
    begun: Approve,
    first: Ask<()>,
    steps: Seq<crate::backend::flow::Step<Approve, ()>>,
)
    requires
        approve_run(begun, steps),
        first is Ask,
    ensures
        approve_run_waits(
            crate::backend::flow::flow_after(begun, steps),
            crate::backend::flow::pending(first, steps),
        ),
        crate::backend::flow::flow_after(begun, steps).network == begun.network,
        crate::backend::flow::flow_after(begun, steps).page == begun.page,
        crate::backend::flow::flow_after(begun, steps).account == begun.account,
    decreases steps.len(),
{
    if steps.len() > 0 {
        approve_run_holds(begun, first, steps.drop_last());
    }
}

/// However an approval goes: it waits for what it asked for, and anything else
/// changes nothing. Whatever goes wrong with that ends it in those words, and
/// it is done exactly when the auth host takes the consent.
pub proof fn an_approval_is_done_once_it_is_handed_over(
    begun: Approve,
    first: Ask<()>,
    steps: Seq<crate::backend::flow::Step<Approve, ()>>,
)
    ensures
        approve_run(begun, steps) && first is Ask && steps.len() > 0 ==> {
            let asked = crate::backend::flow::pending(first, steps.drop_last());
            let last = steps.last();
            &&& last.ask is Wait <==> !crate::backend::flow::answers(asked, last.told)
            &&& last.ask is Wait ==> last.flow == crate::backend::flow::flow_after(
                begun,
                steps.drop_last(),
            )
            &&& crate::backend::flow::answers(asked, last.told)
                && crate::backend::flow::went_wrong(last.told) is Some ==> (
            last.ask matches Ask::Done(Err(said)) && said@ == crate::backend::flow::went_wrong(
                last.told,
            )->0)
            &&& (last.ask matches Ask::Done(Ok(_))) <==> asked is Post && (
            last.told matches Told::Fetched(
                crate::backend::join::Fetched::Answered { status, .. },
            ) && 200 <= status < 300)
            &&& last.flow.network == begun.network && last.flow.page == begun.page
                && last.flow.account == begun.account
        },
{
    if approve_run(begun, steps) && first is Ask && steps.len() > 0 {
        approve_run_holds(begun, first, steps.drop_last());
        approve_run_holds(begun, first, steps);
    }
}

/// The whole of an approval, told what it asks for: the consent is to the key of
/// the request, on this network, to this device's account, for a quarter of an
/// hour; and it is handed over in the slot the new device looks at, by the key
/// that signed.
pub proof fn the_whole_of_an_approval(
    admitting: Approve,
    code: String,
    key: Vec<u8>,
    generation: u64,
    now: u64,
    signing: Approve,
    signs: Ask<()>,
    signer: Vec<u8>,
    proof_bytes: Vec<u8>,
    later: u64,
    posting: Approve,
    posts: Ask<()>,
    slot_url: Result<String, String>,
)
    ensures
        admitting.phase == (ApprovePhase::Admitting { code, key }) && now + 900_000 <= u64::MAX
            && approve_stepped(
            admitting,
            Told::Reply(Ok(Reply::Generation(generation))),
            now,
            signing,
            signs,
        ) && approve_stepped(
            signing,
            Told::Signed(Ok((signer, proof_bytes))),
            later,
            posting,
            posts,
        ) && slot_is(admitting.page@, code@, "consent"@, slot_url) ==> {
            &&& signs matches Ask::SeatedSign(admission) && admission.network@
                == vstd::utf8::encode_utf8(admitting.network@) && admission.scheme
                == KeyScheme::Ed25519 && admission.key@ == key@ && admission.generation
                == generation && admission.account == admitting.account && admission.expires_at
                == now + 900_000
            &&& match slot_url {
                Ok(url) => posts matches Ask::Post { url: to, json } && to@ == url@
                    && crate::outside::json_number(json@, "account"@) == Some(admitting.account)
                    && crate::outside::json_number(json@, "expires_at"@) == Some(
                    (now + 900_000) as u64,
                ) && crate::outside::json_text(json@, "key"@) == Some(
                    crate::backend::hex::hex_text(signer@),
                ) && crate::outside::json_text(json@, "proof"@) == Some(
                    crate::backend::hex::hex_text(proof_bytes@),
                ),
                Err(said) => crate::backend::flow::fails(posts, said@),
            }
        },
{
}

/// The whole of a new device's joining, told what it asks for: its own key goes
/// up in the code's request slot, its answer is looked for in the code's
/// consent slot for five minutes, and it joins with the consent it finds
/// there, as it stands.
pub proof fn the_whole_of_joining_from_a_device(
    begun: JoinFromDevice,
    code: String,
    device: Vec<u8>,
    at_key: u64,
    posting: JoinFromDevice,
    posts: Ask<()>,
    taken_up: crate::backend::join::Fetched,
    now: u64,
    looking: JoinFromDevice,
    looks: Ask<()>,
    found: crate::backend::join::Fetched,
    later: u64,
    joining: JoinFromDevice,
    joins: Ask<()>,
    request_slot: Result<String, String>,
    consent_slot: Result<String, String>,
    consent: Result<Consent, String>,
)
    ensures
        begun.phase == (JoinPhase::Key { code }) && slot_is(
            begun.page@,
            code@,
            "request"@,
            request_slot,
        ) && slot_is(begun.page@, code@, "consent"@, consent_slot) && request_slot is Ok
            && consent_slot is Ok && join_stepped(
            begun,
            Told::Key(Ok(device)),
            at_key,
            posting,
            posts,
        ) && join_stepped(posting, Told::Fetched(taken_up), now, looking, looks) && (
        taken_up matches crate::backend::join::Fetched::Answered { status, .. } && 200 <= status
            < 300) && join_stepped(looking, Told::Fetched(found), later, joining, joins) ==> {
            &&& posts matches Ask::Post { url, json } && url@ == request_slot->Ok_0@
                && crate::outside::json_text(json@, "network"@) == Some(begun.network@)
                && crate::outside::json_text(json@, "key"@) == Some(
                crate::backend::hex::hex_text(device@),
            )
            &&& looks matches Ask::Take { url } && url@ == consent_slot->Ok_0@
            &&& (found matches crate::backend::join::Fetched::Answered { status, text: Some(text) }
                && status == 200 && crate::backend::join::consent_in(text@, consent)) ==> match consent {
                Ok(given) => joins matches Ask::SubmitSeated(
                    crate::backend::identity::Op::AddKey { scheme, label: Some(label), consent },
                ) && scheme == KeyScheme::Ed25519 && label@ == "Desktop"@ && consent.key@
                    == given.key@ && consent.account == given.account && consent.expires_at
                    == given.expires_at && consent.proof@ == given.proof@,
                Err(said) => crate::backend::flow::fails(joins, said@),
            }
            &&& (found matches crate::backend::join::Fetched::Answered { status, .. } && status
                == 204) && later <= now + 300_000 ==> joins is Sleep
            &&& (found matches crate::backend::join::Fetched::Answered { status, .. } && status
                == 204) && later > now + 300_000 ==> crate::backend::flow::fails(
                joins,
                "No device approved in time. Start again for a new code."@,
            )
        },
{
}

/// What a look for a waiting device finds: the request left there, read; that
/// nothing waits where the slot is empty; and what the host said where it
/// refused.
pub proof fn a_look_finds_the_device_that_waits(
    fetched: crate::backend::join::Fetched,
    request: Result<Request, String>,
)
    requires
        call_ensures(found_request, (fetched,), request),
    ensures
        fetched is Unreachable ==> request is Err,
        fetched matches crate::backend::join::Fetched::Answered { status, text } ==> {
            &&& status == 204 ==> request is Err && request->Err_0@
                == "No device is waiting on that code. Check it, or start again on the new device."@
            &&& status == 200 && text is Some ==> crate::backend::join::request_in(
                text->0@,
                request,
            )
            &&& status != 200 || text is None ==> request is Err
        },
{
    let taken = choose|taken: Result<Option<String>, String>| #[trigger]
        crate::backend::join::looked(fetched, taken) && match taken {
            Err(said) => request matches Err(words) && words@ == said@,
            Ok(None) => request matches Err(words) && words@
                == "No device is waiting on that code. Check it, or start again on the new device."@,
            Ok(Some(json)) => crate::backend::join::request_in(json@, request),
        };
    assert(crate::backend::join::looked(fetched, taken));
}

/// A device that waits is looked for by the code alone, however it is spaced,
/// in the slot requests are left in; what is no code is told so and no slot is
/// looked at.
pub proof fn a_device_is_looked_for_by_its_code(page: &str, code: &str, ask: Ask<Request>)
    requires
        call_ensures(find_request, (page, code), ask),
    ensures
        !crate::backend::join::is_code(crate::backend::join::folded(code@)) ==> (ask matches Ask::Done(
            Err(said),
        ) && said@ == "A code is 8 letters and digits, like KQ4M-9XPT."@),
        crate::backend::join::is_code(crate::backend::join::folded(code@)) ==> (
        ask matches Ask::Take { url } ==> crate::outside::ends_with(
            url@,
            crate::backend::join::slot_path(crate::backend::join::folded(code@), "request"@).skip(1),
        )),
        crate::backend::join::is_code(crate::backend::join::folded(code@)) ==> ask is Take
            || ask is Done,
{
}

/// A new device's flow begins with its seated key, under the code as it is
/// folded; what is no code ends it at once.
pub proof fn a_new_device_begins_with_its_code(
    network: &str,
    page: &str,
    code: &str,
    begun: (JoinFromDevice, Ask<()>),
)
    requires
        call_ensures(JoinFromDevice::begin, (network, page, code), begun),
    ensures
        begun.0.network@ == network@ && begun.0.page@ == page@,
        crate::backend::join::is_code(crate::backend::join::folded(code@)) ==> begun.1 is SeatedKey
            && (begun.0.phase matches JoinPhase::Key { code: named } && named@
            == crate::backend::join::folded(code@)),
        !crate::backend::join::is_code(crate::backend::join::folded(code@)) ==> begun.0.phase
            is Over && (begun.1 matches Ask::Done(Err(said)) && said@ == "That code is malformed."@),
{
}

/// An approval is for a device on this network and by a code that is one: then
/// it begins by asking how often the device's key has joined, and otherwise it
/// ends at once, saying which of the two it was.
pub proof fn an_approval_begins_on_one_network(
    network: &str,
    page: &str,
    account: u64,
    code: &str,
    request: &Request,
    begun: (Approve, Ask<()>),
)
    requires
        call_ensures(Approve::begin, (network, page, account, code, request), begun),
    ensures
        begun.0.network@ == network@ && begun.0.page@ == page@ && begun.0.account == account,
        request.network@ != network@ ==> begun.0.phase is Over && (begun.1 matches Ask::Done(
            Err(said),
        ) && said@ == "That device is on "@ + request.network@ + ", not "@ + network@
            + ". Approve it from a device on "@ + request.network@ + "."@),
        request.network@ == network@ && !crate::backend::join::is_code(
            crate::backend::join::folded(code@),
        ) ==> begun.0.phase is Over && (begun.1 matches Ask::Done(Err(said)) && said@
            == "That code is malformed."@),
        request.network@ == network@ && crate::backend::join::is_code(
            crate::backend::join::folded(code@),
        ) ==> (begun.0.phase matches ApprovePhase::Admitting { code: named, key } && named@
            == crate::backend::join::folded(code@) && key@ == request.key@) && (
        begun.1 matches Ask::Ask(Query::Generation { key }) && key@ == request.key@),
{
}

/// An answer that is no generation ends an approval, and says so.
pub proof fn an_answer_of_another_sort_ends_an_approval(
    flow: Approve,
    told: Told,
    now: u64,
    next: (Approve, Ask<()>),
)
    requires
        call_ensures(Approve::step, (flow, told, now), next),
    ensures
        flow.phase is Admitting ==> (told matches Told::Reply(Ok(reply)) ==> !(reply is Generation)
            ==> next.0.phase is Over && (next.1 matches Ask::Done(Err(said)) && said@
            == "identity answered something other than a generation"@)),
{
}

/// A page whose address cannot be used ends a flow in words that name it, and
/// an address that can be is the code's own slot.
pub proof fn an_unusable_page_is_told_of(
    page: &str,
    code: &str,
    side: &str,
    url: Result<String, String>,
)
    requires
        call_ensures(slot, (page, code, side), url),
    ensures
        slot_is(page@, code@, side@, url),
        url matches Err(said) ==> said@.len() >= "The auth host address is unusable: "@.len()
            && said@.take("The auth host address is unusable: "@.len() as int)
            == "The auth host address is unusable: "@,
        url matches Ok(url) ==> crate::outside::ends_with(
            url@,
            "r/"@ + crate::outside::base64(
                crate::outside::sha256_of(crate::backend::join::slot_name(code@, side@)),
            ),
        ),
{
    reveal_strlit("/r/");
    reveal_strlit("r/");
    if let Err(said) = url {
        assert(said@.take("The auth host address is unusable: "@.len() as int)
            =~= "The auth host address is unusable: "@);
    }
    let name = crate::outside::base64(
        crate::outside::sha256_of(crate::backend::join::slot_name(code@, side@)),
    );
    assert(("/r/"@ + name).skip(1) =~= "r/"@ + name);
}

} // verus!
