//! The flows that put keys on accounts: what each asks for next, once it is
//! told what came of the last thing it asked for.
//!
//! A flow that is told something it did not ask for goes on waiting.

use vstd::prelude::*;

use crate::backend::identity::Admission;
use crate::backend::identity::HeldKey;
use crate::backend::identity::Op;
use crate::backend::identity::Query;
use crate::backend::identity::Reply;
use crate::backend::join::Fetched;
use crate::backend::passkey::Assertion;
use crate::backend::passkey::Outcome;
use crate::backend::passkey::Request;

pub mod account;
pub mod create;
pub mod device;
pub mod recovery;
pub mod sign_in;

verus! {

/// What a flow asks of whoever runs it.
#[derive(Debug)]
pub enum Ask<T> {
    /// The public key of the device's seated key.
    SeatedKey,
    /// A question to identity.
    Ask(Query),
    /// An account under this name, by the seated key; its number.
    Create { name: String },
    /// One touch of the person's passkey.
    Touch(Request),
    /// The seated key's consent to an admission.
    SeatedSign(Admission),
    /// The number of a key's next frame.
    NextSeq(Vec<u8>),
    /// A write's bytes.
    Encode(Op),
    /// One touch, to sign a frame's preimage.
    AssertFrame { preimage: Vec<u8> },
    /// Whether `assertion` is `signer`'s over a frame's preimage, and its
    /// bytes as a proof.
    VerifyFrame { signer: Vec<u8>, preimage: Vec<u8>, assertion: Assertion },
    /// One touch, to consent to an admission.
    AssertConsent(Admission),
    /// For each of `keys`, whether a passkey of its bytes made `assertion` over
    /// `admission`; and its bytes as a proof.
    VerifyConsent { admission: Admission, keys: Vec<HeldKey>, assertion: Assertion },
    /// The bytes a key consents to an admission over.
    Preimage(Admission),
    /// A write by the seated key.
    SubmitSeated(Op),
    /// A frame.
    Submit(Vec<u8>),
    /// A message into a slot of the relay.
    Post { url: String, json: String },
    /// A look at a slot of the relay.
    Take { url: String },
    /// A moment's sleep.
    Sleep,
    /// What was asked for last, still.
    Wait,
    /// Nothing more: the flow is over.
    Done(Result<T, String>),
}

/// What came of something a flow asked for. Errors are in words.
#[derive(Debug)]
pub enum Told {
    Key(Result<Vec<u8>, String>),
    Reply(Result<Reply, String>),
    Number(Result<u64, String>),
    Touched(Result<Outcome, String>),
    Signed(Result<(Vec<u8>, Vec<u8>), String>),
    NextSeq(Result<u64, String>),
    Payload(Vec<u8>),
    Preimage { namespace: Vec<u8>, preimage: Vec<u8> },
    Proof { proof: Vec<u8>, verified: bool },
    Consented { proof: Vec<u8>, verifies: Vec<bool> },
    Output(Result<Vec<u8>, String>),
    Fetched(Fetched),
    Slept,
}

/// Whether `ask` ends a flow with `said` for the person to read.
pub open spec fn fails<T>(ask: Ask<T>, said: Seq<char>) -> bool {
    ask matches Ask::Done(Err(words)) && words@ == said
}

/// Whether `ask` asks identity which account `key` is on.
pub open spec fn asks_of_key<T>(ask: Ask<T>, key: Seq<u8>) -> bool {
    ask matches Ask::Ask(Query::OfKey { key: named }) && named@ == key
}

/// Whether `ask` asks identity for the account `number`.
pub open spec fn asks_account<T>(ask: Ask<T>, number: u64) -> bool {
    ask matches Ask::Ask(Query::Get { number: named }) && named == number
}

/// Whether `ask` asks identity how often `key` has joined accounts.
pub open spec fn asks_generation<T>(ask: Ask<T>, key: Seq<u8>) -> bool {
    ask matches Ask::Ask(Query::Generation { key: named }) && named@ == key
}

/// What is said of an answer that is no account number.
pub open spec fn no_number() -> Seq<char> {
    "identity answered something other than an account number"@
}

/// What is said of an answer that is no generation.
pub open spec fn no_generation() -> Seq<char> {
    "identity answered something other than a generation"@
}

// ---------- a flow's run ----------
/// Whether `told` is what came of what `ask` asked for.
pub open spec fn answers<T>(ask: Ask<T>, told: Told) -> bool {
    match ask {
        Ask::SeatedKey => told is Key,
        Ask::Ask(_) => told is Reply,
        Ask::Create { .. } => told is Number,
        Ask::Touch(_) => told is Touched,
        Ask::AssertFrame { .. } => told is Touched,
        Ask::AssertConsent(_) => told is Touched,
        Ask::SeatedSign(_) => told is Signed,
        Ask::NextSeq(_) => told is NextSeq,
        Ask::Encode(_) => told is Payload,
        Ask::VerifyFrame { .. } => told is Proof,
        Ask::VerifyConsent { .. } => told is Consented,
        Ask::Preimage(_) => told is Preimage,
        Ask::SubmitSeated(_) => told is Output,
        Ask::Submit(_) => told is Output,
        Ask::Post { .. } => told is Fetched,
        Ask::Take { .. } => told is Fetched,
        Ask::Sleep => told is Slept,
        Ask::Wait => false,
        Ask::Done(_) => false,
    }
}

/// The words of what went wrong, where `told` is that something did.
pub open spec fn went_wrong(told: Told) -> Option<Seq<char>> {
    match told {
        Told::Key(Err(said)) => Some(said@),
        Told::Reply(Err(said)) => Some(said@),
        Told::Number(Err(said)) => Some(said@),
        Told::Touched(Err(said)) => Some(said@),
        Told::Signed(Err(said)) => Some(said@),
        Told::NextSeq(Err(said)) => Some(said@),
        Told::Output(Err(said)) => Some(said@),
        _ => None,
    }
}

/// One step of a flow: what it was told and when, what it was then, and what
/// it asked.
pub struct Step<F, T> {
    pub told: Told,
    pub now: u64,
    pub flow: F,
    pub ask: Ask<T>,
}

/// What a flow that began as `begun` is after `steps`.
pub open spec fn flow_after<F, T>(begun: F, steps: Seq<Step<F, T>>) -> F {
    if steps.len() == 0 {
        begun
    } else {
        steps.last().flow
    }
}

/// What is asked for after `steps`, `first` having been asked for at first: the
/// last that was, the flow's waiting aside.
pub open spec fn pending<F, T>(first: Ask<T>, steps: Seq<Step<F, T>>) -> Ask<T>
    decreases steps.len(),
{
    if steps.len() == 0 {
        first
    } else if steps.last().ask is Wait {
        pending(first, steps.drop_last())
    } else {
        steps.last().ask
    }
}

/// What a flow says to end, and what it asks identity, in full.
pub proof fn an_ask_says_all_of_it<T>(ask: Ask<T>, said: Seq<char>, key: Seq<u8>, number: u64)
    ensures
        fails(ask, said) <==> ask is Done && ask->Done_0 is Err && ask->Done_0->Err_0@ == said,
        asks_of_key(ask, key) <==> ask is Ask && ask->Ask_0 is OfKey && ask->Ask_0->OfKey_key@ == key,
        asks_account(ask, number) <==> ask is Ask && ask->Ask_0 is Get && ask->Ask_0->number
            == number,
        asks_generation(ask, key) <==> ask is Ask && ask->Ask_0 is Generation
            && ask->Ask_0->Generation_key@ == key,
{
}

} // verus!
