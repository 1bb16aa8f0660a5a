//! The identity program's accounts, as far as the app reasons about them: who
//! holds which key, and what lets another in.

use vstd::prelude::*;
use vstd::utf8::*;

use crate::backend::join::Consent;
use crate::backend::noded::KeyScheme;
use crate::backend::passkey::expires_at;
use crate::backend::wire::bytes_of;
use crate::backend::wire::decode;
use crate::text::decimal_of;
use crate::text::joined3;

verus! {

/// A key an account holds.
#[derive(Debug)]
pub struct HeldKey {
    pub scheme: KeyScheme,
    pub key: Vec<u8>,
}

/// Whose an account is.
#[derive(Debug)]
pub enum Control {
    Person,
    Managed { manager: u64 },
    Module { module: String },
}

/// An account, and the keys it holds.
#[derive(Debug)]
pub struct Account {
    pub number: u64,
    pub name: String,
    pub control: Control,
    pub keys: Vec<HeldKey>,
}

/// A question to identity.
#[derive(Debug)]
pub enum Query {
    OfKey { key: Vec<u8> },
    Get { number: u64 },
    Generation { key: Vec<u8> },
}

/// Its answer.
#[derive(Debug)]
pub enum Reply {
    Number(Option<u64>),
    Account(Option<Account>),
    Generation(u64),
    Other,
}

/// What a key on an account consents to: another joining it, once, for a
/// while.
#[derive(Debug)]
pub struct Admission {
    pub network: Vec<u8>,
    pub scheme: KeyScheme,
    pub key: Vec<u8>,
    pub generation: u64,
    pub account: u64,
    pub expires_at: u64,
}

/// A write to identity.
#[derive(Debug)]
pub enum Op {
    Create { name: String, scheme: KeyScheme },
    AddKey { scheme: KeyScheme, label: Option<String>, consent: Consent },
}

/// Whether `op` adds a key of `scheme` under `label`, by a consent of `key` to
/// its joining `account` until `deadline`, proved by `proof_bytes`.
pub open spec fn adds(
    op: Op,
    scheme: KeyScheme,
    label: Seq<char>,
    key: Seq<u8>,
    account: u64,
    deadline: u64,
    proof_bytes: Seq<u8>,
) -> bool {
    op matches Op::AddKey { scheme: with, label: Some(said), consent } && with == scheme && said@
        == label && consent.key@ == key && consent.account == account && consent.expires_at
        == deadline && consent.proof@ == proof_bytes
}

/// The write that adds a key.
pub fn add_key(
    scheme: KeyScheme,
    label: &str,
    key: Vec<u8>,
    account: u64,
    deadline: u64,
    proof_bytes: Vec<u8>,
) -> (op: Op)
    ensures
        adds(op, scheme, label@, key@, account, deadline, proof_bytes@),
{
    Op::AddKey {
        scheme,
        label: Some(label.to_owned()),
        consent: Consent { key, account, expires_at: deadline, proof: proof_bytes },
    }
}

/// What is said of an account that is not a person's.
pub open spec fn not_a_person(account: Account) -> Option<Seq<char>> {
    match account.control {
        Control::Person => None,
        Control::Managed { manager } => Some(
            "This key belongs to "@ + account.name@ + " (account "@ + crate::text::decimal(
                account.number as nat,
            ) + "), an agent managed by account "@ + crate::text::decimal(manager as nat)
                + ". Passkeys are for a person's own account: sign in with a person's key."@,
        ),
        Control::Module { module } => Some(
            "This key belongs to the account of the module "@ + module@
                + ", which takes no passkey."@,
        ),
    }
}

/// A passkey flow is a person's: their own keys join their own account. An
/// agent's keys are its manager's to add, and a module's account holds none,
/// so a device key that holds either is told so instead of sending a write
/// identity would refuse.
pub fn person(account: &Account) -> (fine: Result<(), String>)
    ensures
        match (fine, not_a_person(*account)) {
            (Ok(_), None) => true,
            (Err(said), Some(words)) => said@ == words,
            _ => false,
        },
{
    match &account.control {
        Control::Person => Ok(()),
        Control::Managed { manager } => {
            let mut said = joined3("This key belongs to ", account.name.as_str(), " (account ");
            said.append(decimal_of(account.number).as_str());
            said.append("), an agent managed by account ");
            said.append(decimal_of(*manager).as_str());
            said.append(
                ". Passkeys are for a person's own account: sign in with a person's key.",
            );
            Err(said)
        },
        Control::Module { module } => Err(
            joined3(
                "This key belongs to the account of the module ",
                module.as_str(),
                ", which takes no passkey.",
            ),
        ),
    }
}

/// The first of `keys`, from `from` on, that is a passkey and signed the proof
/// at hand: `verified` says of each whether a passkey of its bytes did.
pub open spec fn signer_among(keys: Seq<HeldKey>, verified: Seq<bool>, from: int) -> Option<Seq<u8>>
    decreases keys.len() - from,
{
    if from >= keys.len() {
        None
    } else if keys[from].scheme == KeyScheme::Secp256r1 && verified[from] {
        Some(keys[from].key@)
    } else {
        signer_among(keys, verified, from + 1)
    }
}

/// Which of `account`'s passkeys signed a proof: the page does not say which
/// credential answered.
pub fn consenting_key(account: &Account, verified: &Vec<bool>) -> (key: Option<Vec<u8>>)
    requires
        verified@.len() == account.keys@.len(),
    ensures
        match (key, signer_among(account.keys@, verified@, 0)) {
            (Some(key), Some(held)) => key@ == held,
            (None, None) => true,
            _ => false,
        },
{
    let mut at: usize = 0;
    while at < account.keys.len()
        invariant
            verified@.len() == account.keys@.len(),
            at <= account.keys@.len(),
            signer_among(account.keys@, verified@, 0) == signer_among(
                account.keys@,
                verified@,
                at as int,
            ),
        decreases account.keys@.len() - at,
    {
        if account.keys[at].scheme == KeyScheme::Secp256r1 && verified[at] {
            return Some(bytes_of(account.keys[at].key.as_slice()));
        }
        at += 1;
    }
    None
}

/// Whether two lists are of the same keys.
pub open spec fn same_keys(a: Seq<HeldKey>, b: Seq<HeldKey>) -> bool {
    a.len() == b.len() && forall|i: int|
        0 <= i < a.len() ==> (#[trigger] a[i]).scheme == b[i].scheme && a[i].key@ == b[i].key@
}

/// The keys `account` holds.
pub fn keys_of(account: &Account) -> (keys: Vec<HeldKey>)
    ensures
        same_keys(keys@, account.keys@),
{
    let mut keys: Vec<HeldKey> = Vec::new();
    let mut at: usize = 0;
    while at < account.keys.len()
        invariant
            at <= account.keys@.len(),
            keys@.len() == at,
            forall|i: int|
                0 <= i < at ==> (#[trigger] keys@[i]).scheme == account.keys@[i].scheme
                    && keys@[i].key@ == account.keys@[i].key@,
        decreases account.keys@.len() - at,
    {
        let held = &account.keys[at];
        keys.push(HeldKey { scheme: held.scheme, key: bytes_of(held.key.as_slice()) });
        at += 1;
    }
    keys
}

/// Whether two admissions say the same.
pub open spec fn same_admission(a: Admission, b: Admission) -> bool {
    &&& a.network@ == b.network@
    &&& a.scheme == b.scheme
    &&& a.key@ == b.key@
    &&& a.generation == b.generation
    &&& a.account == b.account
    &&& a.expires_at == b.expires_at
}

impl Admission {
    /// Another that says the same.
    pub fn copy(&self) -> (copy: Admission)
        ensures
            same_admission(copy, *self),
    {
        Admission {
            network: bytes_of(self.network.as_slice()),
            scheme: self.scheme,
            key: bytes_of(self.key.as_slice()),
            generation: self.generation,
            account: self.account,
            expires_at: self.expires_at,
        }
    }
}

/// The write by which the seated key makes itself an account under `name`.
pub fn create(name: String) -> (op: Op)
    ensures
        op == (Op::Create { name, scheme: KeyScheme::Ed25519 }),
{
    Op::Create { name, scheme: KeyScheme::Ed25519 }
}

/// The number of the account just made, from what its write answered; `garbled`
/// says that that is no number.
pub fn number_made(output: &[u8], garbled: String) -> (number: Result<u64, String>)
    ensures
        match (number, crate::backend::wire::decoded::<u64>(output@)) {
            (Ok(number), Some(held)) => number == held,
            (Err(said), None) => said == garbled,
            _ => false,
        },
{
    match decode::<u64>(output) {
        Some(number) => Ok(number),
        None => Err(garbled),
    }
}

/// Whether `admission` is for `key` to join `account` on `network`.
pub open spec fn admits(
    admission: Admission,
    network: Seq<char>,
    scheme: KeyScheme,
    key: Seq<u8>,
    generation: u64,
    account: u64,
    now: u64,
) -> bool {
    &&& admission.network@ == encode_utf8(network)
    &&& admission.scheme == scheme
    &&& admission.key@ == key
    &&& admission.generation == generation
    &&& admission.account == account
    &&& admission.expires_at == now + crate::backend::passkey::CONSENT_TTL_MS
}

/// The admission of `key` to `account`, at `now`.
pub fn admission(
    network: &str,
    scheme: KeyScheme,
    key: &[u8],
    generation: u64,
    account: u64,
    now: u64,
) -> (admission: Admission)
    requires
        now + crate::backend::passkey::CONSENT_TTL_MS <= u64::MAX,
    ensures
        admits(admission, network@, scheme, key@, generation, account, now),
{
    Admission {
        network: bytes_of(network.as_bytes()),
        scheme,
        key: bytes_of(key),
        generation,
        account,
        expires_at: expires_at(now),
    }
}

/// What is said of a number that names no account on `network`.
pub open spec fn no_account(network: Seq<char>) -> Seq<char> {
    "This names an account "@ + network + " does not have."@
}

/// The account in the answer to a question for one.
pub fn account_in(reply: Reply, network: &str) -> (account: Result<Account, String>)
    ensures
        match reply {
            Reply::Account(Some(held)) => account == Ok::<Account, String>(held),
            _ => account matches Err(said) && said@ == no_account(network@),
        },
{
    match reply {
        Reply::Account(Some(account)) => Ok(account),
        _ => Err(joined3("This names an account ", network, " does not have.")),
    }
}

/// Which key signed is the first passkey from `from` on that the verdicts name
/// (at `signer`), and none where they name none.
pub proof fn the_first_that_verifies_signed(
    keys: Seq<HeldKey>,
    verified: Seq<bool>,
    from: int,
) -> (signer: int)
    requires
        0 <= from <= keys.len(),
    ensures
        from <= signer <= keys.len(),
        forall|j: int|
            from <= j < signer ==> !((#[trigger] keys[j]).scheme == KeyScheme::Secp256r1
                && verified[j]),
        signer_among(keys, verified, from) is Some <==> signer < keys.len(),
        signer < keys.len() ==> keys[signer].scheme == KeyScheme::Secp256r1 && verified[signer]
            && signer_among(keys, verified, from) == Some(keys[signer].key@),
    decreases keys.len() - from,
{
    if from < keys.len() && !(keys[from].scheme == KeyScheme::Secp256r1 && verified[from]) {
        the_first_that_verifies_signed(keys, verified, from + 1)
    } else {
        from
    }
}

/// Only a person's account lets a key in: an agent's and a module's are told
/// apart from it, each in words that name whose it is.
pub proof fn only_a_persons_account_lets_a_key_in(account: Account)
    ensures
        not_a_person(account) is None <==> account.control is Person,
        account.control matches Control::Module { module } ==> (
        not_a_person(account) matches Some(said) && said.len() >= module@.len()),
{
}

/// A write that adds a key says the key's scheme and label, and hands over the
/// consent as it was given.
pub proof fn adding_a_key_hands_over_its_consent(
    scheme: KeyScheme,
    label: &str,
    key: Vec<u8>,
    account: u64,
    deadline: u64,
    proof_bytes: Vec<u8>,
    op: Op,
)
    requires
        call_ensures(add_key, (scheme, label, key, account, deadline, proof_bytes), op),
    ensures
        op is AddKey,
        op->AddKey_scheme == scheme,
        op->label is Some && op->label->0@ == label@,
        op->consent.key@ == key@,
        op->consent.account == account,
        op->consent.expires_at == deadline,
        op->consent.proof@ == proof_bytes@,
{
}

/// An account is made under its name, for the device's own key; and its number
/// is the one its write answered with, in eight bytes and no other way.
pub proof fn an_account_is_known_by_the_number_it_was_given(
    name: String,
    op: Op,
    output: &[u8],
    garbled: String,
    number: Result<u64, String>,
    given: u64,
)
    requires
        call_ensures(create, (name,), op),
        call_ensures(number_made, (output, garbled), number),
    ensures
        op == (Op::Create { name, scheme: KeyScheme::Ed25519 }),
        output@ == crate::backend::wire::eight(given as nat) ==> number == Ok::<u64, String>(given),
        number matches Ok(made) ==> output@ == crate::backend::wire::eight(made as nat),
        number is Err ==> number->Err_0 == garbled,
        number is Ok <==> output@.len() == 8,
{
    crate::backend::wire::what_is_decoded_was_encoded::<u64>(output@, given);
    crate::backend::wire::numbers_go_lowest_byte_first(0, 0, given);
    if let Ok(made) = number {
        crate::backend::wire::what_is_decoded_was_encoded::<u64>(output@, made);
        crate::backend::wire::numbers_go_lowest_byte_first(0, 0, made);
    }
}

/// What is consented to is this key joining this account on this network, under
/// the generation it has, for a quarter of an hour from now.
pub proof fn an_admission_is_good_for_a_while(
    network: &str,
    scheme: KeyScheme,
    key: &[u8],
    generation: u64,
    account: u64,
    now: u64,
    made: Admission,
    copy: Admission,
)
    requires
        call_ensures(admission, (network, scheme, key, generation, account, now), made),
        call_ensures(Admission::copy, (&made,), copy),
    ensures
        made.network@ == encode_utf8(network@),
        made.scheme == scheme,
        made.key@ == key@,
        made.generation == generation,
        made.account == account,
        made.expires_at == now + 15 * 60 * 1000,
        copy.network@ == made.network@ && copy.scheme == made.scheme && copy.key@ == made.key@
            && copy.generation == made.generation && copy.account == made.account
            && copy.expires_at == made.expires_at,
{
}

/// An account is taken from the answer that holds one, as it is; every other
/// answer names none on this network, and says so.
pub proof fn only_an_account_is_an_account(
    reply: Reply,
    network: &str,
    account: Result<Account, String>,
)
    requires
        call_ensures(account_in, (reply, network), account),
    ensures
        account is Ok <==> reply is Account && reply->Account_0 is Some,
        account matches Ok(held) ==> reply == Reply::Account(Some(held)),
        account matches Err(said) ==> said@ == "This names an account "@ + network@
            + " does not have."@,
{
}

/// The keys handed over are the account's, one by one.
pub proof fn an_accounts_keys_are_its_own(account: &Account, keys: Vec<HeldKey>, nth: int)
    requires
        call_ensures(keys_of, (account,), keys),
        0 <= nth < account.keys@.len(),
    ensures
        keys@.len() == account.keys@.len(),
        keys@[nth].scheme == account.keys@[nth].scheme,
        keys@[nth].key@ == account.keys@[nth].key@,
{
    assert(keys@[nth].scheme == account.keys@[nth].scheme);
}

/// Who consented is a passkey the account holds whose verdict says so, and the
/// first of these; where there is one, one is named.
pub proof fn who_consented_holds_the_account(
    account: &Account,
    verified: &Vec<bool>,
    key: Option<Vec<u8>>,
    nth: int,
)
    requires
        call_ensures(consenting_key, (account, verified), key),
        0 <= nth < account.keys@.len(),
    ensures
        account.keys@[nth].scheme is Secp256r1 && verified@[nth] ==> key is Some,
        key matches Some(key) ==> exists|i: int|
            0 <= i < account.keys@.len() && (#[trigger] account.keys@[i]).scheme is Secp256r1
                && verified@[i] && account.keys@[i].key@ == key@,
{
    let signer = the_first_that_verifies_signed(account.keys@, verified@, 0);
    if signer < account.keys@.len() {
        assert(account.keys@[signer].scheme is Secp256r1);
    }
}

/// What is said of an account no passkey is for: whose it is.
pub proof fn another_kind_of_account_is_named(account: &Account, fine: Result<(), String>)
    requires
        call_ensures(person, (account,), fine),
    ensures
        fine is Ok <==> account.control is Person,
        account.control matches Control::Module { module } ==> (fine matches Err(said) && said@
            == "This key belongs to the account of the module "@ + module@
            + ", which takes no passkey."@),
        account.control matches Control::Managed { manager } ==> (fine matches Err(said) && said@
            == "This key belongs to "@ + account.name@ + " (account "@ + crate::text::decimal(
            account.number as nat,
        ) + "), an agent managed by account "@ + crate::text::decimal(manager as nat)
            + ". Passkeys are for a person's own account: sign in with a person's key."@),
{
}

} // verus!
