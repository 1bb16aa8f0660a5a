//! Which account a key is on, and an account whose one key is this device's.

use vstd::prelude::*;

use crate::backend::flow::Ask;
use crate::backend::flow::Told;
use crate::backend::identity::Query;
use crate::backend::identity::Reply;
use crate::backend::listener::trimmed_text;

verus! {

/// Where a look for a key's account stands.
#[derive(Debug)]
pub enum AccountOfKey {
    /// Its number was asked for.
    Number,
    /// The account was.
    Account { number: u64 },
    Over,
}

/// Whether telling the look `told` makes it `after`, asking `ask`. It finds
/// the account's number and name, or that the key holds no account.
pub open spec fn account_stepped(
    before: AccountOfKey,
    told: Told,
    after: AccountOfKey,
    ask: Ask<Option<(u64, String)>>,
) -> bool {
    match (before, told) {
        (AccountOfKey::Number, Told::Reply(Ok(Reply::Number(Some(number))))) => after == (
        AccountOfKey::Account { number }) && crate::backend::flow::asks_account(ask, number),
        (AccountOfKey::Number, Told::Reply(Ok(_))) => after is Over && ask == Ask::Done(
            Ok::<Option<(u64, String)>, String>(None),
        ),
        (AccountOfKey::Number, Told::Reply(Err(said))) => after is Over
            && crate::backend::flow::fails(ask, said@),
        (AccountOfKey::Account { number }, Told::Reply(Ok(Reply::Account(Some(account))))) => after is Over
            && ask == Ask::Done(
            Ok::<Option<(u64, String)>, String>(Some((number, account.name))),
        ),
        (AccountOfKey::Account { .. }, Told::Reply(Ok(_))) => after is Over && ask == Ask::Done(
            Ok::<Option<(u64, String)>, String>(None),
        ),
        (AccountOfKey::Account { .. }, Told::Reply(Err(said))) => after is Over
            && crate::backend::flow::fails(ask, said@),
        _ => after == before && ask is Wait,
    }
}

impl AccountOfKey {
    /// Begins: asks for the account `key` is on.
    pub fn begin(key: Vec<u8>) -> (begun: (Self, Ask<Option<(u64, String)>>))
        ensures
            begun.0 is Number,
            crate::backend::flow::asks_of_key(begun.1, key@),
    {
        (AccountOfKey::Number, Ask::Ask(Query::OfKey { key }))
    }

    /// What is asked next.
    pub fn step(self, told: Told) -> (next: (Self, Ask<Option<(u64, String)>>))
        ensures
            account_stepped(self, told, next.0, next.1),
    {
        match (self, told) {
            (AccountOfKey::Number, Told::Reply(reply)) => match reply {
                Ok(Reply::Number(Some(number))) => (
                    AccountOfKey::Account { number },
                    Ask::Ask(Query::Get { number }),
                ),
                Ok(_) => (AccountOfKey::Over, Ask::Done(Ok(None))),
                Err(said) => (AccountOfKey::Over, Ask::Done(Err(said))),
            },
            (AccountOfKey::Account { number }, Told::Reply(reply)) => match reply {
                Ok(Reply::Account(Some(account))) => (
                    AccountOfKey::Over,
                    Ask::Done(Ok(Some((number, account.name)))),
                ),
                Ok(_) => (AccountOfKey::Over, Ask::Done(Ok(None))),
                Err(said) => (AccountOfKey::Over, Ask::Done(Err(said))),
            },
            (state, _) => (state, Ask::Wait),
        }
    }
}

/// Where the flow stands.
pub enum PlainPhase {
    /// The seated key was asked for.
    Key,
    /// Which account it is on already was.
    Looking { look: AccountOfKey },
    /// A new account was.
    Creating,
    Over,
}

/// A self-serve account whose one key is this device's seated key. A key that
/// already holds an account (a retry after a lost answer) is not an error:
/// that account is the answer.
pub struct CreatePlainAccount {
    pub name: String,
    pub phase: PlainPhase,
}

/// Whether telling the flow `told` makes it `after`, asking `ask`. It ends
/// with the account's number and name.
pub open spec fn plain_stepped(
    before: CreatePlainAccount,
    told: Told,
    after: CreatePlainAccount,
    ask: Ask<(u64, String)>,
) -> bool {
    &&& after.name == before.name
    &&& match (before.phase, told) {
        (PlainPhase::Key, Told::Key(Ok(device))) => after.phase == (PlainPhase::Looking {
            look: AccountOfKey::Number,
        }) && crate::backend::flow::asks_of_key(ask, device@),
        (PlainPhase::Key, Told::Key(Err(said))) => after.phase is Over
            && crate::backend::flow::fails(ask, said@),
        (PlainPhase::Looking { look }, told) => exists|looked: AccountOfKey, asked: Ask<
            Option<(u64, String)>,
        >| #[trigger]
            account_stepped(look, told, looked, asked) && match asked {
                Ask::Done(Ok(Some(account))) => after.phase is Over && ask == Ask::Done(
                    Ok::<(u64, String), String>(account),
                ),
                Ask::Done(Ok(None)) => after.phase is Creating
                    && (ask matches Ask::Create { name } && name@ == before.name@),
                Ask::Done(Err(said)) => after.phase is Over && crate::backend::flow::fails(
                    ask,
                    said@,
                ),
                Ask::Ask(question) => after.phase == (PlainPhase::Looking { look: looked }) && ask
                    == Ask::<(u64, String)>::Ask(question),
                _ => after.phase == (PlainPhase::Looking { look: looked }) && ask is Wait,
            },
        (PlainPhase::Creating, Told::Number(Ok(number))) => after.phase is Over
            && (ask matches Ask::Done(Ok((made, name))) && made == number && name@
            == crate::backend::listener::trim(before.name@)),
        (PlainPhase::Creating, Told::Number(Err(said))) => after.phase is Over
            && crate::backend::flow::fails(ask, said@),
        _ => after.phase == before.phase && ask is Wait,
    }
}

impl CreatePlainAccount {
    /// Begins: the flow, and what it asks first.
    pub fn begin(name: &str) -> (begun: (Self, Ask<(u64, String)>))
        ensures
            begun.0.name@ == name@,
            begun.0.phase is Key,
            begun.1 is SeatedKey,
    {
        (CreatePlainAccount { name: name.to_owned(), phase: PlainPhase::Key }, Ask::SeatedKey)
    }

    /// What the flow asks next.
    pub fn step(self, told: Told) -> (next: (Self, Ask<(u64, String)>))
        ensures
            plain_stepped(self, told, next.0, next.1),
    {
        let CreatePlainAccount { name, phase } = self;
        match (phase, told) {
            (PlainPhase::Key, Told::Key(key)) => match key {
                Ok(device) => (
                    CreatePlainAccount {
                        name,
                        phase: PlainPhase::Looking { look: AccountOfKey::Number },
                    },
                    Ask::Ask(Query::OfKey { key: device }),
                ),
                Err(said) => (
                    CreatePlainAccount { name, phase: PlainPhase::Over },
                    Ask::Done(Err(said)),
                ),
            },
            (PlainPhase::Looking { look }, told) => {
                let (looked, asked) = look.step(told);
                assert(account_stepped(look, told, looked, asked));
                match asked {
                    Ask::Done(Ok(Some(account))) => (
                        CreatePlainAccount { name, phase: PlainPhase::Over },
                        Ask::Done(Ok(account)),
                    ),
                    Ask::Done(Ok(None)) => {
                        let wanted = name.clone();
                        (
                            CreatePlainAccount { name, phase: PlainPhase::Creating },
                            Ask::Create { name: wanted },
                        )
                    },
                    Ask::Done(Err(said)) => (
                        CreatePlainAccount { name, phase: PlainPhase::Over },
                        Ask::Done(Err(said)),
                    ),
                    Ask::Ask(question) => (
                        CreatePlainAccount { name, phase: PlainPhase::Looking { look: looked } },
                        Ask::Ask(question),
                    ),
                    _ => (
                        CreatePlainAccount { name, phase: PlainPhase::Looking { look: looked } },
                        Ask::Wait,
                    ),
                }
            },
            (PlainPhase::Creating, Told::Number(made)) => match made {
                Ok(number) => {
                    let shown = trimmed_text(name.as_str());
                    (
                        CreatePlainAccount { name, phase: PlainPhase::Over },
                        Ask::Done(Ok((number, shown))),
                    )
                },
                Err(said) => (
                    CreatePlainAccount { name, phase: PlainPhase::Over },
                    Ask::Done(Err(said)),
                ),
            },
            (phase, _) => (CreatePlainAccount { name, phase }, Ask::Wait),
        }
    }
}

/// A key that already holds an account is not an error, and makes no other:
/// that account is the answer.
pub proof fn an_account_held_is_the_answer(
    looking: CreatePlainAccount,
    number: u64,
    reading: CreatePlainAccount,
    asks: Ask<(u64, String)>,
    account: crate::backend::identity::Account,
    over: CreatePlainAccount,
    answers: Ask<(u64, String)>,
)
    ensures
        looking.phase == (PlainPhase::Looking { look: AccountOfKey::Number }) && plain_stepped(
            looking,
            Told::Reply(Ok(Reply::Number(Some(number)))),
            reading,
            asks,
        ) && plain_stepped(
            reading,
            Told::Reply(Ok(Reply::Account(Some(account)))),
            over,
            answers,
        ) ==> crate::backend::flow::asks_account(asks, number) && answers == Ask::Done(
            Ok::<(u64, String), String>((number, account.name)),
        ),
{
}

// ---------- a whole run ----------
/// Whether `steps` are the steps of the flow that begins as `begun`.
pub open spec fn account_run(begun: AccountOfKey, steps: Seq<crate::backend::flow::Step<AccountOfKey, Option<(u64, String)>>>) -> bool
    decreases steps.len(),
{
    if steps.len() == 0 {
        begun is Number
    } else {
        account_run(begun, steps.drop_last()) && account_stepped(
            crate::backend::flow::flow_after(begun, steps.drop_last()),
            steps.last().told,
            steps.last().flow,
            steps.last().ask,
        )
    }
}

/// What the flow waits for is what it asked for.
spec fn account_run_waits(flow: AccountOfKey, asked: Ask<Option<(u64, String)>>) -> bool {
    match flow {
        AccountOfKey::Number => asked matches Ask::Ask(Query::OfKey { .. }),
        AccountOfKey::Account { number } => asked matches Ask::Ask(Query::Get { number: n }) && n == number,
        AccountOfKey::Over => asked is Done,
    }
}

proof fn account_run_holds(
    begun: AccountOfKey,
    first: Ask<Option<(u64, String)>>,
    steps: Seq<crate::backend::flow::Step<AccountOfKey, Option<(u64, String)>>>,
)
    requires
        account_run(begun, steps),
        first matches Ask::Ask(Query::OfKey { .. }),
    ensures
        account_run_waits(
            crate::backend::flow::flow_after(begun, steps),
            crate::backend::flow::pending(first, steps),
        ),
        true,
    decreases steps.len(),
{
    if steps.len() > 0 {
        account_run_holds(begun, first, steps.drop_last());
    }
}

/// However a look for a key's account goes: it waits for what it asked for, and
/// anything else changes nothing. Whatever goes wrong with that ends it in
/// those words. It finds an account exactly where identity has one at the
/// number it was asked about, by that number and its name; and none where
/// identity has none.
pub proof fn a_look_for_an_account_finds_what_identity_says(
    begun: AccountOfKey,
    first: Ask<Option<(u64, String)>>,
    steps: Seq<crate::backend::flow::Step<AccountOfKey, Option<(u64, String)>>>,
)
    ensures
        account_run(begun, steps) && (first matches Ask::Ask(Query::OfKey { .. })) && steps.len() > 0 ==> {
            let asked = crate::backend::flow::pending(first, steps.drop_last());
            let last = steps.last();
            &&& last.ask is Wait <==> !crate::backend::flow::answers(asked, last.told)
            &&& last.ask is Wait ==> last.flow == crate::backend::flow::flow_after(
                begun,
                steps.drop_last(),
            )
            &&& crate::backend::flow::answers(asked, last.told)
                && crate::backend::flow::went_wrong(last.told) is Some ==> (
            last.ask matches Ask::Done(Err(said)) && said@ == crate::backend::flow::went_wrong(
                last.told,
            )->0)
            &&& (last.ask matches Ask::Done(Ok(Some(_)))) <==> (asked matches Ask::Ask(
                Query::Get { .. },
            )) && (last.told matches Told::Reply(Ok(Reply::Account(Some(_)))))
            &&& last.ask matches Ask::Done(Ok(Some((number, name)))) ==> (asked matches Ask::Ask(
                Query::Get { number: n },
            ) && n == number) && (last.told matches Told::Reply(Ok(Reply::Account(Some(account))))
                && name == account.name)
            &&& last.ask matches Ask::Done(Ok(None)) ==> (last.told matches Told::Reply(Ok(reply))
                && !(reply matches Reply::Account(Some(_)) && asked matches Ask::Ask(
                Query::Get { .. },
            )))
        },
{
    if account_run(begun, steps) && (first matches Ask::Ask(Query::OfKey { .. })) && steps.len() > 0 {
        account_run_holds(begun, first, steps.drop_last());
        account_run_holds(begun, first, steps);
    }
}

// ---------- a whole run ----------
/// Whether `steps` are the steps of the flow that begins as `begun`.
pub open spec fn plain_run(begun: CreatePlainAccount, steps: Seq<crate::backend::flow::Step<CreatePlainAccount, (u64, String)>>) -> bool
    decreases steps.len(),
{
    if steps.len() == 0 {
        begun.phase is Key
    } else {
        plain_run(begun, steps.drop_last()) && plain_stepped(
            crate::backend::flow::flow_after(begun, steps.drop_last()),
            steps.last().told,
            steps.last().flow,
            steps.last().ask,
        )
    }
}

/// What the flow waits for is what it asked for.
spec fn plain_run_waits(flow: CreatePlainAccount, asked: Ask<(u64, String)>) -> bool {
    match flow.phase {
        PlainPhase::Key => asked is SeatedKey,
        PlainPhase::Looking { look: AccountOfKey::Number } => asked matches Ask::Ask(Query::OfKey { .. }),
        PlainPhase::Looking { look: AccountOfKey::Account { number } } => asked matches Ask::Ask(Query::Get { number: n }) && n == number,
        PlainPhase::Looking { look: AccountOfKey::Over } => false,
        PlainPhase::Creating => asked matches Ask::Create { name } && name@ == flow.name@,
        PlainPhase::Over => asked is Done,
    }
}

proof fn plain_run_holds(
    begun: CreatePlainAccount,
    first: Ask<(u64, String)>,
    steps: Seq<crate::backend::flow::Step<CreatePlainAccount, (u64, String)>>,
)
    requires
        plain_run(begun, steps),
        first is SeatedKey,
    ensures
        plain_run_waits(
            crate::backend::flow::flow_after(begun, steps),
            crate::backend::flow::pending(first, steps),
        ),
        crate::backend::flow::flow_after(begun, steps).name == begun.name,
    decreases steps.len(),
{
    if steps.len() > 0 {
        plain_run_holds(begun, first, steps.drop_last());
    }
}

/// However making a plain account goes: the flow waits for what it asked for,
/// and anything else changes nothing. Whatever goes wrong with that ends it in
/// those words. Its answer is the account its key holds, by number and name; it
/// makes one under the name it was given only where identity has none; and
/// then the answer is that one, under that name without the blanks around it.
pub proof fn a_plain_account_is_the_one_held_or_a_new_one(
    begun: CreatePlainAccount,
    first: Ask<(u64, String)>,
    steps: Seq<crate::backend::flow::Step<CreatePlainAccount, (u64, String)>>,
)
    ensures
        plain_run(begun, steps) && first is SeatedKey && steps.len() > 0 ==> {
            let asked = crate::backend::flow::pending(first, steps.drop_last());
            let last = steps.last();
            &&& last.ask is Wait <==> !crate::backend::flow::answers(asked, last.told)
            &&& last.ask is Wait ==> last.flow == crate::backend::flow::flow_after(
                begun,
                steps.drop_last(),
            )
            &&& crate::backend::flow::answers(asked, last.told)
                && crate::backend::flow::went_wrong(last.told) is Some ==> (
            last.ask matches Ask::Done(Err(said)) && said@ == crate::backend::flow::went_wrong(
                last.told,
            )->0)
            &&& (last.ask matches Ask::Done(Ok((number, name)))) ==> ((asked matches Ask::Ask(
                Query::Get { number: n },
            ) && n == last.ask->Done_0->Ok_0.0) && (last.told matches Told::Reply(
                Ok(Reply::Account(Some(account))),
            ) && account.name == last.ask->Done_0->Ok_0.1)) || (asked is Create && (
            last.told matches Told::Number(Ok(n)) && n == last.ask->Done_0->Ok_0.0)
                && last.ask->Done_0->Ok_0.1@ == crate::backend::listener::trim(begun.name@))
            &&& (asked is Create && last.told matches Told::Number(Ok(_))) ==> (
            last.ask matches Ask::Done(Ok(_)))
            &&& ((asked matches Ask::Ask(Query::Get { .. })) && last.told matches Told::Reply(
                Ok(Reply::Account(Some(_))),
            )) ==> (last.ask matches Ask::Done(Ok(_)))
            &&& (last.ask matches Ask::Create { name }) ==> last.ask->Create_name@ == begun.name@ && (
            last.told matches Told::Reply(Ok(reply)) && !(reply matches Reply::Account(Some(_))
                && asked matches Ask::Ask(Query::Get { .. })))
            &&& last.flow.name == begun.name
        },
{
    if plain_run(begun, steps) && first is SeatedKey && steps.len() > 0 {
        plain_run_holds(begun, first, steps.drop_last());
        plain_run_holds(begun, first, steps);
    }
}

/// A look for a key's account begins with the key, and an account of the seated
/// key alone with that key.
pub proof fn a_look_begins_with_its_key(
    key: Vec<u8>,
    looked: (AccountOfKey, Ask<Option<(u64, String)>>),
    name: &str,
    begun: (CreatePlainAccount, Ask<(u64, String)>),
)
    requires
        call_ensures(AccountOfKey::begin, (key,), looked),
        call_ensures(CreatePlainAccount::begin, (name,), begun),
    ensures
        looked.0 is Number,
        looked.1 matches Ask::Ask(Query::OfKey { key: asked }) && asked@ == key@,
        begun.0.name@ == name@ && begun.0.phase is Key && begun.1 is SeatedKey,
{
}

} // verus!
