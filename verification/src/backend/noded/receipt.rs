//! What a submit answers: the run of the frame, and the runs its messages
//! caused, each a receipt of its own.

use vstd::prelude::*;

use crate::backend::noded::Refusal;
use crate::backend::wire::Wire;

verus! {

/// What came of a run.
#[derive(Debug)]
pub enum Outcome {
    Applied { output: Vec<u8> },
    Rejected(Refusal),
}

/// What a run did. `nested` are the runs its messages caused, in order.
#[derive(Debug)]
pub struct Receipt {
    pub program: String,
    pub outcome: Outcome,
    pub events: Vec<Vec<u8>>,
    pub nested: Vec<Receipt>,
}

// ---------- as values ----------
/// A refusal, as a value.
pub struct RefusalView {
    pub reason: Seq<char>,
    pub sentence: Seq<char>,
}

impl DeepView for Refusal {
    type V = RefusalView;

    open spec fn deep_view(&self) -> RefusalView {
        RefusalView { reason: self.reason@, sentence: self.sentence@ }
    }
}

/// What came of a run, as a value.
pub enum OutcomeView {
    Applied(Seq<u8>),
    Rejected(RefusalView),
}

impl DeepView for Outcome {
    type V = OutcomeView;

    open spec fn deep_view(&self) -> OutcomeView {
        match self {
            Outcome::Applied { output } => OutcomeView::Applied(output.deep_view()),
            Outcome::Rejected(refusal) => OutcomeView::Rejected(refusal.deep_view()),
        }
    }
}

/// A receipt, as a value.
pub struct ReceiptView {
    pub program: Seq<char>,
    pub outcome: OutcomeView,
    pub events: Seq<Seq<u8>>,
    pub nested: Seq<ReceiptView>,
}

/// A receipt's value.
pub open spec fn value_of(receipt: Receipt) -> ReceiptView
    decreases receipt,
{
    ReceiptView {
        program: receipt.program@,
        outcome: receipt.outcome.deep_view(),
        events: receipt.events.deep_view(),
        nested: values_of(receipt.nested@),
    }
}

/// The values of receipts, in order.
pub open spec fn values_of(receipts: Seq<Receipt>) -> Seq<ReceiptView>
    decreases receipts,
{
    if receipts.len() == 0 {
        Seq::empty()
    } else {
        values_of(receipts.drop_last()).push(value_of(receipts.last()))
    }
}

// ---------- their bytes ----------
impl Wire for Refusal {
    open spec fn fits(value: RefusalView) -> bool {
        <(String, String) as Wire>::fits((value.reason, value.sentence))
    }

    open spec fn put(value: RefusalView) -> Seq<u8> {
        <(String, String) as Wire>::put((value.reason, value.sentence))
    }

    open spec fn get(bytes: Seq<u8>) -> Option<(RefusalView, Seq<u8>)> {
        match <(String, String) as Wire>::get(bytes) {
            None => None,
            Some((fields, rest)) => Some(
                (RefusalView { reason: fields.0, sentence: fields.1 }, rest),
            ),
        }
    }

    proof fn reads_back(value: RefusalView, rest: Seq<u8>) {
        <(String, String) as Wire>::reads_back((value.reason, value.sentence), rest);
    }

    proof fn leaves_the_end(bytes: Seq<u8>) {
        <(String, String) as Wire>::leaves_the_end(bytes);
    }

    proof fn writes_back(bytes: Seq<u8>) {
        <(String, String) as Wire>::writes_back(bytes);
    }

    fn write(&self, out: &mut Vec<u8>) {
        self.reason.write(out);
        self.sentence.write(out);
        assert(out@ =~= old(out)@ + Self::put(self.deep_view()));
    }

    fn read(bytes: &[u8], at: usize) -> (value: Option<(Self, usize)>) {
        match <(String, String) as Wire>::read(bytes, at) {
            None => None,
            Some(((reason, sentence), next)) => Some((Refusal { reason, sentence }, next)),
        }
    }
}

impl Wire for Outcome {
    open spec fn fits(value: OutcomeView) -> bool {
        match value {
            OutcomeView::Applied(output) => <Vec<u8> as Wire>::fits(output),
            OutcomeView::Rejected(refusal) => <Refusal as Wire>::fits(refusal),
        }
    }

    open spec fn put(value: OutcomeView) -> Seq<u8> {
        match value {
            OutcomeView::Applied(output) => seq![0u8] + <Vec<u8> as Wire>::put(output),
            OutcomeView::Rejected(refusal) => seq![1u8] + <Refusal as Wire>::put(refusal),
        }
    }

    open spec fn get(bytes: Seq<u8>) -> Option<(OutcomeView, Seq<u8>)> {
        if bytes.len() < 1 || bytes[0] > 1 {
            None
        } else if bytes[0] == 0 {
            match <Vec<u8> as Wire>::get(bytes.skip(1)) {
                None => None,
                Some((output, rest)) => Some((OutcomeView::Applied(output), rest)),
            }
        } else {
            match <Refusal as Wire>::get(bytes.skip(1)) {
                None => None,
                Some((refusal, rest)) => Some((OutcomeView::Rejected(refusal), rest)),
            }
        }
    }

    proof fn reads_back(value: OutcomeView, rest: Seq<u8>) {
        match value {
            OutcomeView::Applied(output) => {
                assert((Self::put(value) + rest).skip(1) =~= <Vec<u8> as Wire>::put(output) + rest);
                <Vec<u8> as Wire>::reads_back(output, rest);
            },
            OutcomeView::Rejected(refusal) => {
                assert((Self::put(value) + rest).skip(1) =~= <Refusal as Wire>::put(refusal) + rest);
                <Refusal as Wire>::reads_back(refusal, rest);
            },
        }
    }

    proof fn leaves_the_end(bytes: Seq<u8>) {
        if bytes.len() >= 1 {
            <Vec<u8> as Wire>::leaves_the_end(bytes.skip(1));
            <Refusal as Wire>::leaves_the_end(bytes.skip(1));
            if let Some((_, rest)) = Self::get(bytes) {
                assert(rest =~= bytes.skip(bytes.len() - rest.len()));
            }
        }
    }

    proof fn writes_back(bytes: Seq<u8>) {
        if bytes.len() >= 1 {
            <Vec<u8> as Wire>::writes_back(bytes.skip(1));
            <Refusal as Wire>::writes_back(bytes.skip(1));
            assert(bytes =~= seq![bytes[0]] + bytes.skip(1));
            if let Some((value, rest)) = Self::get(bytes) {
                assert(bytes =~= Self::put(value) + rest);
            }
        }
    }

    fn write(&self, out: &mut Vec<u8>) {
        match self {
            Outcome::Applied { output } => {
                out.push(0);
                output.write(out);
            },
            Outcome::Rejected(refusal) => {
                out.push(1);
                refusal.write(out);
            },
        }
        assert(out@ =~= old(out)@ + Self::put(self.deep_view()));
    }

    fn read(bytes: &[u8], at: usize) -> (value: Option<(Self, usize)>) {
        if at >= bytes.len() || bytes[at] > 1 {
            return None;
        }
        assert(bytes@.skip(at as int).skip(1) =~= bytes@.skip(at + 1));
        if bytes[at] == 0 {
            match <Vec<u8> as Wire>::read(bytes, at + 1) {
                None => None,
                Some((output, next)) => Some((Outcome::Applied { output }, next)),
            }
        } else {
            match <Refusal as Wire>::read(bytes, at + 1) {
                None => None,
                Some((refusal, next)) => Some((Outcome::Rejected(refusal), next)),
            }
        }
    }
}

/// What a receipt begins with: everything but the runs it caused, and then how
/// many those are.
type Head = (String, (Outcome, (Vec<Vec<u8>>, u32)));

/// The bytes of a receipt.
pub open spec fn receipt_bytes(receipt: ReceiptView) -> Seq<u8>
    decreases receipt,
{
    <Head as Wire>::put(
        (
            receipt.program,
            (receipt.outcome, (receipt.events, receipt.nested.len() as u32)),
        ),
    ) + receipts_bytes(receipt.nested)
}

/// The bytes of receipts, one after another.
pub open spec fn receipts_bytes(receipts: Seq<ReceiptView>) -> Seq<u8>
    decreases receipts,
{
    if receipts.len() == 0 {
        Seq::empty()
    } else {
        receipt_bytes(receipts[0]) + receipts_bytes(receipts.drop_first())
    }
}

/// Whether a receipt's bytes can say it.
pub open spec fn receipt_fits(receipt: ReceiptView) -> bool
    decreases receipt,
{
    &&& <Head as Wire>::fits(
        (receipt.program, (receipt.outcome, (receipt.events, receipt.nested.len() as u32))),
    )
    &&& receipt.nested.len() <= u32::MAX
    &&& receipts_fit(receipt.nested)
}

/// Whether the bytes of receipts can say them all.
pub open spec fn receipts_fit(receipts: Seq<ReceiptView>) -> bool
    decreases receipts,
{
    receipts.len() > 0 ==> receipt_fits(receipts[0]) && receipts_fit(receipts.drop_first())
}

/// The receipt at the front of `bytes`, and what follows it.
pub open spec fn receipt_in(bytes: Seq<u8>) -> Option<(ReceiptView, Seq<u8>)>
    decreases bytes.len(), 0nat,
{
    match <Head as Wire>::get(bytes) {
        None => None,
        Some((head, middle)) => if middle.len() >= bytes.len() {
            None
        } else {
            match receipts_in(middle, head.1.1.1 as nat) {
                None => None,
                Some((nested, rest)) => Some(
                    (
                        ReceiptView {
                            program: head.0,
                            outcome: head.1.0,
                            events: head.1.1.0,
                            nested,
                        },
                        rest,
                    ),
                ),
            }
        },
    }
}

/// The `n` receipts at the front of `bytes`, and what follows them.
pub open spec fn receipts_in(bytes: Seq<u8>, n: nat) -> Option<(Seq<ReceiptView>, Seq<u8>)>
    decreases bytes.len(), 1nat,
{
    if n == 0 {
        Some((Seq::empty(), bytes))
    } else {
        match receipt_in(bytes) {
            None => None,
            Some((first, middle)) => if middle.len() >= bytes.len() {
                None
            } else {
                match receipts_in(middle, (n - 1) as nat) {
                    None => None,
                    Some((others, rest)) => Some((seq![first] + others, rest)),
                }
            },
        }
    }
}

proof fn head_is_shorter(bytes: Seq<u8>)
    ensures
        <Head as Wire>::get(bytes) matches Some((_, rest)) ==> rest.len() < bytes.len() && rest
            == bytes.skip(bytes.len() - rest.len()),
{
    <Head as Wire>::leaves_the_end(bytes);
    if let Some((_, middle)) = <String as Wire>::get(bytes) {
        <(Outcome, (Vec<Vec<u8>>, u32)) as Wire>::leaves_the_end(middle);
    }
}

proof fn receipt_is_shorter(bytes: Seq<u8>)
    ensures
        receipt_in(bytes) matches Some((_, rest)) ==> rest.len() < bytes.len() && rest
            == bytes.skip(bytes.len() - rest.len()),
    decreases bytes.len(), 0nat,
{
    head_is_shorter(bytes);
    if let Some((head, middle)) = <Head as Wire>::get(bytes) {
        receipts_are_no_longer(middle, head.1.1.1 as nat);
        if let Some((_, rest)) = receipts_in(middle, head.1.1.1 as nat) {
            assert(middle.skip(middle.len() - rest.len()) =~= bytes.skip(bytes.len() - rest.len()));
        }
    }
}

proof fn receipts_are_no_longer(bytes: Seq<u8>, n: nat)
    ensures
        receipts_in(bytes, n) matches Some((receipts, rest)) ==> receipts.len() == n && rest.len()
            <= bytes.len() && rest == bytes.skip(bytes.len() - rest.len()),
    decreases bytes.len(), 1nat,
{
    if n == 0 {
        assert(bytes.skip(0) =~= bytes);
    } else {
        receipt_is_shorter(bytes);
        if let Some((_, middle)) = receipt_in(bytes) {
            receipts_are_no_longer(middle, (n - 1) as nat);
            if let Some((_, rest)) = receipts_in(middle, (n - 1) as nat) {
                assert(middle.skip(middle.len() - rest.len()) =~= bytes.skip(
                    bytes.len() - rest.len(),
                ));
            }
        }
    }
}

proof fn receipt_comes_back(receipt: ReceiptView, rest: Seq<u8>)
    requires
        receipt_fits(receipt),
    ensures
        receipt_in(receipt_bytes(receipt) + rest) == Some((receipt, rest)),
    decreases receipt,
{
    let head = (
        receipt.program,
        (receipt.outcome, (receipt.events, receipt.nested.len() as u32)),
    );
    let others = receipts_bytes(receipt.nested);
    assert(receipt_bytes(receipt) + rest =~= <Head as Wire>::put(head) + (others + rest));
    <Head as Wire>::reads_back(head, others + rest);
    head_is_shorter(receipt_bytes(receipt) + rest);
    receipts_come_back(receipt.nested, rest);
}

#[verifier::spinoff_prover]
#[verifier::rlimit(60)]
proof fn receipts_come_back(receipts: Seq<ReceiptView>, rest: Seq<u8>)
    requires
        receipts_fit(receipts),
    ensures
        receipts_in(receipts_bytes(receipts) + rest, receipts.len()) == Some((receipts, rest)),
    decreases receipts,
{
    if receipts.len() == 0 {
        assert(receipts_bytes(receipts) + rest =~= rest);
        assert(receipts =~= Seq::empty());
    } else {
        let others = receipts.drop_first();
        let tail = receipts_bytes(others) + rest;
        assert(receipts_bytes(receipts) + rest =~= receipt_bytes(receipts[0]) + tail);
        receipt_comes_back(receipts[0], tail);
        receipt_is_shorter(receipt_bytes(receipts[0]) + tail);
        receipts_come_back(others, rest);
        assert(receipts_in(tail, others.len()) == Some((others, rest)));
        assert(seq![receipts[0]] + others =~= receipts);
    }
}

proof fn receipt_writes_back(bytes: Seq<u8>)
    ensures
        receipt_in(bytes) matches Some((receipt, rest)) ==> receipt_fits(receipt) && bytes
            == receipt_bytes(receipt) + rest,
    decreases bytes.len(), 0nat,
{
    <Head as Wire>::writes_back(bytes);
    if let Some((head, middle)) = <Head as Wire>::get(bytes) {
        if middle.len() < bytes.len() {
            let n = head.1.1.1;
            receipts_write_back(middle, n as nat);
            if let Some((nested, rest)) = receipts_in(middle, n as nat) {
                assert(<Head as Wire>::put(head) + (receipts_bytes(nested) + rest) =~= <Head as Wire>::put(
                    head,
                ) + receipts_bytes(nested) + rest);
            }
        }
    }
}

proof fn receipts_write_back(bytes: Seq<u8>, n: nat)
    ensures
        receipts_in(bytes, n) matches Some((receipts, rest)) ==> receipts.len() == n
            && receipts_fit(receipts) && bytes == receipts_bytes(receipts) + rest,
    decreases bytes.len(), 1nat,
{
    if n == 0 {
        assert(receipts_bytes(Seq::<ReceiptView>::empty()) + bytes =~= bytes);
    } else {
        receipt_writes_back(bytes);
        if let Some((first, middle)) = receipt_in(bytes) {
            if middle.len() < bytes.len() {
                receipts_write_back(middle, (n - 1) as nat);
                if let Some((others, rest)) = receipts_in(middle, (n - 1) as nat) {
                    let receipts = seq![first] + others;
                    assert(receipts.drop_first() =~= others);
                    assert(receipt_bytes(first) + (receipts_bytes(others) + rest)
                        =~= receipts_bytes(receipts) + rest);
                }
            }
        }
    }
}

fn read_receipt(bytes: &[u8], at: usize) -> (receipt: Option<(Receipt, usize)>)
    requires
        at <= bytes@.len(),
    ensures
        match (receipt, receipt_in(bytes@.skip(at as int))) {
            (Some((receipt, next)), Some((held, rest))) => value_of(receipt) == held && at < next
                <= bytes@.len() && bytes@.skip(next as int) == rest,
            (None, None) => true,
            _ => false,
        },
    decreases bytes@.len() - at, 0nat,
{
    proof {
        head_is_shorter(bytes@.skip(at as int));
    }
    match <Head as Wire>::read(bytes, at) {
        None => None,
        Some(((program, (outcome, (events, n))), middle)) => {
            assert(bytes@.skip(middle as int).len() < bytes@.skip(at as int).len());
            match read_receipts(bytes, middle, n) {
                None => None,
                Some((nested, next)) => Some((Receipt { program, outcome, events, nested }, next)),
            }
        },
    }
}

fn read_receipts(bytes: &[u8], at: usize, n: u32) -> (receipts: Option<(Vec<Receipt>, usize)>)
    requires
        at <= bytes@.len(),
    ensures
        match (receipts, receipts_in(bytes@.skip(at as int), n as nat)) {
            (Some((receipts, next)), Some((held, rest))) => values_of(receipts@) == held && at
                <= next <= bytes@.len() && bytes@.skip(next as int) == rest,
            (None, None) => true,
            _ => false,
        },
    decreases bytes@.len() - at, 1nat,
{
    let ghost whole = receipts_in(bytes@.skip(at as int), n as nat);
    let mut receipts: Vec<Receipt> = Vec::new();
    let mut place: usize = at;
    let mut left: u32 = n;
    while left > 0
        invariant
            at <= place <= bytes@.len(),
            whole == (match receipts_in(bytes@.skip(place as int), left as nat) {
                None => None,
                Some((others, rest)) => Some((values_of(receipts@) + others, rest)),
            }),
            whole == receipts_in(bytes@.skip(at as int), n as nat),
        decreases left,
    {
        let ghost before = receipts@;
        match read_receipt(bytes, place) {
            None => {
                return None;
            },
            Some((receipt, next)) => {
                receipts.push(receipt);
                proof {
                    assert(receipts@.drop_last() =~= before);
                    assert(values_of(receipts@) == values_of(before).push(value_of(receipt)));
                    assert(bytes@.skip(next as int).len() < bytes@.skip(place as int).len());
                    if let Some((others, _)) = receipts_in(
                        bytes@.skip(next as int),
                        (left - 1) as nat,
                    ) {
                        assert(values_of(before) + (seq![value_of(receipt)] + others)
                            =~= values_of(receipts@) + others);
                    }
                }
                place = next;
            },
        }
        left -= 1;
    }
    assert(values_of(receipts@) + Seq::<ReceiptView>::empty() =~= values_of(receipts@));
    Some((receipts, place))
}

proof fn values_one_by_one(receipts: Seq<Receipt>)
    ensures
        values_of(receipts).len() == receipts.len(),
        forall|i: int|
            0 <= i < receipts.len() ==> #[trigger] values_of(receipts)[i] == value_of(receipts[i]),
    decreases receipts.len(),
{
    if receipts.len() > 0 {
        values_one_by_one(receipts.drop_last());
        assert forall|i: int| 0 <= i < receipts.len() implies #[trigger] values_of(receipts)[i]
            == value_of(receipts[i]) by {
            if i < receipts.len() - 1 {
                assert(receipts.drop_last()[i] == receipts[i]);
            }
        }
    }
}

proof fn each_fits(receipts: Seq<ReceiptView>, i: int)
    requires
        receipts_fit(receipts),
        0 <= i < receipts.len(),
    ensures
        receipt_fits(receipts[i]),
    decreases i,
{
    if i > 0 {
        each_fits(receipts.drop_first(), i - 1);
    }
}

fn write_receipt(receipt: &Receipt, out: &mut Vec<u8>)
    requires
        receipt_fits(value_of(*receipt)),
    ensures
        final(out)@ == old(out)@ + receipt_bytes(value_of(*receipt)),
    decreases receipt,
{
    let ghost before = out@;
    let ghost values = values_of(receipt.nested@);
    proof {
        values_one_by_one(receipt.nested@);
    }
    receipt.program.write(out);
    receipt.outcome.write(out);
    receipt.events.write(out);
    (receipt.nested.len() as u32).write(out);
    let ghost headed = out@;
    assert(headed =~= before + <Head as Wire>::put(
        (
            receipt.program@,
            (receipt.outcome.deep_view(), (receipt.events.deep_view(), values.len() as u32)),
        ),
    ));
    assert(values.skip(0) =~= values);
    let mut at: usize = 0;
    while at < receipt.nested.len()
        invariant
            at <= receipt.nested@.len(),
            values == values_of(receipt.nested@),
            values.len() == receipt.nested@.len(),
            forall|i: int|
                0 <= i < values.len() ==> #[trigger] values[i] == value_of(receipt.nested@[i]),
            receipts_fit(values),
            out@ + receipts_bytes(values.skip(at as int)) == headed + receipts_bytes(values),
        decreases receipt.nested@.len() - at,
    {
        let ghost so_far = out@;
        let ghost first = value_of(receipt.nested@[at as int]);
        proof {
            each_fits(values, at as int);
            assert(values[at as int] == first);
            assert(values.skip(at as int).drop_first() =~= values.skip(at + 1));
        }
        write_receipt(&receipt.nested[at], out);
        assert(so_far + (receipt_bytes(first) + receipts_bytes(values.skip(at + 1))) =~= out@
            + receipts_bytes(values.skip(at + 1)));
        at += 1;
    }
    assert(out@ + receipts_bytes(values.skip(at as int)) =~= out@);
    assert(headed + receipts_bytes(values) =~= before + receipt_bytes(value_of(*receipt)));
}

impl DeepView for Receipt {
    type V = ReceiptView;

    open spec fn deep_view(&self) -> ReceiptView {
        value_of(*self)
    }
}

impl Wire for Receipt {
    open spec fn fits(value: ReceiptView) -> bool {
        receipt_fits(value)
    }

    open spec fn put(value: ReceiptView) -> Seq<u8> {
        receipt_bytes(value)
    }

    open spec fn get(bytes: Seq<u8>) -> Option<(ReceiptView, Seq<u8>)> {
        receipt_in(bytes)
    }

    proof fn reads_back(value: ReceiptView, rest: Seq<u8>) {
        receipt_comes_back(value, rest);
    }

    proof fn leaves_the_end(bytes: Seq<u8>) {
        receipt_is_shorter(bytes);
    }

    proof fn writes_back(bytes: Seq<u8>) {
        receipt_writes_back(bytes);
    }

    fn write(&self, out: &mut Vec<u8>) {
        write_receipt(self, out)
    }

    fn read(bytes: &[u8], at: usize) -> (value: Option<(Self, usize)>) {
        read_receipt(bytes, at)
    }
}

/// A receipt whose bytes can say it reads back from them, the runs it caused
/// and all.
pub proof fn a_receipt_reads_back(receipt: ReceiptView)
    requires
        receipt_fits(receipt),
    ensures
        crate::backend::wire::decoded::<Receipt>(receipt_bytes(receipt)) == Some(receipt),
{
    crate::backend::wire::what_is_encoded_is_decoded::<Receipt>(receipt);
}

/// A refusal is its reason and its sentence; what came of a run is 0 and its
/// output, or 1 and the refusal.
pub proof fn an_outcome_is_its_fields_in_order(output: Seq<u8>, refusal: RefusalView)
    ensures
        <Refusal as Wire>::put(refusal) == crate::backend::wire::counted(
            vstd::utf8::encode_utf8(refusal.reason),
        ) + crate::backend::wire::counted(vstd::utf8::encode_utf8(refusal.sentence)),
        <Outcome as Wire>::put(OutcomeView::Applied(output)) == seq![0u8]
            + crate::backend::wire::counted(output),
        <Outcome as Wire>::put(OutcomeView::Rejected(refusal)) == seq![1u8] + <Refusal as Wire>::put(
            refusal,
        ),
{
    crate::backend::wire::bytes_go_behind_their_length(output, refusal.reason);
    crate::backend::wire::bytes_go_behind_their_length(output, refusal.sentence);
}

/// A receipt is the program, what came of the run, what it told of, and behind
/// how many they are the receipts of the runs it caused, each as it is itself.
pub proof fn a_receipt_is_its_fields_in_order(receipt: ReceiptView)
    requires
        receipt.nested.len() <= u32::MAX,
    ensures
        receipt_bytes(receipt) == crate::backend::wire::counted(
            vstd::utf8::encode_utf8(receipt.program),
        ) + <Outcome as Wire>::put(receipt.outcome) + <Vec<Vec<u8>> as Wire>::put(receipt.events)
            + <Vec<Receipt> as Wire>::put(receipt.nested),
{
    crate::backend::wire::bytes_go_behind_their_length(Seq::empty(), receipt.program);
    receipts_are_a_list(receipt.nested);
    let program = <String as Wire>::put(receipt.program);
    let outcome = <Outcome as Wire>::put(receipt.outcome);
    let events = <Vec<Vec<u8>> as Wire>::put(receipt.events);
    let count = <u32 as Wire>::put(receipt.nested.len() as u32);
    let nested = receipts_bytes(receipt.nested);
    assert(program + (outcome + (events + count)) + nested =~= program + outcome + events + (count
        + nested));
}

proof fn receipts_are_a_list(receipts: Seq<ReceiptView>)
    ensures
        receipts_bytes(receipts) == crate::backend::wire::put_all::<Receipt>(receipts),
    decreases receipts.len(),
{
    if receipts.len() > 0 {
        receipts_are_a_list(receipts.drop_first());
    } else {
        assert(receipts_bytes(receipts) =~= crate::backend::wire::put_all::<Receipt>(receipts));
    }
}

} // verus!
