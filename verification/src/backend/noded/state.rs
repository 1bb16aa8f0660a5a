//! A node's state, as it tells of it: where it stands, and what a block wrote
//! to one program. What the root of a state is is the node's own to say, so
//! these are over any `R` that has bytes.

use vstd::prelude::*;

use crate::backend::wire::Wire;

verus! {

/// Where a node stands.
#[derive(Debug)]
pub struct Status<R> {
    pub network: String,
    pub time: u64,
    pub block_time_ms: u64,
    pub epoch_length: u64,
    pub height: u64,
    pub tip: [u8; 32],
    pub root: R,
    pub epoch: u64,
    pub identity: Vec<u8>,
    pub contract: u32,
    /// The genesis block's digest: with the network name, the chain's id.
    pub genesis: [u8; 32],
}

/// One block's writes to one program, as the node streams them.
#[derive(Debug)]
pub struct Change<R> {
    pub height: u64,
    pub root: R,
    pub writes: Vec<(Vec<u8>, Option<Vec<u8>>)>,
}

/// Where a node stands, as a value.
pub struct StatusView<V> {
    pub network: Seq<char>,
    pub time: u64,
    pub block_time_ms: u64,
    pub epoch_length: u64,
    pub height: u64,
    pub tip: Seq<u8>,
    pub root: V,
    pub epoch: u64,
    pub identity: Seq<u8>,
    pub contract: u32,
    pub genesis: Seq<u8>,
}

/// A block's writes, as a value.
pub struct ChangeView<V> {
    pub height: u64,
    pub root: V,
    pub writes: Seq<(Seq<u8>, Option<Seq<u8>>)>,
}

impl<R: DeepView> DeepView for Status<R> {
    type V = StatusView<R::V>;

    open spec fn deep_view(&self) -> StatusView<R::V> {
        StatusView {
            network: self.network.deep_view(),
            time: self.time.deep_view(),
            block_time_ms: self.block_time_ms.deep_view(),
            epoch_length: self.epoch_length.deep_view(),
            height: self.height.deep_view(),
            tip: self.tip.deep_view(),
            root: self.root.deep_view(),
            epoch: self.epoch.deep_view(),
            identity: self.identity.deep_view(),
            contract: self.contract.deep_view(),
            genesis: self.genesis.deep_view(),
        }
    }
}

impl<R: DeepView> DeepView for Change<R> {
    type V = ChangeView<R::V>;

    open spec fn deep_view(&self) -> ChangeView<R::V> {
        ChangeView {
            height: self.height.deep_view(),
            root: self.root.deep_view(),
            writes: self.writes.deep_view(),
        }
    }
}

/// The fields of a status, in the order their bytes come.
type StatusFields<R> = (
    (String, (u64, (u64, (u64, (u64, [u8; 32]))))),
    (R, (u64, (Vec<u8>, (u32, [u8; 32])))),
);

/// The fields of a change, in the order their bytes come.
type ChangeFields<R> = (u64, (R, Vec<(Vec<u8>, Option<Vec<u8>>)>));

impl<V> StatusView<V> {
    /// The fields, in order.
    pub open spec fn fields(self) -> (
        (Seq<char>, (u64, (u64, (u64, (u64, Seq<u8>))))),
        (V, (u64, (Seq<u8>, (u32, Seq<u8>)))),
    ) {
        (
            (
                self.network,
                (
                    self.time,
                    (self.block_time_ms, (self.epoch_length, (self.height, self.tip))),
                ),
            ),
            (self.root, (self.epoch, (self.identity, (self.contract, self.genesis)))),
        )
    }
}

impl<V> ChangeView<V> {
    /// The fields, in order.
    pub open spec fn fields(self) -> (u64, (V, Seq<(Seq<u8>, Option<Seq<u8>>)>)) {
        (self.height, (self.root, self.writes))
    }
}

impl<R: Wire> Wire for Status<R> {
    open spec fn fits(value: StatusView<R::V>) -> bool {
        <StatusFields<R> as Wire>::fits(value.fields())
    }

    open spec fn put(value: StatusView<R::V>) -> Seq<u8> {
        <StatusFields<R> as Wire>::put(value.fields())
    }

    open spec fn get(bytes: Seq<u8>) -> Option<(StatusView<R::V>, Seq<u8>)> {
        match <StatusFields<R> as Wire>::get(bytes) {
            None => None,
            Some(((first, second), rest)) => Some(
                (
                    StatusView {
                        network: first.0,
                        time: first.1.0,
                        block_time_ms: first.1.1.0,
                        epoch_length: first.1.1.1.0,
                        height: first.1.1.1.1.0,
                        tip: first.1.1.1.1.1,
                        root: second.0,
                        epoch: second.1.0,
                        identity: second.1.1.0,
                        contract: second.1.1.1.0,
                        genesis: second.1.1.1.1,
                    },
                    rest,
                ),
            ),
        }
    }

    proof fn reads_back(value: StatusView<R::V>, rest: Seq<u8>) {
        <StatusFields<R> as Wire>::reads_back(value.fields(), rest);
    }

    proof fn leaves_the_end(bytes: Seq<u8>) {
        <StatusFields<R> as Wire>::leaves_the_end(bytes);
    }

    proof fn writes_back(bytes: Seq<u8>) {
        <StatusFields<R> as Wire>::writes_back(bytes);
    }

    fn write(&self, out: &mut Vec<u8>) {
        self.network.write(out);
        self.time.write(out);
        self.block_time_ms.write(out);
        self.epoch_length.write(out);
        self.height.write(out);
        self.tip.write(out);
        self.root.write(out);
        self.epoch.write(out);
        self.identity.write(out);
        self.contract.write(out);
        self.genesis.write(out);
        assert(out@ =~= old(out)@ + Self::put(self.deep_view()));
    }

    fn read(bytes: &[u8], at: usize) -> (value: Option<(Self, usize)>) {
        match <StatusFields<R> as Wire>::read(bytes, at) {
            None => None,
            Some((((network, (time, (block_time_ms, (epoch_length, (height, tip))))), second), next)) => {
                let (root, (epoch, (identity, (contract, genesis)))) = second;
                Some(
                    (
                        Status {
                            network,
                            time,
                            block_time_ms,
                            epoch_length,
                            height,
                            tip,
                            root,
                            epoch,
                            identity,
                            contract,
                            genesis,
                        },
                        next,
                    ),
                )
            },
        }
    }
}

impl<R: Wire> Wire for Change<R> {
    open spec fn fits(value: ChangeView<R::V>) -> bool {
        <ChangeFields<R> as Wire>::fits(value.fields())
    }

    open spec fn put(value: ChangeView<R::V>) -> Seq<u8> {
        <ChangeFields<R> as Wire>::put(value.fields())
    }

    open spec fn get(bytes: Seq<u8>) -> Option<(ChangeView<R::V>, Seq<u8>)> {
        match <ChangeFields<R> as Wire>::get(bytes) {
            None => None,
            Some((fields, rest)) => Some(
                (
                    ChangeView { height: fields.0, root: fields.1.0, writes: fields.1.1 },
                    rest,
                ),
            ),
        }
    }

    proof fn reads_back(value: ChangeView<R::V>, rest: Seq<u8>) {
        <ChangeFields<R> as Wire>::reads_back(value.fields(), rest);
    }

    proof fn leaves_the_end(bytes: Seq<u8>) {
        <ChangeFields<R> as Wire>::leaves_the_end(bytes);
    }

    proof fn writes_back(bytes: Seq<u8>) {
        <ChangeFields<R> as Wire>::writes_back(bytes);
    }

    fn write(&self, out: &mut Vec<u8>) {
        self.height.write(out);
        self.root.write(out);
        self.writes.write(out);
        assert(out@ =~= old(out)@ + Self::put(self.deep_view()));
    }

    fn read(bytes: &[u8], at: usize) -> (value: Option<(Self, usize)>) {
        match <ChangeFields<R> as Wire>::read(bytes, at) {
            None => None,
            Some(((height, (root, writes)), next)) => Some((Change { height, root, writes }, next)),
        }
    }
}

/// Where a node stands is its network, its times, its height and its tip, and
/// then its root, its epoch, its identity, its contract and its genesis; a
/// change is its height, the root after it, and what it wrote.
pub proof fn a_status_is_its_fields_in_order<R: Wire>(
    status: StatusView<R::V>,
    change: ChangeView<R::V>,
)
    ensures
        <Status<R> as Wire>::put(status) == crate::backend::wire::counted(
            vstd::utf8::encode_utf8(status.network),
        ) + crate::backend::wire::eight(status.time as nat) + crate::backend::wire::eight(
            status.block_time_ms as nat,
        ) + crate::backend::wire::eight(status.epoch_length as nat) + crate::backend::wire::eight(
            status.height as nat,
        ) + status.tip + (R::put(status.root) + crate::backend::wire::eight(status.epoch as nat)
            + crate::backend::wire::counted(status.identity) + crate::backend::wire::four(
            status.contract as nat,
        ) + status.genesis),
        <Change<R> as Wire>::put(change) == crate::backend::wire::eight(change.height as nat)
            + R::put(change.root) + <Vec<(Vec<u8>, Option<Vec<u8>>)> as Wire>::put(change.writes),
{
    crate::backend::wire::bytes_go_behind_their_length(status.identity, status.network);
    crate::backend::wire::numbers_go_lowest_byte_first(0, status.contract, status.time);
    crate::backend::wire::numbers_go_lowest_byte_first(0, 0, status.block_time_ms);
    crate::backend::wire::numbers_go_lowest_byte_first(0, 0, status.epoch_length);
    crate::backend::wire::numbers_go_lowest_byte_first(0, 0, status.height);
    crate::backend::wire::numbers_go_lowest_byte_first(0, 0, status.epoch);
    crate::backend::wire::numbers_go_lowest_byte_first(0, 0, change.height);
    let network = crate::backend::wire::counted(vstd::utf8::encode_utf8(status.network));
    let time = crate::backend::wire::eight(status.time as nat);
    let block = crate::backend::wire::eight(status.block_time_ms as nat);
    let length = crate::backend::wire::eight(status.epoch_length as nat);
    let height = crate::backend::wire::eight(status.height as nat);
    let root = R::put(status.root);
    let epoch = crate::backend::wire::eight(status.epoch as nat);
    let identity = crate::backend::wire::counted(status.identity);
    let contract = crate::backend::wire::four(status.contract as nat);
    assert(network + (time + (block + (length + (height + status.tip)))) =~= network + time + block
        + length + height + status.tip);
    assert(root + (epoch + (identity + (contract + status.genesis))) =~= root + epoch + identity
        + contract + status.genesis);
    let changed = crate::backend::wire::eight(change.height as nat);
    let writes = <Vec<(Vec<u8>, Option<Vec<u8>>)> as Wire>::put(change.writes);
    assert(changed + (R::put(change.root) + writes) =~= changed + R::put(change.root) + writes);
}

} // verus!
