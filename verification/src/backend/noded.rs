//! The app's client of a node's daemon: the `/v1` surface it serves, the
//! values that go in and out of it as bytes, and the signed frame every write
//! and query carries.
//!
//! Nothing here knows a program. A target is whatever string the caller hands
//! over.

use vstd::prelude::*;
use vstd::utf8::*;

use crate::backend::wire::Wire;
use crate::backend::wire::bytes_of;
use crate::backend::wire::decode;
use crate::backend::wire::encode;
use crate::outside::public_key;
use crate::outside::sign;
use crate::text::chars_of;
use crate::text::decimal_of;
use crate::text::joined;
use crate::text::joined3;
use crate::text::text_of;

pub mod receipt;
pub mod route;
pub mod state;

verus! {

/// The contract this client speaks.
pub const NODE_CONTRACT: u32 = 1;

/// Which state a read sees.
#[derive(Clone, Copy, Debug, PartialEq, Eq, Structural)]
pub enum Layer {
    Confirmed,
    Preconfirmed,
}

/// The signer's scheme, as a frame body encodes it: the device key is
/// `Ed25519`, a passkey `Secp256r1`.
#[derive(Clone, Copy, Debug, PartialEq, Eq, Structural)]
pub enum KeyScheme {
    Ed25519,
    Secp256r1,
}

/// What a signer signs: who it is, on which network, which of its frames this
/// is, whom it is for, and what it says.
#[derive(Debug)]
pub struct Body {
    pub scheme: KeyScheme,
    pub signer: Vec<u8>,
    pub network: Vec<u8>,
    pub seq: u64,
    pub target: String,
    pub payload: Vec<u8>,
}

/// A body and its signer's proof of it.
#[derive(Debug)]
pub struct Frame {
    pub body: Body,
    pub proof: Vec<u8>,
}

/// A question to a program, as a signed frame.
#[derive(Debug)]
pub struct Query {
    pub layer: Layer,
    pub frame: Vec<u8>,
}

/// A read of one key of a program's state.
#[derive(Debug)]
pub struct Get {
    pub layer: Layer,
    pub program: String,
    pub key: Vec<u8>,
}

/// A page of finalized blocks, newest first.
#[derive(Debug)]
pub struct Blocks {
    pub before: Option<u64>,
    pub limit: u32,
}

/// A finalized block by height or by id.
#[derive(Debug)]
pub enum BlockRef {
    Height(u64),
    Id([u8; 32]),
}

/// One applied frame; `hash` is SHA-256 of the frame's bytes.
#[derive(Debug)]
pub struct Tx {
    pub hash: [u8; 32],
    pub signer: Vec<u8>,
    pub seq: u64,
    pub target: String,
    pub payload: Vec<u8>,
}

/// A block as the node's archive keeps it.
#[derive(Debug)]
pub struct Finalized {
    pub height: u64,
    pub id: [u8; 32],
    pub parent: [u8; 32],
    pub time: u64,
    pub epoch: u64,
    pub proposer: Option<Vec<u8>>,
    pub txs: Vec<Tx>,
}

// ---------- their bytes ----------
impl DeepView for Layer {
    type V = Layer;

    open spec fn deep_view(&self) -> Layer {
        *self
    }
}

impl Wire for Layer {
    open spec fn fits(value: Layer) -> bool {
        true
    }

    open spec fn put(value: Layer) -> Seq<u8> {
        match value {
            Layer::Confirmed => seq![0u8],
            Layer::Preconfirmed => seq![1u8],
        }
    }

    open spec fn get(bytes: Seq<u8>) -> Option<(Layer, Seq<u8>)> {
        if bytes.len() < 1 || bytes[0] > 1 {
            None
        } else if bytes[0] == 0 {
            Some((Layer::Confirmed, bytes.skip(1)))
        } else {
            Some((Layer::Preconfirmed, bytes.skip(1)))
        }
    }

    proof fn reads_back(value: Layer, rest: Seq<u8>) {
        assert((Self::put(value) + rest).skip(1) =~= rest);
    }

    proof fn leaves_the_end(bytes: Seq<u8>) {
    }

    proof fn writes_back(bytes: Seq<u8>) {
        if let Some((value, rest)) = Self::get(bytes) {
            assert(bytes =~= Self::put(value) + rest);
        }
    }

    fn write(&self, out: &mut Vec<u8>) {
        match self {
            Layer::Confirmed => out.push(0),
            Layer::Preconfirmed => out.push(1),
        }
        assert(out@ =~= old(out)@ + Self::put(*self));
    }

    fn read(bytes: &[u8], at: usize) -> (value: Option<(Self, usize)>) {
        if at >= bytes.len() || bytes[at] > 1 {
            return None;
        }
        assert(bytes@.skip(at as int).skip(1) =~= bytes@.skip(at + 1));
        if bytes[at] == 0 {
            Some((Layer::Confirmed, at + 1))
        } else {
            Some((Layer::Preconfirmed, at + 1))
        }
    }
}

impl DeepView for KeyScheme {
    type V = KeyScheme;

    open spec fn deep_view(&self) -> KeyScheme {
        *self
    }
}

impl Wire for KeyScheme {
    open spec fn fits(value: KeyScheme) -> bool {
        true
    }

    open spec fn put(value: KeyScheme) -> Seq<u8> {
        match value {
            KeyScheme::Ed25519 => seq![0u8],
            KeyScheme::Secp256r1 => seq![1u8],
        }
    }

    open spec fn get(bytes: Seq<u8>) -> Option<(KeyScheme, Seq<u8>)> {
        if bytes.len() < 1 || bytes[0] > 1 {
            None
        } else if bytes[0] == 0 {
            Some((KeyScheme::Ed25519, bytes.skip(1)))
        } else {
            Some((KeyScheme::Secp256r1, bytes.skip(1)))
        }
    }

    proof fn reads_back(value: KeyScheme, rest: Seq<u8>) {
        assert((Self::put(value) + rest).skip(1) =~= rest);
    }

    proof fn leaves_the_end(bytes: Seq<u8>) {
    }

    proof fn writes_back(bytes: Seq<u8>) {
        if let Some((value, rest)) = Self::get(bytes) {
            assert(bytes =~= Self::put(value) + rest);
        }
    }

    fn write(&self, out: &mut Vec<u8>) {
        match self {
            KeyScheme::Ed25519 => out.push(0),
            KeyScheme::Secp256r1 => out.push(1),
        }
        assert(out@ =~= old(out)@ + Self::put(*self));
    }

    fn read(bytes: &[u8], at: usize) -> (value: Option<(Self, usize)>) {
        if at >= bytes.len() || bytes[at] > 1 {
            return None;
        }
        assert(bytes@.skip(at as int).skip(1) =~= bytes@.skip(at + 1));
        if bytes[at] == 0 {
            Some((KeyScheme::Ed25519, at + 1))
        } else {
            Some((KeyScheme::Secp256r1, at + 1))
        }
    }
}

impl Wire for [u8; 32] {
    open spec fn fits(value: Seq<u8>) -> bool {
        value.len() == 32
    }

    open spec fn put(value: Seq<u8>) -> Seq<u8> {
        value
    }

    open spec fn get(bytes: Seq<u8>) -> Option<(Seq<u8>, Seq<u8>)> {
        if bytes.len() < 32 {
            None
        } else {
            Some((bytes.take(32), bytes.skip(32)))
        }
    }

    proof fn reads_back(value: Seq<u8>, rest: Seq<u8>) {
        assert((value + rest).take(32) =~= value);
        assert((value + rest).skip(32) =~= rest);
    }

    proof fn leaves_the_end(bytes: Seq<u8>) {
    }

    proof fn writes_back(bytes: Seq<u8>) {
        if bytes.len() >= 32 {
            assert(bytes =~= bytes.take(32) + bytes.skip(32));
        }
    }

    fn write(&self, out: &mut Vec<u8>) {
        crate::backend::wire::push_all(out, self.as_slice());
        assert(self.deep_view() =~= self@);
    }

    fn read(bytes: &[u8], at: usize) -> (value: Option<(Self, usize)>) {
        if bytes.len() - at < 32 {
            return None;
        }
        let mut value: [u8; 32] = [0u8;32];
        let mut nth: usize = 0;
        while nth < 32
            invariant
                nth <= 32,
                at + 32 <= bytes.len(),
                forall|i: int| 0 <= i < nth ==> value@[i] == bytes@[at + i],
            decreases 32 - nth,
        {
            value[nth] = bytes[at + nth];
            nth += 1;
        }
        proof {
            assert(value.deep_view() =~= bytes@.skip(at as int).take(32));
            assert(bytes@.skip(at as int).skip(32) =~= bytes@.skip(at + 32));
        }
        Some((value, at + 32))
    }
}

/// A frame's body, as a value.
pub struct BodyView {
    pub scheme: KeyScheme,
    pub signer: Seq<u8>,
    pub network: Seq<u8>,
    pub seq: u64,
    pub target: Seq<char>,
    pub payload: Seq<u8>,
}

impl DeepView for Body {
    type V = BodyView;

    open spec fn deep_view(&self) -> BodyView {
        BodyView {
            scheme: self.scheme.deep_view(),
            signer: self.signer.deep_view(),
            network: self.network.deep_view(),
            seq: self.seq.deep_view(),
            target: self.target.deep_view(),
            payload: self.payload.deep_view(),
        }
    }
}

/// The fields of a frame's body, in the order their bytes come.
type BodyFields = (KeyScheme, (Vec<u8>, (Vec<u8>, (u64, (String, Vec<u8>)))));

impl BodyView {
    /// The fields, in order.
    pub open spec fn fields(self) -> (KeyScheme, (Seq<u8>, (Seq<u8>, (u64, (Seq<char>, Seq<u8>))))) {
        (self.scheme, (self.signer, (self.network, (self.seq, (self.target, self.payload)))))
    }
}

impl Wire for Body {
    open spec fn fits(value: BodyView) -> bool {
        <BodyFields as Wire>::fits(value.fields())
    }

    open spec fn put(value: BodyView) -> Seq<u8> {
        <BodyFields as Wire>::put(value.fields())
    }

    open spec fn get(bytes: Seq<u8>) -> Option<(BodyView, Seq<u8>)> {
        match <BodyFields as Wire>::get(bytes) {
            None => None,
            Some((fields, rest)) => Some(
                (
                    BodyView {
                        scheme: fields.0,
                        signer: fields.1.0,
                        network: fields.1.1.0,
                        seq: fields.1.1.1.0,
                        target: fields.1.1.1.1.0,
                        payload: fields.1.1.1.1.1,
                    },
                    rest,
                ),
            ),
        }
    }

    proof fn reads_back(value: BodyView, rest: Seq<u8>) {
        <BodyFields as Wire>::reads_back(value.fields(), rest);
    }

    proof fn leaves_the_end(bytes: Seq<u8>) {
        <BodyFields as Wire>::leaves_the_end(bytes);
    }

    proof fn writes_back(bytes: Seq<u8>) {
        <BodyFields as Wire>::writes_back(bytes);
    }

    fn write(&self, out: &mut Vec<u8>) {
        self.scheme.write(out);
        self.signer.write(out);
        self.network.write(out);
        self.seq.write(out);
        self.target.write(out);
        self.payload.write(out);
        assert(out@ =~= old(out)@ + Self::put(self.deep_view()));
    }

    fn read(bytes: &[u8], at: usize) -> (value: Option<(Self, usize)>) {
        match <BodyFields as Wire>::read(bytes, at) {
            None => None,
            Some(((scheme, (signer, (network, (seq, (target, payload))))), next)) => Some(
                (Body { scheme, signer, network, seq, target, payload }, next),
            ),
        }
    }
}

/// A frame, as a value.
pub struct FrameView {
    pub body: BodyView,
    pub proof: Seq<u8>,
}

impl DeepView for Frame {
    type V = FrameView;

    open spec fn deep_view(&self) -> FrameView {
        FrameView {
            body: self.body.deep_view(),
            proof: self.proof.deep_view(),
        }
    }
}

/// The fields of a frame, in the order their bytes come.
type FrameFields = (Body, Vec<u8>);

impl FrameView {
    /// The fields, in order.
    pub open spec fn fields(self) -> (BodyView, Seq<u8>) {
        (self.body, self.proof)
    }
}

impl Wire for Frame {
    open spec fn fits(value: FrameView) -> bool {
        <FrameFields as Wire>::fits(value.fields())
    }

    open spec fn put(value: FrameView) -> Seq<u8> {
        <FrameFields as Wire>::put(value.fields())
    }

    open spec fn get(bytes: Seq<u8>) -> Option<(FrameView, Seq<u8>)> {
        match <FrameFields as Wire>::get(bytes) {
            None => None,
            Some((fields, rest)) => Some(
                (
                    FrameView {
                        body: fields.0,
                        proof: fields.1,
                    },
                    rest,
                ),
            ),
        }
    }

    proof fn reads_back(value: FrameView, rest: Seq<u8>) {
        <FrameFields as Wire>::reads_back(value.fields(), rest);
    }

    proof fn leaves_the_end(bytes: Seq<u8>) {
        <FrameFields as Wire>::leaves_the_end(bytes);
    }

    proof fn writes_back(bytes: Seq<u8>) {
        <FrameFields as Wire>::writes_back(bytes);
    }

    fn write(&self, out: &mut Vec<u8>) {
        self.body.write(out);
        self.proof.write(out);
        assert(out@ =~= old(out)@ + Self::put(self.deep_view()));
    }

    fn read(bytes: &[u8], at: usize) -> (value: Option<(Self, usize)>) {
        match <FrameFields as Wire>::read(bytes, at) {
            None => None,
            Some(((body, proof), next)) => Some((Frame { body, proof }, next)),
        }
    }
}

/// A question, as a value.
pub struct QueryView {
    pub layer: Layer,
    pub frame: Seq<u8>,
}

impl DeepView for Query {
    type V = QueryView;

    open spec fn deep_view(&self) -> QueryView {
        QueryView {
            layer: self.layer.deep_view(),
            frame: self.frame.deep_view(),
        }
    }
}

/// The fields of a question, in the order their bytes come.
type QueryFields = (Layer, Vec<u8>);

impl QueryView {
    /// The fields, in order.
    pub open spec fn fields(self) -> (Layer, Seq<u8>) {
        (self.layer, self.frame)
    }
}

impl Wire for Query {
    open spec fn fits(value: QueryView) -> bool {
        <QueryFields as Wire>::fits(value.fields())
    }

    open spec fn put(value: QueryView) -> Seq<u8> {
        <QueryFields as Wire>::put(value.fields())
    }

    open spec fn get(bytes: Seq<u8>) -> Option<(QueryView, Seq<u8>)> {
        match <QueryFields as Wire>::get(bytes) {
            None => None,
            Some((fields, rest)) => Some(
                (
                    QueryView {
                        layer: fields.0,
                        frame: fields.1,
                    },
                    rest,
                ),
            ),
        }
    }

    proof fn reads_back(value: QueryView, rest: Seq<u8>) {
        <QueryFields as Wire>::reads_back(value.fields(), rest);
    }

    proof fn leaves_the_end(bytes: Seq<u8>) {
        <QueryFields as Wire>::leaves_the_end(bytes);
    }

    proof fn writes_back(bytes: Seq<u8>) {
        <QueryFields as Wire>::writes_back(bytes);
    }

    fn write(&self, out: &mut Vec<u8>) {
        self.layer.write(out);
        self.frame.write(out);
        assert(out@ =~= old(out)@ + Self::put(self.deep_view()));
    }

    fn read(bytes: &[u8], at: usize) -> (value: Option<(Self, usize)>) {
        match <QueryFields as Wire>::read(bytes, at) {
            None => None,
            Some(((layer, frame), next)) => Some((Query { layer, frame }, next)),
        }
    }
}

/// A read, as a value.
pub struct GetView {
    pub layer: Layer,
    pub program: Seq<char>,
    pub key: Seq<u8>,
}

impl DeepView for Get {
    type V = GetView;

    open spec fn deep_view(&self) -> GetView {
        GetView {
            layer: self.layer.deep_view(),
            program: self.program.deep_view(),
            key: self.key.deep_view(),
        }
    }
}

/// The fields of a read, in the order their bytes come.
type GetFields = (Layer, (String, Vec<u8>));

impl GetView {
    /// The fields, in order.
    pub open spec fn fields(self) -> (Layer, (Seq<char>, Seq<u8>)) {
        (self.layer, (self.program, self.key))
    }
}

impl Wire for Get {
    open spec fn fits(value: GetView) -> bool {
        <GetFields as Wire>::fits(value.fields())
    }

    open spec fn put(value: GetView) -> Seq<u8> {
        <GetFields as Wire>::put(value.fields())
    }

    open spec fn get(bytes: Seq<u8>) -> Option<(GetView, Seq<u8>)> {
        match <GetFields as Wire>::get(bytes) {
            None => None,
            Some((fields, rest)) => Some(
                (
                    GetView {
                        layer: fields.0,
                        program: fields.1.0,
                        key: fields.1.1,
                    },
                    rest,
                ),
            ),
        }
    }

    proof fn reads_back(value: GetView, rest: Seq<u8>) {
        <GetFields as Wire>::reads_back(value.fields(), rest);
    }

    proof fn leaves_the_end(bytes: Seq<u8>) {
        <GetFields as Wire>::leaves_the_end(bytes);
    }

    proof fn writes_back(bytes: Seq<u8>) {
        <GetFields as Wire>::writes_back(bytes);
    }

    fn write(&self, out: &mut Vec<u8>) {
        self.layer.write(out);
        self.program.write(out);
        self.key.write(out);
        assert(out@ =~= old(out)@ + Self::put(self.deep_view()));
    }

    fn read(bytes: &[u8], at: usize) -> (value: Option<(Self, usize)>) {
        match <GetFields as Wire>::read(bytes, at) {
            None => None,
            Some(((layer, (program, key)), next)) => Some((Get { layer, program, key }, next)),
        }
    }
}

/// A page, as a value.
pub struct BlocksView {
    pub before: Option<u64>,
    pub limit: u32,
}

impl DeepView for Blocks {
    type V = BlocksView;

    open spec fn deep_view(&self) -> BlocksView {
        BlocksView {
            before: self.before.deep_view(),
            limit: self.limit.deep_view(),
        }
    }
}

/// The fields of a page, in the order their bytes come.
type BlocksFields = (Option<u64>, u32);

impl BlocksView {
    /// The fields, in order.
    pub open spec fn fields(self) -> (Option<u64>, u32) {
        (self.before, self.limit)
    }
}

impl Wire for Blocks {
    open spec fn fits(value: BlocksView) -> bool {
        <BlocksFields as Wire>::fits(value.fields())
    }

    open spec fn put(value: BlocksView) -> Seq<u8> {
        <BlocksFields as Wire>::put(value.fields())
    }

    open spec fn get(bytes: Seq<u8>) -> Option<(BlocksView, Seq<u8>)> {
        match <BlocksFields as Wire>::get(bytes) {
            None => None,
            Some((fields, rest)) => Some(
                (
                    BlocksView {
                        before: fields.0,
                        limit: fields.1,
                    },
                    rest,
                ),
            ),
        }
    }

    proof fn reads_back(value: BlocksView, rest: Seq<u8>) {
        <BlocksFields as Wire>::reads_back(value.fields(), rest);
    }

    proof fn leaves_the_end(bytes: Seq<u8>) {
        <BlocksFields as Wire>::leaves_the_end(bytes);
    }

    proof fn writes_back(bytes: Seq<u8>) {
        <BlocksFields as Wire>::writes_back(bytes);
    }

    fn write(&self, out: &mut Vec<u8>) {
        self.before.write(out);
        self.limit.write(out);
        assert(out@ =~= old(out)@ + Self::put(self.deep_view()));
    }

    fn read(bytes: &[u8], at: usize) -> (value: Option<(Self, usize)>) {
        match <BlocksFields as Wire>::read(bytes, at) {
            None => None,
            Some(((before, limit), next)) => Some((Blocks { before, limit }, next)),
        }
    }
}

/// An applied frame, as a value.
pub struct TxView {
    pub hash: Seq<u8>,
    pub signer: Seq<u8>,
    pub seq: u64,
    pub target: Seq<char>,
    pub payload: Seq<u8>,
}

impl DeepView for Tx {
    type V = TxView;

    open spec fn deep_view(&self) -> TxView {
        TxView {
            hash: self.hash.deep_view(),
            signer: self.signer.deep_view(),
            seq: self.seq.deep_view(),
            target: self.target.deep_view(),
            payload: self.payload.deep_view(),
        }
    }
}

/// The fields of an applied frame, in the order their bytes come.
type TxFields = ([u8; 32], (Vec<u8>, (u64, (String, Vec<u8>))));

impl TxView {
    /// The fields, in order.
    pub open spec fn fields(self) -> (Seq<u8>, (Seq<u8>, (u64, (Seq<char>, Seq<u8>)))) {
        (self.hash, (self.signer, (self.seq, (self.target, self.payload))))
    }
}

impl Wire for Tx {
    open spec fn fits(value: TxView) -> bool {
        <TxFields as Wire>::fits(value.fields())
    }

    open spec fn put(value: TxView) -> Seq<u8> {
        <TxFields as Wire>::put(value.fields())
    }

    open spec fn get(bytes: Seq<u8>) -> Option<(TxView, Seq<u8>)> {
        match <TxFields as Wire>::get(bytes) {
            None => None,
            Some((fields, rest)) => Some(
                (
                    TxView {
                        hash: fields.0,
                        signer: fields.1.0,
                        seq: fields.1.1.0,
                        target: fields.1.1.1.0,
                        payload: fields.1.1.1.1,
                    },
                    rest,
                ),
            ),
        }
    }

    proof fn reads_back(value: TxView, rest: Seq<u8>) {
        <TxFields as Wire>::reads_back(value.fields(), rest);
    }

    proof fn leaves_the_end(bytes: Seq<u8>) {
        <TxFields as Wire>::leaves_the_end(bytes);
    }

    proof fn writes_back(bytes: Seq<u8>) {
        <TxFields as Wire>::writes_back(bytes);
    }

    fn write(&self, out: &mut Vec<u8>) {
        self.hash.write(out);
        self.signer.write(out);
        self.seq.write(out);
        self.target.write(out);
        self.payload.write(out);
        assert(out@ =~= old(out)@ + Self::put(self.deep_view()));
    }

    fn read(bytes: &[u8], at: usize) -> (value: Option<(Self, usize)>) {
        match <TxFields as Wire>::read(bytes, at) {
            None => None,
            Some(((hash, (signer, (seq, (target, payload)))), next)) => Some(
                (Tx { hash, signer, seq, target, payload }, next),
            ),
        }
    }
}

/// A block, as a value.
pub struct FinalizedView {
    pub height: u64,
    pub id: Seq<u8>,
    pub parent: Seq<u8>,
    pub time: u64,
    pub epoch: u64,
    pub proposer: Option<Seq<u8>>,
    pub txs: Seq<TxView>,
}

impl DeepView for Finalized {
    type V = FinalizedView;

    open spec fn deep_view(&self) -> FinalizedView {
        FinalizedView {
            height: self.height.deep_view(),
            id: self.id.deep_view(),
            parent: self.parent.deep_view(),
            time: self.time.deep_view(),
            epoch: self.epoch.deep_view(),
            proposer: self.proposer.deep_view(),
            txs: self.txs.deep_view(),
        }
    }
}

/// The fields of a block, in the order their bytes come.
type FinalizedFields = (u64, ([u8; 32], ([u8; 32], (u64, (u64, (Option<Vec<u8>>, Vec<Tx>))))));

impl FinalizedView {
    /// The fields, in order.
    pub open spec fn fields(self) -> (
        u64,
        (Seq<u8>, (Seq<u8>, (u64, (u64, (Option<Seq<u8>>, Seq<TxView>))))),
    ) {
        (
            self.height,
            (self.id, (self.parent, (self.time, (self.epoch, (self.proposer, self.txs))))),
        )
    }
}

impl Wire for Finalized {
    open spec fn fits(value: FinalizedView) -> bool {
        <FinalizedFields as Wire>::fits(value.fields())
    }

    open spec fn put(value: FinalizedView) -> Seq<u8> {
        <FinalizedFields as Wire>::put(value.fields())
    }

    open spec fn get(bytes: Seq<u8>) -> Option<(FinalizedView, Seq<u8>)> {
        match <FinalizedFields as Wire>::get(bytes) {
            None => None,
            Some((fields, rest)) => Some(
                (
                    FinalizedView {
                        height: fields.0,
                        id: fields.1.0,
                        parent: fields.1.1.0,
                        time: fields.1.1.1.0,
                        epoch: fields.1.1.1.1.0,
                        proposer: fields.1.1.1.1.1.0,
                        txs: fields.1.1.1.1.1.1,
                    },
                    rest,
                ),
            ),
        }
    }

    proof fn reads_back(value: FinalizedView, rest: Seq<u8>) {
        <FinalizedFields as Wire>::reads_back(value.fields(), rest);
    }

    proof fn leaves_the_end(bytes: Seq<u8>) {
        <FinalizedFields as Wire>::leaves_the_end(bytes);
    }

    proof fn writes_back(bytes: Seq<u8>) {
        <FinalizedFields as Wire>::writes_back(bytes);
    }

    fn write(&self, out: &mut Vec<u8>) {
        self.height.write(out);
        self.id.write(out);
        self.parent.write(out);
        self.time.write(out);
        self.epoch.write(out);
        self.proposer.write(out);
        self.txs.write(out);
        assert(out@ =~= old(out)@ + Self::put(self.deep_view()));
    }

    fn read(bytes: &[u8], at: usize) -> (value: Option<(Self, usize)>) {
        match <FinalizedFields as Wire>::read(bytes, at) {
            None => None,
            Some(((height, (id, (parent, (time, (epoch, (proposer, txs)))))), next)) => Some(
                (Finalized { height, id, parent, time, epoch, proposer, txs }, next),
            ),
        }
    }
}

/// A block by height or by id, as a value.
pub enum BlockRefView {
    Height(u64),
    Id(Seq<u8>),
}

impl DeepView for BlockRef {
    type V = BlockRefView;

    open spec fn deep_view(&self) -> BlockRefView {
        match self {
            BlockRef::Height(height) => BlockRefView::Height(*height),
            BlockRef::Id(id) => BlockRefView::Id(id.deep_view()),
        }
    }
}

impl Wire for BlockRef {
    open spec fn fits(value: BlockRefView) -> bool {
        value matches BlockRefView::Id(id) ==> <[u8; 32] as Wire>::fits(id)
    }

    open spec fn put(value: BlockRefView) -> Seq<u8> {
        match value {
            BlockRefView::Height(height) => seq![0u8] + <u64 as Wire>::put(height),
            BlockRefView::Id(id) => seq![1u8] + <[u8; 32] as Wire>::put(id),
        }
    }

    open spec fn get(bytes: Seq<u8>) -> Option<(BlockRefView, Seq<u8>)> {
        if bytes.len() < 1 || bytes[0] > 1 {
            None
        } else if bytes[0] == 0 {
            match <u64 as Wire>::get(bytes.skip(1)) {
                None => None,
                Some((height, rest)) => Some((BlockRefView::Height(height), rest)),
            }
        } else {
            match <[u8; 32] as Wire>::get(bytes.skip(1)) {
                None => None,
                Some((id, rest)) => Some((BlockRefView::Id(id), rest)),
            }
        }
    }

    proof fn reads_back(value: BlockRefView, rest: Seq<u8>) {
        match value {
            BlockRefView::Height(height) => {
                assert((Self::put(value) + rest).skip(1) =~= <u64 as Wire>::put(height) + rest);
                <u64 as Wire>::reads_back(height, rest);
            },
            BlockRefView::Id(id) => {
                assert((Self::put(value) + rest).skip(1) =~= <[u8; 32] as Wire>::put(id) + rest);
                <[u8; 32] as Wire>::reads_back(id, rest);
            },
        }
    }

    proof fn leaves_the_end(bytes: Seq<u8>) {
        if bytes.len() >= 1 {
            <u64 as Wire>::leaves_the_end(bytes.skip(1));
            <[u8; 32] as Wire>::leaves_the_end(bytes.skip(1));
            if let Some((_, rest)) = Self::get(bytes) {
                assert(rest =~= bytes.skip(bytes.len() - rest.len()));
            }
        }
    }

    proof fn writes_back(bytes: Seq<u8>) {
        if bytes.len() >= 1 {
            <u64 as Wire>::writes_back(bytes.skip(1));
            <[u8; 32] as Wire>::writes_back(bytes.skip(1));
            assert(bytes =~= seq![bytes[0]] + bytes.skip(1));
            if let Some((value, rest)) = Self::get(bytes) {
                assert(bytes =~= Self::put(value) + rest);
            }
        }
    }

    fn write(&self, out: &mut Vec<u8>) {
        match self {
            BlockRef::Height(height) => {
                out.push(0);
                height.write(out);
            },
            BlockRef::Id(id) => {
                out.push(1);
                id.write(out);
            },
        }
        assert(out@ =~= old(out)@ + Self::put(self.deep_view()));
    }

    fn read(bytes: &[u8], at: usize) -> (value: Option<(Self, usize)>) {
        if at >= bytes.len() || bytes[at] > 1 {
            return None;
        }
        assert(bytes@.skip(at as int).skip(1) =~= bytes@.skip(at + 1));
        if bytes[at] == 0 {
            match u64::read(bytes, at + 1) {
                None => None,
                Some((height, next)) => Some((BlockRef::Height(height), next)),
            }
        } else {
            match <[u8; 32]>::read(bytes, at + 1) {
                None => None,
                Some((id, next)) => Some((BlockRef::Id(id), next)),
            }
        }
    }
}

// ---------- frames ----------
/// What a frame's signature is over, before the body: the namespace.
pub open spec fn frame_namespace() -> Seq<u8> {
    encode_utf8("ducktape:frame"@)
}

impl Body {
    /// What the signer signs under the frame namespace.
    pub fn preimage(&self) -> (bytes: Vec<u8>)
        requires
            <Body as Wire>::fits(self.deep_view()),
        ensures
            bytes@ == <Body as Wire>::put(self.deep_view()),
    {
        encode(self)
    }
}

impl Frame {
    /// A frame by the device key of `secret`.
    pub fn sign(secret: &[u8; 32], network: &[u8], seq: u64, target: &str, payload: Vec<u8>) -> (frame:
        Frame)
        requires
            network@.len() <= u32::MAX,
            encode_utf8(target@).len() <= u32::MAX,
            payload@.len() <= u32::MAX,
        ensures
            frame.body.scheme == KeyScheme::Ed25519,
            frame.body.signer@ == crate::outside::ed25519_public(secret@),
            frame.body.network@ == network@,
            frame.body.seq == seq,
            frame.body.target@ == target@,
            frame.body.payload == payload,
            <Body as Wire>::fits(frame.body.deep_view()),
            frame.proof@ == crate::outside::ed25519_signature(
                secret@,
                frame_namespace(),
                <Body as Wire>::put(frame.body.deep_view()),
            ),
            frame.proof@.len() == 64,
            <Frame as Wire>::fits(frame.deep_view()),
    {
        let body = Body {
            scheme: KeyScheme::Ed25519,
            signer: public_key(secret),
            network: bytes_of(network),
            seq,
            target: target.to_owned(),
            payload,
        };
        let signed = "ducktape:frame".as_bytes();
        proof {
            reveal_strlit("ducktape:frame");
            is_ascii_chars_encode_utf8("ducktape:frame"@);
            crate::backend::wire::bytes_are_their_own_view(body.signer);
            crate::backend::wire::bytes_are_their_own_view(body.network);
            crate::backend::wire::bytes_are_their_own_view(body.payload);
        }
        let proof_bytes = sign(secret, signed, body.preimage().as_slice());
        proof {
            crate::backend::wire::bytes_are_their_own_view(proof_bytes);
        }
        Frame { body, proof: proof_bytes }
    }

    /// The frame's bytes.
    pub fn encode(&self) -> (bytes: Vec<u8>)
        requires
            <Frame as Wire>::fits(self.deep_view()),
        ensures
            bytes@ == <Frame as Wire>::put(self.deep_view()),
    {
        encode(self)
    }

    /// The frame `bytes` are.
    pub fn decode(bytes: &[u8]) -> (frame: Option<Frame>)
        ensures
            match (frame, crate::backend::wire::decoded::<Frame>(bytes@)) {
                (Some(frame), Some(held)) => frame.deep_view() == held,
                (None, None) => true,
                _ => false,
            },
    {
        crate::backend::wire::decode::<Frame>(bytes)
    }
}

/// A frame that is encoded is the frame that is decoded.
pub proof fn a_frame_reads_back(frame: FrameView)
    requires
        <Frame as Wire>::fits(frame),
    ensures
        crate::backend::wire::decoded::<Frame>(<Frame as Wire>::put(frame)) == Some(frame),
{
    crate::backend::wire::what_is_encoded_is_decoded::<Frame>(frame);
}

// ---------- what a node answers ----------
/// Why something was refused: a token, and a sentence.
#[derive(Debug)]
pub struct Refusal {
    pub reason: String,
    pub sentence: String,
}

/// What went wrong with a request.
#[derive(Debug)]
pub enum Error {
    /// the node refused
    Refused(Refusal),
    /// the node failed or answered a status this client does not read
    Failed { status: u16, sentence: String },
    /// the transport did not answer
    Transport(String),
    /// the body did not decode as the type asked for
    Decode(Refusal),
}

/// An error in words.
pub open spec fn error_words(error: Error) -> Seq<char> {
    match error {
        Error::Refused(refusal) => refusal.reason@ + ": "@ + refusal.sentence@,
        Error::Decode(refusal) => refusal.reason@ + ": "@ + refusal.sentence@,
        Error::Failed { status, sentence } => "node answered "@ + crate::text::decimal(
            status as nat,
        ) + (": "@ + sentence@),
        Error::Transport(sentence) => sentence@,
    }
}

impl Error {
    /// The error in words.
    pub fn sentence(&self) -> (words: String)
        ensures
            words@ == error_words(*self),
    {
        match self {
            Error::Refused(refusal) => joined3(
                refusal.reason.as_str(),
                ": ",
                refusal.sentence.as_str(),
            ),
            Error::Decode(refusal) => joined3(
                refusal.reason.as_str(),
                ": ",
                refusal.sentence.as_str(),
            ),
            Error::Failed { status, sentence } => joined3(
                "node answered ",
                decimal_of(*status as u64).as_str(),
                joined(": ", sentence.as_str()).as_str(),
            ),
            Error::Transport(sentence) => sentence.clone(),
        }
    }
}

/// What `String::from_utf8_lossy` makes of some bytes.
pub uninterp spec fn lossy_text(bytes: Seq<u8>) -> Seq<char>;

/// `String::from_utf8_lossy`: the text of `bytes`, exactly where they are
/// UTF-8. Where they are not, what stands in for the stray bytes goes unsaid.
#[verifier::external_body]
fn lossy(bytes: &[u8]) -> (text: String)
    ensures
        text@ == lossy_text(bytes@),
        valid_utf8(bytes@) ==> encode_utf8(text@) == bytes@,
{
    String::from_utf8_lossy(bytes).into_owned()
}

/// The value in an answer with `status`, or why there is none: the node
/// refused, or failed, or answered bytes that are not what was asked for
/// (`garbled` says so).
pub fn answered<T: Wire>(status: u16, body: &[u8], garbled: Refusal) -> (answer: Result<T, Error>)
    ensures
        if status == 200 {
            match (answer, crate::backend::wire::decoded::<T>(body@)) {
                (Ok(value), Some(held)) => value.deep_view() == held,
                (Err(Error::Decode(said)), None) => said == garbled,
                _ => false,
            }
        } else if status == 400 {
            match (answer, crate::backend::wire::decoded::<Refusal>(body@)) {
                (Err(Error::Refused(refusal)), Some(held)) => refusal.deep_view() == held,
                (Err(Error::Decode(said)), None) => said == garbled,
                _ => false,
            }
        } else {
            answer matches Err(Error::Failed { status: code, sentence }) && code == status
                && sentence@ == lossy_text(body@)
        },
{
    if status == 200 {
        match decode::<T>(body) {
            Some(value) => Ok(value),
            None => Err(Error::Decode(garbled)),
        }
    } else if status == 400 {
        match decode::<Refusal>(body) {
            Some(refusal) => Err(Error::Refused(refusal)),
            None => Err(Error::Decode(garbled)),
        }
    } else {
        Err(Error::Failed { status, sentence: lossy(body) })
    }
}

/// A message of a node's stream of changes, as the socket hands it over.
#[derive(Debug)]
pub enum Streamed {
    Binary(Vec<u8>),
    /// A ping, a pong, a text, a close.
    Other,
    /// The socket failed.
    Lost(String),
}

/// What a message of a stream becomes: bytes are the value they encode, or are
/// not what was asked for (`garbled` says so); a socket's failure is passed
/// on; and any other message is none at all.
pub fn streamed<T: Wire>(message: Streamed, garbled: Refusal) -> (item: Option<Result<T, Error>>)
    ensures
        match message {
            Streamed::Binary(bytes) => match (item, crate::backend::wire::decoded::<T>(bytes@)) {
                (Some(Ok(value)), Some(held)) => value.deep_view() == held,
                (Some(Err(Error::Decode(said))), None) => said == garbled,
                _ => false,
            },
            Streamed::Other => item is None,
            Streamed::Lost(sentence) => item == Some(
                Err::<T, Error>(Error::Transport(sentence)),
            ),
        },
{
    match message {
        Streamed::Binary(bytes) => match decode::<T>(bytes.as_slice()) {
            Some(value) => Some(Ok(value)),
            None => Some(Err(Error::Decode(garbled))),
        },
        Streamed::Other => None,
        Streamed::Lost(sentence) => Some(Err(Error::Transport(sentence))),
    }
}

/// Where the first zero of `bytes` stands, from `at` on; their end where there
/// is none.
pub open spec fn first_zero(bytes: Seq<u8>, at: int) -> int
    decreases bytes.len() - at,
{
    if at >= bytes.len() {
        bytes.len() as int
    } else if bytes[at] == 0 {
        at
    } else {
        first_zero(bytes, at + 1)
    }
}

/// Unframes a blob the node handed over: `kind len\0body` is `body`, which
/// begins behind the first zero. `None` where there is no zero.
pub fn unframe(framed: &[u8]) -> (body: Option<&[u8]>)
    ensures
        match body {
            Some(body) => first_zero(framed@, 0) < framed@.len() && body@ == framed@.skip(
                first_zero(framed@, 0) + 1,
            ),
            None => first_zero(framed@, 0) == framed@.len(),
        },
{
    let mut at: usize = 0;
    while at < framed.len()
        invariant
            at <= framed@.len(),
            first_zero(framed@, 0) == first_zero(framed@, at as int),
        decreases framed@.len() - at,
    {
        if framed[at] == 0 {
            let body = vstd::slice::slice_subrange(framed, at + 1, framed.len());
            assert(body@ =~= framed@.skip(at + 1));
            return Some(body);
        }
        at += 1;
    }
    None
}

/// A header, a zero and a body unframe to the body, whatever it holds.
pub proof fn a_framed_body_unframes(header: Seq<u8>, body: Seq<u8>)
    requires
        forall|i: int| 0 <= i < header.len() ==> #[trigger] header[i] != 0,
    ensures
        ({
            let framed = header.push(0) + body;
            first_zero(framed, 0) == header.len() && framed.skip(header.len() as int + 1) == body
        }),
{
    let framed = header.push(0) + body;
    zero_is_at(framed, 0, header.len() as int);
    assert(framed.skip(header.len() as int + 1) =~= body);
}

proof fn zero_is_at(bytes: Seq<u8>, at: int, place: int)
    requires
        0 <= at <= place < bytes.len(),
        forall|i: int| at <= i < place ==> #[trigger] bytes[i] != 0,
        bytes[place] == 0,
    ensures
        first_zero(bytes, at) == place,
    decreases place - at,
{
    if at < place {
        zero_is_at(bytes, at + 1, place);
    }
}

// ---------- addresses ----------
/// `base` without the slashes it ends with.
pub open spec fn trimmed(base: Seq<char>) -> Seq<char>
    decreases base.len(),
{
    if base.len() > 0 && base.last() == '/' {
        trimmed(base.drop_last())
    } else {
        base
    }
}

/// Whether `word` stands in `text` at `at`.
pub open spec fn stands_at(text: Seq<char>, word: Seq<char>, at: int) -> bool {
    at + word.len() <= text.len() && text.subrange(at, at + word.len()) == word
}

/// `text` from `at` on, the first `word` in it replaced.
pub open spec fn replaced_once(
    text: Seq<char>,
    word: Seq<char>,
    by: Seq<char>,
    at: int,
) -> Seq<char>
    decreases text.len() - at,
{
    if at < 0 || at >= text.len() {
        text
    } else if stands_at(text, word, at) {
        text.take(at) + by + text.skip(at + word.len())
    } else {
        replaced_once(text, word, by, at + 1)
    }
}

/// A node's daemon, by its address.
#[derive(Debug)]
pub struct Client {
    pub base: String,
}

impl Client {
    /// The node at `base`, whatever slashes it ends with.
    pub fn new(base: &str) -> (client: Client)
        ensures
            client.base@ == trimmed(base@),
    {
        let mut chars = chars_of(base);
        while chars.len() > 0 && chars[chars.len() - 1] == '/'
            invariant
                trimmed(base@) == trimmed(chars@),
            decreases chars@.len(),
        {
            let ghost before = chars@;
            let _ = chars.pop();
            assert(chars@ =~= before.drop_last());
        }
        Client { base: text_of(chars.as_slice()) }
    }

    /// The node's address.
    pub fn endpoint(&self) -> (base: &str)
        ensures
            base@ == self.base@,
    {
        self.base.as_str()
    }

    /// Where the node answers `route`.
    pub fn url(&self, route: &str) -> (url: String)
        ensures
            url@ == self.base@ + route@,
    {
        joined(self.base.as_str(), route)
    }

    /// Where the node streams a program's changes: its address with the first
    /// "http" made "ws", so that "https" becomes "wss".
    pub fn changes_url(&self, program: &str) -> (url: String)
        ensures
            url@ == replaced_once(self.base@, "http"@, "ws"@, 0) + "/v1/changes"@ + ("/"@
                + program@),
    {
        let socket = socket_address(self.base.as_str());
        joined3(socket.as_str(), route::CHANGES, joined("/", program).as_str())
    }
}

fn socket_address(base: &str) -> (address: String)
    ensures
        address@ == replaced_once(base@, "http"@, "ws"@, 0),
{
    let chars = chars_of(base);
    let mut at: usize = 0;
    proof {
        reveal_strlit("http");
        reveal_strlit("ws");
    }
    while at < chars.len()
        invariant
            chars@ == base@,
            at <= chars@.len(),
            "http"@ =~= seq!['h', 't', 't', 'p'],
            "ws"@ =~= seq!['w', 's'],
            replaced_once(base@, "http"@, "ws"@, 0) == replaced_once(
                base@,
                "http"@,
                "ws"@,
                at as int,
            ),
        decreases chars@.len() - at,
    {
        let here = chars.len() - at >= 4 && chars[at] == 'h' && chars[at + 1] == 't' && chars[at + 2]
            == 't' && chars[at + 3] == 'p';
        proof {
            if here {
                assert(base@.subrange(at as int, at + 4) =~= "http"@);
            } else if stands_at(base@, "http"@, at as int) {
                assert(base@.subrange(at as int, at + 4)[0] == 'h');
                assert(base@.subrange(at as int, at + 4)[1] == 't');
                assert(base@.subrange(at as int, at + 4)[2] == 't');
                assert(base@.subrange(at as int, at + 4)[3] == 'p');
            }
        }
        if here {
            let mut made: Vec<char> = Vec::new();
            let mut copied: usize = 0;
            while copied < at
                invariant
                    chars@ == base@,
                    copied <= at < chars@.len(),
                    made@ == base@.take(copied as int),
                decreases at - copied,
            {
                made.push(chars[copied]);
                copied += 1;
            }
            made.push('w');
            made.push('s');
            copied = at + 4;
            assert(made@ =~= base@.take(at as int) + "ws"@ + base@.subrange(at + 4, at + 4));
            while copied < chars.len()
                invariant
                    chars@ == base@,
                    at + 4 <= copied <= chars@.len(),
                    made@ == base@.take(at as int) + "ws"@ + base@.subrange(
                        at + 4,
                        copied as int,
                    ),
                decreases chars@.len() - copied,
            {
                made.push(chars[copied]);
                assert(made@ =~= base@.take(at as int) + "ws"@ + base@.subrange(at + 4, copied + 1));
                copied += 1;
            }
            assert(base@.subrange(at + 4, base@.len() as int) =~= base@.skip(at + 4));
            return text_of(made.as_slice());
        }
        at += 1;
    }
    base.to_owned()
}

// ---------- what these come to ----------
/// What went wrong, in words: the node's reason and its sentence where it
/// refused, its status where it failed, and the transport's own words.
pub proof fn an_error_says_what_went_wrong(error: &Error, words: String)
    requires
        call_ensures(Error::sentence, (error,), words),
    ensures
        error matches Error::Refused(refusal) ==> words@ == refusal.reason@ + ": "@
            + refusal.sentence@,
        error matches Error::Decode(refusal) ==> words@ == refusal.reason@ + ": "@
            + refusal.sentence@,
        error matches Error::Transport(sentence) ==> words@ == sentence@,
        error matches Error::Failed { status, sentence } ==> words@ == "node answered "@
            + crate::text::decimal(status as nat) + ": "@ + sentence@,
{
    if let Error::Failed { status, sentence } = error {
        let head = "node answered "@ + crate::text::decimal(*status as nat);
        assert(head + (": "@ + sentence@) =~= head + ": "@ + sentence@);
    }
}

/// Only a 200 answers, and only with bytes that are the value's; a 400 is what
/// the node refused with, as it said it; bytes that are neither are garbled;
/// and any other status failed.
pub proof fn only_success_answers<T: Wire>(
    status: u16,
    body: &[u8],
    garbled: Refusal,
    answer: Result<T, Error>,
    value: T::V,
    refusal: <Refusal as DeepView>::V,
)
    requires
        call_ensures(answered::<T>, (status, body, garbled), answer),
        T::fits(value),
        <Refusal as Wire>::fits(refusal),
    ensures
        status == 200 && body@ == T::put(value) ==> (answer matches Ok(held) && held.deep_view()
            == value),
        status == 400 && body@ == <Refusal as Wire>::put(refusal) ==> (answer matches Err(
            Error::Refused(said),
        ) && said.deep_view() == refusal),
        answer is Ok ==> status == 200,
        answer matches Err(Error::Refused(_)) ==> status == 400,
        answer matches Err(Error::Decode(said)) ==> said == garbled && (status == 200 || status
            == 400),
        answer matches Err(Error::Failed { status: code, sentence }) ==> code == status && status
            != 200 && status != 400 && sentence@ == lossy_text(body@),
        status != 200 && status != 400 ==> (answer matches Err(error) && error is Failed),
        !(answer matches Err(Error::Transport(_))),
{
    crate::backend::wire::what_is_encoded_is_decoded::<T>(value);
    crate::backend::wire::what_is_encoded_is_decoded::<Refusal>(refusal);
}

/// Of a stream, bytes are the value they are of; a socket's failure is passed
/// on; and nothing else is a change.
pub proof fn a_stream_passes_on_its_values<T: Wire>(
    message: Streamed,
    garbled: Refusal,
    item: Option<Result<T, Error>>,
    value: T::V,
)
    requires
        call_ensures(streamed::<T>, (message, garbled), item),
        T::fits(value),
    ensures
        item is None <==> message is Other,
        message matches Streamed::Lost(said) ==> (item matches Some(Err(Error::Transport(words)))
            && words == said),
        message matches Streamed::Binary(bytes) ==> bytes@ == T::put(value) ==> (item matches Some(
            Ok(held),
        ) && held.deep_view() == value),
        item matches Some(Ok(_)) ==> message is Binary,
        item matches Some(Err(error)) ==> (error is Transport <==> message is Lost) && (
        error matches Error::Decode(said) ==> said == garbled && message is Binary),
{
    crate::backend::wire::what_is_encoded_is_decoded::<T>(value);
}

/// What unframes is what stands behind the first zero; without a zero nothing
/// does.
pub proof fn a_blob_unframes_behind_its_first_zero(
    framed: &[u8],
    body: Option<&[u8]>,
    header: Seq<u8>,
    rest: Seq<u8>,
)
    requires
        call_ensures(unframe, (framed,), body),
        forall|i: int| 0 <= i < header.len() ==> #[trigger] header[i] != 0,
    ensures
        framed@ == header.push(0) + rest ==> (body matches Some(body) && body@ == rest),
        framed@ == header ==> body is None,
{
    a_framed_body_unframes(header, rest);
    if framed@ == header {
        no_zero(header, 0);
    }
}

proof fn no_zero(bytes: Seq<u8>, at: int)
    requires
        0 <= at <= bytes.len(),
        forall|i: int| at <= i < bytes.len() ==> #[trigger] bytes[i] != 0,
    ensures
        first_zero(bytes, at) == bytes.len(),
    decreases bytes.len() - at,
{
    if at < bytes.len() {
        no_zero(bytes, at + 1);
    }
}

proof fn slashes_trimmed(base: Seq<char>)
    ensures
        trimmed(base).len() <= base.len(),
        trimmed(base) == base.take(trimmed(base).len() as int),
        trimmed(base).len() > 0 ==> trimmed(base).last() != '/',
        forall|i: int| trimmed(base).len() <= i < base.len() ==> #[trigger] base[i] == '/',
    decreases base.len(),
{
    if base.len() > 0 && base.last() == '/' {
        let shorter = base.drop_last();
        slashes_trimmed(shorter);
        assert(shorter.take(trimmed(base).len() as int) =~= base.take(trimmed(base).len() as int));
        assert forall|i: int| trimmed(base).len() <= i < base.len() implies #[trigger] base[i]
            == '/' by {
            if i < shorter.len() {
                assert(shorter[i] == base[i]);
            }
        }
    } else {
        assert(base.take(base.len() as int) =~= base);
    }
}

/// A node's address is what it was given but for the slashes at its end, which
/// are all gone; and where it answers is that and the route.
pub proof fn an_address_ends_without_a_slash(
    base: &str,
    client: Client,
    held: &str,
    route: &str,
    url: String,
)
    requires
        call_ensures(Client::new, (base,), client),
        call_ensures(Client::endpoint, (&client,), held),
        call_ensures(Client::url, (&client, route), url),
    ensures
        held@ == client.base@,
        client.base@ == base@.take(client.base@.len() as int),
        client.base@.len() > 0 ==> client.base@.last() != '/',
        forall|i: int| client.base@.len() <= i < base@.len() ==> #[trigger] base@[i] == '/',
        url@.take(client.base@.len() as int) == client.base@,
        url@.skip(client.base@.len() as int) == route@,
{
    slashes_trimmed(base@);
    assert(url@.take(client.base@.len() as int) =~= client.base@);
    assert(url@.skip(client.base@.len() as int) =~= route@);
}

proof fn replaced_where_it_stands(
    text: Seq<char>,
    word: Seq<char>,
    by: Seq<char>,
    at: int,
    place: int,
)
    requires
        0 <= at <= place <= text.len(),
        word.len() > 0,
        forall|i: int| at <= i < place ==> !#[trigger] stands_at(text, word, i),
        place < text.len() ==> stands_at(text, word, place),
    ensures
        place < text.len() ==> replaced_once(text, word, by, at) == text.take(place) + by
            + text.skip(place + word.len()),
        place == text.len() ==> replaced_once(text, word, by, at) == text,
    decreases place - at,
{
    if at < place {
        assert(!stands_at(text, word, at));
        replaced_where_it_stands(text, word, by, at + 1, place);
    }
}

/// A node's changes stream from the same address with `ws` for `http`: what is
/// behind it stays, so a secure address stays secure; then the route and the
/// program.
pub proof fn changes_stream_from_the_same_address(
    client: &Client,
    program: &str,
    url: String,
    rest: Seq<char>,
)
    requires
        call_ensures(Client::changes_url, (client, program), url),
        client.base@ == "http"@ + rest,
    ensures
        url@ == "ws"@ + rest + "/v1/changes/"@ + program@,
{
    reveal_strlit("http");
    reveal_strlit("ws");
    reveal_strlit("/v1/changes");
    reveal_strlit("/v1/changes/");
    reveal_strlit("/");
    let base = client.base@;
    assert(base.subrange(0, 4) =~= "http"@);
    assert(stands_at(base, "http"@, 0));
    replaced_where_it_stands(base, "http"@, "ws"@, 0, 0);
    assert(base.take(0) + "ws"@ + base.skip(4) =~= "ws"@ + rest);
    assert("ws"@ + rest + "/v1/changes"@ + ("/"@ + program@) =~= "ws"@ + rest + "/v1/changes/"@
        + program@);
}

/// Only the first `http` of an address is replaced, and an address without one
/// is left as it is.
pub proof fn only_the_first_scheme_is_replaced(
    before: Seq<char>,
    after: Seq<char>,
    client: &Client,
    program: &str,
    url: String,
)
    requires
        call_ensures(Client::changes_url, (client, program), url),
        client.base@ == before + "http"@ + after || client.base@ == before,
        forall|i: int|
            0 <= i < before.len() ==> !#[trigger] stands_at(client.base@, "http"@, i),
    ensures
        client.base@ == before + "http"@ + after ==> url@ == before + "ws"@ + after + "/v1/changes"@
            + ("/"@ + program@),
        client.base@ == before ==> url@ == before + "/v1/changes"@ + ("/"@ + program@),
{
    reveal_strlit("http");
    let base = client.base@;
    let place = before.len() as int;
    if base == before + "http"@ + after {
        assert(base.subrange(place, place + 4) =~= "http"@);
        replaced_where_it_stands(base, "http"@, "ws"@, 0, place);
        assert(base.take(place) =~= before);
        assert(base.skip(place + 4) =~= after);
    } else {
        replaced_where_it_stands(base, "http"@, "ws"@, 0, place);
    }
}

// ---------- what goes over the wire ----------
/// The confirmed state is 0 and the preconfirmed 1; a device key is 0 and a
/// passkey 1; and 32 bytes are themselves.
pub proof fn choices_have_their_numbers(digest: Seq<u8>)
    ensures
        <Layer as Wire>::put(Layer::Confirmed) == seq![0u8],
        <Layer as Wire>::put(Layer::Preconfirmed) == seq![1u8],
        <KeyScheme as Wire>::put(KeyScheme::Ed25519) == seq![0u8],
        <KeyScheme as Wire>::put(KeyScheme::Secp256r1) == seq![1u8],
        <[u8; 32] as Wire>::put(digest) == digest,
{
}

/// What a signer signs: its scheme, its key, the network, which of its frames
/// this is, whom it is for and what it says, in that order; and a frame is that
/// and then the proof.
pub proof fn a_frame_is_its_fields_in_order(frame: FrameView)
    ensures
        ({
            let body = frame.body;
            let bytes = <Body as Wire>::put(body);
            &&& bytes == <KeyScheme as Wire>::put(body.scheme) + crate::backend::wire::counted(
                body.signer,
            ) + crate::backend::wire::counted(body.network) + crate::backend::wire::eight(
                body.seq as nat,
            ) + crate::backend::wire::counted(encode_utf8(body.target))
                + crate::backend::wire::counted(body.payload)
            &&& <Frame as Wire>::put(frame) == bytes + crate::backend::wire::counted(frame.proof)
        }),
{
    let body = frame.body;
    crate::backend::wire::bytes_go_behind_their_length(body.signer, body.target);
    crate::backend::wire::bytes_go_behind_their_length(body.network, body.target);
    crate::backend::wire::bytes_go_behind_their_length(body.payload, body.target);
    crate::backend::wire::bytes_go_behind_their_length(frame.proof, body.target);
    crate::backend::wire::numbers_go_lowest_byte_first(0, 0, body.seq);
    let scheme = <KeyScheme as Wire>::put(body.scheme);
    let signer = crate::backend::wire::counted(body.signer);
    let network = crate::backend::wire::counted(body.network);
    let nth = crate::backend::wire::eight(body.seq as nat);
    let target = crate::backend::wire::counted(encode_utf8(body.target));
    let payload = crate::backend::wire::counted(body.payload);
    assert(scheme + (signer + (network + (nth + (target + payload)))) =~= scheme + signer + network
        + nth + target + payload);
}

/// A question is the state it is asked of and the frame; a read the state, the
/// program and the key; a page of blocks the height it ends before, if any, and
/// how many; and a block is asked for by 0 and its height or by 1 and its id.
pub proof fn a_question_is_its_fields_in_order(
    query: QueryView,
    get: GetView,
    blocks: BlocksView,
    height: u64,
    id: Seq<u8>,
)
    ensures
        <Query as Wire>::put(query) == <Layer as Wire>::put(query.layer)
            + crate::backend::wire::counted(query.frame),
        <Get as Wire>::put(get) == <Layer as Wire>::put(get.layer) + crate::backend::wire::counted(
            encode_utf8(get.program),
        ) + crate::backend::wire::counted(get.key),
        blocks.before is None ==> <Blocks as Wire>::put(blocks) == seq![0u8]
            + crate::backend::wire::four(blocks.limit as nat),
        blocks.before matches Some(before) ==> <Blocks as Wire>::put(blocks) == seq![1u8]
            + crate::backend::wire::eight(before as nat) + crate::backend::wire::four(
            blocks.limit as nat,
        ),
        <BlockRef as Wire>::put(BlockRefView::Height(height)) == seq![0u8]
            + crate::backend::wire::eight(height as nat),
        <BlockRef as Wire>::put(BlockRefView::Id(id)) == seq![1u8] + id,
{
    crate::backend::wire::bytes_go_behind_their_length(query.frame, get.program);
    crate::backend::wire::bytes_go_behind_their_length(get.key, get.program);
    crate::backend::wire::numbers_go_lowest_byte_first(0, blocks.limit, height);
    if let Some(before) = blocks.before {
        crate::backend::wire::numbers_go_lowest_byte_first(0, blocks.limit, before);
    }
    let layer = <Layer as Wire>::put(get.layer);
    let program = crate::backend::wire::counted(encode_utf8(get.program));
    let key = crate::backend::wire::counted(get.key);
    assert(layer + (program + key) =~= layer + program + key);
}

/// An applied frame is its hash, its signer, which of the signer's it is, whom
/// it was for and what it said; a block its height, its id, its parent's, when
/// it was made, its epoch, who proposed it, and the frames applied in it.
pub proof fn a_block_is_its_fields_in_order(tx: TxView, block: FinalizedView)
    ensures
        <Tx as Wire>::put(tx) == tx.hash + crate::backend::wire::counted(tx.signer)
            + crate::backend::wire::eight(tx.seq as nat) + crate::backend::wire::counted(
            encode_utf8(tx.target),
        ) + crate::backend::wire::counted(tx.payload),
        <Finalized as Wire>::put(block) == crate::backend::wire::eight(block.height as nat)
            + block.id + block.parent + crate::backend::wire::eight(block.time as nat)
            + crate::backend::wire::eight(block.epoch as nat) + (match block.proposer {
            None => seq![0u8],
            Some(proposer) => seq![1u8] + crate::backend::wire::counted(proposer),
        }) + <Vec<Tx> as Wire>::put(block.txs),
{
    crate::backend::wire::bytes_go_behind_their_length(tx.signer, tx.target);
    crate::backend::wire::bytes_go_behind_their_length(tx.payload, tx.target);
    crate::backend::wire::numbers_go_lowest_byte_first(0, 0, tx.seq);
    crate::backend::wire::numbers_go_lowest_byte_first(0, 0, block.height);
    crate::backend::wire::numbers_go_lowest_byte_first(0, 0, block.time);
    crate::backend::wire::numbers_go_lowest_byte_first(0, 0, block.epoch);
    if let Some(proposer) = block.proposer {
        crate::backend::wire::bytes_go_behind_their_length(proposer, tx.target);
    }
    let signer = crate::backend::wire::counted(tx.signer);
    let nth = crate::backend::wire::eight(tx.seq as nat);
    let target = crate::backend::wire::counted(encode_utf8(tx.target));
    let payload = crate::backend::wire::counted(tx.payload);
    assert(tx.hash + (signer + (nth + (target + payload))) =~= tx.hash + signer + nth + target
        + payload);
    let height = crate::backend::wire::eight(block.height as nat);
    let time = crate::backend::wire::eight(block.time as nat);
    let epoch = crate::backend::wire::eight(block.epoch as nat);
    let proposer = <Option<Vec<u8>> as Wire>::put(block.proposer);
    let txs = <Vec<Tx> as Wire>::put(block.txs);
    assert(height + (block.id + (block.parent + (time + (epoch + (proposer + txs))))) =~= height
        + block.id + block.parent + time + epoch + proposer + txs);
}

/// A device's frame names the device's key and says just what it was asked to,
/// and its proof is that key's over the body it carries, so that no other body
/// can be put under it unseen.
pub proof fn a_device_signs_what_it_sends(
    secret: &[u8; 32],
    network: &[u8],
    seq: u64,
    target: &str,
    payload: Vec<u8>,
    frame: Frame,
)
    requires
        call_ensures(Frame::sign, (secret, network, seq, target, payload), frame),
    ensures
        frame.body.scheme is Ed25519,
        frame.body.signer@ == crate::outside::ed25519_public(secret@),
        frame.body.network@ == network@,
        frame.body.seq == seq,
        frame.body.target@ == target@,
        frame.body.payload@ == payload@,
        frame.proof@ == crate::outside::ed25519_signature(
            secret@,
            encode_utf8("ducktape:frame"@),
            seq![0u8] + crate::backend::wire::counted(frame.body.signer@)
                + crate::backend::wire::counted(network@) + crate::backend::wire::eight(seq as nat)
                + crate::backend::wire::counted(encode_utf8(target@))
                + crate::backend::wire::counted(payload@),
        ),
{
    a_frame_is_its_fields_in_order(frame.deep_view());
    crate::backend::wire::bytes_are_their_own_view(frame.body.signer);
    crate::backend::wire::bytes_are_their_own_view(frame.body.network);
    crate::backend::wire::bytes_are_their_own_view(frame.body.payload);
}

/// Bytes are a frame exactly where they are all of its bytes.
pub proof fn bytes_are_one_frame(bytes: &[u8], frame: Option<Frame>, other: FrameView)
    requires
        call_ensures(Frame::decode, (bytes,), frame),
    ensures
        frame matches Some(frame) ==> bytes@ == <Frame as Wire>::put(frame.deep_view()),
        <Frame as Wire>::fits(other) && bytes@ == <Frame as Wire>::put(other) ==> (
        frame matches Some(frame) && frame.deep_view() == other),
{
    crate::backend::wire::what_is_decoded_was_encoded::<Frame>(bytes@, other);
    if let Some(frame) = frame {
        crate::backend::wire::what_is_decoded_was_encoded::<Frame>(bytes@, frame.deep_view());
    }
}

} // verus!
