//! Values as bytes, the way a node reads and writes them: fields one after
//! another, integers with the low byte first, a sequence behind its length, a
//! choice behind its number.

use vstd::prelude::*;
use vstd::utf8::*;

use crate::text::string_of_utf8;

verus! {

// ---------- integers ----------
/// The `k` low bytes of `n`, the lowest first.
pub open spec fn le(n: nat, k: nat) -> Seq<u8>
    decreases k,
{
    if k == 0 {
        Seq::empty()
    } else {
        seq![(n % 256) as u8] + le(n / 256, (k - 1) as nat)
    }
}

/// The number whose bytes are `bytes`, the lowest first.
pub open spec fn of_le(bytes: Seq<u8>) -> nat
    decreases bytes.len(),
{
    if bytes.len() == 0 {
        0
    } else {
        bytes[0] as nat + 256 * of_le(bytes.drop_first())
    }
}

/// How many numbers `k` bytes hold.
pub open spec fn pow256(k: nat) -> nat
    decreases k,
{
    if k == 0 {
        1
    } else {
        256 * pow256((k - 1) as nat)
    }
}

/// A number that fits in `k` bytes reads back from them.
pub proof fn le_reads_back(n: nat, k: nat)
    requires
        n < pow256(k),
    ensures
        le(n, k).len() == k,
        of_le(le(n, k)) == n,
    decreases k,
{
    if k > 0 {
        assert(n / 256 < pow256((k - 1) as nat)) by (nonlinear_arith)
            requires
                n < 256 * pow256((k - 1) as nat),
        ;
        le_reads_back(n / 256, (k - 1) as nat);
        assert(le(n, k).drop_first() =~= le(n / 256, (k - 1) as nat));
    }
}

proof fn le_length(n: nat, k: nat)
    ensures
        le(n, k).len() == k,
    decreases k,
{
    if k > 0 {
        le_length(n / 256, (k - 1) as nat);
    }
}

proof fn of_le_bounded(bytes: Seq<u8>)
    ensures
        of_le(bytes) < pow256(bytes.len()),
    decreases bytes.len(),
{
    if bytes.len() > 0 {
        of_le_bounded(bytes.drop_first());
    }
}

proof fn of_le_writes_back(bytes: Seq<u8>)
    ensures
        le(of_le(bytes), bytes.len()) == bytes,
    decreases bytes.len(),
{
    if bytes.len() > 0 {
        let rest = bytes.drop_first();
        of_le_writes_back(rest);
        let n = of_le(bytes);
        assert(n == bytes[0] as nat + 256 * of_le(rest));
        assert(n % 256 == bytes[0] as nat);
        assert(n / 256 == of_le(rest));
        assert(seq![bytes[0]] + rest =~= bytes);
    } else {
        assert(le(of_le(bytes), 0) =~= bytes);
    }
}

proof fn byte_counts()
    ensures
        pow256(4) == 0x1_0000_0000,
        pow256(8) == 0x1_0000_0000_0000_0000,
{
    reveal_with_fuel(pow256, 9);
}

/// Puts the `k` low bytes of `n` on the end of `out`.
pub fn push_le(out: &mut Vec<u8>, n: u64, k: usize)
    ensures
        final(out)@ == old(out)@ + le(n as nat, k as nat),
{
    let mut rest: u64 = n;
    let mut left: usize = k;
    while left > 0
        invariant
            left <= k,
            out@ + le(rest as nat, left as nat) == old(out)@ + le(n as nat, k as nat),
        decreases left,
    {
        let ghost before = out@;
        out.push((rest % 256) as u8);
        assert(before + (seq![(rest % 256) as u8] + le(rest as nat / 256, (left - 1) as nat))
            =~= out@ + le(rest as nat / 256, (left - 1) as nat));
        rest = rest / 256;
        left -= 1;
    }
    assert(out@ + Seq::<u8>::empty() =~= out@);
}

/// The number in the `k` bytes of `bytes` from `at` on.
fn take_le(bytes: &[u8], at: usize, k: usize) -> (n: u64)
    requires
        at + k <= bytes@.len(),
        k <= 8,
    ensures
        n == of_le(bytes@.subrange(at as int, at + k)),
{
    let mut n: u64 = 0;
    let mut left: usize = k;
    proof {
        byte_counts();
        assert(bytes@.subrange(at + k, at + k) =~= Seq::<u8>::empty());
    }
    while left > 0
        invariant
            left <= k,
            k <= 8,
            at + k <= bytes.len(),
            n == of_le(bytes@.subrange(at + left, at + k)),
            pow256(8) == 0x1_0000_0000_0000_0000,
        decreases left,
    {
        let ghost part = bytes@.subrange(at + left - 1, at + k);
        assert(part.drop_first() =~= bytes@.subrange(at + left, at + k));
        proof {
            of_le_bounded(part);
            pow_grows(part.len(), 8);
        }
        n = bytes[at + left - 1] as u64 + 256 * n;
        left -= 1;
    }
    n
}

/// The number in the eight bytes of `bytes` from `at` on.
pub fn u64_at(bytes: &[u8], at: usize) -> (n: u64)
    requires
        at + 8 <= bytes@.len(),
    ensures
        n == of_le(bytes@.subrange(at as int, at + 8)),
{
    take_le(bytes, at, 8)
}

/// A number's eight bytes are eight, and read back as it.
pub proof fn u64_bytes(n: u64)
    ensures
        le(n as nat, 8).len() == 8,
        of_le(le(n as nat, 8)) == n,
{
    byte_counts();
    le_reads_back(n as nat, 8);
}

proof fn pow_grows(a: nat, b: nat)
    requires
        a <= b,
    ensures
        pow256(a) <= pow256(b),
    decreases b,
{
    if a < b {
        pow_grows(a, (b - 1) as nat);
    }
}

// ---------- values ----------
/// A value with bytes of its own. `get` takes one off the front, and leaves
/// what follows it.
pub trait Wire: DeepView + Sized {
    /// Whether the value's bytes can say it.
    spec fn fits(value: Self::V) -> bool;

    /// The value's bytes.
    spec fn put(value: Self::V) -> Seq<u8>;

    /// The value at the front of `bytes`, and what follows it.
    spec fn get(bytes: Seq<u8>) -> Option<(Self::V, Seq<u8>)>;

    /// A value reads back from its bytes, whatever follows them.
    proof fn reads_back(value: Self::V, rest: Seq<u8>)
        requires
            Self::fits(value),
        ensures
            Self::get(Self::put(value) + rest) == Some((value, rest)),
    ;

    /// What follows a value is the end of what it was read from.
    proof fn leaves_the_end(bytes: Seq<u8>)
        ensures
            Self::get(bytes) matches Some((_, rest)) ==> rest.len() <= bytes.len() && rest
                == bytes.skip(bytes.len() - rest.len()),
    ;

    /// Whatever reads as a value is its bytes, and then what follows them.
    proof fn writes_back(bytes: Seq<u8>)
        ensures
            Self::get(bytes) matches Some((value, rest)) ==> Self::fits(value) && bytes
                == Self::put(value) + rest,
    ;

    /// Puts the value's bytes on the end of `out`.
    fn write(&self, out: &mut Vec<u8>)
        requires
            Self::fits(self.deep_view()),
        ensures
            final(out)@ == old(out)@ + Self::put(self.deep_view()),
    ;

    /// The value that begins at `at`, and where it ends.
    fn read(bytes: &[u8], at: usize) -> (value: Option<(Self, usize)>)
        requires
            at <= bytes@.len(),
        ensures
            match (value, Self::get(bytes@.skip(at as int))) {
                (Some((value, next)), Some((held, rest))) => value.deep_view() == held && at <= next
                    <= bytes@.len() && bytes@.skip(next as int) == rest,
                (None, None) => true,
                _ => false,
            },
    ;
}

/// The bytes of `value`.
pub fn encode<T: Wire>(value: &T) -> (bytes: Vec<u8>)
    requires
        T::fits(value.deep_view()),
    ensures
        bytes@ == T::put(value.deep_view()),
{
    let mut bytes: Vec<u8> = Vec::new();
    value.write(&mut bytes);
    assert(bytes@ =~= T::put(value.deep_view()));
    bytes
}

/// The value `bytes` are, with nothing left over.
pub open spec fn decoded<T: Wire>(bytes: Seq<u8>) -> Option<T::V> {
    match T::get(bytes) {
        Some((value, rest)) => if rest.len() == 0 {
            Some(value)
        } else {
            None
        },
        None => None,
    }
}

/// The value `bytes` are; `None` where they are not one, or are one and more.
pub fn decode<T: Wire>(bytes: &[u8]) -> (value: Option<T>)
    ensures
        match (value, decoded::<T>(bytes@)) {
            (Some(value), Some(held)) => value.deep_view() == held,
            (None, None) => true,
            _ => false,
        },
{
    assert(bytes@.skip(0) =~= bytes@);
    match T::read(bytes, 0) {
        Some((value, next)) => if next == bytes.len() {
            Some(value)
        } else {
            None
        },
        None => None,
    }
}

/// What is encoded is what is decoded.
pub proof fn what_is_encoded_is_decoded<T: Wire>(value: T::V)
    requires
        T::fits(value),
    ensures
        decoded::<T>(T::put(value)) == Some(value),
{
    T::reads_back(value, Seq::empty());
    assert(T::put(value) + Seq::<u8>::empty() =~= T::put(value));
}

impl Wire for u8 {
    open spec fn fits(value: u8) -> bool {
        true
    }

    open spec fn put(value: u8) -> Seq<u8> {
        seq![value]
    }

    open spec fn get(bytes: Seq<u8>) -> Option<(u8, Seq<u8>)> {
        if bytes.len() < 1 {
            None
        } else {
            Some((bytes[0], bytes.skip(1)))
        }
    }

    proof fn reads_back(value: u8, rest: Seq<u8>) {
        assert((seq![value] + rest).skip(1) =~= rest);
    }

    proof fn leaves_the_end(bytes: Seq<u8>) {
    }

    proof fn writes_back(bytes: Seq<u8>) {
        if bytes.len() >= 1 {
            assert(bytes =~= seq![bytes[0]] + bytes.skip(1));
        }
    }

    fn write(&self, out: &mut Vec<u8>) {
        out.push(*self);
        assert(out@ =~= old(out)@ + seq![*self]);
    }

    fn read(bytes: &[u8], at: usize) -> (value: Option<(Self, usize)>) {
        if at < bytes.len() {
            assert(bytes@.skip(at as int).skip(1) =~= bytes@.skip(at + 1));
            Some((bytes[at], at + 1))
        } else {
            None
        }
    }
}

impl Wire for u32 {
    open spec fn fits(value: u32) -> bool {
        true
    }

    open spec fn put(value: u32) -> Seq<u8> {
        le(value as nat, 4)
    }

    open spec fn get(bytes: Seq<u8>) -> Option<(u32, Seq<u8>)> {
        if bytes.len() < 4 {
            None
        } else {
            Some((of_le(bytes.take(4)) as u32, bytes.skip(4)))
        }
    }

    proof fn reads_back(value: u32, rest: Seq<u8>) {
        byte_counts();
        le_reads_back(value as nat, 4);
        assert((le(value as nat, 4) + rest).take(4) =~= le(value as nat, 4));
        assert((le(value as nat, 4) + rest).skip(4) =~= rest);
    }

    proof fn leaves_the_end(bytes: Seq<u8>) {
    }

    proof fn writes_back(bytes: Seq<u8>) {
        if bytes.len() >= 4 {
            byte_counts();
            of_le_bounded(bytes.take(4));
            of_le_writes_back(bytes.take(4));
            assert(bytes =~= bytes.take(4) + bytes.skip(4));
        }
    }

    fn write(&self, out: &mut Vec<u8>) {
        push_le(out, *self as u64, 4);
    }

    fn read(bytes: &[u8], at: usize) -> (value: Option<(Self, usize)>) {
        if bytes.len() - at < 4 {
            return None;
        }
        let n: u64 = take_le(bytes, at, 4);
        proof {
            byte_counts();
            of_le_bounded(bytes@.subrange(at as int, at + 4));
            assert(bytes@.skip(at as int).take(4) =~= bytes@.subrange(at as int, at + 4));
            assert(bytes@.skip(at as int).skip(4) =~= bytes@.skip(at + 4));
        }
        Some((n as u32, at + 4))
    }
}

impl Wire for u64 {
    open spec fn fits(value: u64) -> bool {
        true
    }

    open spec fn put(value: u64) -> Seq<u8> {
        le(value as nat, 8)
    }

    open spec fn get(bytes: Seq<u8>) -> Option<(u64, Seq<u8>)> {
        if bytes.len() < 8 {
            None
        } else {
            Some((of_le(bytes.take(8)) as u64, bytes.skip(8)))
        }
    }

    proof fn reads_back(value: u64, rest: Seq<u8>) {
        byte_counts();
        le_reads_back(value as nat, 8);
        assert((le(value as nat, 8) + rest).take(8) =~= le(value as nat, 8));
        assert((le(value as nat, 8) + rest).skip(8) =~= rest);
    }

    proof fn leaves_the_end(bytes: Seq<u8>) {
    }

    proof fn writes_back(bytes: Seq<u8>) {
        if bytes.len() >= 8 {
            byte_counts();
            of_le_bounded(bytes.take(8));
            of_le_writes_back(bytes.take(8));
            assert(bytes =~= bytes.take(8) + bytes.skip(8));
        }
    }

    fn write(&self, out: &mut Vec<u8>) {
        push_le(out, *self, 8);
    }

    fn read(bytes: &[u8], at: usize) -> (value: Option<(Self, usize)>) {
        if bytes.len() - at < 8 {
            return None;
        }
        let n: u64 = take_le(bytes, at, 8);
        proof {
            byte_counts();
            of_le_bounded(bytes@.subrange(at as int, at + 8));
            assert(bytes@.skip(at as int).take(8) =~= bytes@.subrange(at as int, at + 8));
            assert(bytes@.skip(at as int).skip(8) =~= bytes@.skip(at + 8));
        }
        Some((n, at + 8))
    }
}

impl<A: Wire, B: Wire> Wire for (A, B) {
    open spec fn fits(value: (A::V, B::V)) -> bool {
        A::fits(value.0) && B::fits(value.1)
    }

    open spec fn put(value: (A::V, B::V)) -> Seq<u8> {
        A::put(value.0) + B::put(value.1)
    }

    open spec fn get(bytes: Seq<u8>) -> Option<((A::V, B::V), Seq<u8>)> {
        match A::get(bytes) {
            None => None,
            Some((first, middle)) => match B::get(middle) {
                None => None,
                Some((second, rest)) => Some(((first, second), rest)),
            },
        }
    }

    proof fn reads_back(value: (A::V, B::V), rest: Seq<u8>) {
        assert(A::put(value.0) + B::put(value.1) + rest =~= A::put(value.0) + (B::put(value.1)
            + rest));
        A::reads_back(value.0, B::put(value.1) + rest);
        B::reads_back(value.1, rest);
    }

    proof fn leaves_the_end(bytes: Seq<u8>) {
        A::leaves_the_end(bytes);
        if let Some((_, middle)) = A::get(bytes) {
            B::leaves_the_end(middle);
            if let Some((_, rest)) = B::get(middle) {
                assert(middle.skip(middle.len() - rest.len()) =~= bytes.skip(
                    bytes.len() - rest.len(),
                ));
            }
        }
    }

    proof fn writes_back(bytes: Seq<u8>) {
        A::writes_back(bytes);
        if let Some((first, middle)) = A::get(bytes) {
            B::writes_back(middle);
            if let Some((second, rest)) = B::get(middle) {
                assert(A::put(first) + (B::put(second) + rest) =~= A::put(first) + B::put(second)
                    + rest);
            }
        }
    }

    fn write(&self, out: &mut Vec<u8>) {
        self.0.write(out);
        self.1.write(out);
        assert(out@ =~= old(out)@ + Self::put(self.deep_view()));
    }

    fn read(bytes: &[u8], at: usize) -> (value: Option<(Self, usize)>) {
        match A::read(bytes, at) {
            None => None,
            Some((first, middle)) => match B::read(bytes, middle) {
                None => None,
                Some((second, next)) => Some(((first, second), next)),
            },
        }
    }
}

impl<T: Wire> Wire for Option<T> {
    open spec fn fits(value: Option<T::V>) -> bool {
        value matches Some(inner) ==> T::fits(inner)
    }

    open spec fn put(value: Option<T::V>) -> Seq<u8> {
        match value {
            None => seq![0u8],
            Some(inner) => seq![1u8] + T::put(inner),
        }
    }

    open spec fn get(bytes: Seq<u8>) -> Option<(Option<T::V>, Seq<u8>)> {
        if bytes.len() < 1 || bytes[0] > 1 {
            None
        } else if bytes[0] == 0 {
            Some((None, bytes.skip(1)))
        } else {
            match T::get(bytes.skip(1)) {
                None => None,
                Some((inner, rest)) => Some((Some(inner), rest)),
            }
        }
    }

    proof fn reads_back(value: Option<T::V>, rest: Seq<u8>) {
        match value {
            None => {
                assert((seq![0u8] + rest).skip(1) =~= rest);
            },
            Some(inner) => {
                assert((seq![1u8] + T::put(inner) + rest).skip(1) =~= T::put(inner) + rest);
                T::reads_back(inner, rest);
            },
        }
    }

    proof fn leaves_the_end(bytes: Seq<u8>) {
        if bytes.len() >= 1 {
            T::leaves_the_end(bytes.skip(1));
            if let Some((_, rest)) = T::get(bytes.skip(1)) {
                assert(bytes.skip(1).skip(bytes.skip(1).len() - rest.len()) =~= bytes.skip(
                    bytes.len() - rest.len(),
                ));
            }
        }
    }

    proof fn writes_back(bytes: Seq<u8>) {
        if bytes.len() >= 1 {
            T::writes_back(bytes.skip(1));
            assert(bytes =~= seq![bytes[0]] + bytes.skip(1));
            if let Some((inner, rest)) = T::get(bytes.skip(1)) {
                assert(seq![bytes[0]] + (T::put(inner) + rest) =~= seq![bytes[0]] + T::put(inner)
                    + rest);
            }
        }
    }

    fn write(&self, out: &mut Vec<u8>) {
        match self {
            None => {
                out.push(0);
            },
            Some(inner) => {
                out.push(1);
                inner.write(out);
            },
        }
        assert(out@ =~= old(out)@ + Self::put(self.deep_view()));
    }

    fn read(bytes: &[u8], at: usize) -> (value: Option<(Self, usize)>) {
        if at >= bytes.len() || bytes[at] > 1 {
            return None;
        }
        assert(bytes@.skip(at as int).skip(1) =~= bytes@.skip(at + 1));
        if bytes[at] == 0 {
            return Some((None, at + 1));
        }
        match T::read(bytes, at + 1) {
            None => None,
            Some((inner, next)) => Some((Some(inner), next)),
        }
    }
}

/// The bytes of `values`, one after another.
pub open spec fn put_all<T: Wire>(values: Seq<T::V>) -> Seq<u8>
    decreases values.len(),
{
    if values.len() == 0 {
        Seq::empty()
    } else {
        T::put(values[0]) + put_all::<T>(values.drop_first())
    }
}

/// The `n` values at the front of `bytes`, and what follows them.
pub open spec fn get_all<T: Wire>(bytes: Seq<u8>, n: nat) -> Option<(Seq<T::V>, Seq<u8>)>
    decreases n,
{
    if n == 0 {
        Some((Seq::empty(), bytes))
    } else {
        match T::get(bytes) {
            None => None,
            Some((first, middle)) => match get_all::<T>(middle, (n - 1) as nat) {
                None => None,
                Some((others, rest)) => Some((seq![first] + others, rest)),
            },
        }
    }
}

proof fn put_all_in_parts<T: Wire>(first: Seq<T::V>, last: T::V)
    ensures
        put_all::<T>(first.push(last)) == put_all::<T>(first) + T::put(last),
    decreases first.len(),
{
    let all = first.push(last);
    if first.len() == 0 {
        assert(put_all::<T>(all.drop_first()) =~= Seq::<u8>::empty());
        assert(put_all::<T>(all) =~= put_all::<T>(first) + T::put(last));
    } else {
        assert(all.drop_first() =~= first.drop_first().push(last));
        put_all_in_parts::<T>(first.drop_first(), last);
        assert(put_all::<T>(all) =~= put_all::<T>(first) + T::put(last));
    }
}

proof fn all_read_back<T: Wire>(values: Seq<T::V>, rest: Seq<u8>)
    requires
        forall|i: int| 0 <= i < values.len() ==> T::fits(#[trigger] values[i]),
    ensures
        get_all::<T>(put_all::<T>(values) + rest, values.len()) == Some((values, rest)),
    decreases values.len(),
{
    if values.len() == 0 {
        assert(put_all::<T>(values) + rest =~= rest);
        assert(values =~= Seq::empty());
    } else {
        let others = values.drop_first();
        assert(T::fits(values[0]));
        assert forall|i: int| 0 <= i < others.len() implies T::fits(#[trigger] others[i]) by {
            assert(others[i] == values[i + 1]);
        }
        assert(put_all::<T>(values) + rest =~= T::put(values[0]) + (put_all::<T>(others) + rest));
        T::reads_back(values[0], put_all::<T>(others) + rest);
        all_read_back::<T>(others, rest);
        assert(seq![values[0]] + others =~= values);
    }
}

proof fn all_leave_the_end<T: Wire>(bytes: Seq<u8>, n: nat)
    ensures
        get_all::<T>(bytes, n) matches Some((values, rest)) ==> values.len() == n && rest.len()
            <= bytes.len() && rest == bytes.skip(bytes.len() - rest.len()),
    decreases n,
{
    if n > 0 {
        T::leaves_the_end(bytes);
        if let Some((_, middle)) = T::get(bytes) {
            all_leave_the_end::<T>(middle, (n - 1) as nat);
            if let Some((_, rest)) = get_all::<T>(middle, (n - 1) as nat) {
                assert(middle.skip(middle.len() - rest.len()) =~= bytes.skip(
                    bytes.len() - rest.len(),
                ));
            }
        }
    } else {
        assert(bytes.skip(0) =~= bytes);
    }
}

proof fn all_write_back<T: Wire>(bytes: Seq<u8>, n: nat)
    ensures
        get_all::<T>(bytes, n) matches Some((values, rest)) ==> values.len() == n && bytes
            == put_all::<T>(values) + rest && forall|i: int|
            0 <= i < values.len() ==> T::fits(#[trigger] values[i]),
    decreases n,
{
    if n == 0 {
        assert(put_all::<T>(Seq::<T::V>::empty()) + bytes =~= bytes);
    } else {
        T::writes_back(bytes);
        if let Some((first, middle)) = T::get(bytes) {
            all_write_back::<T>(middle, (n - 1) as nat);
            if let Some((others, rest)) = get_all::<T>(middle, (n - 1) as nat) {
                let values = seq![first] + others;
                assert(values.drop_first() =~= others);
                assert(T::put(first) + (put_all::<T>(others) + rest) =~= put_all::<T>(values) + rest);
                assert forall|i: int| 0 <= i < values.len() implies T::fits(
                    #[trigger] values[i],
                ) by {
                    if i > 0 {
                        assert(values[i] == others[i - 1]);
                    }
                }
            }
        }
    }
}

impl<T: Wire> Wire for Vec<T> {
    open spec fn fits(value: Seq<T::V>) -> bool {
        value.len() <= u32::MAX && forall|i: int|
            0 <= i < value.len() ==> T::fits(#[trigger] value[i])
    }

    open spec fn put(value: Seq<T::V>) -> Seq<u8> {
        le(value.len(), 4) + put_all::<T>(value)
    }

    open spec fn get(bytes: Seq<u8>) -> Option<(Seq<T::V>, Seq<u8>)> {
        match <u32 as Wire>::get(bytes) {
            None => None,
            Some((n, rest)) => get_all::<T>(rest, n as nat),
        }
    }

    proof fn reads_back(value: Seq<T::V>, rest: Seq<u8>) {
        let n = value.len() as u32;
        assert(le(value.len(), 4) + put_all::<T>(value) + rest =~= le(value.len(), 4) + (put_all::<
            T,
        >(value) + rest));
        <u32 as Wire>::reads_back(n, put_all::<T>(value) + rest);
        all_read_back::<T>(value, rest);
    }

    proof fn leaves_the_end(bytes: Seq<u8>) {
        <u32 as Wire>::leaves_the_end(bytes);
        if let Some((n, middle)) = <u32 as Wire>::get(bytes) {
            all_leave_the_end::<T>(middle, n as nat);
            if let Some((_, rest)) = get_all::<T>(middle, n as nat) {
                assert(middle.skip(middle.len() - rest.len()) =~= bytes.skip(
                    bytes.len() - rest.len(),
                ));
            }
        }
    }

    proof fn writes_back(bytes: Seq<u8>) {
        <u32 as Wire>::writes_back(bytes);
        if let Some((n, middle)) = <u32 as Wire>::get(bytes) {
            all_write_back::<T>(middle, n as nat);
            if let Some((values, rest)) = get_all::<T>(middle, n as nat) {
                assert(le(n as nat, 4) + (put_all::<T>(values) + rest) =~= le(n as nat, 4)
                    + put_all::<T>(values) + rest);
            }
        }
    }

    fn write(&self, out: &mut Vec<u8>) {
        let ghost values = self.deep_view();
        push_le(out, self.len() as u64, 4);
        let ghost head = out@;
        let mut at: usize = 0;
        while at < self.len()
            invariant
                values == self.deep_view(),
                Self::fits(values),
                at <= self@.len(),
                out@ == head + put_all::<T>(values.take(at as int)),
            decreases self@.len() - at,
        {
            assert(values[at as int] == self@[at as int].deep_view());
            self[at].write(out);
            assert(values.take(at + 1) =~= values.take(at as int).push(values[at as int]));
            proof {
                put_all_in_parts::<T>(values.take(at as int), values[at as int]);
            }
            assert(out@ =~= head + put_all::<T>(values.take(at + 1)));
            at += 1;
        }
        assert(values.take(at as int) =~= values);
        assert(out@ =~= old(out)@ + Self::put(values));
    }

    fn read(bytes: &[u8], at: usize) -> (value: Option<(Self, usize)>) {
        let (n, start) = match u32::read(bytes, at) {
            None => {
                return None;
            },
            Some((n, start)) => (n, start),
        };
        let ghost body = bytes@.skip(start as int);
        let mut values: Vec<T> = Vec::new();
        let mut place: usize = start;
        let mut left: u32 = n;
        while left > 0
            invariant
                start <= place <= bytes@.len(),
                at <= start,
                Self::get(bytes@.skip(at as int)) == get_all::<T>(body, n as nat),
                values@.len() + left == n,
                get_all::<T>(body, n as nat) == (match get_all::<T>(
                    bytes@.skip(place as int),
                    left as nat,
                ) {
                    None => None,
                    Some((others, rest)) => Some((values.deep_view() + others, rest)),
                }),
            decreases left,
        {
            let ghost before = values.deep_view();
            match T::read(bytes, place) {
                None => {
                    return None;
                },
                Some((value, next)) => {
                    values.push(value);
                    proof {
                        assert(values.deep_view() =~= before.push(value.deep_view()));
                        if let Some((others, _)) = get_all::<T>(
                            bytes@.skip(next as int),
                            (left - 1) as nat,
                        ) {
                            assert(before + (seq![value.deep_view()] + others)
                                =~= values.deep_view() + others);
                        }
                    }
                    place = next;
                },
            }
            left -= 1;
        }
        assert(values.deep_view() + Seq::<T::V>::empty() =~= values.deep_view());
        Some((values, place))
    }
}

impl Wire for String {
    open spec fn fits(value: Seq<char>) -> bool {
        encode_utf8(value).len() <= u32::MAX
    }

    open spec fn put(value: Seq<char>) -> Seq<u8> {
        le(encode_utf8(value).len(), 4) + encode_utf8(value)
    }

    open spec fn get(bytes: Seq<u8>) -> Option<(Seq<char>, Seq<u8>)> {
        match <u32 as Wire>::get(bytes) {
            None => None,
            Some((n, rest)) => if rest.len() < n || !valid_utf8(rest.take(n as int)) {
                None
            } else {
                Some((decode_utf8(rest.take(n as int)), rest.skip(n as int)))
            },
        }
    }

    proof fn reads_back(value: Seq<char>, rest: Seq<u8>) {
        let text = encode_utf8(value);
        assert(le(text.len(), 4) + text + rest =~= le(text.len(), 4) + (text + rest));
        <u32 as Wire>::reads_back(text.len() as u32, text + rest);
        assert((text + rest).take(text.len() as int) =~= text);
        assert((text + rest).skip(text.len() as int) =~= rest);
        encode_utf8_valid_utf8(value);
        encode_utf8_decode_utf8(value);
    }

    proof fn leaves_the_end(bytes: Seq<u8>) {
        <u32 as Wire>::leaves_the_end(bytes);
        if let Some((n, middle)) = <u32 as Wire>::get(bytes) {
            if middle.len() >= n {
                let rest = middle.skip(n as int);
                assert(rest =~= bytes.skip(bytes.len() - rest.len()));
            }
        }
    }

    proof fn writes_back(bytes: Seq<u8>) {
        <u32 as Wire>::writes_back(bytes);
        if let Some((n, middle)) = <u32 as Wire>::get(bytes) {
            if middle.len() >= n && valid_utf8(middle.take(n as int)) {
                let text = middle.take(n as int);
                decode_utf8_encode_utf8(text);
                assert(middle =~= text + middle.skip(n as int));
                assert(le(n as nat, 4) + (text + middle.skip(n as int)) =~= le(n as nat, 4) + text
                    + middle.skip(n as int));
            }
        }
    }

    fn write(&self, out: &mut Vec<u8>) {
        let text = self.as_str().as_bytes();
        push_le(out, text.len() as u64, 4);
        push_all(out, text);
        assert(out@ =~= old(out)@ + Self::put(self.deep_view()));
    }

    fn read(bytes: &[u8], at: usize) -> (value: Option<(Self, usize)>) {
        let (n, start) = match u32::read(bytes, at) {
            None => {
                return None;
            },
            Some((n, start)) => (n, start),
        };
        if bytes.len() - start < n as usize {
            return None;
        }
        let end: usize = start + n as usize;
        let text = vstd::slice::slice_subrange(bytes, start, end);
        let mut copy: Vec<u8> = Vec::new();
        push_all(&mut copy, text);
        proof {
            let rest = bytes@.skip(start as int);
            assert(copy@ =~= rest.take(n as int));
            assert(rest.skip(n as int) =~= bytes@.skip(end as int));
        }
        match string_of_utf8(copy) {
            None => None,
            Some(text) => {
                proof {
                    encode_utf8_decode_utf8(text@);
                }
                Some((text, end))
            },
        }
    }
}

/// Puts `more` on the end of `bytes`.
pub fn push_all(bytes: &mut Vec<u8>, more: &[u8])
    ensures
        final(bytes)@ == old(bytes)@ + more@,
{
    let mut at: usize = 0;
    while at < more.len()
        invariant
            at <= more@.len(),
            bytes@ == old(bytes)@ + more@.take(at as int),
        decreases more@.len() - at,
    {
        bytes.push(more[at]);
        assert(bytes@ =~= old(bytes)@ + more@.take(at + 1));
        at += 1;
    }
    assert(more@.take(at as int) =~= more@);
}

/// A copy of `bytes`.
pub fn bytes_of(bytes: &[u8]) -> (copy: Vec<u8>)
    ensures
        copy@ == bytes@,
{
    let mut copy: Vec<u8> = Vec::new();
    push_all(&mut copy, bytes);
    assert(copy@ =~= bytes@);
    copy
}

/// Bytes are their own deep view.
pub proof fn bytes_are_their_own_view(bytes: Vec<u8>)
    ensures
        bytes.deep_view() == bytes@,
{
    assert(bytes.deep_view() =~= bytes@);
}

// ---------- what they look like ----------
/// Bytes are read as a value exactly where they are that value's, all of them.
pub proof fn what_is_decoded_was_encoded<T: Wire>(bytes: Seq<u8>, value: T::V)
    ensures
        decoded::<T>(bytes) == Some(value) <==> T::fits(value) && bytes == T::put(value),
        decoded::<T>(bytes) is None <==> forall|other: T::V|
            T::fits(other) ==> #[trigger] T::put(other) != bytes,
{
    T::writes_back(bytes);
    if T::fits(value) {
        what_is_encoded_is_decoded::<T>(value);
    }
    if let Some((held, rest)) = T::get(bytes) {
        if rest.len() == 0 {
            assert(T::put(held) + rest =~= T::put(held));
        }
    }
    assert forall|other: T::V| T::fits(other) && #[trigger] T::put(other) == bytes implies decoded::<
        T,
    >(bytes) is Some by {
        what_is_encoded_is_decoded::<T>(other);
    }
}

/// The four bytes of a number, the lowest first.
pub open spec fn four(n: nat) -> Seq<u8> {
    seq![
        (n % 256) as u8,
        (n / 256 % 256) as u8,
        (n / 65_536 % 256) as u8,
        (n / 16_777_216 % 256) as u8,
    ]
}

/// The eight bytes of a number, the lowest first.
pub open spec fn eight(n: nat) -> Seq<u8> {
    four(n) + four(n / 4_294_967_296)
}

/// Bytes behind how many they are.
pub open spec fn counted(bytes: Seq<u8>) -> Seq<u8> {
    four(bytes.len()) + bytes
}

/// A byte is itself; a number is four bytes or eight, the lowest first.
pub proof fn numbers_go_lowest_byte_first(byte: u8, short: u32, long: u64)
    ensures
        <u8 as Wire>::put(byte) == seq![byte],
        <u32 as Wire>::put(short) == four(short as nat),
        <u64 as Wire>::put(long) == eight(long as nat),
{
    le_is_four(short as nat);
    le_is_eight(long as nat);
}

proof fn le_is_eight(n: nat)
    ensures
        le(n, 8) == eight(n),
{
    let high = n / 4_294_967_296;
    assert(n / 256 / 256 / 256 / 256 == high);
    let (a, b, c) = (n / 256, n / 256 / 256, n / 256 / 256 / 256);
    assert(le(n, 8) == seq![(n % 256) as u8] + le(a, 7));
    assert(le(a, 7) == seq![(a % 256) as u8] + le(b, 6));
    assert(le(b, 6) == seq![(b % 256) as u8] + le(c, 5));
    assert(le(c, 5) == seq![(c % 256) as u8] + le(high, 4));
    le_is_four(high);
    assert(b == n / 65_536);
    assert(c == n / 16_777_216);
    assert(le(n, 8) =~= four(n) + four(high));
}

proof fn le_is_four(n: nat)
    ensures
        le(n, 4) == four(n),
{
    reveal_with_fuel(le, 5);
    assert(n / 256 / 256 == n / 65_536);
    assert(n / 256 / 256 / 256 == n / 16_777_216);
    assert(le(n, 4) =~= four(n));
}

/// Two values go one after the other; a value that may be missing goes behind a
/// 1, and a missing one is a 0.
pub proof fn values_go_one_after_another<A: Wire, B: Wire>(first: A::V, second: B::V)
    ensures
        <(A, B) as Wire>::put((first, second)) == A::put(first) + B::put(second),
        <Option<A> as Wire>::put(Some(first)) == seq![1u8] + A::put(first),
        <Option<A> as Wire>::put(None) == seq![0u8],
{
}

/// A list goes behind how many it holds, each value after the one before.
pub proof fn a_list_goes_behind_its_length<T: Wire>(values: Seq<T::V>, last: T::V)
    ensures
        <Vec<T> as Wire>::put(Seq::empty()) == four(0),
        <Vec<T> as Wire>::put(values).len() >= 4,
        <Vec<T> as Wire>::put(values).take(4) == four(values.len()),
        <Vec<T> as Wire>::put(values.push(last)) == four(values.len() + 1) + <Vec<T> as Wire>::put(
            values,
        ).skip(4) + T::put(last),
{
    le_is_four(0);
    le_is_four(values.len());
    le_is_four(values.len() + 1);
    put_all_in_parts::<T>(values, last);
    let before = <Vec<T> as Wire>::put(values);
    assert(before.take(4) =~= four(values.len()));
    assert(before.skip(4) =~= put_all::<T>(values));
    assert(<Vec<T> as Wire>::put(Seq::empty()) =~= four(0));
    assert(<Vec<T> as Wire>::put(values.push(last)) =~= four(values.len() + 1) + before.skip(4)
        + T::put(last));
}

/// Bytes, and the bytes of a text, go behind how many they are.
pub proof fn bytes_go_behind_their_length(bytes: Seq<u8>, text: Seq<char>)
    ensures
        <Vec<u8> as Wire>::put(bytes) == counted(bytes),
        <String as Wire>::put(text) == counted(encode_utf8(text)),
{
    le_is_four(bytes.len());
    le_is_four(encode_utf8(text).len());
    bytes_are_put_as_they_are(bytes);
}

proof fn bytes_are_put_as_they_are(bytes: Seq<u8>)
    ensures
        put_all::<u8>(bytes) == bytes,
    decreases bytes.len(),
{
    if bytes.len() > 0 {
        bytes_are_put_as_they_are(bytes.drop_first());
        assert(seq![bytes[0]] + bytes.drop_first() =~= bytes);
    } else {
        assert(put_all::<u8>(bytes) =~= bytes);
    }
}

} // verus!
