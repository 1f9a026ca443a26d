//! The mathematical model of the generator: its state as plain sequences and
//! its transitions as functions on them.

use crate::mac::KeyedHash;
use vstd::prelude::*;

verus! {

/// What a generator holds: the key `K`, the chaining value `V`, and the
/// number of cycles counted since instantiation.
pub struct DrbgState {
    pub k: Seq<u8>,
    pub v: Seq<u8>,
    pub count: nat,
}

/// What holds of every generator over `D`: key and chaining value are each
/// exactly one tag long, and the counter is at least 1.
pub open spec fn well_formed<D: KeyedHash>(s: DrbgState) -> bool {
    &&& s.k.len() == D::output_size()
    &&& s.v.len() == D::output_size()
    &&& s.count >= 1
}

/// Separator byte of the first half of an update.
pub const FIRST_SEPARATOR: u8 = 0x00;

/// Separator byte of the second half of an update.
pub const SECOND_SEPARATOR: u8 = 0x01;

/// The message from which a new key is derived: the chaining value, one
/// separator byte, then every seed in order.
pub open spec fn keying_message(v: Seq<u8>, separator: u8, seeds: Seq<Seq<u8>>) -> Seq<u8> {
    v.push(separator) + seeds.flatten()
}

/// One half of an update. The new key is the tag of the keying message under
/// the old key; the new chaining value is the tag of the old one under the
/// *new* key.
pub open spec fn half_update<D: KeyedHash>(
    k: Seq<u8>,
    v: Seq<u8>,
    separator: u8,
    seeds: Seq<Seq<u8>>,
) -> (Seq<u8>, Seq<u8>) {
    let k_next = D::tag(k, keying_message(v, separator, seeds));
    (k_next, D::tag(k_next, v))
}

/// The state after an update with `seeds`: one half with separator `0x00`,
/// and, unless there are no seeds at all, a second half with separator `0x01`
/// that starts from the key and value the first half produced. The counter is
/// untouched.
pub open spec fn updated<D: KeyedHash>(s: DrbgState, seeds: Seq<Seq<u8>>) -> DrbgState {
    let (k1, v1) = half_update::<D>(s.k, s.v, FIRST_SEPARATOR, seeds);
    if seeds.len() == 0 {
        DrbgState { k: k1, v: v1, count: s.count }
    } else {
        let (k2, v2) = half_update::<D>(k1, v1, SECOND_SEPARATOR, seeds);
        DrbgState { k: k2, v: v2, count: s.count }
    }
}

/// The state before any seed material has been mixed in: `K` all `0x00`,
/// `V` all `0x01`, each as long as a tag.
pub open spec fn unseeded<D: KeyedHash>() -> DrbgState {
    DrbgState {
        k: Seq::new(D::output_size(), |i: int| 0x00u8),
        v: Seq::new(D::output_size(), |i: int| 0x01u8),
        count: 1,
    }
}

/// The state of a freshly instantiated generator: one update of the unseeded
/// state with entropy, nonce and personalization, in that order; counter 1.
pub open spec fn instantiated<D: KeyedHash>(
    entropy: Seq<u8>,
    nonce: Seq<u8>,
    personalization: Seq<u8>,
) -> DrbgState {
    updated::<D>(unseeded::<D>(), seq![entropy, nonce, personalization])
}

/// The bytes that stand for an optional input: its own, or none.
pub open spec fn or_empty(input: Option<Seq<u8>>) -> Seq<u8> {
    match input {
        Some(bytes) => bytes,
        None => Seq::empty(),
    }
}

/// The state after a reseed: one update with the entropy and then the
/// additional input, an absent one counting as empty.
pub open spec fn reseeded<D: KeyedHash>(
    s: DrbgState,
    entropy: Seq<u8>,
    additional: Option<Seq<u8>>,
) -> DrbgState {
    updated::<D>(s, seq![entropy, or_empty(additional)])
}

/// One state-advancing operation on an instantiated generator.
pub enum Operation {
    /// A reseed with entropy and optional additional input.
    Reseed { entropy: Seq<u8>, additional: Option<Seq<u8>> },
    /// A bare update with a list of seeds, possibly empty.
    Update { seeds: Seq<Seq<u8>> },
}

/// The state after one operation.
pub open spec fn applied<D: KeyedHash>(s: DrbgState, op: Operation) -> DrbgState {
    match op {
        Operation::Reseed { entropy, additional } => reseeded::<D>(s, entropy, additional),
        Operation::Update { seeds } => updated::<D>(s, seeds),
    }
}

/// The state after a sequence of operations, applied from first to last.
pub open spec fn after<D: KeyedHash>(s: DrbgState, ops: Seq<Operation>) -> DrbgState
    decreases ops.len(),
{
    if ops.len() == 0 {
        s
    } else {
        applied::<D>(after::<D>(s, ops.drop_last()), ops.last())
    }
}

/// The counter is 1 right after instantiation, whatever the inputs.
pub proof fn lemma_count_starts_at_one<D: KeyedHash>(
    entropy: Seq<u8>,
    nonce: Seq<u8>,
    personalization: Seq<u8>,
)
    ensures
        instantiated::<D>(entropy, nonce, personalization).count == 1,
{
}

/// No operation changes the counter: after any sequence of operations it is
/// what it was before them.
pub proof fn lemma_count_kept<D: KeyedHash>(s: DrbgState, ops: Seq<Operation>)
    ensures
        after::<D>(s, ops).count == s.count,
    decreases ops.len(),
{
    if ops.len() > 0 {
        lemma_count_kept::<D>(s, ops.drop_last());
    }
}

/// The counter never decreases: along any sequence of operations, the state
/// reached after more of them counts at least as much as the state reached
/// after fewer. From an instantiated generator it is therefore never below 1.
pub proof fn lemma_count_never_decreases<D: KeyedHash>(
    s: DrbgState,
    ops: Seq<Operation>,
    fewer: int,
    more: int,
)
    requires
        0 <= fewer <= more <= ops.len(),
    ensures
        after::<D>(s, ops.take(fewer)).count <= after::<D>(s, ops.take(more)).count,
        s.count <= after::<D>(s, ops.take(fewer)).count,
{
    lemma_count_kept::<D>(s, ops.take(fewer));
    lemma_count_kept::<D>(s, ops.take(more));
}

/// Determinism: two generators instantiated from the same entropy, nonce
/// and personalization hold the same key, value and counter, and still do
/// after each step of the same sequence of operations.
pub proof fn lemma_deterministic<D: KeyedHash>(
    entropy: Seq<u8>,
    nonce: Seq<u8>,
    personalization: Seq<u8>,
    ops: Seq<Operation>,
    one: spec_fn(int) -> DrbgState,
    other: spec_fn(int) -> DrbgState,
)
    requires
        one(0) == instantiated::<D>(entropy, nonce, personalization),
        other(0) == instantiated::<D>(entropy, nonce, personalization),
        forall|i: int| 0 <= i < ops.len() ==> #[trigger] one(i + 1) == applied::<D>(one(i), ops[i]),
        forall|i: int|
            0 <= i < ops.len() ==> #[trigger] other(i + 1) == applied::<D>(other(i), ops[i]),
    ensures
        forall|i: int| 0 <= i <= ops.len() ==> #[trigger] one(i) == other(i),
        forall|i: int| 0 <= i <= ops.len() ==> #[trigger] one(i) == after::<D>(one(0), ops.take(i)),
{
    assert forall|i: int| 0 <= i <= ops.len() implies #[trigger] one(i) == after::<D>(
        one(0),
        ops.take(i),
    ) by {
        lemma_trace_follows_model::<D>(ops, one, i);
    }
    assert forall|i: int| 0 <= i <= ops.len() implies #[trigger] one(i) == other(i) by {
        lemma_trace_follows_model::<D>(ops, one, i);
        lemma_trace_follows_model::<D>(ops, other, i);
    }
}

/// A run that advances by one operation at a time is, after `n` steps, where
/// the model puts it.
proof fn lemma_trace_follows_model<D: KeyedHash>(
    ops: Seq<Operation>,
    trace: spec_fn(int) -> DrbgState,
    n: int,
)
    requires
        0 <= n <= ops.len(),
        forall|i: int|
            0 <= i < ops.len() ==> #[trigger] trace(i + 1) == applied::<D>(trace(i), ops[i]),
    ensures
        trace(n) == after::<D>(trace(0), ops.take(n)),
    decreases n,
{
    if n > 0 {
        lemma_trace_follows_model::<D>(ops, trace, n - 1);
        assert(ops.take(n).drop_last() =~= ops.take(n - 1));
        assert(ops.take(n).last() == ops[n - 1]);
        assert(trace((n - 1) + 1) == applied::<D>(trace(n - 1), ops[n - 1]));
    }
}

} // verus!
