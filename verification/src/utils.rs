//! The chain verifier and the plain payload shells for the HTTP layer.
//!
//! Verification streams the stored blocks in index order. Each block passes
//! through `verify_step`, which carries only the expected index and the last
//! hash between blocks, so memory stays bounded regardless of chain length.
//! The storage layer's own self-check runs outside the engine; its outcome
//! is handed in as a plain flag.

use crate::blockchain::block_views;
use crate::blockchain::chain_linked;
use crate::blockchain::linked_at;
use crate::blockchain::Block;
use crate::blockchain::BlockV;
use crate::encode::str_eq;
use vstd::prelude::*;

verus! {

/// A simple error payload for the HTTP layer.
pub struct ErrorBody {
    pub message: String,
}

/// A simple data payload for the HTTP layer.
pub struct DataBody<T> {
    pub data: T,
}

/// Why the stored chain failed verification.
#[derive(Debug)]
pub enum IntegrityError {
    /// The storage layer's self-check reported corruption.
    StorageCorrupt,
    /// The block streamed at position `expected` carries index `found`.
    IndexMismatch { found: u64, expected: u64 },
    /// The genesis block's `previous_hash` is not the empty sentinel.
    GenesisLinkBroken,
    /// The block at this index does not link to its predecessor: its
    /// `previous_hash` is `actual_hash`, where the predecessor's hash —
    /// `expected_hash` — differs.
    LinkBroken { index: u64, expected_hash: String, actual_hash: String },
}

/// The mathematical model of an integrity error.
pub ghost enum IntegrityErrorV {
    StorageCorrupt,
    IndexMismatch { found: u64, expected: u64 },
    GenesisLinkBroken,
    LinkBroken { index: u64, expected_hash: Seq<char>, actual_hash: Seq<char> },
}

impl View for IntegrityError {
    type V = IntegrityErrorV;

    open spec fn view(&self) -> IntegrityErrorV {
        match self {
            IntegrityError::StorageCorrupt => IntegrityErrorV::StorageCorrupt,
            IntegrityError::IndexMismatch { found, expected } => IntegrityErrorV::IndexMismatch {
                found: *found,
                expected: *expected,
            },
            IntegrityError::GenesisLinkBroken => IntegrityErrorV::GenesisLinkBroken,
            IntegrityError::LinkBroken { index, expected_hash, actual_hash } => IntegrityErrorV::LinkBroken {
                index: *index,
                expected_hash: expected_hash@,
                actual_hash: actual_hash@,
            },
        }
    }
}

impl PartialEq for IntegrityError {
    /// Two errors are equal when their models are: same variant, same index
    /// fields, same hash texts.
    fn eq(&self, other: &IntegrityError) -> (r: bool)
        ensures
            r == (self@ == other@),
    {
        match (self, other) {
            (IntegrityError::StorageCorrupt, IntegrityError::StorageCorrupt) => true,
            (
                IntegrityError::IndexMismatch { found: f1, expected: e1 },
                IntegrityError::IndexMismatch { found: f2, expected: e2 },
            ) => *f1 == *f2 && *e1 == *e2,
            (IntegrityError::GenesisLinkBroken, IntegrityError::GenesisLinkBroken) => true,
            (
                IntegrityError::LinkBroken { index: i1, expected_hash: e1, actual_hash: a1 },
                IntegrityError::LinkBroken { index: i2, expected_hash: e2, actual_hash: a2 },
            ) => *i1 == *i2 && str_eq(e1.as_str(), e2.as_str()) && str_eq(
                a1.as_str(),
                a2.as_str(),
            ),
            _ => false,
        }
    }
}

impl vstd::std_specs::cmp::PartialEqSpecImpl for IntegrityError {
    open spec fn obeys_eq_spec() -> bool {
        true
    }

    open spec fn eq_spec(&self, other: &IntegrityError) -> bool {
        self@ == other@
    }
}

/// The model of a verification result.
pub open spec fn integrity_result_view(r: Result<(), IntegrityError>) -> Result<
    (),
    IntegrityErrorV,
> {
    match r {
        Result::Ok(()) => Result::Ok(()),
        Result::Err(e) => Result::Err(e@),
    }
}

/// The whole state the streaming verifier carries between blocks: the index
/// it expects next and the hash of the block it saw last.
#[derive(Debug)]
pub struct VerifierState {
    pub expected_index: u64,
    pub last_hash: String,
}

/// The mathematical model of the verifier's state.
pub ghost struct VerifierStateV {
    pub expected_index: u64,
    pub last_hash: Seq<char>,
}

impl View for VerifierState {
    type V = VerifierStateV;

    open spec fn view(&self) -> VerifierStateV {
        VerifierStateV { expected_index: self.expected_index, last_hash: self.last_hash@ }
    }
}

/// The state the verifier starts from: index 0 expected, no hash seen.
pub open spec fn spec_start_state() -> VerifierStateV {
    VerifierStateV { expected_index: 0, last_hash: Seq::empty() }
}

/// One step of the streaming pass: the block must carry the expected index
/// and link to the last hash (the genesis block to the empty sentinel);
/// then the state advances past it.
pub open spec fn spec_step(st: VerifierStateV, b: BlockV) -> Result<
    VerifierStateV,
    IntegrityErrorV,
> {
    if b.index != st.expected_index {
        Result::Err(IntegrityErrorV::IndexMismatch { found: b.index, expected: st.expected_index })
    } else if st.expected_index == 0 && b.previous_hash != Seq::<char>::empty() {
        Result::Err(IntegrityErrorV::GenesisLinkBroken)
    } else if st.expected_index > 0 && b.previous_hash != st.last_hash {
        Result::Err(
            IntegrityErrorV::LinkBroken {
                index: st.expected_index,
                expected_hash: st.last_hash,
                actual_hash: b.previous_hash,
            },
        )
    } else {
        Result::Ok(
            VerifierStateV { expected_index: (st.expected_index + 1) as u64, last_hash: b.hash },
        )
    }
}

/// The model of a step result.
pub open spec fn step_result_view(r: Result<VerifierState, IntegrityError>) -> Result<
    VerifierStateV,
    IntegrityErrorV,
> {
    match r {
        Result::Ok(st) => Result::Ok(st@),
        Result::Err(e) => Result::Err(e@),
    }
}

/// Checks one streamed block against the carried state, exactly as
/// `spec_step` describes, so a caller can stream blocks from storage one at
/// a time with only this state resident.
///
/// The index bound is a machine limit: no store holds a block for every
/// index value.
pub fn verify_step(state: VerifierState, block: &Block) -> (r: Result<
    VerifierState,
    IntegrityError,
>)
    requires
        state@.expected_index < u64::MAX,
    ensures
        step_result_view(r) == spec_step(state@, block@),
{
    if block.index != state.expected_index {
        return Err(
            IntegrityError::IndexMismatch { found: block.index, expected: state.expected_index },
        );
    }
    if state.expected_index == 0 {
        if !block.previous_hash.as_str().is_empty() {
            proof {
                assert(block@.previous_hash != Seq::<char>::empty());
            }
            return Err(IntegrityError::GenesisLinkBroken);
        }
        proof {
            assert(block.previous_hash@ =~= Seq::<char>::empty());
        }
    } else {
        if !str_eq(block.previous_hash.as_str(), state.last_hash.as_str()) {
            return Err(
                IntegrityError::LinkBroken {
                    index: state.expected_index,
                    expected_hash: state.last_hash,
                    actual_hash: block.previous_hash.clone(),
                },
            );
        }
    }
    Ok(VerifierState { expected_index: state.expected_index + 1, last_hash: block.hash.clone() })
}

/// The outcome of the streaming pass from position `i` on: `Ok` if every
/// remaining position is correctly linked, else the error for the first one
/// that is not — a broken link names the offending index, the expected hash
/// (the predecessor's) and the actual `previous_hash` found.
pub open spec fn spec_verify_from(s: Seq<BlockV>, i: int) -> Result<(), IntegrityErrorV>
    decreases s.len() - i,
{
    if i < 0 || i >= s.len() {
        Result::Ok(())
    } else if s[i].index != i {
        Result::Err(IntegrityErrorV::IndexMismatch { found: s[i].index, expected: i as u64 })
    } else if i == 0 && s[i].previous_hash != Seq::<char>::empty() {
        Result::Err(IntegrityErrorV::GenesisLinkBroken)
    } else if i > 0 && s[i].previous_hash != s[i - 1].hash {
        Result::Err(
            IntegrityErrorV::LinkBroken {
                index: i as u64,
                expected_hash: s[i - 1].hash,
                actual_hash: s[i].previous_hash,
            },
        )
    } else {
        spec_verify_from(s, i + 1)
    }
}

/// The full outcome of verification: storage corruption first, then the
/// streaming linkage pass over the whole chain.
pub open spec fn spec_integrity_check(storage_ok: bool, s: Seq<BlockV>) -> Result<
    (),
    IntegrityErrorV,
> {
    if !storage_ok {
        Result::Err(IntegrityErrorV::StorageCorrupt)
    } else {
        spec_verify_from(s, 0)
    }
}

/// The streaming pass accepts from position `i` exactly when every position
/// from `i` on is correctly linked.
pub proof fn lemma_verify_from_ok(s: Seq<BlockV>, i: int)
    requires
        0 <= i <= s.len(),
    ensures
        spec_verify_from(s, i) is Ok <==> forall|j: int| i <= j < s.len() ==> #[trigger] linked_at(
            s,
            j,
        ),
    decreases s.len() - i,
{
    if i < s.len() {
        lemma_verify_from_ok(s, i + 1);
        if linked_at(s, i) {
            assert(spec_verify_from(s, i) == spec_verify_from(s, i + 1));
            if (forall|j: int| i + 1 <= j < s.len() ==> #[trigger] linked_at(s, j)) {
                assert forall|j: int| i <= j < s.len() implies #[trigger] linked_at(s, j) by {}
            }
        } else {
            assert(spec_verify_from(s, i) is Err);
        }
        if (forall|j: int| i <= j < s.len() ==> #[trigger] linked_at(s, j)) {
            assert(linked_at(s, i));
            assert forall|j: int| i + 1 <= j < s.len() implies #[trigger] linked_at(s, j) by {}
        }
    }
}

/// The verifier accepts exactly the correctly linked chains (given a clean
/// storage self-check).
pub proof fn lemma_verifier_accepts_iff_linked(s: Seq<BlockV>)
    ensures
        spec_integrity_check(true, s) is Ok <==> chain_linked(s),
{
    lemma_verify_from_ok(s, 0);
}

/// Full chain-integrity verification: a failed storage self-check is
/// `StorageCorrupt`; otherwise the blocks, streamed in storage order through
/// `verify_step`, must carry consecutive indices from 0 and link each to the
/// previous hash, the genesis block to the empty sentinel. The result names
/// the first violation — for a broken link, its index with the expected and
/// the actual hash — exactly as `spec_integrity_check` describes.
pub fn verify_db_state_streaming(blocks: &Vec<Block>, storage_ok: bool) -> (r: Result<
    (),
    IntegrityError,
>)
    ensures
        integrity_result_view(r) == spec_integrity_check(storage_ok, block_views(blocks@)),
{
    if !storage_ok {
        return Err(IntegrityError::StorageCorrupt);
    }
    let ghost vs = block_views(blocks@);
    let n = blocks.len();
    let mut state = VerifierState { expected_index: 0, last_hash: String::new() };
    let mut i: usize = 0;
    while i < n
        invariant
            i <= n,
            n == blocks@.len(),
            storage_ok,
            vs == block_views(blocks@),
            state@.expected_index == i,
            i == 0 ==> state@.last_hash == Seq::<char>::empty(),
            i > 0 ==> state@.last_hash == vs[i - 1].hash,
            spec_verify_from(vs, 0) == spec_verify_from(vs, i as int),
        decreases n - i,
    {
        proof {
            assert(vs[i as int] == blocks@[i as int]@);
        }
        match verify_step(state, &blocks[i]) {
            Result::Err(e) => {
                proof {
                    assert(spec_verify_from(vs, i as int) == Result::<(), IntegrityErrorV>::Err(
                        e@,
                    ));
                }
                return Err(e);
            },
            Result::Ok(st2) => {
                proof {
                    assert(spec_verify_from(vs, i as int) == spec_verify_from(vs, i + 1));
                }
                state = st2;
            },
        }
        i += 1;
    }
    proof {
        assert(spec_verify_from(vs, n as int) is Ok);
    }
    Ok(())
}

/// The health check: `true` exactly when the verifier is satisfied. The
/// underlying integrity error is never surfaced to the caller.
pub fn healthcheck(blocks: &Vec<Block>, storage_ok: bool) -> (healthy: bool)
    ensures
        healthy == (spec_integrity_check(storage_ok, block_views(blocks@)) is Ok),
{
    match verify_db_state_streaming(blocks, storage_ok) {
        Result::Ok(()) => true,
        Result::Err(_) => false,
    }
}

} // verus!
