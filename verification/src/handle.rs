//! A shareable, concurrency-safe handle to one consensus engine: every
//! operation runs as a critical section behind a single exclusive lock.

use vstd::prelude::*;
use vstd::rwlock::{RwLock, RwLockPredicate};
use std::sync::Arc;
use crate::digest::is_digest;
use crate::engine::{
    engine_inv, entry_ok, has_proposal, index_of_id, lemma_index_of_id_props, spec_propose_id,
    Bytes, BlockId, Consensus, EngineModel, ValidatorId, VotePhase,
};

verus! {

/// The lock predicate: every engine value stored in the lock is well-formed.
pub struct EngineWf {}

impl RwLockPredicate<Consensus> for EngineWf {
    open spec fn inv(self, v: Consensus) -> bool {
        v.wf()
    }
}

/// A shareable handle serializing all engine operations behind one exclusive
/// lock. Clones share the same underlying engine; the lock keeps every stored
/// engine state well-formed.
#[derive(Clone)]
pub struct ConsensusState {
    inner: Arc<RwLock<Consensus, EngineWf>>,
}

impl ConsensusState {
    /// Creates a shared handle over a fresh engine for `validators`.
    pub fn new(validators: Vec<ValidatorId>) -> ConsensusState {
        let engine = Consensus::new(validators);
        ConsensusState { inner: Arc::new(RwLock::new(engine, Ghost(EngineWf {}))) }
    }

    /// Proposes a block under the lock. The identifier is always the one the
    /// engine's content addressing assigns to the payload on some well-formed
    /// engine state: the state the lock held during this critical section.
    pub fn propose(&self, payload: Bytes) -> (id: BlockId)
        ensures
            id@.len() == 64,
            exists|m: EngineModel| engine_inv(m) && id@ == spec_propose_id(m, payload@),
    {
        let ghost p = payload@;
        let (mut engine, handle) = self.inner.acquire_write();
        proof {
            engine.lemma_wf_inv();
        }
        let ghost m0 = engine@;
        let id = engine.propose(payload);
        proof {
            assert(engine_inv(m0) && id@ == spec_propose_id(m0, p));
        }
        handle.release_write(engine);
        id
    }

    /// Casts a vote and evaluates quorum in the same critical section, so the
    /// `finalized_now` signal of `(accepted, finalized_now)` reports exactly
    /// whether this call performed the finalization transition. A vote is
    /// accepted only when the lock-held state knew both the validator and
    /// the proposal.
    pub fn vote(&self, proposal_id: BlockId, validator_id: ValidatorId, phase: VotePhase) -> (r: (
        bool,
        bool,
    ))
        ensures
            r.0 ==> exists|m: EngineModel|
                engine_inv(m) && m.validators.contains(validator_id) && has_proposal(
                    m,
                    proposal_id@,
                ),
            r.1 ==> r.0 && proposal_id@.len() == 64 && is_digest(proposal_id@),
    {
        let ghost idv = proposal_id@;
        let (mut engine, handle) = self.inner.acquire_write();
        proof {
            engine.lemma_wf_inv();
        }
        let ghost m0 = engine@;
        let r = engine.vote(proposal_id, validator_id, phase);
        proof {
            if r.0 {
                assert(engine_inv(m0) && m0.validators.contains(validator_id) && has_proposal(
                    m0,
                    idv,
                ));
            }
            if r.1 {
                lemma_index_of_id_props(m0.proposals, idv);
                assert(entry_ok(m0, index_of_id(m0.proposals, idv)));
            }
        }
        handle.release_write(engine);
        r
    }

    /// Reads the finalized pointer under the lock; when set, it is always
    /// the 64-character content digest of a stored proposal.
    pub fn finalize(&self) -> (r: Option<BlockId>)
        ensures
            r is Some ==> r.unwrap()@.len() == 64 && is_digest(r.unwrap()@),
    {
        let read_handle = self.inner.acquire_read();
        let engine = read_handle.borrow();
        let r = engine.finalize();
        proof {
            engine.lemma_wf_inv();
            match engine@.finalized {
                Option::None => {},
                Option::Some(fid) => {
                    lemma_index_of_id_props(engine@.proposals, fid);
                    assert(entry_ok(engine@, index_of_id(engine@.proposals, fid)));
                },
            }
        }
        read_handle.release_read();
        r
    }
}

} // verus!
