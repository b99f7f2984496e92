//! The values exchanged with the request-dispatch layer, and the validation
//! that rejects a malformed phase label before it reaches the engine.

use vstd::prelude::*;
use crate::engine::VotePhase;
use crate::entropy::Trng;
use crate::handle::ConsensusState;

verus! {

/// Everything the dispatch layer shares: the consensus handle and the
/// entropy pool, both cheap to clone per caller.
#[derive(Clone)]
pub struct AppState {
    pub consensus: ConsensusState,
    pub trng: Trng,
}

/// A proposal call: the payload as text, turned into bytes by the caller.
#[derive(Debug)]
pub struct ProposeRequest {
    pub payload: String,
}

/// A vote call; `phase` is a label that must parse before the engine is
/// reached.
#[derive(Debug)]
pub struct VoteRequest {
    pub proposal_id: String,
    pub validator_id: usize,
    pub phase: String,
}

/// A random-bytes call; the length defaults when absent.
#[derive(Debug)]
pub struct RngQuery {
    pub len: Option<usize>,
}

/// The identifier assigned to a proposal.
#[derive(Debug)]
pub struct ProposeResponse {
    pub proposal_id: String,
}

/// The outcome of a vote call: whether it was accepted, and whether this
/// very call performed the finalization transition — both produced in the
/// same critical section.
#[derive(Debug)]
pub struct VoteResponse {
    pub success: bool,
    pub finalized: bool,
}

/// The finalized block identifier, if any.
#[derive(Debug)]
pub struct FinalizedResponse {
    pub finalized_block: Option<String>,
}

/// Random bytes, hex encoded.
#[derive(Debug)]
pub struct RngResponse {
    pub random_bytes: String,
}

/// Parses a phase label. Exactly `"precommit"` and `"commit"` are
/// recognized; anything else is rejected before it reaches the engine.
pub fn parse_phase(label: &String) -> (r: Option<VotePhase>)
    ensures
        r == (if label@ == "precommit"@ {
            Option::Some(VotePhase::Precommit)
        } else if label@ == "commit"@ {
            Option::Some(VotePhase::Commit)
        } else {
            Option::<VotePhase>::None
        }),
{
    let pre: String = "precommit".to_owned();
    if *label == pre {
        return Option::Some(VotePhase::Precommit);
    }
    let com: String = "commit".to_owned();
    if *label == com {
        return Option::Some(VotePhase::Commit);
    }
    Option::None
}

} // verus!
