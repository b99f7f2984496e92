//! The quorum state machine: block proposal, per-proposal/per-phase vote
//! aggregation, quorum evaluation, and one-time finalization.

use vstd::prelude::*;
use vstd::seq_lib::*;
use crate::digest::{block_id_for, digest_of, is_digest, spec_block_id, spec_encode_block_content};

verus! {

pub type BlockId = String;

pub type ValidatorId = usize;

pub type Bytes = Vec<u8>;

/// An immutable proposal record. The identifier is the content hash of the
/// canonical encoding of `(parent_id, payload, height)`.
#[derive(Debug, Clone)]
pub struct Block {
    pub id: BlockId,
    pub parent_id: Option<BlockId>,
    pub payload: Bytes,
    pub height: u64,
    pub proposer: ValidatorId,
}

/// A block together with the round it was proposed in.
#[derive(Debug, Clone)]
pub struct Proposal {
    pub block: Block,
    pub round: u64,
}

/// A single cast vote.
#[derive(Debug, Clone)]
pub struct Vote {
    pub proposal_id: BlockId,
    pub validator_id: ValidatorId,
    pub phase: VotePhase,
}

/// The two sequential voting phases. Both must independently reach quorum
/// before a proposal is finalized.
#[derive(Debug, Clone, PartialEq, Eq, Hash, Structural)]
pub enum VotePhase {
    Precommit,
    Commit,
}

/// The mathematical model of a stored block.
#[verifier::ext_equal]
pub struct BlockModel {
    pub id: Seq<char>,
    pub parent_id: Option<Seq<char>>,
    pub payload: Seq<u8>,
    pub height: u64,
    pub proposer: ValidatorId,
}

/// The mathematical model of one proposal: its block and the set of
/// validators recorded for each phase.
#[verifier::ext_equal]
pub struct ProposalModel {
    pub block: BlockModel,
    pub precommit: Set<ValidatorId>,
    pub commit: Set<ValidatorId>,
}

/// The mathematical model of the whole engine state.
#[verifier::ext_equal]
pub struct EngineModel {
    pub validators: Seq<ValidatorId>,
    pub proposals: Seq<ProposalModel>,
    pub leader: ValidatorId,
    pub finalized: Option<Seq<char>>,
}

impl View for Block {
    type V = BlockModel;

    open spec fn view(&self) -> BlockModel {
        BlockModel {
            id: self.id@,
            parent_id: self.parent_id.deep_view(),
            payload: self.payload@,
            height: self.height,
            proposer: self.proposer,
        }
    }
}

/// The index of the proposal carrying `id`, or `-1` if there is none.
pub open spec fn index_of_id(ps: Seq<ProposalModel>, id: Seq<char>) -> int
    decreases ps.len(),
{
    if ps.len() == 0 {
        -1
    } else if ps[0].block.id == id {
        0
    } else {
        let r = index_of_id(ps.drop_first(), id);
        if r < 0 {
            -1
        } else {
            r + 1
        }
    }
}

/// Whether a ledger entry (and so a block) exists for `id`.
pub open spec fn has_proposal(m: EngineModel, id: Seq<char>) -> bool {
    0 <= index_of_id(m.proposals, id)
}

/// The validators recorded for `phase` on one proposal.
pub open spec fn phase_votes(p: ProposalModel, phase: VotePhase) -> Set<ValidatorId> {
    match phase {
        VotePhase::Precommit => p.precommit,
        VotePhase::Commit => p.commit,
    }
}

/// The validators recorded for `phase` on the proposal carrying `id`;
/// empty if no such proposal exists.
pub open spec fn votes_for(m: EngineModel, id: Seq<char>, phase: VotePhase) -> Set<ValidatorId> {
    let i = index_of_id(m.proposals, id);
    if 0 <= i < m.proposals.len() {
        phase_votes(m.proposals[i], phase)
    } else {
        Set::empty()
    }
}

/// The quorum threshold for `n` validators: a two-thirds-plus-one
/// supermajority, `floor(2n/3) + 1`.
pub open spec fn spec_threshold(n: int) -> int {
    2 * n / 3 + 1
}

/// Whether the proposal carrying `id` has reached quorum in both phases.
pub open spec fn proposal_has_quorum(m: EngineModel, id: Seq<char>) -> bool {
    &&& votes_for(m, id, VotePhase::Precommit).len() >= spec_threshold(m.validators.len() as int)
    &&& votes_for(m, id, VotePhase::Commit).len() >= spec_threshold(m.validators.len() as int)
}

/// One proposal after recording a vote by `v` in `phase`.
pub open spec fn with_vote(p: ProposalModel, v: ValidatorId, phase: VotePhase) -> ProposalModel {
    match phase {
        VotePhase::Precommit => ProposalModel { precommit: p.precommit.insert(v), ..p },
        VotePhase::Commit => ProposalModel { commit: p.commit.insert(v), ..p },
    }
}

/// The engine state after an accepted vote: the validator is added to the
/// phase set of the named proposal, and if that proposal now holds quorum in
/// both phases while nothing is finalized yet, it becomes the finalized block.
pub open spec fn apply_vote(
    m: EngineModel,
    id: Seq<char>,
    v: ValidatorId,
    phase: VotePhase,
) -> EngineModel
    recommends
        has_proposal(m, id),
{
    let i = index_of_id(m.proposals, id);
    let m2 = EngineModel {
        proposals: m.proposals.update(i, with_vote(m.proposals[i], v, phase)),
        ..m
    };
    if m.finalized is None && proposal_has_quorum(m2, id) {
        EngineModel { finalized: Option::Some(id), ..m2 }
    } else {
        m2
    }
}

/// The height a new proposal gets: one above the finalized block, or 0 when
/// nothing is finalized.
pub open spec fn spec_parent_height(m: EngineModel) -> u64 {
    match m.finalized {
        Option::None => 0,
        Option::Some(fid) => {
            let i = index_of_id(m.proposals, fid);
            if 0 <= i {
                (m.proposals[i].block.height + 1) as u64
            } else {
                0
            }
        },
    }
}

/// The identifier `propose` assigns, determined by the current finalized
/// pointer, the payload and the derived height alone.
pub open spec fn spec_propose_id(m: EngineModel, payload: Seq<u8>) -> Seq<char> {
    spec_block_id(m.finalized, payload, spec_parent_height(m))
}

/// The engine state after a proposal: a fresh identifier gets a new block and
/// an empty ledger entry; resubmitting existing content changes nothing, and
/// in particular does not clear the accumulated votes.
pub open spec fn apply_propose(m: EngineModel, payload: Seq<u8>) -> EngineModel {
    let id = spec_propose_id(m, payload);
    if has_proposal(m, id) {
        m
    } else {
        EngineModel {
            proposals: m.proposals.push(
                ProposalModel {
                    block: BlockModel {
                        id: id,
                        parent_id: m.finalized,
                        payload: payload,
                        height: spec_parent_height(m),
                        proposer: m.leader,
                    },
                    precommit: Set::empty(),
                    commit: Set::empty(),
                },
            ),
            ..m
        }
    }
}

/// All proposal identifiers are distinct.
pub open spec fn distinct_ids(ps: Seq<ProposalModel>) -> bool {
    forall|i: int, j: int|
        #![trigger ps[i], ps[j]]
        0 <= i < j < ps.len() ==> ps[i].block.id != ps[j].block.id
}

/// Structural facts about one proposal: finite vote sets drawn from the
/// configured validator set, and a 64-character identifier that is a
/// genuine content digest.
pub open spec fn entry_ok(m: EngineModel, i: int) -> bool {
    &&& m.proposals[i].precommit.finite()
    &&& m.proposals[i].commit.finite()
    &&& m.proposals[i].precommit.subset_of(m.validators.to_set())
    &&& m.proposals[i].commit.subset_of(m.validators.to_set())
    &&& m.proposals[i].block.id.len() == 64
    &&& is_digest(m.proposals[i].block.id)
}

/// The engine invariant: identifiers are distinct, votes come only from
/// configured validators, and the finalized pointer, when set, names a stored
/// proposal that holds quorum in both phases.
pub open spec fn engine_inv(m: EngineModel) -> bool {
    &&& distinct_ids(m.proposals)
    &&& forall|i: int| 0 <= i < m.proposals.len() ==> #[trigger] entry_ok(m, i)
    &&& match m.finalized {
        Option::None => forall|i: int|
            0 <= i < m.proposals.len() ==> (#[trigger] m.proposals[i]).block.height == 0,
        Option::Some(fid) => {
            &&& has_proposal(m, fid)
            &&& proposal_has_quorum(m, fid)
            &&& m.proposals[index_of_id(m.proposals, fid)].block.height == 0
        },
    }
}

pub proof fn lemma_index_of_id_props(ps: Seq<ProposalModel>, id: Seq<char>)
    ensures
        0 <= index_of_id(ps, id) ==> index_of_id(ps, id) < ps.len() && ps[index_of_id(
            ps,
            id,
        )].block.id == id,
        0 <= index_of_id(ps, id) ==> forall|j: int|
            0 <= j < index_of_id(ps, id) ==> ps[j].block.id != id,
        index_of_id(ps, id) < 0 ==> forall|j: int| 0 <= j < ps.len() ==> ps[j].block.id != id,
    decreases ps.len(),
{
    if ps.len() != 0 && ps[0].block.id != id {
        lemma_index_of_id_props(ps.drop_first(), id);
        let r = index_of_id(ps.drop_first(), id);
        if r < 0 {
            assert forall|j: int| 0 <= j < ps.len() implies ps[j].block.id != id by {
                if j > 0 {
                    assert(ps.drop_first()[j - 1] == ps[j]);
                }
            }
        } else {
            assert forall|j: int| 0 <= j < r + 1 implies ps[j].block.id != id by {
                if j > 0 {
                    assert(ps.drop_first()[j - 1] == ps[j]);
                }
            }
        }
    }
}

pub proof fn lemma_index_of_id_found(ps: Seq<ProposalModel>, id: Seq<char>, i: int)
    requires
        0 <= i < ps.len(),
        ps[i].block.id == id,
        forall|j: int| 0 <= j < i ==> ps[j].block.id != id,
    ensures
        index_of_id(ps, id) == i,
    decreases ps.len(),
{
    if i != 0 {
        assert(ps[0].block.id != id);
        assert(forall|j: int|
            0 <= j < ps.drop_first().len() ==> ps.drop_first()[j] == ps[j + 1]);
        lemma_index_of_id_found(ps.drop_first(), id, i - 1);
    }
}

pub proof fn lemma_index_of_id_same_ids(ps1: Seq<ProposalModel>, ps2: Seq<ProposalModel>, id: Seq<
    char,
>)
    requires
        ps1.len() == ps2.len(),
        forall|j: int| 0 <= j < ps1.len() ==> ps1[j].block.id == ps2[j].block.id,
    ensures
        index_of_id(ps1, id) == index_of_id(ps2, id),
    decreases ps1.len(),
{
    if ps1.len() != 0 {
        assert(forall|j: int|
            0 <= j < ps1.drop_first().len() ==> ps1.drop_first()[j] == ps1[j + 1]);
        assert(forall|j: int|
            0 <= j < ps2.drop_first().len() ==> ps2.drop_first()[j] == ps2[j + 1]);
        lemma_index_of_id_same_ids(ps1.drop_first(), ps2.drop_first(), id);
    }
}

proof fn lemma_insert_len_ge(s: Set<ValidatorId>, v: ValidatorId)
    requires
        s.finite(),
    ensures
        s.insert(v).len() >= s.len(),
{
    if s.contains(v) {
        assert(s.insert(v) =~= s);
    }
}

proof fn lemma_push_no_duplicates(s: Seq<ValidatorId>, x: ValidatorId)
    requires
        s.no_duplicates(),
        !s.contains(x),
    ensures
        s.push(x).no_duplicates(),
{
    assert forall|a: int, b: int|
        0 <= a < s.push(x).len() && 0 <= b < s.push(x).len() && a != b implies s.push(x)[a]
        != s.push(x)[b] by {
        if b == s.len() {
            assert(s.push(x)[b] == x);
            if a < s.len() {
                assert(s.push(x)[a] == s[a]);
            }
        } else if a == s.len() {
            assert(s.push(x)[a] == x);
            assert(s.push(x)[b] == s[b]);
        } else {
            assert(s.push(x)[a] == s[a]);
            assert(s.push(x)[b] == s[b]);
        }
    }
}

proof fn lemma_empty_to_set()
    ensures
        Seq::<ValidatorId>::empty().to_set() =~= Set::<ValidatorId>::empty(),
{
}

/// Casting the same `(validator, phase, proposal)` vote twice leaves the
/// engine state identical to casting it once.
pub proof fn lemma_vote_idempotent(m: EngineModel, id: Seq<char>, v: ValidatorId, phase: VotePhase)
    requires
        has_proposal(m, id),
    ensures
        apply_vote(apply_vote(m, id, v, phase), id, v, phase) == apply_vote(m, id, v, phase),
{
    lemma_index_of_id_props(m.proposals, id);
    let i = index_of_id(m.proposals, id);
    let m1 = apply_vote(m, id, v, phase);
    assert(forall|j: int|
        0 <= j < m.proposals.len() ==> m1.proposals[j].block.id == m.proposals[j].block.id);
    lemma_index_of_id_same_ids(m1.proposals, m.proposals, id);
    assert(index_of_id(m1.proposals, id) == i);
    let p1 = m1.proposals[i];
    assert(with_vote(p1, v, phase) =~= p1);
    assert(m1.proposals.update(i, with_vote(p1, v, phase)) =~= m1.proposals);
    let m2i = EngineModel {
        proposals: m1.proposals.update(i, with_vote(p1, v, phase)),
        ..m1
    };
    assert(m2i =~= m1);
    if m1.finalized is None {
        assert(m.finalized is None);
        assert(!proposal_has_quorum(m2i, id));
        assert(apply_vote(m1, id, v, phase) =~= m1);
    } else {
        assert(apply_vote(m1, id, v, phase) =~= m1);
    }
}

/// A vote that does not complete the two-phase quorum never finalizes:
/// with no block finalized, the pointer stays empty unless the voted
/// proposal reaches the threshold in both phases.
pub proof fn lemma_below_threshold_no_finalize(
    m: EngineModel,
    id: Seq<char>,
    v: ValidatorId,
    phase: VotePhase,
)
    requires
        m.finalized is None,
        !proposal_has_quorum(apply_vote(m, id, v, phase), id),
    ensures
        apply_vote(m, id, v, phase).finalized is None,
{
}

/// Proposing identical content twice in a row yields the same identifier,
/// and the second call leaves the state exactly as the first left it.
pub proof fn lemma_propose_idempotent(m: EngineModel, payload: Seq<u8>)
    requires
        engine_inv(m),
    ensures
        spec_propose_id(apply_propose(m, payload), payload) == spec_propose_id(m, payload),
        apply_propose(apply_propose(m, payload), payload) == apply_propose(m, payload),
{
    let id = spec_propose_id(m, payload);
    let m1 = apply_propose(m, payload);
    if !has_proposal(m, id) {
        lemma_index_of_id_props(m.proposals, id);
        let n = m.proposals.len() as int;
        assert(m1.proposals[n].block.id == id);
        assert(forall|j: int| 0 <= j < n ==> m1.proposals[j] == m.proposals[j]);
        match m.finalized {
            Option::None => {
                assert(spec_parent_height(m1) == spec_parent_height(m));
            },
            Option::Some(fid) => {
                let fi = index_of_id(m.proposals, fid);
                lemma_index_of_id_props(m.proposals, fid);
                assert forall|j: int| 0 <= j < fi implies m1.proposals[j].block.id != fid by {
                    assert(m1.proposals[j] == m.proposals[j]);
                }
                lemma_index_of_id_found(m1.proposals, fid, fi);
                assert(spec_parent_height(m1) == spec_parent_height(m));
            },
        }
        assert(spec_propose_id(m1, payload) == id);
        assert forall|j: int| 0 <= j < n implies m1.proposals[j].block.id != id by {
            assert(m.proposals[j].block.id != id);
        }
        lemma_index_of_id_found(m1.proposals, id, n);
        assert(has_proposal(m1, id));
        assert(apply_propose(m1, payload) == m1);
    }
}

/// Once a block is finalized, an accepted vote never moves the pointer.
pub proof fn lemma_finalization_monotonic_vote(
    m: EngineModel,
    id: Seq<char>,
    v: ValidatorId,
    phase: VotePhase,
)
    requires
        m.finalized is Some,
    ensures
        apply_vote(m, id, v, phase).finalized == m.finalized,
{
}

/// Once a block is finalized, a proposal never moves the pointer.
pub proof fn lemma_finalization_monotonic_propose(m: EngineModel, payload: Seq<u8>)
    requires
        m.finalized is Some,
    ensures
        apply_propose(m, payload).finalized == m.finalized,
{
}

/// Under the engine invariant, a set finalized pointer names a stored
/// proposal that holds quorum in both phases.
pub proof fn lemma_finalized_has_quorum(m: EngineModel, fid: Seq<char>)
    requires
        engine_inv(m),
        m.finalized == Option::Some(fid),
    ensures
        has_proposal(m, fid),
        proposal_has_quorum(m, fid),
{
}

/// The identifier a proposal gets depends on the finalized parent, the
/// payload and the derived height alone: two engines that agree on those
/// assign the same identifier.
pub proof fn lemma_propose_deterministic(m1: EngineModel, m2: EngineModel, payload: Seq<u8>)
    requires
        m1.finalized == m2.finalized,
        spec_parent_height(m1) == spec_parent_height(m2),
    ensures
        spec_propose_id(m1, payload) == spec_propose_id(m2, payload),
{
}

/// The consensus engine: the fixed validator set, the block store, the vote
/// ledger, the fixed leader and the one-time finalized pointer.
#[derive(Debug)]
pub struct Consensus {
    validators: Vec<ValidatorId>,
    blocks: Vec<Block>,
    ledger: Vec<LedgerEntry>,
    leader: ValidatorId,
    finalized_block: Option<BlockId>,
}

/// The per-proposal vote ledger: the validators recorded for each phase,
/// each kept free of duplicates.
#[derive(Debug)]
struct LedgerEntry {
    precommit: Vec<ValidatorId>,
    commit: Vec<ValidatorId>,
}

impl View for Consensus {
    type V = EngineModel;

    closed spec fn view(&self) -> EngineModel {
        EngineModel {
            validators: self.validators@,
            proposals: Seq::new(
                self.blocks@.len(),
                |i: int|
                    ProposalModel {
                        block: self.blocks@[i]@,
                        precommit: self.ledger@[i].precommit@.to_set(),
                        commit: self.ledger@[i].commit@.to_set(),
                    },
            ),
            leader: self.leader,
            finalized: self.finalized_block.deep_view(),
        }
    }
}

/// Returns whether `x` occurs in `v`.
fn vec_contains(v: &Vec<ValidatorId>, x: ValidatorId) -> (r: bool)
    ensures
        r == v@.contains(x),
{
    let mut k: usize = 0;
    let mut found = false;
    while k < v.len()
        invariant
            k <= v.len(),
            found <==> exists|j: int| 0 <= j < k && v@[j] == x,
        decreases v.len() - k,
    {
        if v[k] == x {
            found = true;
        }
        k = k + 1;
    }
    found
}

/// Computes the quorum threshold `floor(2n/3) + 1` without overflow.
pub fn quorum_threshold(n: usize) -> (t: usize)
    ensures
        t == spec_threshold(n as int),
{
    let q: usize = n / 3;
    let r: usize = n % 3;
    let t: usize = if r == 2 {
        2 * q + 2
    } else {
        2 * q + 1
    };
    proof {
        assert(t == spec_threshold(n as int)) by (nonlinear_arith)
            requires
                q == n as int / 3,
                r == n as int % 3,
                t == if r == 2 {
                    2 * q + 2
                } else {
                    2 * q + 1
                },
        ;
    }
    t
}

impl Consensus {
    /// Well-formedness: the ledger runs parallel to the block store, recorded
    /// voter lists carry no duplicates, and the model invariant holds.
    pub closed spec fn wf(&self) -> bool {
        &&& self.ledger@.len() == self.blocks@.len()
        &&& forall|i: int|
            0 <= i < self.ledger@.len() ==> (#[trigger] self.ledger@[i]).precommit@.no_duplicates()
                && self.ledger@[i].commit@.no_duplicates()
        &&& engine_inv(self@)
    }

    /// A well-formed engine satisfies the model invariant.
    pub proof fn lemma_wf_inv(&self)
        requires
            self.wf(),
        ensures
            engine_inv(self@),
    {
    }

    /// Creates an engine over the given validator set. The leader is fixed to
    /// the first validator (0 when the set is empty) and never rotates.
    pub fn new(validators: Vec<ValidatorId>) -> (c: Consensus)
        ensures
            c.wf(),
            c@.validators == validators@,
            c@.proposals.len() == 0,
            c@.leader == (if validators@.len() == 0 {
                0
            } else {
                validators@[0]
            }),
            c@.finalized is None,
    {
        let leader = if validators.is_empty() {
            0
        } else {
            validators[0]
        };
        Consensus {
            validators,
            blocks: Vec::new(),
            ledger: Vec::new(),
            leader,
            finalized_block: Option::None,
        }
    }

    /// Finds the index of the proposal carrying `id`, if any.
    fn find_proposal(&self, id: &String) -> (r: Option<usize>)
        ensures
            match r {
                Option::Some(i) => i as int == index_of_id(self@.proposals, id@) && (i as int)
                    < self@.proposals.len(),
                Option::None => index_of_id(self@.proposals, id@) < 0,
            },
    {
        let n = self.blocks.len();
        let mut k: usize = 0;
        while k < n
            invariant
                k <= n,
                n == self.blocks@.len(),
                forall|j: int| 0 <= j < k ==> self@.proposals[j].block.id != id@,
            decreases n - k,
        {
            if self.blocks[k].id == *id {
                proof {
                    assert(self@.proposals[k as int].block.id == id@);
                    lemma_index_of_id_found(self@.proposals, id@, k as int);
                }
                return Option::Some(k);
            }
            k = k + 1;
        }
        proof {
            lemma_index_of_id_props(self@.proposals, id@);
        }
        Option::None
    }

    /// Records a vote by `validator_id` in `phase` on the proposal at `i`;
    /// a repeated vote changes nothing.
    fn record_vote(&mut self, i: usize, validator_id: ValidatorId, phase: VotePhase)
        requires
            old(self).wf(),
            (i as int) < old(self)@.proposals.len(),
            old(self)@.validators.contains(validator_id),
        ensures
            final(self).wf(),
            final(self)@ == (EngineModel {
                proposals: old(self)@.proposals.update(
                    i as int,
                    with_vote(old(self)@.proposals[i as int], validator_id, phase),
                ),
                ..old(self)@
            }),
    {
        let ghost m0 = self@;
        match phase {
            VotePhase::Precommit => {
                let present = vec_contains(&self.ledger[i].precommit, validator_id);
                if !present {
                    proof {
                        lemma_push_no_duplicates(
                            self.ledger@[i as int].precommit@,
                            validator_id,
                        );
                        self.ledger@[i as int].precommit@.lemma_push_to_set_commute(validator_id);
                    }
                    self.ledger[i].precommit.push(validator_id);
                } else {
                    proof {
                        assert(m0.proposals[i as int].precommit.insert(validator_id)
                            =~= m0.proposals[i as int].precommit);
                    }
                }
            },
            VotePhase::Commit => {
                let present = vec_contains(&self.ledger[i].commit, validator_id);
                if !present {
                    proof {
                        lemma_push_no_duplicates(self.ledger@[i as int].commit@, validator_id);
                        self.ledger@[i as int].commit@.lemma_push_to_set_commute(validator_id);
                    }
                    self.ledger[i].commit.push(validator_id);
                } else {
                    proof {
                        assert(m0.proposals[i as int].commit.insert(validator_id)
                            =~= m0.proposals[i as int].commit);
                    }
                }
            },
        }
        proof {
            let mt = EngineModel {
                proposals: m0.proposals.update(
                    i as int,
                    with_vote(m0.proposals[i as int], validator_id, phase),
                ),
                ..m0
            };
            assert(self@.proposals =~= mt.proposals);
            assert(self@ =~= mt);
            self.lemma_record_vote_wf(m0, i as int, validator_id, phase);
        }
    }

    /// The vote-recording step preserves well-formedness.
    proof fn lemma_record_vote_wf(
        &self,
        m0: EngineModel,
        i: int,
        validator_id: ValidatorId,
        phase: VotePhase,
    )
        requires
            0 <= i < m0.proposals.len(),
            engine_inv(m0),
            m0.validators.contains(validator_id),
            self.ledger@.len() == self.blocks@.len(),
            forall|j: int|
                0 <= j < self.ledger@.len() ==> (
                #[trigger] self.ledger@[j]).precommit@.no_duplicates()
                    && self.ledger@[j].commit@.no_duplicates(),
            self@ == (EngineModel {
                proposals: m0.proposals.update(
                    i,
                    with_vote(m0.proposals[i], validator_id, phase),
                ),
                ..m0
            }),
        ensures
            self.wf(),
    {
        let m1 = self@;
        assert(forall|j: int|
            0 <= j < m0.proposals.len() ==> m1.proposals[j].block == m0.proposals[j].block);
        assert(forall|j: int| 0 <= j < m0.proposals.len() && j != i ==> m1.proposals[j]
            == m0.proposals[j]);
        assert(m0.validators.to_set().contains(validator_id));
        assert forall|a: int, b: int|
            #![trigger m1.proposals[a], m1.proposals[b]]
            0 <= a < b < m1.proposals.len() implies m1.proposals[a].block.id
            != m1.proposals[b].block.id by {
            assert(m0.proposals[a].block.id != m0.proposals[b].block.id);
        }
        assert forall|j: int| 0 <= j < m1.proposals.len() implies #[trigger] entry_ok(m1, j) by {
            assert(entry_ok(m0, j));
        }
        match m1.finalized {
            Option::None => {
                assert forall|j: int|
                    0 <= j < m1.proposals.len() implies (
                #[trigger] m1.proposals[j]).block.height == 0 by {
                    assert(m0.proposals[j].block.height == 0);
                }
            },
            Option::Some(fid) => {
                lemma_index_of_id_same_ids(m0.proposals, m1.proposals, fid);
                let fi = index_of_id(m0.proposals, fid);
                assert(entry_ok(m0, fi));
                lemma_insert_len_ge(m0.proposals[fi].precommit, validator_id);
                lemma_insert_len_ge(m0.proposals[fi].commit, validator_id);
                assert(votes_for(m1, fid, VotePhase::Precommit).len() >= votes_for(
                    m0,
                    fid,
                    VotePhase::Precommit,
                ).len());
                assert(votes_for(m1, fid, VotePhase::Commit).len() >= votes_for(
                    m0,
                    fid,
                    VotePhase::Commit,
                ).len());
            },
        }
    }

    /// Evaluates quorum: whether the proposal carrying `proposal_id`
    /// currently holds the two-phase supermajority.
    pub fn satisfies_quorum(&self, proposal_id: &BlockId) -> (r: bool)
        requires
            self.wf(),
        ensures
            r == proposal_has_quorum(self@, proposal_id@),
            r ==> has_proposal(self@, proposal_id@),
    {
        let ghost m0 = self@;
        let idx = self.find_proposal(proposal_id);
        match idx {
            Option::None => {
                proof {
                    assert(spec_threshold(m0.validators.len() as int) >= 1);
                    assert(votes_for(m0, proposal_id@, VotePhase::Precommit) =~= Set::empty());
                    assert(Set::<ValidatorId>::empty().len() == 0);
                    assert(!proposal_has_quorum(m0, proposal_id@));
                }
                false
            },
            Option::Some(i) => {
                let t = quorum_threshold(self.validators.len());
                let pre_n = self.ledger[i].precommit.len();
                let com_n = self.ledger[i].commit.len();
                proof {
                    self.ledger@[i as int].precommit@.unique_seq_to_set();
                    self.ledger@[i as int].commit@.unique_seq_to_set();
                    assert(votes_for(m0, proposal_id@, VotePhase::Precommit) == self@.proposals[
                        i as int].precommit);
                    assert(votes_for(m0, proposal_id@, VotePhase::Commit) == self@.proposals[
                        i as int].commit);
                }
                pre_n >= t && com_n >= t
            },
        }
    }

    /// Sets the finalized pointer to `proposal_id` if nothing is finalized
    /// yet and that proposal holds quorum in both phases; reports whether
    /// this call performed the transition.
    fn try_finalize(&mut self, proposal_id: &BlockId) -> (r: bool)
        requires
            old(self).wf(),
        ensures
            final(self).wf(),
            ({
                let m = old(self)@;
                if m.finalized is None && proposal_has_quorum(m, proposal_id@) && has_proposal(
                    m,
                    proposal_id@,
                ) {
                    r == true && final(self)@ == (EngineModel {
                        finalized: Option::Some(proposal_id@),
                        ..m
                    })
                } else {
                    r == false && final(self)@ == m
                }
            }),
    {
        let ghost m0 = self@;
        let quorum = self.satisfies_quorum(proposal_id);
        if self.finalized_block.is_none() && quorum {
            proof {
                lemma_index_of_id_props(m0.proposals, proposal_id@);
            }
            self.finalized_block = Option::Some(proposal_id.clone());
            proof {
                let m1 = self@;
                assert(m1 =~= (EngineModel { finalized: Option::Some(proposal_id@), ..m0 }));
                assert(m1.proposals == m0.proposals);
                assert(has_proposal(m1, proposal_id@));
                assert(m1.proposals[index_of_id(m1.proposals, proposal_id@)].block.height == 0);
                assert forall|j: int| 0 <= j < m1.proposals.len() implies #[trigger] entry_ok(
                    m1,
                    j,
                ) by {
                    assert(entry_ok(m0, j));
                }
            }
            true
        } else {
            proof {
                assert forall|j: int|
                    0 <= j < self@.proposals.len() implies #[trigger] entry_ok(self@, j) by {
                    assert(entry_ok(m0, j));
                }
            }
            false
        }
    }

    /// Looks up a stored block by identifier; absence is a normal,
    /// non-fatal outcome.
    pub fn get_block(&self, id: &BlockId) -> (r: Option<&Block>)
        ensures
            match r {
                Option::Some(b) => has_proposal(self@, id@) && b@ == self@.proposals[index_of_id(
                    self@.proposals,
                    id@,
                )].block,
                Option::None => !has_proposal(self@, id@),
            },
    {
        match self.find_proposal(id) {
            Option::Some(i) => Option::Some(&self.blocks[i]),
            Option::None => Option::None,
        }
    }

    /// Creates a block for `payload` on top of the finalized chain tip,
    /// stores it with an empty ledger entry, and returns its identifier.
    /// Resubmitting identical content returns the existing identifier and
    /// leaves the accumulated votes untouched.
    pub fn propose(&mut self, payload: Bytes) -> (id: BlockId)
        requires
            old(self).wf(),
        ensures
            final(self).wf(),
            id@ == spec_propose_id(old(self)@, payload@),
            id@.len() == 64,
            final(self)@ == apply_propose(old(self)@, payload@),
            old(self)@.finalized is Some ==> final(self)@.finalized == old(self)@.finalized,
    {
        let ghost m0 = self@;
        let ghost pv = payload@;
        let parent_id: Option<String> = match &self.finalized_block {
            Option::None => Option::None,
            Option::Some(s) => Option::Some(s.clone()),
        };
        proof {
            assert(parent_id.deep_view() == m0.finalized);
        }
        let height: u64 = match &self.finalized_block {
            Option::None => 0,
            Option::Some(fid) => {
                let idx = self.find_proposal(fid);
                match idx {
                    Option::Some(i) => self.blocks[i].height + 1,
                    Option::None => 0,
                }
            },
        };
        proof {
            assert(height == spec_parent_height(m0));
        }
        let id = block_id_for(&parent_id, &payload, height);
        let existing = self.find_proposal(&id);
        match existing {
            Option::Some(_) => {
                proof {
                    assert(has_proposal(m0, id@));
                    assert(self@ =~= apply_propose(m0, payload@));
                }
                id
            },
            Option::None => {
                proof {
                    lemma_index_of_id_props(m0.proposals, id@);
                }
                let block = Block {
                    id: id.clone(),
                    parent_id,
                    payload,
                    height,
                    proposer: self.leader,
                };
                self.blocks.push(block);
                self.ledger.push(LedgerEntry { precommit: Vec::new(), commit: Vec::new() });
                proof {
                    lemma_empty_to_set();
                    assert(self@.proposals =~= apply_propose(m0, pv).proposals);
                    assert(self@ =~= apply_propose(m0, pv));
                    assert(id@ == digest_of(
                        spec_encode_block_content(m0.finalized, pv, spec_parent_height(m0)),
                    ));
                    assert(is_digest(id@));
                    self.lemma_propose_wf(m0, id@);
                }
                id
            },
        }
    }

    /// Pushing a fresh proposal preserves well-formedness.
    proof fn lemma_propose_wf(&self, m0: EngineModel, id: Seq<char>)
        requires
            engine_inv(m0),
            index_of_id(m0.proposals, id) < 0,
            self.ledger@.len() == self.blocks@.len(),
            forall|j: int|
                0 <= j < self.ledger@.len() ==> (
                #[trigger] self.ledger@[j]).precommit@.no_duplicates()
                    && self.ledger@[j].commit@.no_duplicates(),
            self@.proposals.len() == m0.proposals.len() + 1,
            forall|j: int| 0 <= j < m0.proposals.len() ==> self@.proposals[j] == m0.proposals[j],
            self@.proposals[m0.proposals.len() as int].block.id == id,
            self@.proposals[m0.proposals.len() as int].block.id.len() == 64,
            is_digest(id),
            self@.proposals[m0.proposals.len() as int].block.height == spec_parent_height(m0),
            self@.proposals[m0.proposals.len() as int].precommit == Set::<ValidatorId>::empty(),
            self@.proposals[m0.proposals.len() as int].commit == Set::<ValidatorId>::empty(),
            self@.validators == m0.validators,
            self@.finalized == m0.finalized,
        ensures
            self.wf(),
    {
        let m1 = self@;
        let n = m0.proposals.len() as int;
        lemma_index_of_id_props(m0.proposals, id);
        assert forall|a: int, b: int|
            #![trigger m1.proposals[a], m1.proposals[b]]
            0 <= a < b < m1.proposals.len() implies m1.proposals[a].block.id
            != m1.proposals[b].block.id by {
            if b < n {
                assert(m0.proposals[a].block.id != m0.proposals[b].block.id);
            } else {
                assert(m1.proposals[a] == m0.proposals[a]);
                assert(m0.proposals[a].block.id != id);
            }
        }
        assert forall|j: int| 0 <= j < m1.proposals.len() implies #[trigger] entry_ok(m1, j) by {
            if j < n {
                assert(entry_ok(m0, j));
            } else {
                assert(Set::<ValidatorId>::empty().finite());
                assert(Set::<ValidatorId>::empty().subset_of(m1.validators.to_set()));
            }
        }
        match m1.finalized {
            Option::None => {
                assert forall|j: int|
                    0 <= j < m1.proposals.len() implies (
                #[trigger] m1.proposals[j]).block.height == 0 by {
                    if j < n {
                        assert(m0.proposals[j].block.height == 0);
                    }
                }
            },
            Option::Some(fid) => {
                let fi = index_of_id(m0.proposals, fid);
                lemma_index_of_id_props(m0.proposals, fid);
                assert forall|j: int| 0 <= j < fi implies m1.proposals[j].block.id != fid by {
                    assert(m1.proposals[j] == m0.proposals[j]);
                }
                lemma_index_of_id_found(m1.proposals, fid, fi);
                assert(votes_for(m1, fid, VotePhase::Precommit) == votes_for(
                    m0,
                    fid,
                    VotePhase::Precommit,
                ));
                assert(votes_for(m1, fid, VotePhase::Commit) == votes_for(
                    m0,
                    fid,
                    VotePhase::Commit,
                ));
            },
        }
    }

    /// Records a vote and evaluates quorum in one step. Returns
    /// `(accepted, finalized_now)`: `accepted` is false, with no state
    /// change, when the validator is outside the configured set or the
    /// proposal is unknown; `finalized_now` says whether this very call
    /// performed the one-time finalization transition.
    pub fn vote(&mut self, proposal_id: BlockId, validator_id: ValidatorId, phase: VotePhase) -> (r:
        (bool, bool))
        requires
            old(self).wf(),
        ensures
            final(self).wf(),
            r.0 == (old(self)@.validators.contains(validator_id) && has_proposal(
                old(self)@,
                proposal_id@,
            )),
            !r.0 ==> final(self)@ == old(self)@ && !r.1,
            r.0 ==> final(self)@ == apply_vote(old(self)@, proposal_id@, validator_id, phase),
            r.1 == (old(self)@.finalized is None && final(self)@.finalized is Some),
            old(self)@.finalized is Some ==> final(self)@.finalized == old(self)@.finalized,
    {
        let ghost m0 = self@;
        let is_member = vec_contains(&self.validators, validator_id);
        if !is_member {
            return (false, false);
        }
        let idx = self.find_proposal(&proposal_id);
        let i = match idx {
            Option::None => {
                return (false, false);
            },
            Option::Some(i) => i,
        };
        self.record_vote(i, validator_id, phase);
        let ghost m_mid = self@;
        let fin = self.try_finalize(&proposal_id);
        proof {
            lemma_index_of_id_same_ids(m0.proposals, m_mid.proposals, proposal_id@);
            assert(m_mid.finalized == m0.finalized);
            if m0.finalized is None && proposal_has_quorum(m_mid, proposal_id@) {
                assert(self@ =~= apply_vote(m0, proposal_id@, validator_id, phase));
            } else {
                assert(self@ =~= apply_vote(m0, proposal_id@, validator_id, phase));
            }
        }
        (true, fin)
    }

    /// Reads the finalized pointer; no side effects.
    pub fn finalize(&self) -> (r: Option<BlockId>)
        ensures
            r.deep_view() == self@.finalized,
    {
        match &self.finalized_block {
            Option::None => Option::None,
            Option::Some(s) => Option::Some(s.clone()),
        }
    }

    /// The round-robin leader candidate for `round`: informational only, the
    /// engine's actual proposer stays the leader fixed at construction.
    pub fn get_leader(&self, round: u64) -> (r: ValidatorId)
        requires
            self@.validators.len() > 0,
        ensures
            r == self@.validators[(round as usize) as int % self@.validators.len() as int],
    {
        self.validators[(round as usize) % self.validators.len()]
    }

    /// The configured validator set, in order.
    pub fn get_validators(&self) -> (r: &[ValidatorId])
        ensures
            r@ == self@.validators,
    {
        self.validators.as_slice()
    }
}

} // verus!

