//! The three-set claim protocol of the queue coordinator.
//!
//! Each logical channel owns three named sets of keys in the shared store:
//! `pending` (delivered, awaiting work), `processing` (holding an active
//! claim) and `done` (completed attempts). The store's atomic set-add is the
//! only synchronization primitive: a claim succeeds exactly when the add into
//! `processing` actually inserts a new member, which converts an
//! at-least-once delivery channel into a single active claim per key.
//!
//! Per key, the protocol's transitions are:
//! unseen -> pending (producer insert); pending -> processing (claim);
//! processing -> done, removed from pending and processing (completed
//! attempt); processing -> pending only (failed attempt, released and
//! reclaimable).

use vstd::prelude::*;

use crate::keys::encode_key;
use crate::keys::key_of;
use crate::store::seq_has_key;
use crate::store::KeySet;

verus! {

/// The mathematical state of one channel's queue: which keys are pending,
/// which hold an active claim, and which are recorded done.
#[verifier::ext_equal]
pub struct QueueView {
    pub pending: Set<Seq<char>>,
    pub processing: Set<Seq<char>>,
    pub done: Set<Seq<char>>,
}

/// Producer insert: the key joins `pending`; set semantics deduplicate.
pub open spec fn insert_pending_spec(q: QueueView, key: Seq<char>) -> QueueView {
    QueueView { pending: q.pending.insert(key), processing: q.processing, done: q.done }
}

/// A claim of `key` can succeed exactly while no active claim holds it.
pub open spec fn claim_allowed(q: QueueView, key: Seq<char>) -> bool {
    !q.processing.contains(key)
}

/// Successful claim: the key joins `processing` (and stays in `pending`).
pub open spec fn claim_spec(q: QueueView, key: Seq<char>) -> QueueView {
    QueueView { pending: q.pending, processing: q.processing.insert(key), done: q.done }
}

/// Failed attempt: the claim is released; the key stays pending, reclaimable.
pub open spec fn release_spec(q: QueueView, key: Seq<char>) -> QueueView {
    QueueView { pending: q.pending, processing: q.processing.remove(key), done: q.done }
}

/// Completed attempt: the key is recorded done and leaves both other sets.
pub open spec fn complete_spec(q: QueueView, key: Seq<char>) -> QueueView {
    QueueView {
        pending: q.pending.remove(key),
        processing: q.processing.remove(key),
        done: q.done.insert(key),
    }
}

/// The keys open to a new claim: `pending` minus `processing`.
pub open spec fn claimable_spec(q: QueueView) -> Set<Seq<char>> {
    q.pending.difference(q.processing)
}

/// One channel's queue state, backed by the three named sets.
pub struct ChannelQueue {
    pending: KeySet,
    processing: KeySet,
    done: KeySet,
}

impl View for ChannelQueue {
    type V = QueueView;

    closed spec fn view(&self) -> QueueView {
        QueueView { pending: self.pending@, processing: self.processing@, done: self.done@ }
    }
}

impl ChannelQueue {
    pub closed spec fn wf(&self) -> bool {
        self.pending.wf() && self.processing.wf() && self.done.wf()
    }

    /// A channel whose three sets are empty, as the store creates them
    /// implicitly on first use.
    pub fn new() -> (q: ChannelQueue)
        ensures
            q.wf(),
            q@.pending == Set::<Seq<char>>::empty(),
            q@.processing == Set::<Seq<char>>::empty(),
            q@.done == Set::<Seq<char>>::empty(),
    {
        ChannelQueue { pending: KeySet::new(), processing: KeySet::new(), done: KeySet::new() }
    }

    /// Producer step: encodes the payload and adds its key to `pending`.
    /// Returns whether the key was newly inserted; `false` reports the
    /// deduplication of a payload already queued.
    pub fn insert_pending(&mut self, payload: &String) -> (newly: bool)
        requires
            old(self).wf(),
        ensures
            final(self).wf(),
            final(self)@ == insert_pending_spec(old(self)@, key_of(payload@)),
            newly == !old(self)@.pending.contains(key_of(payload@)),
    {
        let key = encode_key(payload);
        let newly = self.pending.add(&key);
        proof {
            assert(self@ =~= insert_pending_spec(old(self)@, key_of(payload@)));
        }
        newly
    }

    /// The single synchronization point: atomically adds `key` to
    /// `processing`. The add that actually inserts a new member is the one
    /// successful claim; every other attempt on the same unresolved key
    /// reports `false`.
    pub fn try_claim(&mut self, key: &String) -> (claimed: bool)
        requires
            old(self).wf(),
        ensures
            final(self).wf(),
            claimed == claim_allowed(old(self)@, key@),
            final(self)@ == claim_spec(old(self)@, key@),
            !claimed ==> final(self)@ == old(self)@,
    {
        let claimed = self.processing.add(key);
        proof {
            assert(self@ =~= claim_spec(old(self)@, key@));
            if !claimed {
                assert(self@ =~= old(self)@);
            }
        }
        claimed
    }

    /// Records a failed attempt: the key's claim is released while the key
    /// stays in `pending`, so the next polling cycle can reclaim it.
    pub fn release(&mut self, key: &String)
        requires
            old(self).wf(),
        ensures
            final(self).wf(),
            final(self)@ == release_spec(old(self)@, key@),
    {
        self.processing.remove(key);
        proof {
            assert(self@ =~= release_spec(old(self)@, key@));
        }
    }

    /// Records a completed attempt: the key joins `done` and leaves `pending`
    /// and `processing`. Outcomes arrive only for claimed keys, so the key
    /// must hold an active claim.
    pub fn complete(&mut self, key: &String)
        requires
            old(self).wf(),
            old(self)@.processing.contains(key@),
        ensures
            final(self).wf(),
            final(self)@ == complete_spec(old(self)@, key@),
    {
        let _ = self.done.add(key);
        self.pending.remove(key);
        self.processing.remove(key);
        proof {
            assert(self@ =~= complete_spec(old(self)@, key@));
        }
    }

    /// The claimable set `pending \ processing`, each key exactly once, in no
    /// promised order.
    pub fn claimable(&self) -> (r: Vec<String>)
        requires
            self.wf(),
        ensures
            forall|i: int|
                0 <= i < r@.len() ==> claimable_spec(self@).contains(#[trigger] r@[i]@),
            forall|k: Seq<char>| claimable_spec(self@).contains(k) ==> seq_has_key(r@, k),
            forall|i: int, j: int| 0 <= i < j < r@.len() ==> r@[i]@ != r@[j]@,
    {
        self.pending.diff(&self.processing)
    }

    /// Membership in `pending`.
    pub fn is_pending(&self, key: &String) -> (r: bool)
        ensures
            r == self@.pending.contains(key@),
    {
        self.pending.contains_key(key)
    }

    /// Membership in `processing`.
    pub fn is_processing(&self, key: &String) -> (r: bool)
        ensures
            r == self@.processing.contains(key@),
    {
        self.processing.contains_key(key)
    }

    /// Membership in `done`.
    pub fn is_done(&self, key: &String) -> (r: bool)
        ensures
            r == self@.done.contains(key@),
    {
        self.done.contains_key(key)
    }
}

/// One protocol step, named by the key it touches.
pub enum QueueOp {
    InsertPending(Seq<char>),
    Claim(Seq<char>),
    Release(Seq<char>),
    Complete(Seq<char>),
}

/// The state a step leads to.
pub open spec fn apply_op(q: QueueView, op: QueueOp) -> QueueView {
    match op {
        QueueOp::InsertPending(k) => insert_pending_spec(q, k),
        QueueOp::Claim(k) => claim_spec(q, k),
        QueueOp::Release(k) => release_spec(q, k),
        QueueOp::Complete(k) => complete_spec(q, k),
    }
}

/// The state a trace of steps leads to.
pub open spec fn apply_ops(q: QueueView, ops: Seq<QueueOp>) -> QueueView
    decreases ops.len(),
{
    if ops.len() == 0 {
        q
    } else {
        apply_ops(apply_op(q, ops[0]), ops.drop_first())
    }
}

/// Holds when the step removes `key`'s active claim.
pub open spec fn resolves(op: QueueOp, key: Seq<char>) -> bool {
    match op {
        QueueOp::Release(k) => k == key,
        QueueOp::Complete(k) => k == key,
        _ => false,
    }
}

/// Holds when the step respects the protocol in `q`: an attempt completes
/// only while its key holds an active claim.
pub open spec fn op_enabled(q: QueueView, op: QueueOp) -> bool {
    match op {
        QueueOp::Complete(k) => q.processing.contains(k),
        _ => true,
    }
}

/// Holds when every step of the trace respects the protocol in the state it
/// runs from.
pub open spec fn trace_enabled(q: QueueView, ops: Seq<QueueOp>) -> bool
    decreases ops.len(),
{
    ops.len() == 0
        || (op_enabled(q, ops[0]) && trace_enabled(apply_op(q, ops[0]), ops.drop_first()))
}

/// Dedup law: a payload's key is a function of its text alone, so two
/// deliveries of the same payload insert the same key, and the second insert
/// leaves the pending set exactly as the first left it — one member stands
/// for the payload, however often it was delivered before a claim.
pub proof fn lemma_insert_dedup(q: QueueView, key: Seq<char>)
    ensures
        insert_pending_spec(insert_pending_spec(q, key), key) == insert_pending_spec(q, key),
        insert_pending_spec(q, key).pending.contains(key),
{
    assert(insert_pending_spec(insert_pending_spec(q, key), key) =~= insert_pending_spec(q, key));
}

/// An active claim on `key` survives every protocol step that neither
/// releases nor completes `key`.
pub proof fn lemma_claim_persists(q: QueueView, key: Seq<char>, ops: Seq<QueueOp>)
    requires
        q.processing.contains(key),
        forall|i: int| 0 <= i < ops.len() ==> !resolves(#[trigger] ops[i], key),
    ensures
        apply_ops(q, ops).processing.contains(key),
    decreases ops.len(),
{
    if ops.len() > 0 {
        let q1 = apply_op(q, ops[0]);
        assert(!resolves(ops[0], key));
        assert(q1.processing.contains(key));
        assert(forall|i: int|
            0 <= i < ops.drop_first().len() ==> !resolves(#[trigger] ops.drop_first()[i], key));
        lemma_claim_persists(q1, key, ops.drop_first());
    }
}

/// No double claim: a claim of `key` succeeds only while `key` holds no
/// active claim, and a successful claim installs one that only a release or a
/// completion of `key` removes. Across any number of claim attempts on an
/// unresolved key, at most one add into `processing` actually inserts.
pub proof fn lemma_no_double_claim(q: QueueView, key: Seq<char>, ops: Seq<QueueOp>)
    requires
        claim_allowed(q, key),
        forall|i: int| 0 <= i < ops.len() ==> !resolves(#[trigger] ops[i], key),
    ensures
        claim_spec(q, key).processing.contains(key),
        !claim_allowed(claim_spec(q, key), key),
        !claim_allowed(apply_ops(claim_spec(q, key), ops), key),
{
    lemma_claim_persists(claim_spec(q, key), key, ops);
}

/// Release-and-retry law: after a claimed pending key's attempt fails and the
/// claim is released, the key is out of `processing`, still in `pending`, and
/// therefore claimable on the next polling cycle; the done set is untouched.
pub proof fn lemma_release_retry(q: QueueView, key: Seq<char>)
    requires
        q.pending.contains(key),
    ensures
        !release_spec(q, key).processing.contains(key),
        release_spec(q, key).pending.contains(key),
        claimable_spec(release_spec(q, key)).contains(key),
        release_spec(q, key).done == q.done,
{
}

/// Completion law, local part: the step that records a key done also removes
/// it from `pending` and `processing`, so a key that just reached `done` is
/// absent from both.
pub proof fn lemma_complete_clears(q: QueueView, key: Seq<char>)
    ensures
        complete_spec(q, key).done.contains(key),
        !complete_spec(q, key).pending.contains(key),
        !complete_spec(q, key).processing.contains(key),
{
}

/// Completion law, trace part: along any protocol trace, a key found done at
/// the end and not done at the start was completed by some step, and at that
/// step the key held an active claim — a key reaches `done` only after having
/// been a member of `processing`.
pub proof fn lemma_done_only_after_processing(q: QueueView, ops: Seq<QueueOp>, key: Seq<char>)
    requires
        trace_enabled(q, ops),
        !q.done.contains(key),
        apply_ops(q, ops).done.contains(key),
    ensures
        exists|i: int|
            0 <= i < ops.len() && #[trigger] ops[i] == QueueOp::Complete(key)
                && apply_ops(q, ops.take(i)).processing.contains(key),
    decreases ops.len(),
{
    assert(ops.len() > 0);
    let q1 = apply_op(q, ops[0]);
    if q1.done.contains(key) {
        assert(ops[0] == QueueOp::Complete(key)) by {
            match ops[0] {
                QueueOp::InsertPending(k) => {
                    assert(false);
                },
                QueueOp::Claim(k) => {
                    assert(false);
                },
                QueueOp::Release(k) => {
                    assert(false);
                },
                QueueOp::Complete(k) => {
                    assert(k == key);
                },
            }
        }
        assert(ops.take(0) =~= Seq::<QueueOp>::empty());
        assert(apply_ops(q, ops.take(0)) == q);
        assert(q.processing.contains(key));
        assert(0 <= 0 < ops.len() && ops[0] == QueueOp::Complete(key)
            && apply_ops(q, ops.take(0)).processing.contains(key));
    } else {
        lemma_done_only_after_processing(q1, ops.drop_first(), key);
        let j = choose|j: int|
            0 <= j < ops.drop_first().len() && #[trigger] ops.drop_first()[j] == QueueOp::Complete(key)
                && apply_ops(q1, ops.drop_first().take(j)).processing.contains(key);
        assert(ops[j + 1] == QueueOp::Complete(key));
        assert(ops.take(j + 1).drop_first() =~= ops.drop_first().take(j));
        assert(ops.take(j + 1).len() > 0);
        assert(apply_ops(q, ops.take(j + 1)) == apply_ops(q1, ops.drop_first().take(j))) by {
            assert(ops.take(j + 1)[0] == ops[0]);
            assert(apply_ops(q, ops.take(j + 1))
                == apply_ops(apply_op(q, ops[0]), ops.take(j + 1).drop_first()));
        }
        assert(0 <= j + 1 < ops.len() && ops[j + 1] == QueueOp::Complete(key)
            && apply_ops(q, ops.take(j + 1)).processing.contains(key));
    }
}

} // verus!
