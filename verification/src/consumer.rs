//! The consumer's polling cycle.
//!
//! Each cycle reads the idle-worker count as a snapshot, drains at most one
//! worker outcome and applies its queue transition, computes the claimable
//! set `pending \ processing`, and walks it: for each key, up to the idle
//! snapshot, it attempts the atomic add into `processing`, and on the one add
//! that actually inserts it decodes the key back to a payload and submits it
//! to the pool. The snapshot bounds in-flight work to idle capacity — it is
//! backpressure, not a reservation.

use vstd::prelude::*;

use crate::keys::decode_key;
use crate::keys::key_of;
use crate::pool::message_key;
use crate::pool::ThreadPool;
use crate::pool::WorkerMessage;
use crate::queue::claim_allowed;
use crate::queue::claimable_spec;
use crate::queue::complete_spec;
use crate::queue::release_spec;
use crate::queue::ChannelQueue;
use crate::queue::QueueView;
use crate::store::seq_has_key;

verus! {

/// The queue transition one drained outcome demands: a completed attempt
/// records its key done; a spawn or stdin failure releases the claim, so the
/// key stays pending and reclaimable.
pub open spec fn outcome_step(q: QueueView, m: WorkerMessage) -> QueueView {
    match m {
        WorkerMessage::DoneTask(k) => complete_spec(q, k@),
        WorkerMessage::ProgramNotFound(k) => release_spec(q, k@),
        WorkerMessage::StdinFailed(k) => release_spec(q, k@),
    }
}

/// The queue state after the cycle's outcome drain: unchanged when the
/// outcome channel was empty, else stepped by the oldest outcome.
pub open spec fn after_drain(q: QueueView, outcomes: Seq<WorkerMessage>) -> QueueView {
    if outcomes.len() == 0 {
        q
    } else {
        outcome_step(q, outcomes[0])
    }
}

/// A key that no payload encodes to. The producer only ever inserts encoded
/// payloads, so such a key can only have been written by something else; the
/// cycle skips it and leaves it claimable.
pub open spec fn undecodable(k: Seq<char>) -> bool {
    forall|p: Seq<char>| k != #[trigger] key_of(p)
}

/// The keys of the payloads a cycle claimed.
pub open spec fn claimed_keys(claims: Seq<String>) -> Set<Seq<char>> {
    Set::new(|k: Seq<char>| exists|i: int| 0 <= i < claims.len() && key_of(claims[i]@) == k)
}

/// Applies one drained outcome to the queue: `DoneTask` completes the key,
/// the two failure outcomes release it. Outcomes are produced once per
/// claimed job, so a completed key still holds its claim.
pub fn apply_outcome(queue: &mut ChannelQueue, m: &WorkerMessage)
    requires
        old(queue).wf(),
        old(queue)@.processing.contains(message_key(*m)),
    ensures
        final(queue).wf(),
        final(queue)@ == outcome_step(old(queue)@, *m),
{
    match m {
        WorkerMessage::DoneTask(key) => queue.complete(key),
        WorkerMessage::ProgramNotFound(key) => queue.release(key),
        WorkerMessage::StdinFailed(key) => queue.release(key),
    }
}

/// One polling cycle of the consumer loop.
///
/// Returns the payloads submitted to the pool this cycle. Every claim made is
/// of a key that was claimable after the outcome drain; no key is claimed
/// twice; at most `idle` claims are issued, where `idle` is the idle-worker
/// snapshot read at the top of the cycle; and when the cycle stopped short of
/// its budget and every claimable key decodes (the only keys the producer
/// inserts), nothing claimable was left unclaimed.
pub fn consumer_cycle(queue: &mut ChannelQueue, pool: &mut ThreadPool) -> (claims: Vec<String>)
    requires
        old(queue).wf(),
        old(pool).wf(),
        old(pool).outcomes_spec().len() > 0 ==> old(queue)@.processing.contains(
            message_key(old(pool).outcomes_spec()[0]),
        ),
    ensures
        final(queue).wf(),
        final(pool).wf(),
        final(queue)@.pending == after_drain(old(queue)@, old(pool).outcomes_spec()).pending,
        final(queue)@.done == after_drain(old(queue)@, old(pool).outcomes_spec()).done,
        final(queue)@.processing == after_drain(old(queue)@, old(pool).outcomes_spec())
            .processing.union(claimed_keys(claims@)),
        claims@.len() <= old(pool).idle_spec(),
        forall|i: int|
            0 <= i < claims@.len() ==> claimable_spec(
                after_drain(old(queue)@, old(pool).outcomes_spec()),
            ).contains(#[trigger] key_of(claims@[i]@)),
        forall|i: int, j: int|
            0 <= i < j < claims@.len() ==> key_of(claims@[i]@) != key_of(claims@[j]@),
        (forall|k: Seq<char>|
            #[trigger] claimable_spec(after_drain(old(queue)@, old(pool).outcomes_spec()))
                .contains(k) ==> !undecodable(k)) && claims@.len() < old(
            pool,
        ).idle_spec() ==> (forall|k: Seq<char>|
            #[trigger] claimable_spec(after_drain(old(queue)@, old(pool).outcomes_spec()))
                .contains(k) ==> claimed_keys(claims@).contains(k)),
        final(pool).jobs_spec() == old(pool).jobs_spec() + claims@,
        final(pool).submitted_spec() == old(pool).submitted_spec() + claims@.len(),
        final(pool).idle_spec() == old(pool).idle_spec(),
        final(pool).pool_size() == old(pool).pool_size(),
        final(pool).running_spec() == old(pool).running_spec(),
        final(pool).command_spec() == old(pool).command_spec(),
        old(pool).outcomes_spec().len() == 0 ==> final(pool).outcomes_spec() == old(
            pool,
        ).outcomes_spec() && final(pool).drained_spec() == old(pool).drained_spec(),
        old(pool).outcomes_spec().len() > 0 ==> final(pool).outcomes_spec() == old(
            pool,
        ).outcomes_spec().drop_first() && final(pool).drained_spec() == old(
            pool,
        ).drained_spec() + 1,
{
    let idle = pool.idle_workers();
    let drained = pool.take_outcome();
    match &drained {
        Some(m) => apply_outcome(queue, m),
        None => {},
    }
    let ghost qmid = queue@;
    proof {
        assert(qmid == after_drain(old(queue)@, old(pool).outcomes_spec()));
    }
    let ghost jobs0 = pool.jobs_spec();
    let ghost submitted0 = pool.submitted_spec();

    let entries = queue.claimable();
    let mut claims: Vec<String> = Vec::new();
    let mut i: usize = 0;
    while i < entries.len() && i < idle
        invariant
            queue.wf(),
            pool.wf(),
            i <= entries@.len(),
            i <= idle,
            claims@.len() <= i,
            forall|t: int|
                0 <= t < entries@.len() ==> claimable_spec(qmid).contains(#[trigger] entries@[t]@),
            forall|t: int, u: int| 0 <= t < u < entries@.len() ==> entries@[t]@ != entries@[u]@,
            queue@.pending == qmid.pending,
            queue@.done == qmid.done,
            queue@.processing == qmid.processing.union(claimed_keys(claims@)),
            forall|t: int|
                0 <= t < claims@.len() ==> exists|j: int|
                    0 <= j < i && entries@[j]@ == #[trigger] key_of(claims@[t]@),
            forall|t: int, u: int|
                0 <= t < u < claims@.len() ==> key_of(claims@[t]@) != key_of(claims@[u]@),
            forall|j: int|
                0 <= j < i ==> claimed_keys(claims@).contains(#[trigger] entries@[j]@)
                    || undecodable(entries@[j]@),
            claims@.len() < i ==> exists|j: int|
                0 <= j < i && undecodable(#[trigger] entries@[j]@),
            pool.jobs_spec() == jobs0 + claims@,
            pool.submitted_spec() == submitted0 + claims@.len(),
            pool.idle_spec() == old(pool).idle_spec(),
            pool.pool_size() == old(pool).pool_size(),
            pool.running_spec() == old(pool).running_spec(),
            pool.command_spec() == old(pool).command_spec(),
            pool.outcomes_spec() == if old(pool).outcomes_spec().len() == 0 {
                old(pool).outcomes_spec()
            } else {
                old(pool).outcomes_spec().drop_first()
            },
            pool.drained_spec() == if old(pool).outcomes_spec().len() == 0 {
                old(pool).drained_spec()
            } else {
                old(pool).drained_spec() + 1
            },
        decreases entries@.len() - i,
    {
        let ghost claims_before = claims@;
        match decode_key(&entries[i]) {
            Some(payload) => {
                proof {
                    assert(entries@[i as int]@ == key_of(payload@));
                    assert(!qmid.processing.contains(entries@[i as int]@));
                    assert forall|t: int| 0 <= t < claims@.len()
                        implies key_of(claims@[t]@) != entries@[i as int]@ by {
                        let j = choose|j: int|
                            0 <= j < i && entries@[j]@ == key_of(claims@[t]@);
                        assert(entries@[j]@ != entries@[i as int]@);
                    }
                    assert(!claimed_keys(claims@).contains(entries@[i as int]@));
                    assert(claim_allowed(queue@, entries@[i as int]@));
                }
                let claimed = queue.try_claim(&entries[i]);
                assert(claimed);
                if claimed {
                    pool.execute(payload.clone());
                    claims.push(payload);
                    proof {
                        assert(claims@.drop_last() == claims_before);
                        assert(key_of(claims@.last()@) == entries@[i as int]@);
                        assert forall|k: Seq<char>| #[trigger] claimed_keys(claims@).contains(k)
                            implies claimed_keys(claims_before).insert(
                            entries@[i as int]@,
                        ).contains(k) by {
                            let t = choose|t: int|
                                0 <= t < claims@.len() && key_of(claims@[t]@) == k;
                            if t < claims_before.len() {
                                assert(claims_before[t] == claims@[t]);
                                assert(claimed_keys(claims_before).contains(k));
                            }
                        }
                        assert forall|k: Seq<char>|
                            claimed_keys(claims_before).insert(entries@[i as int]@).contains(k)
                            implies #[trigger] claimed_keys(claims@).contains(k) by {
                            if k == entries@[i as int]@ {
                                assert(key_of(claims@[claims_before.len() as int]@) == k);
                            } else {
                                let t = choose|t: int|
                                    0 <= t < claims_before.len() && key_of(claims_before[t]@) == k;
                                assert(key_of(claims@[t]@) == k);
                            }
                        }
                        assert(claimed_keys(claims@) =~= claimed_keys(claims_before).insert(
                            entries@[i as int]@,
                        ));
                        assert(queue@.processing =~= qmid.processing.union(
                            claimed_keys(claims@),
                        ));
                        assert(pool.jobs_spec() =~= jobs0 + claims@);
                    }
                }
            },
            None => {
                proof {
                    assert(undecodable(entries@[i as int]@));
                }
            },
        }
        proof {
            assert forall|t: int| 0 <= t < claims@.len()
                implies exists|j: int|
                0 <= j < i + 1 && entries@[j]@ == #[trigger] key_of(claims@[t]@) by {
                if t < claims_before.len() {
                    let j = choose|j: int|
                        0 <= j < i && entries@[j]@ == key_of(claims_before[t]@);
                    assert(claims@[t] == claims_before[t]);
                    assert(entries@[j]@ == key_of(claims@[t]@));
                } else {
                    assert(entries@[i as int]@ == key_of(claims@[t]@));
                }
            }
        }
        i = i + 1;
    }
    proof {
        if (forall|k: Seq<char>| #[trigger] claimable_spec(qmid).contains(k) ==> !undecodable(k))
            && claims@.len() < old(pool).idle_spec() {
            if claims@.len() < i {
                let j = choose|j: int| 0 <= j < i && undecodable(#[trigger] entries@[j]@);
                assert(claimable_spec(qmid).contains(entries@[j]@));
                assert(false);
            }
            assert(claims@.len() == i);
            assert(i == entries@.len());
            assert forall|k: Seq<char>| #[trigger] claimable_spec(qmid).contains(k)
                implies claimed_keys(claims@).contains(k) by {
                assert(seq_has_key(entries@, k));
                let j = choose|j: int| 0 <= j < entries@.len() && entries@[j]@ == k;
                assert(claimed_keys(claims@).contains(entries@[j]@) || undecodable(entries@[j]@));
            }
        }
    }
    claims
}

} // verus!
