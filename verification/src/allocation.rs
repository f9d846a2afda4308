//! Tiered, pool-draining contributor allocation.
//!
//! Items are walked in descending urgency order over one shared contributor
//! pool, held ascending by seniority. Per item the tier of its urgency says
//! which picks are made, each pick removing the chosen contributor from the
//! pool at once:
//!
//! - Tier A (urgency at least 0.6): the pool's head (most junior), then its
//!   tail (most senior), then one drawn at random from the rest — up to 3.
//! - Tier B (urgency at least 0.3 and below 0.6): head, then tail — up to 2.
//! - Tier C (urgency below 0.3): one drawn at random — up to 1.
//!
//! A pick from an empty pool assigns nothing; that is an expected terminal
//! state, not an error.

use crate::contributor::Contributor;
use crate::roadmap::RoadmapItem;
use crate::sorting::contributors_sorted;
use crate::sorting::items_sorted_by_urgency;
use vstd::multiset::Multiset;
use vstd::prelude::*;

verus! {

/// Lower bound of the middle urgency tier, in hundredths.
pub const COMPLEXITY_FIRST_THRESHOLD: u64 = 30;

/// Lower bound of the top urgency tier, in hundredths.
pub const COMPLEXITY_SECOND_THRESHOLD: u64 = 60;

/// The top tier's outcome when the random draw took place: head, tail, and
/// the element at `i` of what lay between them.
pub open spec fn tier_a_random_case(
    pool0: Seq<Contributor>,
    picked: Seq<Contributor>,
    pool1: Seq<Contributor>,
    i: int,
) -> bool {
    let mid = pool0.subrange(1, pool0.len() - 1);
    &&& 0 <= i < mid.len()
    &&& picked == seq![pool0[0], pool0.last(), mid[i]]
    &&& pool1 == mid.remove(i)
}

/// Top tier: pool head, then pool tail, then one random pick from the rest,
/// each removal taking effect before the next selection.
pub open spec fn tier_a_outcome(
    pool0: Seq<Contributor>,
    picked: Seq<Contributor>,
    pool1: Seq<Contributor>,
) -> bool {
    if pool0.len() == 0 {
        picked.len() == 0 && pool1 == pool0
    } else if pool0.len() == 1 {
        picked == seq![pool0[0]] && pool1.len() == 0
    } else if pool0.len() == 2 {
        picked == seq![pool0[0], pool0[1]] && pool1.len() == 0
    } else {
        exists|i: int| #[trigger] tier_a_random_case(pool0, picked, pool1, i)
    }
}

/// Middle tier: pool head, then pool tail.
pub open spec fn tier_b_outcome(
    pool0: Seq<Contributor>,
    picked: Seq<Contributor>,
    pool1: Seq<Contributor>,
) -> bool {
    if pool0.len() == 0 {
        picked.len() == 0 && pool1 == pool0
    } else if pool0.len() == 1 {
        picked == seq![pool0[0]] && pool1.len() == 0
    } else {
        picked == seq![pool0[0], pool0.last()] && pool1 == pool0.subrange(1, pool0.len() - 1)
    }
}

/// The bottom tier's outcome when the random draw took place: the element at
/// `i` of the pool.
pub open spec fn tier_c_random_case(
    pool0: Seq<Contributor>,
    picked: Seq<Contributor>,
    pool1: Seq<Contributor>,
    i: int,
) -> bool {
    &&& 0 <= i < pool0.len()
    &&& picked == seq![pool0[i]]
    &&& pool1 == pool0.remove(i)
}

/// Bottom tier: one random pick.
pub open spec fn tier_c_outcome(
    pool0: Seq<Contributor>,
    picked: Seq<Contributor>,
    pool1: Seq<Contributor>,
) -> bool {
    if pool0.len() == 0 {
        picked.len() == 0 && pool1 == pool0
    } else {
        exists|i: int| #[trigger] tier_c_random_case(pool0, picked, pool1, i)
    }
}

/// One item's step: from pool `pool0`, the tier of `urgency` picked `picked`
/// in order and left `pool1` behind.
pub open spec fn assignment_step(
    urgency: int,
    pool0: Seq<Contributor>,
    picked: Seq<Contributor>,
    pool1: Seq<Contributor>,
) -> bool {
    if urgency >= COMPLEXITY_SECOND_THRESHOLD {
        tier_a_outcome(pool0, picked, pool1)
    } else if urgency >= COMPLEXITY_FIRST_THRESHOLD {
        tier_b_outcome(pool0, picked, pool1)
    } else {
        tier_c_outcome(pool0, picked, pool1)
    }
}

/// Relies on rand's `thread_rng` and `Rng::gen_range`: a uniformly random
/// index drawn from `0..len`, which for a non-empty range returns a value
/// within it.
#[verifier::external_body]
fn random_index(len: usize) -> (i: usize)
    requires
        len > 0,
    ensures
        i < len,
{
    let mut rng = rand::thread_rng();
    rand::Rng::gen_range(&mut rng, 0..len)
}

/// Fields that allocation must carry over unchanged from an input item to
/// its enriched copy.
pub open spec fn same_planning_fields(a: RoadmapItem, b: RoadmapItem) -> bool {
    &&& a.name == b.name
    &&& a.estimated_complexity == b.estimated_complexity
    &&& a.estimated_value == b.estimated_value
    &&& a.start_date == b.start_date
    &&& a.target_date == b.target_date
    &&& a.urgency == b.urgency
}

/// Assigns contributors from the pool to one item per its urgency tier,
/// yielding the enriched item.
pub fn assign_to_item(item: RoadmapItem, contributors: &mut Vec<Contributor>) -> (enriched:
    RoadmapItem)
    ensures
        same_planning_fields(enriched, item),
        assignment_step(
            item.urgency as int,
            old(contributors)@,
            enriched.contributors@,
            final(contributors)@,
        ),
        contributors_sorted(old(contributors)@) ==> contributors_sorted(final(contributors)@),
{
    let ghost pool0 = contributors@;
    let mut picked: Vec<Contributor> = Vec::new();
    if item.urgency >= COMPLEXITY_SECOND_THRESHOLD {
        if contributors.len() > 0 {
            let head = contributors.remove(0);
            picked.push(head);
            if contributors.len() > 0 {
                let last = contributors.len() - 1;
                let tail = contributors.remove(last);
                picked.push(tail);
                if contributors.len() > 0 {
                    let ghost mid = pool0.subrange(1, pool0.len() - 1);
                    proof {
                        assert(contributors@ =~= mid);
                    }
                    let i = random_index(contributors.len());
                    let drawn = contributors.remove(i);
                    picked.push(drawn);
                    proof {
                        assert(picked@ =~= seq![pool0[0], pool0.last(), mid[i as int]]);
                        assert(tier_a_random_case(pool0, picked@, contributors@, i as int));
                    }
                } else {
                    proof {
                        assert(pool0.len() == 2);
                        assert(picked@ =~= seq![pool0[0], pool0[1]]);
                    }
                }
            } else {
                proof {
                    assert(pool0.len() == 1);
                    assert(picked@ =~= seq![pool0[0]]);
                }
            }
        }
    } else if item.urgency >= COMPLEXITY_FIRST_THRESHOLD {
        if contributors.len() > 0 {
            let head = contributors.remove(0);
            picked.push(head);
            if contributors.len() > 0 {
                let last = contributors.len() - 1;
                let tail = contributors.remove(last);
                picked.push(tail);
                proof {
                    assert(picked@ =~= seq![pool0[0], pool0.last()]);
                    assert(contributors@ =~= pool0.subrange(1, pool0.len() - 1));
                }
            } else {
                proof {
                    assert(pool0.len() == 1);
                    assert(picked@ =~= seq![pool0[0]]);
                }
            }
        }
    } else {
        if contributors.len() > 0 {
            let i = random_index(contributors.len());
            let drawn = contributors.remove(i);
            picked.push(drawn);
            proof {
                assert(picked@ =~= seq![pool0[i as int]]);
                assert(tier_c_random_case(pool0, picked@, contributors@, i as int));
            }
        }
    }
    proof {
        assert(assignment_step(item.urgency as int, pool0, picked@, contributors@));
        if contributors_sorted(pool0) {
            lemma_step_preserves_order(item.urgency as int, pool0, picked@, contributors@);
        }
    }
    item.add_contributors(picked)
}

/// The urgencies of a backlog, in input order.
pub open spec fn urgencies_of(items: Seq<RoadmapItem>) -> Seq<int> {
    items.map_values(|item: RoadmapItem| item.urgency as int)
}

/// The contributor lists of an enriched backlog, in input order.
pub open spec fn picks_of(items: Seq<RoadmapItem>) -> Seq<Seq<Contributor>> {
    items.map_values(|item: RoadmapItem| item.contributors@)
}

/// A whole allocation pass: starting from pool `pool0`, the items' urgencies
/// were stepped through in order, item by item, each step picking the next
/// entry of `picks` and handing its leftover pool to the step after it, and
/// the last step left `pool1`.
pub open spec fn allocation_trace(
    urgencies: Seq<int>,
    pool0: Seq<Contributor>,
    picks: Seq<Seq<Contributor>>,
    pool1: Seq<Contributor>,
) -> bool
    decreases urgencies.len(),
{
    if urgencies.len() == 0 {
        picks.len() == 0 && pool1 == pool0
    } else {
        &&& picks.len() == urgencies.len()
        &&& exists|mid: Seq<Contributor>|
            #[trigger] assignment_step(urgencies[0], pool0, picks[0], mid) && allocation_trace(
                urgencies.drop_first(),
                mid,
                picks.drop_first(),
                pool1,
            )
    }
}

/// A trace extends by one step at its end.
proof fn lemma_allocation_trace_snoc(
    urgencies: Seq<int>,
    pool0: Seq<Contributor>,
    picks: Seq<Seq<Contributor>>,
    pool_mid: Seq<Contributor>,
    urgency: int,
    picked: Seq<Contributor>,
    pool1: Seq<Contributor>,
)
    requires
        allocation_trace(urgencies, pool0, picks, pool_mid),
        assignment_step(urgency, pool_mid, picked, pool1),
    ensures
        allocation_trace(urgencies.push(urgency), pool0, picks.push(picked), pool1),
    decreases urgencies.len(),
{
    let us1 = urgencies.push(urgency);
    let ps1 = picks.push(picked);
    if urgencies.len() == 0 {
        assert(us1.drop_first() =~= Seq::<int>::empty());
        assert(ps1.drop_first() =~= Seq::<Seq<Contributor>>::empty());
        assert(allocation_trace(us1.drop_first(), pool1, ps1.drop_first(), pool1));
        assert(assignment_step(us1[0], pool0, ps1[0], pool1));
    } else {
        let mid = choose|mid: Seq<Contributor>|
            #[trigger] assignment_step(urgencies[0], pool0, picks[0], mid) && allocation_trace(
                urgencies.drop_first(),
                mid,
                picks.drop_first(),
                pool_mid,
            );
        lemma_allocation_trace_snoc(
            urgencies.drop_first(),
            mid,
            picks.drop_first(),
            pool_mid,
            urgency,
            picked,
            pool1,
        );
        assert(us1.drop_first() =~= urgencies.drop_first().push(urgency));
        assert(ps1.drop_first() =~= picks.drop_first().push(picked));
        assert(assignment_step(us1[0], pool0, ps1[0], mid));
        assert(allocation_trace(us1.drop_first(), mid, ps1.drop_first(), pool1));
    }
}

/// Walks the presorted backlog in order over the shared pool, assigning per
/// tier, and returns the enriched items in the same order.
pub fn assign_contributors(
    roadmap_items: Vec<RoadmapItem>,
    contributors: &mut Vec<Contributor>,
) -> (new_items: Vec<RoadmapItem>)
    requires
        items_sorted_by_urgency(roadmap_items@),
        contributors_sorted(old(contributors)@),
    ensures
        new_items@.len() == roadmap_items@.len(),
        forall|j: int|
            0 <= j < new_items@.len() ==> same_planning_fields(
                #[trigger] new_items@[j],
                roadmap_items@[j],
            ),
        allocation_trace(
            urgencies_of(roadmap_items@),
            old(contributors)@,
            picks_of(new_items@),
            final(contributors)@,
        ),
        contributors_sorted(final(contributors)@),
{
    let ghost items0 = roadmap_items@;
    let ghost pool_init = contributors@;
    let mut remaining = roadmap_items;
    let mut new_items: Vec<RoadmapItem> = Vec::new();
    proof {
        assert(urgencies_of(items0.take(0)) =~= Seq::<int>::empty());
        assert(picks_of(new_items@) =~= Seq::<Seq<Contributor>>::empty());
    }
    while remaining.len() > 0
        invariant
            new_items@.len() + remaining@.len() == items0.len(),
            remaining@ == items0.subrange(new_items@.len() as int, items0.len() as int),
            forall|j: int|
                0 <= j < new_items@.len() ==> same_planning_fields(
                    #[trigger] new_items@[j],
                    items0[j],
                ),
            allocation_trace(
                urgencies_of(items0.take(new_items@.len() as int)),
                pool_init,
                picks_of(new_items@),
                contributors@,
            ),
            contributors_sorted(contributors@),
        decreases remaining@.len(),
    {
        let ghost k = new_items@.len() as int;
        let ghost pool_before = contributors@;
        let item = remaining.remove(0);
        proof {
            assert(item == items0[k]);
            assert(remaining@ =~= items0.subrange(k + 1, items0.len() as int));
        }
        let enriched = assign_to_item(item, contributors);
        proof {
            lemma_allocation_trace_snoc(
                urgencies_of(items0.take(k)),
                pool_init,
                picks_of(new_items@),
                pool_before,
                item.urgency as int,
                enriched.contributors@,
                contributors@,
            );
            assert(urgencies_of(items0.take(k + 1)) =~= urgencies_of(items0.take(k)).push(
                item.urgency as int,
            ));
            assert(picks_of(new_items@.push(enriched)) =~= picks_of(new_items@).push(
                enriched.contributors@,
            ));
        }
        new_items.push(enriched);
    }
    proof {
        assert(items0.take(items0.len() as int) =~= items0);
    }
    new_items
}

/// Removing one element keeps the pool's ascending order.
proof fn lemma_order_kept_by_removal(pool: Seq<Contributor>, i: int)
    requires
        contributors_sorted(pool),
        0 <= i < pool.len(),
    ensures
        contributors_sorted(pool.remove(i)),
{
    pool.remove_ensures(i);
    assert forall|a: int, b: int| 0 <= a < b < pool.remove(i).len() implies pool.remove(
        i,
    )[a].seniority <= pool.remove(i)[b].seniority by {
        let sa = if a < i {
            a
        } else {
            a + 1
        };
        let sb = if b < i {
            b
        } else {
            b + 1
        };
        assert(pool.remove(i)[a] == pool[sa]);
        assert(pool.remove(i)[b] == pool[sb]);
    }
}

/// One step leaves the pool it hands on in ascending order, so the head is
/// again the most junior contributor when the next item is served.
pub proof fn lemma_step_preserves_order(
    urgency: int,
    pool0: Seq<Contributor>,
    picked: Seq<Contributor>,
    pool1: Seq<Contributor>,
)
    requires
        assignment_step(urgency, pool0, picked, pool1),
        contributors_sorted(pool0),
    ensures
        contributors_sorted(pool1),
{
    let n = pool0.len() as int;
    if n == 0 || pool1.len() == 0 {
    } else if urgency >= COMPLEXITY_SECOND_THRESHOLD {
        let i = choose|i: int| tier_a_random_case(pool0, picked, pool1, i);
        let mid = pool0.subrange(1, n - 1);
        assert(contributors_sorted(mid));
        lemma_order_kept_by_removal(mid, i);
    } else if urgency >= COMPLEXITY_FIRST_THRESHOLD {
        assert(contributors_sorted(pool0.subrange(1, n - 1)));
    } else {
        let i = choose|i: int| tier_c_random_case(pool0, picked, pool1, i);
        lemma_order_kept_by_removal(pool0, i);
    }
}

/// A whole allocation pass leaves the leftover pool in ascending order.
pub proof fn lemma_allocation_preserves_order(
    urgencies: Seq<int>,
    pool0: Seq<Contributor>,
    picks: Seq<Seq<Contributor>>,
    pool1: Seq<Contributor>,
)
    requires
        allocation_trace(urgencies, pool0, picks, pool1),
        contributors_sorted(pool0),
    ensures
        contributors_sorted(pool1),
    decreases urgencies.len(),
{
    if urgencies.len() == 0 {
    } else {
        let mid = choose|mid: Seq<Contributor>|
            #[trigger] assignment_step(urgencies[0], pool0, picks[0], mid) && allocation_trace(
                urgencies.drop_first(),
                mid,
                picks.drop_first(),
                pool1,
            );
        lemma_step_preserves_order(urgencies[0], pool0, picks[0], mid);
        lemma_allocation_preserves_order(urgencies.drop_first(), mid, picks.drop_first(), pool1);
    }
}

/// How many contributors one step may pick: at most three, at most two
/// below the top tier, at most one below the middle tier, and never more
/// than the pool held.
pub proof fn lemma_step_pick_counts(
    urgency: int,
    pool0: Seq<Contributor>,
    picked: Seq<Contributor>,
    pool1: Seq<Contributor>,
)
    requires
        assignment_step(urgency, pool0, picked, pool1),
    ensures
        picked.len() <= 3,
        urgency < COMPLEXITY_SECOND_THRESHOLD ==> picked.len() <= 2,
        urgency < COMPLEXITY_FIRST_THRESHOLD ==> picked.len() <= 1,
        picked.len() <= pool0.len(),
        picked.len() + pool1.len() == pool0.len(),
{
    let n = pool0.len() as int;
    if n == 0 {
    } else if urgency >= COMPLEXITY_SECOND_THRESHOLD {
        if n >= 3 {
            let i = choose|i: int| tier_a_random_case(pool0, picked, pool1, i);
            assert(picked.len() == 3);
        }
    } else if urgency >= COMPLEXITY_FIRST_THRESHOLD {
    } else {
        let i = choose|i: int| tier_c_random_case(pool0, picked, pool1, i);
        assert(picked.len() == 1);
    }
}

/// An empty sequence holds the empty multiset.
proof fn lemma_multiset_of_empty(s: Seq<Contributor>)
    requires
        s.len() == 0,
    ensures
        s.to_multiset() == Multiset::<Contributor>::empty(),
{
    broadcast use vstd::seq_lib::group_to_multiset_ensures;
    broadcast use vstd::multiset::group_multiset_axioms;

    assert forall|x: Contributor| s.to_multiset().count(x) == 0 by {
        assert(!s.contains(x));
    }
    assert(s.to_multiset() =~= Multiset::<Contributor>::empty());
}

/// Removing the element at `i` moves one occurrence of it out of the
/// sequence's multiset.
proof fn lemma_pick_transfer(pool: Seq<Contributor>, i: int)
    requires
        0 <= i < pool.len(),
    ensures
        pool.to_multiset() == pool.remove(i).to_multiset().insert(pool[i]),
{
    broadcast use vstd::seq_lib::group_to_multiset_ensures;
    broadcast use vstd::multiset::group_multiset_axioms;

    assert(pool.contains(pool[i]));
    assert(pool.to_multiset().count(pool[i]) > 0);
    assert(pool.remove(i).to_multiset().insert(pool[i]) =~= pool.to_multiset());
}

/// Taking the head and then the tail leaves the elements that lay between
/// them, and moves both picks out of the pool's multiset.
proof fn lemma_head_tail_transfer(pool: Seq<Contributor>)
    requires
        pool.len() >= 2,
    ensures
        pool.to_multiset() == pool.subrange(1, pool.len() - 1).to_multiset().insert(
            pool.last(),
        ).insert(pool[0]),
{
    broadcast use vstd::multiset::group_multiset_axioms;

    let n = pool.len() as int;
    let after_head = pool.remove(0);
    lemma_pick_transfer(pool, 0);
    assert(after_head =~= pool.subrange(1, n));
    lemma_pick_transfer(after_head, n - 2);
    assert(after_head[n - 2] == pool.last());
    assert(after_head.remove(n - 2) =~= pool.subrange(1, n - 1));
    assert(pool.to_multiset() =~= pool.subrange(1, n - 1).to_multiset().insert(
        pool.last(),
    ).insert(pool[0]));
}

/// One step moves exactly the picked contributors out of the pool: the pool
/// before it equals the pool after it plus what it picked, as multisets.
pub proof fn lemma_step_conserves_pool(
    urgency: int,
    pool0: Seq<Contributor>,
    picked: Seq<Contributor>,
    pool1: Seq<Contributor>,
)
    requires
        assignment_step(urgency, pool0, picked, pool1),
    ensures
        pool0.to_multiset() == pool1.to_multiset().add(picked.to_multiset()),
{
    broadcast use vstd::seq_lib::group_to_multiset_ensures;
    broadcast use vstd::multiset::group_multiset_axioms;

    let n = pool0.len() as int;
    let empty_seq = Seq::<Contributor>::empty();
    lemma_multiset_of_empty(empty_seq);
    if n == 0 {
        lemma_multiset_of_empty(picked);
        assert(pool0.to_multiset() =~= pool1.to_multiset().add(picked.to_multiset()));
    } else if urgency >= COMPLEXITY_FIRST_THRESHOLD && n == 1 {
        // Both upper tiers pick just the head out of a one-element pool.
        lemma_pick_transfer(pool0, 0);
        assert(pool1 =~= pool0.remove(0));
        assert(picked =~= empty_seq.push(pool0[0]));
        assert(pool0.to_multiset() =~= pool1.to_multiset().add(picked.to_multiset()));
    } else if urgency >= COMPLEXITY_SECOND_THRESHOLD {
        if n == 2 {
            lemma_head_tail_transfer(pool0);
            assert(pool1 =~= pool0.subrange(1, n - 1));
            assert(picked =~= empty_seq.push(pool0[0]).push(pool0[1]));
            assert(pool0[1] == pool0.last());
            assert(pool0.to_multiset() =~= pool1.to_multiset().add(picked.to_multiset()));
        } else {
            let i = choose|i: int| tier_a_random_case(pool0, picked, pool1, i);
            let mid = pool0.subrange(1, n - 1);
            lemma_head_tail_transfer(pool0);
            lemma_pick_transfer(mid, i);
            assert(picked =~= empty_seq.push(pool0[0]).push(pool0.last()).push(mid[i]));
            assert(pool0.to_multiset() =~= pool1.to_multiset().add(picked.to_multiset()));
        }
    } else if urgency >= COMPLEXITY_FIRST_THRESHOLD {
        lemma_head_tail_transfer(pool0);
        assert(picked =~= empty_seq.push(pool0[0]).push(pool0.last()));
        assert(pool0.to_multiset() =~= pool1.to_multiset().add(picked.to_multiset()));
    } else {
        let i = choose|i: int| tier_c_random_case(pool0, picked, pool1, i);
        lemma_pick_transfer(pool0, i);
        assert(picked =~= empty_seq.push(pool0[i]));
        assert(pool0.to_multiset() =~= pool1.to_multiset().add(picked.to_multiset()));
    }
}

/// No contributor is handed out twice across a whole allocation pass: the
/// starting pool equals, as a multiset, the leftover pool plus everything
/// picked over all items, so each pool entry reaches at most one item.
pub proof fn lemma_allocation_conserves_pool(
    urgencies: Seq<int>,
    pool0: Seq<Contributor>,
    picks: Seq<Seq<Contributor>>,
    pool1: Seq<Contributor>,
)
    requires
        allocation_trace(urgencies, pool0, picks, pool1),
    ensures
        pool0.to_multiset() == pool1.to_multiset().add(picks.flatten().to_multiset()),
        forall|c: Contributor| #[trigger] picks.flatten().to_multiset().count(c)
            <= pool0.to_multiset().count(c),
    decreases urgencies.len(),
{
    broadcast use vstd::multiset::group_multiset_axioms;

    if urgencies.len() == 0 {
        lemma_multiset_of_empty(picks.flatten());
        assert(pool0.to_multiset() =~= pool1.to_multiset().add(picks.flatten().to_multiset()));
    } else {
        let mid = choose|mid: Seq<Contributor>|
            #[trigger] assignment_step(urgencies[0], pool0, picks[0], mid) && allocation_trace(
                urgencies.drop_first(),
                mid,
                picks.drop_first(),
                pool1,
            );
        lemma_step_conserves_pool(urgencies[0], pool0, picks[0], mid);
        lemma_allocation_conserves_pool(urgencies.drop_first(), mid, picks.drop_first(), pool1);
        assert(picks.flatten() == picks[0] + picks.drop_first().flatten());
        vstd::seq_lib::lemma_multiset_commutative(picks[0], picks.drop_first().flatten());
        assert(pool0.to_multiset() =~= pool1.to_multiset().add(picks.flatten().to_multiset()));
    }
}

/// From an empty pool an allocation pass assigns nothing, whatever the
/// items' urgency tiers: every picked list is empty and the pool stays
/// empty.
pub proof fn lemma_empty_pool_assigns_nothing(
    urgencies: Seq<int>,
    pool0: Seq<Contributor>,
    picks: Seq<Seq<Contributor>>,
    pool1: Seq<Contributor>,
)
    requires
        allocation_trace(urgencies, pool0, picks, pool1),
        pool0.len() == 0,
    ensures
        picks.len() == urgencies.len(),
        forall|j: int| 0 <= j < picks.len() ==> #[trigger] picks[j].len() == 0,
        pool1.len() == 0,
    decreases urgencies.len(),
{
    if urgencies.len() == 0 {
    } else {
        let mid = choose|mid: Seq<Contributor>|
            #[trigger] assignment_step(urgencies[0], pool0, picks[0], mid) && allocation_trace(
                urgencies.drop_first(),
                mid,
                picks.drop_first(),
                pool1,
            );
        lemma_empty_pool_assigns_nothing(urgencies.drop_first(), mid, picks.drop_first(), pool1);
        assert forall|j: int| 0 <= j < picks.len() implies #[trigger] picks[j].len() == 0 by {
            if j > 0 {
                assert(picks[j] == picks.drop_first()[j - 1]);
            }
        }
    }
}

/// Across a whole allocation pass every item is assigned between zero and
/// three contributors, and no more than its tier allows: two below the top
/// tier, one below the middle tier.
pub proof fn lemma_allocation_pick_counts(
    urgencies: Seq<int>,
    pool0: Seq<Contributor>,
    picks: Seq<Seq<Contributor>>,
    pool1: Seq<Contributor>,
)
    requires
        allocation_trace(urgencies, pool0, picks, pool1),
    ensures
        forall|j: int|
            0 <= j < picks.len() ==> #[trigger] picks[j].len() <= 3 && (urgencies[j]
                < COMPLEXITY_SECOND_THRESHOLD ==> picks[j].len() <= 2) && (urgencies[j]
                < COMPLEXITY_FIRST_THRESHOLD ==> picks[j].len() <= 1),
    decreases urgencies.len(),
{
    if urgencies.len() == 0 {
    } else {
        let mid = choose|mid: Seq<Contributor>|
            #[trigger] assignment_step(urgencies[0], pool0, picks[0], mid) && allocation_trace(
                urgencies.drop_first(),
                mid,
                picks.drop_first(),
                pool1,
            );
        lemma_step_pick_counts(urgencies[0], pool0, picks[0], mid);
        lemma_allocation_pick_counts(urgencies.drop_first(), mid, picks.drop_first(), pool1);
        assert forall|j: int|
            0 <= j < picks.len() implies #[trigger] picks[j].len() <= 3 && (urgencies[j]
                < COMPLEXITY_SECOND_THRESHOLD ==> picks[j].len() <= 2) && (urgencies[j]
                < COMPLEXITY_FIRST_THRESHOLD ==> picks[j].len() <= 1) by {
            if j > 0 {
                assert(picks[j] == picks.drop_first()[j - 1]);
                assert(urgencies[j] == urgencies.drop_first()[j - 1]);
            }
        }
    }
}

/// A pool of one contributor meets a top-tier item: exactly that one
/// contributor is assigned — the head, tail and random picks never count
/// the same pool entry twice — and the pool is left empty.
pub proof fn lemma_single_contributor_top_tier(
    urgency: int,
    pool0: Seq<Contributor>,
    picked: Seq<Contributor>,
    pool1: Seq<Contributor>,
)
    requires
        assignment_step(urgency, pool0, picked, pool1),
        urgency >= COMPLEXITY_SECOND_THRESHOLD,
        pool0.len() == 1,
    ensures
        picked.len() == 1,
        picked[0] == pool0[0],
        pool1.len() == 0,
{
}

} // verus!
