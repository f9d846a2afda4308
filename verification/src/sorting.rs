//! Ordering the contributor pool and the item backlog.
//!
//! The allocator expects its contributor pool ascending by seniority (most
//! junior at the head, most senior at the tail) and its items descending by
//! urgency. Both orders are established here by stable insertion sorts that
//! keep the elements as a multiset.

use crate::contributor::Contributor;
use crate::roadmap::RoadmapItem;
use vstd::prelude::*;
use vstd::seq_lib::group_to_multiset_ensures;

verus! {

/// Ascending by seniority: the most junior contributor stands at the head.
pub open spec fn contributors_sorted(s: Seq<Contributor>) -> bool {
    forall|i: int, j: int| 0 <= i < j < s.len() ==> s[i].seniority <= s[j].seniority
}

/// Descending by urgency: the most urgent item stands first.
pub open spec fn items_sorted_by_urgency(s: Seq<RoadmapItem>) -> bool {
    forall|i: int, j: int| 0 <= i < j < s.len() ==> s[i].urgency >= s[j].urgency
}

/// Moving one element from position `from` to position `to` keeps the
/// sequence's multiset.
proof fn lemma_move_keeps_multiset(s: Seq<Contributor>, from: int, to: int)
    requires
        0 <= from < s.len(),
        0 <= to <= s.len() - 1,
    ensures
        s.remove(from).insert(to, s[from]).to_multiset() == s.to_multiset(),
{
    broadcast use group_to_multiset_ensures;
    broadcast use vstd::multiset::group_multiset_axioms;
    broadcast use vstd::seq_lib::to_multiset_insert;

    assert(s.contains(s[from]));
    assert(s.to_multiset().count(s[from]) > 0);
    assert(s.remove(from).insert(to, s[from]).to_multiset() =~= s.to_multiset());
}

/// Sorts the pool ascending by seniority, keeping it as a multiset.
pub fn sort_contributors(contributors: &mut Vec<Contributor>)
    ensures
        contributors_sorted(final(contributors)@),
        final(contributors)@.to_multiset() == old(contributors)@.to_multiset(),
        final(contributors)@.len() == old(contributors)@.len(),
{
    let ghost n = contributors@.len();
    if contributors.len() <= 1 {
        return ;
    }
    let mut i: usize = 1;
    while i < contributors.len()
        invariant
            1 <= i <= n,
            contributors@.len() == n,
            contributors@.to_multiset() == old(contributors)@.to_multiset(),
            contributors_sorted(contributors@.take(i as int)),
        decreases n - i,
    {
        let key = contributors[i].seniority;
        let mut j: usize = i;
        while j > 0 && contributors[j - 1].seniority > key
            invariant
                j <= i < contributors@.len(),
                key == contributors@[i as int].seniority,
                forall|k: int| j <= k < i ==> contributors@[k].seniority > key,
            decreases j,
        {
            j = j - 1;
        }
        let ghost before = contributors@;
        let moved = contributors.remove(i);
        contributors.insert(j, moved);
        proof {
            lemma_move_keeps_multiset(before, i as int, j as int);
            before.remove_ensures(i as int);
            let shrunk = before.remove(i as int);
            shrunk.insert_ensures(j as int, before[i as int]);
            let after = contributors@;
            assert(after == shrunk.insert(j as int, before[i as int]));
            assert forall|k: int| 0 <= k < j implies after[k] == before[k] by {
                assert(after[k] == shrunk[k]);
            }
            assert(after[j as int] == before[i as int]);
            assert forall|k: int| j < k <= i implies after[k] == before[k - 1] by {
                assert(shrunk[k - 1] == before[k - 1]);
                assert(after[k] == shrunk[k - 1]);
            }
            assert forall|a: int, b: int| 0 <= a < b < i + 1 implies after[a].seniority
                <= after[b].seniority by {
                if b == j {
                    assert(a < j);
                    assert(before[a].seniority <= key);
                } else if a == j {
                    assert(j < b <= i);
                    assert(before[b - 1].seniority > key);
                }
            }
            assert(contributors_sorted(after.take(i as int + 1)));
        }
        i = i + 1;
    }
    proof {
        assert(contributors@.take(n as int) =~= contributors@);
    }
}

/// Moving one roadmap item from position `from` to position `to` keeps the
/// sequence's multiset.
proof fn lemma_move_keeps_item_multiset(s: Seq<RoadmapItem>, from: int, to: int)
    requires
        0 <= from < s.len(),
        0 <= to <= s.len() - 1,
    ensures
        s.remove(from).insert(to, s[from]).to_multiset() == s.to_multiset(),
{
    broadcast use group_to_multiset_ensures;
    broadcast use vstd::multiset::group_multiset_axioms;
    broadcast use vstd::seq_lib::to_multiset_insert;

    assert(s.contains(s[from]));
    assert(s.to_multiset().count(s[from]) > 0);
    assert(s.remove(from).insert(to, s[from]).to_multiset() =~= s.to_multiset());
}

/// Sorts the backlog descending by urgency, keeping it as a multiset.
pub fn sort_roadmap_items(items: &mut Vec<RoadmapItem>)
    ensures
        items_sorted_by_urgency(final(items)@),
        final(items)@.to_multiset() == old(items)@.to_multiset(),
        final(items)@.len() == old(items)@.len(),
{
    let ghost n = items@.len();
    if items.len() <= 1 {
        return ;
    }
    let mut i: usize = 1;
    while i < items.len()
        invariant
            1 <= i <= n,
            items@.len() == n,
            items@.to_multiset() == old(items)@.to_multiset(),
            items_sorted_by_urgency(items@.take(i as int)),
        decreases n - i,
    {
        let key = items[i].urgency;
        let mut j: usize = i;
        while j > 0 && items[j - 1].urgency < key
            invariant
                j <= i < items@.len(),
                key == items@[i as int].urgency,
                forall|k: int| j <= k < i ==> items@[k].urgency < key,
            decreases j,
        {
            j = j - 1;
        }
        let ghost before = items@;
        let moved = items.remove(i);
        items.insert(j, moved);
        proof {
            lemma_move_keeps_item_multiset(before, i as int, j as int);
            before.remove_ensures(i as int);
            let shrunk = before.remove(i as int);
            shrunk.insert_ensures(j as int, before[i as int]);
            let after = items@;
            assert(after == shrunk.insert(j as int, before[i as int]));
            assert forall|k: int| 0 <= k < j implies after[k] == before[k] by {
                assert(after[k] == shrunk[k]);
            }
            assert(after[j as int] == before[i as int]);
            assert forall|k: int| j < k <= i implies after[k] == before[k - 1] by {
                assert(shrunk[k - 1] == before[k - 1]);
                assert(after[k] == shrunk[k - 1]);
            }
            assert forall|a: int, b: int| 0 <= a < b < i + 1 implies after[a].urgency
                >= after[b].urgency by {
                if b == j {
                    assert(a < j);
                    assert(before[a].urgency >= key);
                } else if a == j {
                    assert(j < b <= i);
                    assert(before[b - 1].urgency < key);
                }
            }
            assert(items_sorted_by_urgency(after.take(i as int + 1)));
        }
        i = i + 1;
    }
    proof {
        assert(items@.take(n as int) =~= items@);
    }
}

} // verus!
