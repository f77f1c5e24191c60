//! What holds of the store over runs of block heads, repeated drains and
//! disk navigation.

use vstd::prelude::*;
use crate::store::DataView;
use crate::store::Head;
use crate::store::empty_store;

verus! {

/// The largest entry of `s`, and 0 for the empty sequence.
pub open spec fn max_of(s: Seq<u64>) -> u64
    decreases s.len(),
{
    if s.len() == 0 {
        0
    } else if s.last() > max_of(s.drop_last()) {
        s.last()
    } else {
        max_of(s.drop_last())
    }
}

/// Whether `k` is the first index at which `s` holds its largest entry.
pub open spec fn first_max_at(s: Seq<u64>, k: int) -> bool {
    &&& 0 <= k < s.len()
    &&& s[k] == max_of(s)
    &&& forall|j: int| 0 <= j < k ==> s[j] < s[k]
}

/// Whether the heads' timestamps are positive and strictly increasing.
pub open spec fn ascending(heads: Seq<Head>) -> bool {
    &&& forall|i: int| 0 <= i < heads.len() ==> (#[trigger] heads[i]).timestamp > 0
    &&& forall|i: int, j: int|
        0 <= i < j < heads.len() ==> (#[trigger] heads[i]).timestamp < (#[trigger] heads[j]).timestamp
}

/// The transaction counts of the heads, in order.
pub open spec fn counts(heads: Seq<Head>) -> Seq<u64> {
    Seq::new(heads.len(), |i: int| heads[i].txs)
}

/// The time from each head to the next, in order.
pub open spec fn gaps(heads: Seq<Head>) -> Seq<u64> {
    if heads.len() == 0 {
        Seq::empty()
    } else {
        Seq::new(
            (heads.len() - 1) as nat,
            |i: int| (heads[i + 1].timestamp - heads[i].timestamp) as u64,
        )
    }
}

/// No entry of `s` is above `max_of(s)`, and a sequence that is not empty
/// holds its maximum.
pub proof fn lemma_max_of(s: Seq<u64>)
    ensures
        forall|i: int| 0 <= i < s.len() ==> s[i] <= max_of(s),
        s.len() > 0 ==> exists|k: int| first_max_at(s, k),
    decreases s.len(),
{
    if s.len() > 0 {
        let t = s.drop_last();
        lemma_max_of(t);
        assert forall|i: int| 0 <= i < s.len() implies s[i] <= max_of(s) by {
            if i < t.len() {
                assert(t[i] == s[i]);
            }
        }
        if t.len() == 0 || s.last() > max_of(t) {
            let k = s.len() - 1;
            assert forall|j: int| 0 <= j < k implies s[j] < s[k] by {
                assert(t[j] == s[j]);
            }
            assert(first_max_at(s, k));
        } else {
            let k = choose|k: int| first_max_at(t, k);
            assert(t[k] == s[k]);
            assert forall|j: int| 0 <= j < k implies s[j] < s[k] by {
                assert(t[j] == s[j]);
            }
            assert(first_max_at(s, k));
        }
    }
}

/// From a store that has seen no head, a run of heads with positive,
/// strictly increasing timestamps leaves: every transaction count in the
/// buffer; as the maximum the largest count, with the number of the first
/// block that had it (where any count is above 0); in the interval buffer
/// the time from each head to the next; and as the maximum interval the
/// largest of these.
pub proof fn lemma_heads_from_empty(heads: Seq<Head>)
    requires
        ascending(heads),
    ensures
        empty_store().record_heads(heads).txns == counts(heads),
        empty_store().record_heads(heads).max_txs == max_of(counts(heads)),
        empty_store().record_heads(heads).intervals == gaps(heads),
        empty_store().record_heads(heads).max_interval == max_of(gaps(heads)),
        forall|k: int|
            first_max_at(counts(heads), k) && max_of(counts(heads)) > 0 ==> empty_store().record_heads(
                heads,
            ).max_txs_block_number == heads[k].number,
        max_of(counts(heads)) == 0 ==> empty_store().record_heads(heads).max_txs_block_number == 0,
        heads.len() > 0 ==> empty_store().record_heads(heads).cur_block_time
            == heads.last().timestamp,
        heads.len() > 0 ==> empty_store().record_heads(heads).cur_block_number
            == heads.last().number,
        heads.len() > 0 ==> empty_store().record_heads(heads).cur_txs == heads.last().txs,
        heads.len() > 1 ==> empty_store().record_heads(heads).cur_interval == gaps(heads).last(),
        heads.len() <= 1 ==> empty_store().record_heads(heads).cur_interval == 0,
        heads.len() == 0 ==> empty_store().record_heads(heads) == empty_store(),
        heads.len() == 1 ==> empty_store().record_heads(heads).prev_block_time == 0,
        heads.len() > 1 ==> empty_store().record_heads(heads).prev_block_time
            == heads[heads.len() - 2].timestamp,
    decreases heads.len(),
{
    let r = empty_store().record_heads(heads);
    if heads.len() == 0 {
        assert(counts(heads) =~= Seq::<u64>::empty());
    } else {
        let init = heads.drop_last();
        let last = heads.last();
        let p = empty_store().record_heads(init);
        assert(ascending(init)) by {
            assert forall|i: int| 0 <= i < init.len() implies (#[trigger] init[i]).timestamp
                > 0 by {
                assert(init[i] == heads[i]);
            }
            assert forall|i: int, j: int| 0 <= i < j < init.len() implies (#[trigger] init[i]).timestamp
                < (#[trigger] init[j]).timestamp by {
                assert(init[i] == heads[i]);
                assert(init[j] == heads[j]);
            }
        }
        lemma_heads_from_empty(init);
        assert(r == p.record_head(last));
        let c = counts(heads);
        let ci = counts(init);
        assert(c.drop_last() =~= ci);
        assert(c.last() == last.txs);
        assert(r.txns =~= c);
        lemma_max_of(ci);
        lemma_max_of(c);
        assert forall|k: int| first_max_at(c, k) && max_of(c) > 0 implies r.max_txs_block_number
            == heads[k].number by {
            if last.txs > max_of(ci) {
                if k < c.len() - 1 {
                    assert(ci[k] == c[k]);
                }
            } else {
                if k == c.len() - 1 {
                    if ci.len() > 0 {
                        let m = choose|m: int| first_max_at(ci, m);
                        assert(ci[m] == c[m]);
                    }
                } else {
                    assert(ci[k] == c[k]);
                    assert forall|j: int| 0 <= j < k implies ci[j] < ci[k] by {
                        assert(ci[j] == c[j]);
                    }
                    assert(first_max_at(ci, k));
                    assert(init[k] == heads[k]);
                }
            }
        }
        let g = gaps(heads);
        let gi = gaps(init);
        if heads.len() == 1 {
            assert(p == empty_store());
            assert(g =~= Seq::<u64>::empty());
        } else {
            assert(init.last() == heads[heads.len() - 2]);
            assert(p.cur_block_time == heads[heads.len() - 2].timestamp);
            assert(heads[heads.len() - 2].timestamp > 0);
            assert(heads[heads.len() - 2].timestamp < last.timestamp);
            let d = (last.timestamp - heads[heads.len() - 2].timestamp) as u64;
            assert(g.drop_last() =~= gi) by {
                assert forall|i: int| 0 <= i < gi.len() implies g.drop_last()[i] == gi[i] by {
                    assert(init[i] == heads[i]);
                    assert(init[i + 1] == heads[i + 1]);
                }
            }
            assert(g.last() == d);
            assert(r.intervals =~= g);
        }
    }
}

/// From a store that has seen no head, every run of heads with positive,
/// strictly increasing timestamps can be recorded.
pub proof fn lemma_ascending_accepted(heads: Seq<Head>)
    requires
        ascending(heads),
    ensures
        empty_store().accepts_all(heads),
    decreases heads.len(),
{
    if heads.len() > 0 {
        let init = heads.drop_last();
        assert(ascending(init)) by {
            assert forall|i: int| 0 <= i < init.len() implies (#[trigger] init[i]).timestamp
                > 0 by {
                assert(init[i] == heads[i]);
            }
            assert forall|i: int, j: int| 0 <= i < j < init.len() implies (#[trigger] init[i]).timestamp
                < (#[trigger] init[j]).timestamp by {
                assert(init[i] == heads[i]);
                assert(init[j] == heads[j]);
            }
        }
        lemma_ascending_accepted(init);
        lemma_heads_from_empty(init);
        if init.len() > 0 {
            assert(init.last() == heads[heads.len() - 2]);
            assert(heads[heads.len() - 2].timestamp < heads[heads.len() - 1].timestamp);
        }
    }
}

/// A head never lowers a maximum, never takes a sample out of a buffer,
/// and leaves alone what the other collectors write.
pub proof fn lemma_head_keeps(s: DataView, head: Head)
    ensures
        s.record_head(head).max_txs >= s.max_txs,
        s.record_head(head).max_txs >= head.txs,
        s.record_head(head).max_interval >= s.max_interval,
        s.txns.is_prefix_of(s.record_head(head).txns),
        s.intervals.is_prefix_of(s.record_head(head).intervals),
        s.record_head(head).state_names == s.state_names,
        s.record_head(head).states == s.states,
        s.record_head(head).stat_names == s.stat_names,
        s.record_head(head).stats == s.stats,
        s.record_head(head).node_detail == s.node_detail,
        s.record_head(head).system_stats == s.system_stats,
{
}

/// A drain hands out the whole buffer and leaves it empty, so a second
/// drain right after it hands out nothing and changes nothing.
pub proof fn lemma_drain_twice(s: DataView)
    ensures
        s.drain_txns().0 == s.txns,
        s.drain_txns().1.drain_txns().0 == Seq::<u64>::empty(),
        s.drain_txns().1.drain_txns().1 == s.drain_txns().1,
        s.drain_intervals().0 == s.intervals,
        s.drain_intervals().1.drain_intervals().0 == Seq::<u64>::empty(),
        s.drain_intervals().1.drain_intervals().1 == s.drain_intervals().1,
{
}

/// The store after `k` times "next disk".
pub open spec fn next_disk_times(s: DataView, k: nat) -> DataView
    decreases k,
{
    if k == 0 {
        s
    } else {
        let t = next_disk_times(s, (k - 1) as nat);
        t.with_disk_index(t.next_disk_index())
    }
}

/// From a selected disk that exists, "next" as many times as there are
/// disks leads back to it, "previous" undoes "next", and "next" undoes
/// "previous".
pub proof fn lemma_disk_cycle(s: DataView)
    requires
        s.system_stats.current_disk_index < s.disk_count(),
        s.disk_count() <= usize::MAX,
    ensures
        next_disk_times(s, s.disk_count()) == s,
        s.with_disk_index(s.next_disk_index()).prev_disk_index()
            == s.system_stats.current_disk_index,
        s.with_disk_index(s.prev_disk_index()).next_disk_index()
            == s.system_stats.current_disk_index,
        s.next_disk_index() < s.disk_count(),
        s.prev_disk_index() < s.disk_count(),
{
    let n = s.disk_count() as int;
    let i = s.system_stats.current_disk_index as int;
    lemma_next_disk_times(s, s.disk_count());
    assert((i + n) % n == i) by {
        vstd::arithmetic::div_mod::lemma_mod_add_multiples_vanish(i, n);
        vstd::arithmetic::div_mod::lemma_small_mod(i as nat, n as nat);
    }
    assert(next_disk_times(s, s.disk_count()).system_stats =~= s.system_stats);
    if i + 1 < n {
        vstd::arithmetic::div_mod::lemma_small_mod((i + 1) as nat, n as nat);
    } else {
        vstd::arithmetic::div_mod::lemma_mod_self_0(n);
    }
    if i == 0 {
        vstd::arithmetic::div_mod::lemma_mod_self_0(n);
    } else {
        vstd::arithmetic::div_mod::lemma_small_mod(i as nat, n as nat);
    }
}

/// After `k` times "next" the selected index has moved on by `k`, around
/// the number of disks.
proof fn lemma_next_disk_times(s: DataView, k: nat)
    requires
        s.system_stats.current_disk_index < s.disk_count(),
        s.disk_count() <= usize::MAX,
    ensures
        next_disk_times(s, k) == s.with_disk_index(
            ((s.system_stats.current_disk_index + k) % (s.disk_count() as int)) as usize,
        ),
    decreases k,
{
    let n = s.disk_count() as int;
    let i = s.system_stats.current_disk_index as int;
    if k == 0 {
        vstd::arithmetic::div_mod::lemma_small_mod(i as nat, n as nat);
        assert(s.with_disk_index(s.system_stats.current_disk_index).system_stats
            =~= s.system_stats);
    } else {
        lemma_next_disk_times(s, (k - 1) as nat);
        let t = next_disk_times(s, (k - 1) as nat);
        let j = (i + k - 1) % n;
        vstd::arithmetic::div_mod::lemma_mod_bound(i + k - 1, n);
        vstd::arithmetic::div_mod::lemma_mod_bound(i + k, n);
        assert(t.system_stats.current_disk_index == j);
        assert((j + 1) % n == (i + k) % n) by {
            vstd::arithmetic::div_mod::lemma_add_mod_noop(i + k - 1, 1, n);
            if n == 1 {
            } else {
                vstd::arithmetic::div_mod::lemma_small_mod(1, n as nat);
            }
        }
    }
}

} // verus!
