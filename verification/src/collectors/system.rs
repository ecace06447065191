//! Host metrics: what the collector computes from the raw readings.
use vstd::prelude::*;

use crate::text::{chars_of, starts_with, starts_with_exec, str_eq};

verus! {

/// A mounted filesystem and its space.
pub struct DiskUsage {
    pub mount: String,
    pub total: u64,
    pub available: u64,
    pub fs: String,
}

/// The order of the process list.
#[derive(Clone, Copy, Debug, PartialEq, Eq, Structural)]
pub enum SortBy {
    Cpu,
    Mem,
}

impl SortBy {
    /// `mem`, `memory` or `ram` sort by memory; anything else by CPU.
    pub fn parse(s: &str) -> (r: SortBy)
        ensures
            r == (if s@ == "mem"@ || s@ == "memory"@ || s@ == "ram"@ {
                SortBy::Mem
            } else {
                SortBy::Cpu
            }),
    {
        if str_eq(s, "mem") || str_eq(s, "memory") || str_eq(s, "ram") {
            SortBy::Mem
        } else {
            SortBy::Cpu
        }
    }
}

/// Mounts that are listed: not snap images, not under `/run/`, not devices.
pub open spec fn mount_listed(mp: Seq<char>) -> bool {
    !starts_with(mp, "/snap/"@) && !starts_with(mp, "/run/"@) && !starts_with(mp, "/dev"@)
}

/// Whether the disk mounted at `mount_point` is listed.
pub fn keep_mount(mount_point: &str) -> (r: bool)
    ensures
        r == mount_listed(mount_point@),
{
    let cs = chars_of(mount_point);
    !starts_with_exec(&cs, "/snap/") && !starts_with_exec(&cs, "/run/") && !starts_with_exec(
        &cs,
        "/dev",
    )
}

/// The sum of the first components.
pub open spec fn sum_rx(v: Seq<(u64, u64)>) -> int
    decreases v.len(),
{
    if v.len() == 0 {
        0
    } else {
        sum_rx(v.drop_last()) + v.last().0
    }
}

/// The sum of the second components.
pub open spec fn sum_tx(v: Seq<(u64, u64)>) -> int
    decreases v.len(),
{
    if v.len() == 0 {
        0
    } else {
        sum_tx(v.drop_last()) + v.last().1
    }
}

/// The bytes received and transmitted over all interfaces, from the
/// `(received, transmitted)` of each; `None` where a total does not fit in
/// `u64` (where the running sum would overflow).
pub fn traffic_totals(per_interface: &Vec<(u64, u64)>) -> (r: Option<(u64, u64)>)
    ensures
        match r {
            Some((rx, tx)) => rx == sum_rx(per_interface@) && tx == sum_tx(per_interface@),
            None => sum_rx(per_interface@) > u64::MAX || sum_tx(per_interface@) > u64::MAX,
        },
{
    let mut rx: u64 = 0;
    let mut tx: u64 = 0;
    for i in 0..per_interface.len()
        invariant
            rx == sum_rx(per_interface@.take(i as int)),
            tx == sum_tx(per_interface@.take(i as int)),
    {
        let (a, b) = per_interface[i];
        proof {
            let t = per_interface@.take(i + 1);
            assert(t.drop_last() =~= per_interface@.take(i as int));
            lemma_sums_monotone(per_interface@, i + 1);
        }
        if a > u64::MAX - rx || b > u64::MAX - tx {
            return None;
        }
        rx = rx + a;
        tx = tx + b;
    }
    assert(per_interface@.take(per_interface.len() as int) =~= per_interface@);
    Some((rx, tx))
}

/// The sums over a prefix are at most the sums over the whole.
pub proof fn lemma_sums_monotone(v: Seq<(u64, u64)>, k: int)
    requires
        0 <= k <= v.len(),
    ensures
        sum_rx(v.take(k)) <= sum_rx(v),
        sum_tx(v.take(k)) <= sum_tx(v),
    decreases v.len(),
{
    if k < v.len() {
        assert(v.drop_last().take(k) =~= v.take(k));
        lemma_sums_monotone(v.drop_last(), k);
    } else {
        assert(v.take(k) =~= v);
    }
}

/// Process `a` comes before process `b` when it uses more memory, or the
/// same and was listed first (a stable sort by descending memory).
pub open spec fn mem_before(mems: Seq<u64>, a: int, b: int) -> bool {
    mems[a] > mems[b] || (mems[a] == mems[b] && a < b)
}

/// `r` is the first `k` processes in that order: distinct valid indices, in
/// order, and every process left out comes after every process listed.
pub open spec fn is_top_by_mem(mems: Seq<u64>, r: Seq<usize>, k: int) -> bool {
    &&& r.len() == k
    &&& forall|i: int| 0 <= i < r.len() ==> #[trigger] r[i] < mems.len()
    &&& forall|i: int, j: int|
        0 <= i < j < r.len() ==> mem_before(mems, #[trigger] r[i] as int, #[trigger] r[j] as int)
    &&& forall|x: usize, i: int|
        #![trigger r.contains(x), r[i]]
        x < mems.len() && !r.contains(x) && 0 <= i < r.len() ==> mem_before(
            mems,
            r[i] as int,
            x as int,
        )
}

/// The indices of the `limit` processes using the most memory, most first
/// (ties in listing order): what sorting by descending memory and keeping the
/// first `limit` gives.
pub fn rank_by_mem(mems: &Vec<u64>, limit: usize) -> (r: Vec<usize>)
    ensures
        is_top_by_mem(mems@, r@, if limit < mems@.len() { limit as int } else { mems@.len() as int }),
{
    let n = mems.len();
    let mut order: Vec<usize> = Vec::new();
    for i in 0..n
        invariant
            n == mems.len(),
            order.len() == i,
            forall|q: int| 0 <= q < order.len() ==> #[trigger] order@[q] < i,
            forall|x: int| 0 <= x < i ==> #[trigger] order@.contains(x as usize),
            forall|q: int, w: int|
                0 <= q < w < order.len() ==> mem_before(mems@, #[trigger] order@[q] as int, #[trigger] order@[w] as int),
    {
        let mut p: usize = 0;
        while p < order.len() && mems[order[p]] >= mems[i]
            invariant
                n == mems.len(),
                i < n,
                p <= order.len(),
                forall|q: int| 0 <= q < order.len() ==> #[trigger] order@[q] < i,
                forall|q: int| 0 <= q < p ==> mems@[#[trigger] order@[q] as int] >= mems@[i as int],
            decreases order.len() - p,
        {
            p = p + 1;
        }
        let ghost old_order = order@;
        order.insert(p, i);
        proof {
            assert(order@ =~= old_order.take(p as int) + seq![i] + old_order.skip(p as int));
            assert forall|q: int| 0 <= q < order.len() implies #[trigger] order@[q] < i + 1 by {
                if q < p {
                    assert(order@[q] == old_order[q]);
                } else if q > p {
                    assert(order@[q] == old_order[q - 1]);
                }
            }
            assert forall|x: int| 0 <= x < i + 1 implies #[trigger] order@.contains(x as usize) by {
                if x == i {
                    assert(order@[p as int] == i);
                } else {
                    assert(old_order.contains(x as usize));
                    let w = choose|w: int| 0 <= w < old_order.len() && old_order[w] == x as usize;
                    if w < p {
                        assert(order@[w] == x as usize);
                    } else {
                        assert(order@[w + 1] == x as usize);
                    }
                }
            }
            assert forall|q: int, w: int| 0 <= q < w < order.len() implies mem_before(
                mems@,
                #[trigger] order@[q] as int,
                #[trigger] order@[w] as int,
            ) by {
                if w < p {
                    assert(order@[q] == old_order[q] && order@[w] == old_order[w]);
                } else if w == p {
                    assert(order@[q] == old_order[q]);
                } else if q > p {
                    assert(order@[q] == old_order[q - 1] && order@[w] == old_order[w - 1]);
                } else if q == p {
                    assert(order@[w] == old_order[w - 1]);
                    assert(p < old_order.len());
                    assert(mems@[old_order[p as int] as int] < mems@[i as int]);
                    if w - 1 > p {
                        assert(mem_before(mems@, old_order[p as int] as int, old_order[w - 1] as int));
                    }
                } else {
                    assert(order@[q] == old_order[q] && order@[w] == old_order[w - 1]);
                }
            }
        }
    }
    let k = if limit < n {
        limit
    } else {
        n
    };
    let mut r: Vec<usize> = Vec::new();
    for t in 0..k
        invariant
            k <= order.len(),
            r@ == order@.take(t as int),
    {
        r.push(order[t]);
        assert(r@ =~= order@.take(t + 1));
    }
    proof {
        assert forall|x: usize, i: int|
            #![trigger r@.contains(x), r@[i]]
            x < mems@.len() && !r@.contains(x) && 0 <= i < r@.len() implies mem_before(
                mems@,
                r@[i] as int,
                x as int,
            ) by {
            assert(order@.contains(x as int as usize));
            let w = choose|w: int| 0 <= w < order@.len() && order@[w] == x;
            if w < k {
                assert(r@[w] == x);
            } else {
                assert(r@[i] == order@[i]);
                assert(mem_before(mems@, order@[i] as int, order@[w] as int));
            }
        }
    }
    r
}


/// A disk is left out of the list only when its mount point begins with
/// `/snap/`, `/run/` or `/dev`, and then always. So every mount point whose
/// first directory name does not begin with `s`, `r` or `d` is listed
/// (`/`, `/home`, `/boot`, `/mnt/...`, `/var/...`), and so is a mount point
/// under `/srv` or `/data`, which no prefix covers.
pub proof fn lemma_mounts_left_out(mp: Seq<char>)
    ensures
        !mount_listed(mp) <==> (starts_with(mp, "/snap/"@) || starts_with(mp, "/run/"@) || starts_with(
            mp,
            "/dev"@,
        )),
        mp.len() < 2 ==> mount_listed(mp),
        mp.len() >= 2 && mp[1] != 's' && mp[1] != 'r' && mp[1] != 'd' ==> mount_listed(mp),
        mp.len() >= 3 && mp[1] == 's' && mp[2] != 'n' ==> mount_listed(mp),
        mp.len() >= 3 && mp[1] == 'd' && mp[2] != 'e' ==> mount_listed(mp),
{
    reveal_strlit("/snap/");
    reveal_strlit("/run/");
    reveal_strlit("/dev");
    if starts_with(mp, "/snap/"@) {
        assert(mp[1] == mp.take(6)[1] && mp[2] == mp.take(6)[2]);
    }
    if starts_with(mp, "/run/"@) {
        assert(mp[1] == mp.take(5)[1]);
    }
    if starts_with(mp, "/dev"@) {
        assert(mp[1] == mp.take(4)[1] && mp[2] == mp.take(4)[2]);
    }
}

} // verus!
