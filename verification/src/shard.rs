//! Contiguous sharding of an index range over a fixed number of workers.

use vstd::prelude::*;

verus! {

/// Number of concurrent workers used by the harnesses.
pub const WORKERS: u32 = 4;

/// A half-open index range `[start, end)` assigned to one worker.
#[derive(Clone, Copy, Debug, PartialEq, Eq, Structural)]
pub struct Shard {
    pub start: u32,
    pub end: u32,
}

impl Shard {
    /// The bounds are in order.
    pub open spec fn wf(self) -> bool {
        self.start <= self.end
    }

    /// Number of indices in the shard.
    pub open spec fn size(self) -> nat {
        if self.start <= self.end {
            (self.end - self.start) as nat
        } else {
            0
        }
    }

    /// Whether index `i` belongs to the shard.
    pub open spec fn holds(self, i: int) -> bool {
        self.start <= i < self.end
    }

    /// Number of indices in the shard.
    pub fn len(&self) -> (n: u32)
        ensures
            n == self.size(),
    {
        if self.start <= self.end {
            self.end - self.start
        } else {
            0
        }
    }

    /// Whether the shard holds no index at all.
    pub fn is_empty(&self) -> (b: bool)
        ensures
            b <==> self.size() == 0,
            b <==> forall|i: int| !self.holds(i),
    {
        let b: bool = self.start >= self.end;
        proof {
            if !b {
                assert(self.holds(self.start as int));
            }
        }
        b
    }
}

/// Indices per worker before the remainder is handed to the last one.
pub open spec fn chunk(count: nat, workers: nat) -> nat {
    count / workers
}

/// First index of worker `k`'s shard.
pub open spec fn shard_start(count: nat, workers: nat, k: nat) -> nat {
    k * chunk(count, workers)
}

/// One past the last index of worker `k`'s shard; the last worker runs to `count`.
pub open spec fn shard_end(count: nat, workers: nat, k: nat) -> nat {
    if k + 1 == workers {
        count
    } else {
        (k + 1) * chunk(count, workers)
    }
}

/// The shard of worker `k` when `[0, count)` is split over `workers` workers.
pub open spec fn shard_of(count: u32, workers: u32, k: u32) -> Shard {
    Shard {
        start: shard_start(count as nat, workers as nat, k as nat) as u32,
        end: shard_end(count as nat, workers as nat, k as nat) as u32,
    }
}

/// The shards of all workers, in worker order.
pub open spec fn partition_spec(count: u32, workers: u32) -> Seq<Shard> {
    Seq::new(workers as nat, |k: int| shard_of(count, workers, k as u32))
}

/// A sequence of shards that tiles `[0, count)`: it starts at 0, each shard
/// begins where the previous one ended, and the last one ends at `count`.
pub open spec fn tiles(shards: Seq<Shard>, count: nat) -> bool {
    &&& shards.len() >= 1
    &&& shards[0].start == 0
    &&& shards[shards.len() - 1].end == count
    &&& forall|k: int| 0 <= k < shards.len() ==> (#[trigger] shards[k]).wf()
    &&& forall|k: int| 0 <= k < shards.len() - 1 ==> (#[trigger] shards[k]).end == shards[k + 1].start
}

/// Whether some shard of the sequence holds index `i`.
pub open spec fn assigned(shards: Seq<Shard>, i: int) -> bool {
    exists|k: int| 0 <= k < shards.len() && (#[trigger] shards[k]).holds(i)
}

/// Sum of the sizes of the first `upto` shards.
pub open spec fn total_size(shards: Seq<Shard>, upto: nat) -> nat
    decreases upto,
{
    if upto == 0 {
        0
    } else {
        total_size(shards, (upto - 1) as nat) + shards[upto - 1].size()
    }
}

/// Every shard boundary lies within `[0, count]`, and boundaries are in order.
pub proof fn lemma_shard_bounds(count: nat, workers: nat, k: nat)
    requires
        workers >= 1,
        k < workers,
    ensures
        shard_start(count, workers, k) <= shard_end(count, workers, k) <= count,
        k + 1 < workers ==> shard_end(count, workers, k) == shard_start(count, workers, k + 1),
        k == 0 ==> shard_start(count, workers, k) == 0,
        k + 1 == workers ==> shard_end(count, workers, k) == count,
{
    let c = chunk(count, workers);
    assert(c * workers <= count) by (nonlinear_arith)
        requires
            c == count / workers,
            workers >= 1,
    ;
    assert(k * c <= (k + 1) * c) by (nonlinear_arith);
    assert((k + 1) * c <= workers * c) by (nonlinear_arith)
        requires
            k + 1 <= workers,
    ;
    assert(workers * c == c * workers) by (nonlinear_arith);
    assert(0 * c == 0) by (nonlinear_arith);
}

/// Computes the shard of one worker.
pub fn shard_for(count: u32, workers: u32, worker: u32) -> (s: Shard)
    requires
        workers >= 1,
        worker < workers,
    ensures
        s == shard_of(count, workers, worker),
        s.start == shard_start(count as nat, workers as nat, worker as nat),
        s.end == shard_end(count as nat, workers as nat, worker as nat),
        s.wf(),
        s.end <= count,
{
    let per_worker: u32 = count / workers;
    proof {
        lemma_shard_bounds(count as nat, workers as nat, worker as nat);
        assert((worker + 1) * per_worker <= count) by (nonlinear_arith)
            requires
                per_worker == count / workers,
                worker + 1 <= workers,
                workers >= 1,
        ;
        assert(worker * per_worker <= (worker + 1) * per_worker) by (nonlinear_arith);
    }
    let start: u32 = worker * per_worker;
    let end: u32 = if worker == workers - 1 {
        count
    } else {
        (worker + 1) * per_worker
    };
    Shard { start, end }
}

/// Splits `[0, count)` into `workers` contiguous shards, in index order.
///
/// Every worker but the last gets `count / workers` indices; the last one
/// also takes the remainder.
pub fn partition(count: u32, workers: u32) -> (shards: Vec<Shard>)
    requires
        workers >= 1,
    ensures
        shards@ == partition_spec(count, workers),
        shards.len() == workers,
        tiles(shards@, count as nat),
        total_size(shards@, workers as nat) == count,
{
    let mut shards: Vec<Shard> = Vec::new();
    let mut worker: u32 = 0;
    while worker < workers
        invariant
            workers >= 1,
            worker <= workers,
            shards.len() == worker,
            forall|k: int| 0 <= k < worker ==> #[trigger] shards[k] == shard_of(count, workers, k as u32),
        decreases workers - worker,
    {
        let s: Shard = shard_for(count, workers, worker);
        shards.push(s);
        worker = worker + 1;
    }
    proof {
        assert(shards@ =~= partition_spec(count, workers));
        lemma_partition_exact(count, workers);
    }
    shards
}

/// The shards of a partition are exact: they tile `[0, count)` in index
/// order, their sizes add up to `count`, no two of them share an index, and
/// an index belongs to some shard exactly if it lies in `[0, count)`.
pub proof fn lemma_partition_exact(count: u32, workers: u32)
    requires
        workers >= 1,
    ensures
        partition_spec(count, workers).len() == workers,
        tiles(partition_spec(count, workers), count as nat),
        total_size(partition_spec(count, workers), workers as nat) == count,
        forall|j: int, k: int, i: int|
            0 <= j < workers && 0 <= k < workers && j != k ==> !(#[trigger] partition_spec(
                count,
                workers,
            )[j].holds(i) && #[trigger] partition_spec(count, workers)[k].holds(i)),
        forall|i: int| #[trigger] assigned(partition_spec(count, workers), i) <==> 0 <= i < count,
{
    let shards = partition_spec(count, workers);
    assert forall|k: int| 0 <= k < shards.len() implies (#[trigger] shards[k]).wf() by {
        lemma_shard_bounds(count as nat, workers as nat, k as nat);
    }
    assert forall|k: int| 0 <= k < shards.len() - 1 implies (#[trigger] shards[k]).end == shards[k
        + 1].start by {
        lemma_shard_bounds(count as nat, workers as nat, k as nat);
        lemma_shard_bounds(count as nat, workers as nat, (k + 1) as nat);
    }
    lemma_shard_bounds(count as nat, workers as nat, 0);
    lemma_shard_bounds(count as nat, workers as nat, (workers - 1) as nat);
    assert(tiles(shards, count as nat));
    lemma_tiles_sizes_sum(shards, count as nat);
    assert forall|j: int, k: int, i: int|
        0 <= j < workers && 0 <= k < workers && j != k implies !(#[trigger] shards[j].holds(i)
        && #[trigger] shards[k].holds(i)) by {
        lemma_tiles_disjoint(shards, count as nat, j, k, i);
    }
    assert forall|i: int| #[trigger] assigned(shards, i) <==> 0 <= i < count by {
        lemma_tiles_cover(shards, count as nat, i);
    }
}

/// The sizes of the first `upto` shards of a tiling add up to the end of shard `upto - 1`.
proof fn lemma_prefix_sizes(shards: Seq<Shard>, count: nat, upto: nat)
    requires
        tiles(shards, count),
        1 <= upto <= shards.len(),
    ensures
        total_size(shards, upto) == shards[upto - 1].end,
    decreases upto,
{
    if upto == 1 {
        assert(total_size(shards, 0) == 0);
        assert(shards[0].wf());
    } else {
        lemma_prefix_sizes(shards, count, (upto - 1) as nat);
        assert(shards[upto - 2].end == shards[upto - 2 + 1].start);
        assert(shards[upto - 1].wf());
    }
}

/// The sizes of the shards of a tiling of `[0, count)` sum to exactly `count`.
pub proof fn lemma_tiles_sizes_sum(shards: Seq<Shard>, count: nat)
    requires
        tiles(shards, count),
    ensures
        total_size(shards, shards.len()) == count,
{
    lemma_prefix_sizes(shards, count, shards.len());
}

/// In a tiling, shard boundaries never decrease from one shard to a later one.
pub proof fn lemma_tiles_ordered(shards: Seq<Shard>, count: nat, j: int, k: int)
    requires
        tiles(shards, count),
        0 <= j < k < shards.len(),
    ensures
        shards[j].end <= shards[k].start,
    decreases k - j,
{
    if j + 1 == k {
        assert(shards[j].end == shards[j + 1].start);
    } else {
        lemma_tiles_ordered(shards, count, j, k - 1);
        assert(shards[k - 1].wf());
        assert(shards[k - 1].end == shards[k - 1 + 1].start);
    }
}

/// Two different shards of a tiling share no index.
pub proof fn lemma_tiles_disjoint(shards: Seq<Shard>, count: nat, j: int, k: int, i: int)
    requires
        tiles(shards, count),
        0 <= j < shards.len(),
        0 <= k < shards.len(),
        j != k,
    ensures
        !(shards[j].holds(i) && shards[k].holds(i)),
{
    if j < k {
        lemma_tiles_ordered(shards, count, j, k);
    } else {
        lemma_tiles_ordered(shards, count, k, j);
    }
}

/// Some shard among the first `upto` of a tiling holds `i`, if `i` lies below their end.
proof fn lemma_prefix_covers(shards: Seq<Shard>, count: nat, upto: int, i: int) -> (k: int)
    requires
        tiles(shards, count),
        1 <= upto <= shards.len(),
        0 <= i < shards[upto - 1].end,
    ensures
        0 <= k < upto,
        shards[k].holds(i),
    decreases upto,
{
    if shards[upto - 1].start <= i {
        upto - 1
    } else {
        assert(upto > 1);
        assert(shards[upto - 2].end == shards[upto - 2 + 1].start);
        lemma_prefix_covers(shards, count, upto - 1, i)
    }
}

/// The union of the shards of a tiling is exactly `[0, count)`.
pub proof fn lemma_tiles_cover(shards: Seq<Shard>, count: nat, i: int)
    requires
        tiles(shards, count),
    ensures
        assigned(shards, i) <==> 0 <= i < count,
{
    if 0 <= i < count {
        let k = lemma_prefix_covers(shards, count, shards.len() as int, i);
        assert(shards[k].holds(i));
    }
    if exists|k: int| 0 <= k < shards.len() && (#[trigger] shards[k]).holds(i) {
        let k = choose|k: int| 0 <= k < shards.len() && (#[trigger] shards[k]).holds(i);
        assert(shards[k].wf());
        if k < shards.len() - 1 {
            lemma_tiles_ordered(shards, count, k, shards.len() - 1);
            assert(shards[shards.len() - 1].wf());
        }
    }
}

/// With fewer indices than workers, every worker but the last has an empty
/// shard; with a single worker that worker's shard is the empty range itself.
pub proof fn lemma_small_batch_leaves_workers_idle(count: u32, workers: u32)
    requires
        workers >= 1,
        count < workers,
    ensures
        exists|k: u32| k < workers && (#[trigger] shard_of(count, workers, k)).size() == 0,
        forall|k: u32| k + 1 < workers ==> (#[trigger] shard_of(count, workers, k)).size() == 0,
        shard_of(count, workers, (workers - 1) as u32) == (Shard { start: 0, end: count }),
{
    let c = chunk(count as nat, workers as nat);
    assert(c == 0) by (nonlinear_arith)
        requires
            c == (count as nat) / (workers as nat),
            count < workers,
    ;
    assert forall|k: u32| k + 1 < workers implies (#[trigger] shard_of(count, workers, k)).size()
        == 0 by {
        assert(k * c == 0) by (nonlinear_arith)
            requires
                c == 0,
        ;
        assert((k + 1) * c == 0) by (nonlinear_arith)
            requires
                c == 0,
        ;
    }
    assert((workers - 1) * c == 0) by (nonlinear_arith)
        requires
            c == 0,
    ;
    if workers == 1 {
        assert(shard_of(count, workers, 0).size() == 0);
    } else {
        assert(shard_of(count, workers, 0).size() == 0);
    }
}

} // verus!
