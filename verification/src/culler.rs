//! The population-bounded culler: a maintenance pass that removes every
//! entity whose vertical position has fallen strictly below a configured
//! threshold.
//!
//! The pass counts the live entities first. A small population is scanned
//! sequentially, removing as it goes; a large one is scanned in consecutive
//! shards — the model of handing the read-only scan to worker threads — and
//! each shard funnels its removal requests into a single deferred-command
//! queue, which is drained afterwards at the synchronization point. Both
//! branches leave the registry in exactly the same state.

use vstd::prelude::*;

use crate::population::on_cube_despawn;
use crate::world::EntityRecord;
use crate::world::World;
use crate::world::cube_pred;
use crate::world::cube_count;
use crate::world::ids_unique;

verus! {

/// Whether the culler removes this record: it has a position and that
/// position lies strictly below the threshold. Resting exactly on the
/// threshold is surviving.
pub open spec fn breaches(r: EntityRecord, y_min: int) -> bool {
    r.position matches Some(p) && p.y < y_min
}

/// The survivor predicate as a function value, so every filter over it is
/// the same term.
pub open spec fn survivor_pred(y_min: int) -> spec_fn(EntityRecord) -> bool {
    |r: EntityRecord| !breaches(r, y_min)
}

/// The removal predicate as a function value.
pub open spec fn breach_pred(y_min: int) -> spec_fn(EntityRecord) -> bool {
    |r: EntityRecord| breaches(r, y_min)
}

/// The records a culling pass keeps, in their original order.
pub open spec fn survivors(s: Seq<EntityRecord>, y_min: int) -> Seq<EntityRecord> {
    s.filter(survivor_pred(y_min))
}

/// The identifiers a scan of `s` asks to remove, in scan order.
pub open spec fn removal_ids(s: Seq<EntityRecord>, y_min: int) -> Seq<u64> {
    s.filter(breach_pred(y_min)).map_values(|r: EntityRecord| r.id)
}

/// A culling pass partitions the scanned records exactly: every survivor
/// rests at or above the threshold, every record at or above it survives,
/// and every removed record was below it at scan time.
pub proof fn lemma_culler_partition(s: Seq<EntityRecord>, y_min: int)
    ensures
        forall|i: int|
            0 <= i < survivors(s, y_min).len() ==> !breaches(
                #[trigger] survivors(s, y_min)[i],
                y_min,
            ),
        forall|i: int|
            0 <= i < s.len() && !breaches(#[trigger] s[i], y_min) ==> survivors(s, y_min).contains(
                s[i],
            ),
        forall|i: int|
            0 <= i < s.filter(breach_pred(y_min)).len() ==> breaches(
                #[trigger] s.filter(breach_pred(y_min))[i],
                y_min,
            ),
{
    assert forall|i: int| 0 <= i < survivors(s, y_min).len() implies !breaches(
        survivors(s, y_min)[i],
        y_min,
    ) by {
        s.lemma_filter_pred(survivor_pred(y_min), i);
    }
    assert forall|i: int| 0 <= i < s.len() && !breaches(s[i], y_min) implies survivors(
        s,
        y_min,
    ).contains(s[i]) by {
        s.lemma_filter_contains(survivor_pred(y_min), i);
    }
    assert forall|i: int| 0 <= i < s.filter(breach_pred(y_min)).len() implies breaches(
        s.filter(breach_pred(y_min))[i],
        y_min,
    ) by {
        s.lemma_filter_pred(breach_pred(y_min), i);
    }
}

/// Filtering keeps a sequence whole when every record satisfies the
/// predicate.
proof fn lemma_filter_of_all(s: Seq<EntityRecord>, pred: spec_fn(EntityRecord) -> bool)
    requires
        forall|i: int| 0 <= i < s.len() ==> pred(#[trigger] s[i]),
    ensures
        s.filter(pred) == s,
    decreases s.len(),
{
    reveal(Seq::filter);
    if s.len() > 0 {
        assert(forall|i: int| 0 <= i < s.len() - 1 ==> s.drop_last()[i] == s[i]);
        lemma_filter_of_all(s.drop_last(), pred);
        assert(pred(s.last()));
        assert(s.filter(pred) =~= s);
    } else {
        assert(s.filter(pred) =~= s);
    }
}

/// Culling an already-culled set removes nothing: the pass is idempotent,
/// and a second invocation on the unchanged survivors is a no-op.
pub proof fn lemma_culler_idempotent(s: Seq<EntityRecord>, y_min: int)
    ensures
        survivors(survivors(s, y_min), y_min) == survivors(s, y_min),
{
    let kept = survivors(s, y_min);
    assert forall|i: int| 0 <= i < kept.len() implies survivor_pred(y_min)(#[trigger] kept[i]) by {
        s.lemma_filter_pred(survivor_pred(y_min), i);
    }
    lemma_filter_of_all(kept, survivor_pred(y_min));
}

/// Scanning two stretches one after the other collects the same requests as
/// scanning their concatenation.
pub proof fn lemma_removal_ids_add(a: Seq<EntityRecord>, b: Seq<EntityRecord>, y_min: int)
    ensures
        removal_ids(a + b, y_min) == removal_ids(a, y_min) + removal_ids(b, y_min),
{
    Seq::filter_distributes_over_add(a, b, breach_pred(y_min));
    assert(removal_ids(a + b, y_min) =~= removal_ids(a, y_min) + removal_ids(b, y_min));
}

/// The removal requests collected by the fan-out scan: the records are split
/// into consecutive shards of `shard_len`, each shard scans independently,
/// and the per-shard queues are concatenated in shard order through the
/// single deferred-command queue.
pub open spec fn removal_ids_sharded(s: Seq<EntityRecord>, y_min: int, shard_len: int) -> Seq<u64>
    decreases s.len() when shard_len >= 1
{
    if s.len() <= shard_len {
        removal_ids(s, y_min)
    } else {
        removal_ids(s.take(shard_len), y_min) + removal_ids_sharded(
            s.skip(shard_len),
            y_min,
            shard_len,
        )
    }
}

/// Splitting the scan into shards neither adds, drops nor reorders removal
/// requests: the fan-out scan's queue equals the sequential scan's, whatever
/// the shard length. Branch choice affects execution strategy only, never
/// the outcome.
pub proof fn lemma_sharded_scan_agrees(s: Seq<EntityRecord>, y_min: int, shard_len: int)
    requires
        shard_len >= 1,
    ensures
        removal_ids_sharded(s, y_min, shard_len) == removal_ids(s, y_min),
    decreases s.len(),
{
    if s.len() > shard_len {
        lemma_sharded_scan_agrees(s.skip(shard_len), y_min, shard_len);
        lemma_removal_ids_add(s.take(shard_len), s.skip(shard_len), y_min);
        assert(s.take(shard_len) + s.skip(shard_len) =~= s);
    }
}

/// With unique identifiers, the scan's queue mentions a live record's
/// identifier exactly when that record is below the threshold.
pub proof fn lemma_removal_ids_membership(s: Seq<EntityRecord>, y_min: int)
    requires
        ids_unique(s),
    ensures
        forall|i: int|
            0 <= i < s.len() ==> (removal_ids(s, y_min).contains((#[trigger] s[i]).id) <==> breaches(
                s[i],
                y_min,
            )),
{
    let picked = s.filter(breach_pred(y_min));
    let queue = removal_ids(s, y_min);
    assert forall|i: int| 0 <= i < s.len() implies (queue.contains(s[i].id) <==> breaches(
        s[i],
        y_min,
    )) by {
        if breaches(s[i], y_min) {
            s.lemma_filter_contains(breach_pred(y_min), i);
            let j = choose|j: int| 0 <= j < picked.len() && picked[j] == s[i];
            assert(queue[j] == s[i].id);
        }
        if queue.contains(s[i].id) {
            let j = choose|j: int| 0 <= j < queue.len() && queue[j] == s[i].id;
            assert(picked[j].id == s[i].id);
            s.lemma_filter_pred(breach_pred(y_min), j);
            picked.lemma_index_contains(j);
            s.lemma_filter_contains_rev(breach_pred(y_min), picked[j]);
            let k = choose|k: int| 0 <= k < s.len() && s[k] == picked[j];
            assert(s[k].id == s[i].id);
            assert(k == i);
        }
    }
}

/// A prefix never holds more tracked-kind records than the whole.
proof fn lemma_cube_count_take_le(s: Seq<EntityRecord>, i: int)
    requires
        0 <= i <= s.len(),
    ensures
        cube_count(s.take(i)) <= cube_count(s),
{
    s.lemma_filter_take_len(cube_pred(), i);
}

/// Every record of a filtered sequence occurs in the original.
proof fn lemma_filter_elements(s: Seq<EntityRecord>, pred: spec_fn(EntityRecord) -> bool)
    ensures
        forall|i: int|
            0 <= i < s.filter(pred).len() ==> s.contains(#[trigger] s.filter(pred)[i]),
{
    assert forall|i: int| 0 <= i < s.filter(pred).len() implies s.contains(s.filter(pred)[i]) by {
        s.filter(pred).lemma_index_contains(i);
        s.lemma_filter_contains_rev(pred, s.filter(pred)[i]);
    }
}

/// Filtering records with pairwise distinct identifiers leaves them pairwise
/// distinct.
proof fn lemma_filter_unique_ids(s: Seq<EntityRecord>, pred: spec_fn(EntityRecord) -> bool)
    requires
        ids_unique(s),
    ensures
        ids_unique(s.filter(pred)),
    decreases s.len(),
{
    reveal(Seq::filter);
    if s.len() > 0 {
        let rest = s.drop_last();
        assert forall|a: int, b: int| 0 <= a < b < rest.len() implies (#[trigger] rest[a]).id != (
        #[trigger] rest[b]).id by {
            assert(rest[a] == s[a]);
            assert(rest[b] == s[b]);
        }
        lemma_filter_unique_ids(rest, pred);
        let sub = rest.filter(pred);
        let whole = s.filter(pred);
        if pred(s.last()) {
            assert(whole == sub.push(s.last()));
            assert forall|a: int, b: int| 0 <= a < b < whole.len() implies (#[trigger] whole[a]).id
                != (#[trigger] whole[b]).id by {
                if b == whole.len() - 1 {
                    assert(whole[a] == sub[a]);
                    sub.lemma_index_contains(a);
                    rest.lemma_filter_contains_rev(pred, sub[a]);
                    let k = choose|k: int| 0 <= k < rest.len() && rest[k] == sub[a];
                    assert(rest[k] == s[k]);
                    assert(s[k].id != s[s.len() - 1].id);
                } else {
                    assert(whole[a] == sub[a]);
                    assert(whole[b] == sub[b]);
                }
            }
        }
    }
}

/// Whether the queue holds this identifier.
fn contains_id(queue: &Vec<u64>, id: u64) -> (present: bool)
    ensures
        present == queue@.contains(id),
{
    let n = queue.len();
    let mut i: usize = 0;
    while i < n
        invariant
            n == queue@.len(),
            i <= n,
            forall|j: int| 0 <= j < i ==> queue@[j] != id,
        decreases n - i,
    {
        if queue[i] == id {
            return true;
        }
        i = i + 1;
    }
    assert(!queue@.contains(id));
    false
}

impl World {
    /// Sequential branch of the culler: scan the registry in order and drop
    /// each record strictly below the threshold on the spot.
    pub fn despawn_when_surpass_lower_bound_single(&mut self, y_min: i32)
        requires
            old(self).wf(),
        ensures
            final(self).wf(),
            final(self).next_id == old(self).next_id,
            final(self).convention == old(self).convention,
            final(self).entities@ == survivors(old(self).entities@, y_min as int),
    {
        let ghost s = self.entities@;
        let ghost ymin = y_min as int;
        let n = self.entities.len();
        let mut kept: Vec<EntityRecord> = Vec::new();
        let mut i: usize = 0;
        proof {
            reveal(Seq::filter);
            assert(s.take(0) =~= Seq::<EntityRecord>::empty());
        }
        while i < n
            invariant
                n == s.len(),
                self.entities@ == s,
                self.next_id == old(self).next_id,
                self.convention == old(self).convention,
                i <= n,
                kept@ == survivors(s.take(i as int), ymin),
                ymin == y_min as int,
                self.count.0 as int == cube_count(s) as int - cube_count(s.take(i as int)) as int
                    + cube_count(kept@) as int,
                cube_count(s.take(i as int)) <= cube_count(s),
            decreases n - i,
        {
            let r = self.entities[i];
            let keep = match r.position {
                Some(p) => !(p.y < y_min),
                None => true,
            };
            proof {
                s.lemma_take_succ_push(i as int);
                s.take(i as int).lemma_filter_push(r, survivor_pred(ymin));
                s.take(i as int).lemma_filter_len_push(cube_pred(), r);
                lemma_cube_count_take_le(s, i as int + 1);
            }
            if keep {
                kept.push(r);
                proof {
                    kept@.drop_last().lemma_filter_len_push(cube_pred(), r);
                    assert(kept@.drop_last() =~= survivors(s.take(i as int), ymin));
                }
            } else if r.cube.is_some() {
                on_cube_despawn(&mut self.count);
            }
            i = i + 1;
        }
        proof {
            assert(s.take(n as int) =~= s);
        }
        self.entities = kept;
        proof {
            lemma_filter_unique_ids(s, survivor_pred(ymin));
            lemma_filter_elements(s, survivor_pred(ymin));
            assert forall|a: int| 0 <= a < self.entities@.len() implies (
            #[trigger] self.entities@[a]).id < self.next_id by {
                let k = choose|k: int| 0 <= k < s.len() && s[k] == self.entities@[a];
            }
            assert forall|a: int| 0 <= a < self.entities@.len() implies crate::world::record_synced(
                #[trigger] self.entities@[a],
                self.convention,
            ) by {
                let k = choose|k: int| 0 <= k < s.len() && s[k] == self.entities@[a];
            }
        }
    }

    /// Fan-out branch of the culler: the read-only scan is split into
    /// consecutive shards, each shard collects the identifiers it finds below
    /// the threshold, and every request is funneled through one
    /// deferred-command queue. The queue is drained afterwards, at the
    /// synchronization point, where the registry is mutated serially.
    pub fn despawn_when_surpass_lower_bound_par(&mut self, y_min: i32, shard_len: usize)
        requires
            old(self).wf(),
            shard_len >= 1,
        ensures
            final(self).wf(),
            final(self).next_id == old(self).next_id,
            final(self).convention == old(self).convention,
            final(self).entities@ == survivors(old(self).entities@, y_min as int),
    {
        let ghost s = self.entities@;
        let ghost ymin = y_min as int;
        let n = self.entities.len();

        // Scan phase: shard the records and collect removal requests.
        let mut queue: Vec<u64> = Vec::new();
        let mut start: usize = 0;
        proof {
            reveal(Seq::filter);
            assert(s.take(0) =~= Seq::<EntityRecord>::empty());
        }
        while start < n
            invariant
                n == s.len(),
                self.entities@ == s,
                start <= n,
                shard_len >= 1,
                ymin == y_min as int,
                queue@ == removal_ids(s.take(start as int), ymin),
            decreases n - start,
        {
            let end = if n - start < shard_len {
                n
            } else {
                start + shard_len
            };
            let mut local: Vec<u64> = Vec::new();
            let mut j = start;
            proof {
                assert(s.subrange(start as int, start as int) =~= Seq::<EntityRecord>::empty());
            }
            while j < end
                invariant
                    n == s.len(),
                    self.entities@ == s,
                    start <= j <= end <= n,
                    ymin == y_min as int,
                    local@ == removal_ids(s.subrange(start as int, j as int), ymin),
                decreases end - j,
            {
                let r = self.entities[j];
                let breach = match r.position {
                    Some(p) => p.y < y_min,
                    None => false,
                };
                proof {
                    let piece = s.subrange(start as int, j as int);
                    assert(s.subrange(start as int, j as int + 1) =~= piece.push(r));
                    piece.lemma_filter_push(r, breach_pred(ymin));
                    if breach {
                        assert(removal_ids(piece.push(r), ymin) =~= removal_ids(piece, ymin).push(
                            r.id,
                        ));
                    } else {
                        assert(removal_ids(piece.push(r), ymin) =~= removal_ids(piece, ymin));
                    }
                }
                if breach {
                    local.push(r.id);
                }
                j = j + 1;
            }
            queue.append(&mut local);
            proof {
                lemma_removal_ids_add(s.take(start as int), s.subrange(start as int, end as int), ymin);
                assert(s.take(start as int) + s.subrange(start as int, end as int) =~= s.take(
                    end as int,
                ));
            }
            start = end;
        }
        proof {
            assert(s.take(n as int) =~= s);
            // The queue just built is the concatenation of the per-shard
            // scans, and that concatenation equals the sequential scan.
            lemma_sharded_scan_agrees(s, ymin, shard_len as int);
            assert(queue@ == removal_ids_sharded(s, ymin, shard_len as int));
            lemma_removal_ids_membership(s, ymin);
        }

        // Drain phase: apply the queued removals serially.
        let mut kept: Vec<EntityRecord> = Vec::new();
        let mut i: usize = 0;
        proof {
            assert(s.take(0) =~= Seq::<EntityRecord>::empty());
        }
        while i < n
            invariant
                n == s.len(),
                self.entities@ == s,
                self.next_id == old(self).next_id,
                self.convention == old(self).convention,
                i <= n,
                ymin == y_min as int,
                queue@ == removal_ids(s, ymin),
                ids_unique(s),
                forall|k: int|
                    0 <= k < s.len() ==> (removal_ids(s, ymin).contains((#[trigger] s[k]).id)
                        <==> breaches(s[k], ymin)),
                kept@ == survivors(s.take(i as int), ymin),
                self.count.0 as int == cube_count(s) as int - cube_count(s.take(i as int)) as int
                    + cube_count(kept@) as int,
                cube_count(s.take(i as int)) <= cube_count(s),
            decreases n - i,
        {
            let r = self.entities[i];
            let removed = contains_id(&queue, r.id);
            proof {
                assert(removed == breaches(s[i as int], ymin));
                s.lemma_take_succ_push(i as int);
                s.take(i as int).lemma_filter_push(r, survivor_pred(ymin));
                s.take(i as int).lemma_filter_len_push(cube_pred(), r);
                lemma_cube_count_take_le(s, i as int + 1);
            }
            if !removed {
                kept.push(r);
                proof {
                    kept@.drop_last().lemma_filter_len_push(cube_pred(), r);
                    assert(kept@.drop_last() =~= survivors(s.take(i as int), ymin));
                }
            } else if r.cube.is_some() {
                on_cube_despawn(&mut self.count);
            }
            i = i + 1;
        }
        proof {
            assert(s.take(n as int) =~= s);
        }
        self.entities = kept;
        proof {
            lemma_filter_unique_ids(s, survivor_pred(ymin));
            lemma_filter_elements(s, survivor_pred(ymin));
            assert forall|a: int| 0 <= a < self.entities@.len() implies (
            #[trigger] self.entities@[a]).id < self.next_id by {
                let k = choose|k: int| 0 <= k < s.len() && s[k] == self.entities@[a];
            }
            assert forall|a: int| 0 <= a < self.entities@.len() implies crate::world::record_synced(
                #[trigger] self.entities@[a],
                self.convention,
            ) by {
                let k = choose|k: int| 0 <= k < s.len() && s[k] == self.entities@[a];
            }
        }
    }

    /// One culler invocation: count the live entities and pick the execution
    /// strategy — a small population is scanned sequentially, a large one
    /// through the sharded fan-out — then remove everything strictly below
    /// `y_min`. Both branches produce the same survivors; an empty registry
    /// is a no-op, and an entity resting exactly at `y_min` survives.
    pub fn despawn_when_surpass_lower_bound_cond(&mut self, y_min: i32, n_threshold: usize)
        requires
            old(self).wf(),
        ensures
            final(self).wf(),
            final(self).next_id == old(self).next_id,
            final(self).convention == old(self).convention,
            final(self).entities@ == survivors(old(self).entities@, y_min as int),
    {
        let noe = self.entities.len();
        if noe <= n_threshold {
            self.despawn_when_surpass_lower_bound_single(y_min);
        } else {
            self.despawn_when_surpass_lower_bound_par(y_min, CULL_SHARD_LEN);
        }
    }
}

/// How many records each worker shard of the fan-out scan takes.
pub const CULL_SHARD_LEN: usize = 64;

} // verus!
