//! The renderer pool: a bounded set of warm worker processes per executable
//! bundle, and the registry that caches one pool per bundle key.
//!
//! The pool holds bookkeeping only — worker ids and their use counts; the
//! processes themselves live with the driver. `checkout` decides whether a
//! render call reuses an idle warm worker, spawns a fresh one, or is refused
//! outright: when the pool is at its worker ceiling and all workers are
//! busy, it fails fast rather than queueing without bound. A worker is
//! recycled after a configured number of uses or on any protocol violation.

use vstd::prelude::*;

verus! {

/// Bookkeeping for one worker process.
pub struct WorkerEntry {
    /// The driver's handle for the process.
    pub id: u64,
    /// Completed uses of this worker.
    pub uses: u64,
}

/// What `checkout` decided.
pub enum Checkout {
    /// Reuse this idle warm worker.
    Reuse(u64),
    /// Spawn a fresh worker under this id.
    Spawn(u64),
    /// The pool is at its ceiling and every worker is busy; the caller gets
    /// a spawn failure rather than an unbounded queue.
    Refuse,
}

/// What `checkin` decided.
pub enum Checkin {
    /// The worker went back to the idle set, warm.
    Kept,
    /// The worker is worn out or unhealthy; the driver must terminate it.
    Retire,
}

/// A pool of workers for one bundle.
pub struct Pool {
    /// Most workers alive at once.
    pub ceiling: usize,
    /// Uses after which a worker is recycled instead of kept.
    pub max_uses: u64,
    /// Warm workers awaiting a call.
    pub idle: Vec<WorkerEntry>,
    /// Workers checked out by a render call.
    pub busy: Vec<WorkerEntry>,
    /// Source of fresh worker ids.
    pub next_id: u64,
}

impl Pool {
    /// Every id is unique across the idle and busy sets, ids stay below
    /// `next_id`, and the pool never holds more workers than its ceiling.
    pub open spec fn wf(&self) -> bool {
        &&& self.idle@.len() + self.busy@.len() <= self.ceiling
        &&& forall|i: int, j: int|
            0 <= i < self.idle@.len() && 0 <= j < self.idle@.len() && i != j ==> (
            #[trigger] self.idle@[i]).id != (#[trigger] self.idle@[j]).id
        &&& forall|i: int, j: int|
            0 <= i < self.busy@.len() && 0 <= j < self.busy@.len() && i != j ==> (
            #[trigger] self.busy@[i]).id != (#[trigger] self.busy@[j]).id
        &&& forall|i: int, j: int|
            0 <= i < self.idle@.len() && 0 <= j < self.busy@.len() ==> (
            #[trigger] self.idle@[i]).id != (#[trigger] self.busy@[j]).id
        &&& forall|i: int| 0 <= i < self.idle@.len() ==> (#[trigger] self.idle@[i]).id < self.next_id
        &&& forall|i: int| 0 <= i < self.busy@.len() ==> (#[trigger] self.busy@[i]).id < self.next_id
    }

    /// A fresh pool with no workers.
    pub fn new(ceiling: usize, max_uses: u64) -> (r: Pool)
        ensures
            r.wf(),
            r.ceiling == ceiling,
            r.max_uses == max_uses,
            r.idle@.len() == 0,
            r.busy@.len() == 0,
    {
        Pool { ceiling, max_uses, idle: Vec::new(), busy: Vec::new(), next_id: 0 }
    }

    /// Live workers, idle and busy together.
    pub fn live(&self) -> (r: usize)
        requires
            self.wf(),
        ensures
            r == self.idle@.len() + self.busy@.len(),
    {
        self.idle.len() + self.busy.len()
    }

    /// Checks a worker out: an idle warm worker if one waits, a fresh spawn
    /// if the ceiling leaves room, and a refusal otherwise.
    pub fn checkout(&mut self) -> (r: Checkout)
        requires
            old(self).wf(),
            old(self).next_id < 0xffff_ffff_ffff_ffff,
        ensures
            final(self).wf(),
            final(self).ceiling == old(self).ceiling,
            final(self).max_uses == old(self).max_uses,
            // An idle worker is reused first.
            old(self).idle@.len() > 0 ==> (r matches Checkout::Reuse(id)
                && id == old(self).idle@.last().id
                && final(self).idle@ == old(self).idle@.drop_last()
                && final(self).busy@ == old(self).busy@.push(old(self).idle@.last())),
            // Below the ceiling, a fresh worker is spawned.
            old(self).idle@.len() == 0 && old(self).busy@.len() < old(self).ceiling ==> (
            r matches Checkout::Spawn(id) && id == old(self).next_id
                && final(self).busy@ == old(self).busy@.push(
                WorkerEntry { id: old(self).next_id, uses: 0 },
            ) && final(self).idle@ == old(self).idle@),
            // At the ceiling with every worker busy, the call is refused.
            old(self).idle@.len() == 0 && old(self).busy@.len() >= old(self).ceiling ==> (r
                is Refuse && final(self).idle@ == old(self).idle@ && final(self).busy@ == old(
                self,
            ).busy@ && final(self).next_id == old(self).next_id),
    {
        if let Some(entry) = self.idle.pop() {
            let id = entry.id;
            self.busy.push(entry);
            proof {
                assert(final(self).wf());
            }
            Checkout::Reuse(id)
        } else if self.busy.len() < self.ceiling {
            let id = self.next_id;
            self.next_id = id + 1;
            self.busy.push(WorkerEntry { id, uses: 0 });
            proof {
                assert(final(self).wf());
            }
            Checkout::Spawn(id)
        } else {
            Checkout::Refuse
        }
    }

    /// Rolls a `Spawn` decision back after the spawn itself failed.
    pub fn spawn_failed(&mut self)
        requires
            old(self).wf(),
            old(self).busy@.len() > 0,
        ensures
            final(self).wf(),
            final(self).busy@ == old(self).busy@.drop_last(),
            final(self).idle@ == old(self).idle@,
            final(self).ceiling == old(self).ceiling,
            final(self).max_uses == old(self).max_uses,
    {
        self.busy.pop();
    }

    /// Checks the last checked-out worker back in. A healthy worker under
    /// the use limit goes back to the idle set warm; any other is retired
    /// and must be terminated by the driver.
    pub fn checkin(&mut self, healthy: bool) -> (r: Checkin)
        requires
            old(self).wf(),
            old(self).busy@.len() > 0,
        ensures
            final(self).wf(),
            final(self).busy@ == old(self).busy@.drop_last(),
            final(self).ceiling == old(self).ceiling,
            final(self).max_uses == old(self).max_uses,
            healthy && old(self).busy@.last().uses + 1 < old(self).max_uses ==> r is Kept
                && final(self).idle@ == old(self).idle@.push(
                WorkerEntry { id: old(self).busy@.last().id, uses: (old(self).busy@.last().uses + 1) as u64 },
            ),
            !(healthy && old(self).busy@.last().uses + 1 < old(self).max_uses) ==> r is Retire
                && final(self).idle@ == old(self).idle@,
    {
        let entry = match self.busy.pop() {
            Some(e) => e,
            None => {
                proof {
                    assert(false);
                }
                WorkerEntry { id: 0, uses: 0 }
            },
        };
        if healthy && entry.uses < u64::MAX && entry.uses + 1 < self.max_uses {
            self.idle.push(WorkerEntry { id: entry.id, uses: entry.uses + 1 });
            proof {
                assert(final(self).wf());
            }
            Checkin::Kept
        } else {
            Checkin::Retire
        }
    }
}

} // verus!

verus! {

/// What a pool is keyed by: the bundle's content-addressed identity, its
/// intermediate output directory, and the debug flag.
pub struct BundleKey {
    pub bundle_id: Vec<u8>,
    pub output_path: Vec<u8>,
    pub debug: bool,
}

/// The value of a bundle key.
pub open spec fn key_model(k: &BundleKey) -> (Seq<u8>, Seq<u8>, bool) {
    (k.bundle_id@, k.output_path@, k.debug)
}

/// Whether two bundle keys name the same pool.
pub fn key_eq(a: &BundleKey, b: &BundleKey) -> (r: bool)
    ensures
        r == (key_model(a) == key_model(b)),
{
    let same = crate::text::bytes_eq(&a.bundle_id, &b.bundle_id) && crate::text::bytes_eq(
        &a.output_path,
        &b.output_path,
    ) && a.debug == b.debug;
    proof {
        if key_model(a) == key_model(b) {
            assert(a.bundle_id@ == b.bundle_id@);
        }
    }
    same
}

/// The process-wide registry: one pool per bundle key, created lazily on
/// first request, kept warm across requests, and dropped when the build
/// graph signals that the bundle changed. The caller must resolve the
/// bundle strongly consistently before acquiring — the registry itself
/// cannot know about pending invalidations.
pub struct PoolRegistry {
    pub entries: Vec<(BundleKey, Pool)>,
    /// Worker ceiling handed to newly created pools.
    pub default_ceiling: usize,
    /// Use limit handed to newly created pools.
    pub default_max_uses: u64,
}

impl PoolRegistry {
    /// Keys are unique and every pool is well-formed.
    pub open spec fn wf(&self) -> bool {
        &&& forall|i: int, j: int|
            0 <= i < self.entries@.len() && 0 <= j < self.entries@.len() && i != j ==> key_model(
                &(#[trigger] self.entries@[i]).0,
            ) != key_model(&(#[trigger] self.entries@[j]).0)
        &&& forall|i: int| 0 <= i < self.entries@.len() ==> (#[trigger] self.entries@[i]).1.wf()
    }

    /// An empty registry.
    pub fn new(default_ceiling: usize, default_max_uses: u64) -> (r: PoolRegistry)
        ensures
            r.wf(),
            r.entries@.len() == 0,
            r.default_ceiling == default_ceiling,
            r.default_max_uses == default_max_uses,
    {
        PoolRegistry { entries: Vec::new(), default_ceiling, default_max_uses }
    }

    /// The pool for this bundle key: the cached one where it exists, a
    /// fresh empty one otherwise. Returns its index into `entries`.
    pub fn acquire(&mut self, key: BundleKey) -> (r: usize)
        requires
            old(self).wf(),
        ensures
            final(self).wf(),
            r < final(self).entries@.len(),
            key_model(&final(self).entries@[r as int].0) == key_model(&key),
            // A cached pool is handed back as it stands.
            (exists|i: int|
                0 <= i < old(self).entries@.len() && key_model(
                    &(#[trigger] old(self).entries@[i]).0,
                ) == key_model(&key)) ==> final(self).entries@ == old(self).entries@ && old(
                self,
            ).entries@[r as int].0.bundle_id@ == key.bundle_id@,
            // Otherwise a fresh empty pool is created for the key.
            !(exists|i: int|
                0 <= i < old(self).entries@.len() && key_model(
                    &(#[trigger] old(self).entries@[i]).0,
                ) == key_model(&key)) ==> final(self).entries@.len() == old(self).entries@.len()
                + 1 && r == old(self).entries@.len() && final(self).entries@[r as int].1.idle@.len()
                == 0 && final(self).entries@[r as int].1.busy@.len() == 0,
    {
        let n = self.entries.len();
        let mut i: usize = 0;
        while i < n
            invariant
                self.wf(),
                self.entries@ == old(self).entries@,
                self.default_ceiling == old(self).default_ceiling,
                self.default_max_uses == old(self).default_max_uses,
                n == self.entries@.len(),
                i <= n,
                forall|j: int|
                    0 <= j < i ==> key_model(&(#[trigger] self.entries@[j]).0) != key_model(&key),
            decreases n - i,
        {
            if key_eq(&self.entries[i].0, &key) {
                return i;
            }
            i = i + 1;
        }
        let pool = Pool::new(self.default_ceiling, self.default_max_uses);
        self.entries.push((key, pool));
        proof {
            assert(final(self).wf());
        }
        n
    }

    /// Drops the pool for this bundle key, if one is cached: the build graph
    /// signalled that the bundle changed, so its warm workers are stale.
    pub fn invalidate(&mut self, key: &BundleKey)
        requires
            old(self).wf(),
        ensures
            final(self).wf(),
            forall|i: int|
                0 <= i < final(self).entries@.len() ==> key_model(
                    &(#[trigger] final(self).entries@[i]).0,
                ) != key_model(key),
    {
        let n = self.entries.len();
        let mut i: usize = 0;
        while i < n
            invariant
                self.wf(),
                self.entries@ == old(self).entries@,
                n == self.entries@.len(),
                i <= n,
                forall|j: int|
                    0 <= j < i ==> key_model(&(#[trigger] self.entries@[j]).0) != key_model(key),
            decreases n - i,
        {
            if key_eq(&self.entries[i].0, key) {
                proof {
                    // The keys are unique, so no other entry can match.
                    assert(forall|j: int|
                        0 <= j < self.entries@.len() && j != i ==> key_model(
                            &(#[trigger] self.entries@[j]).0,
                        ) != key_model(&self.entries@[i as int].0));
                }
                self.entries.remove(i);
                proof {
                    assert(forall|j: int|
                        0 <= j < final(self).entries@.len() ==> final(self).entries@[j]
                            == if j < i {
                            old(self).entries@[j]
                        } else {
                            old(self).entries@[j + 1]
                        });
                    assert(final(self).wf());
                }
                return ;
            }
            i = i + 1;
        }
    }
}

} // verus!
