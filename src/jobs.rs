//! Deduplication of job events delivered at least once by the chain stream.

use vstd::prelude::*;

verus! {

/// What identifies a job event: its chain, transaction and log position.
pub struct JobKey {
    pub chain_id: u64,
    pub tx_hash: Vec<u8>,
    pub log_index: u64,
}

impl View for JobKey {
    type V = (u64, Seq<u8>, u64);

    open spec fn view(&self) -> (u64, Seq<u8>, u64) {
        (self.chain_id, self.tx_hash@, self.log_index)
    }
}

/// The keys seen after the keys `keys` are delivered in order to a
/// deduplicator that had seen `seen`.
pub open spec fn replay_seen(seen: Set<(u64, Seq<u8>, u64)>, keys: Seq<(u64, Seq<u8>, u64)>) -> Set<
    (u64, Seq<u8>, u64),
>
    decreases keys.len(),
{
    if keys.len() == 0 {
        seen
    } else {
        replay_seen(seen, keys.drop_last()).insert(keys.last())
    }
}

/// Whether delivery number `i` of `keys` is forwarded.
pub open spec fn forwarded(
    seen: Set<(u64, Seq<u8>, u64)>,
    keys: Seq<(u64, Seq<u8>, u64)>,
    i: int,
) -> bool {
    !replay_seen(seen, keys.take(i)).contains(keys[i])
}

fn bytes_equal(a: &Vec<u8>, b: &Vec<u8>) -> (r: bool)
    ensures
        r == (a@ == b@),
{
    if a.len() != b.len() {
        return false;
    }
    let mut i: usize = 0;
    while i < a.len()
        invariant
            a@.len() == b@.len(),
            i <= a@.len(),
            forall|j: int| 0 <= j < i ==> a@[j] == b@[j],
        decreases a@.len() - i,
    {
        if a[i] != b[i] {
            return false;
        }
        i = i + 1;
    }
    assert(a@ =~= b@);
    true
}

/// The set of job keys already forwarded.
pub struct JobDeduplicator {
    pub seen: Vec<JobKey>,
}

impl JobDeduplicator {
    /// The keys already forwarded.
    pub open spec fn seen_keys(&self) -> Set<(u64, Seq<u8>, u64)> {
        Set::new(|k: (u64, Seq<u8>, u64)| exists|i: int| 0 <= i < self.seen@.len() && #[trigger] self.seen@[i]@ == k)
    }

    /// Nothing seen yet.
    pub fn new() -> (r: JobDeduplicator)
        ensures
            r.seen_keys() == Set::<(u64, Seq<u8>, u64)>::empty(),
    {
        let r = JobDeduplicator { seen: Vec::new() };
        assert(r.seen_keys() =~= Set::<(u64, Seq<u8>, u64)>::empty());
        r
    }

    /// Takes one delivered event key; returns whether it is new, that is, whether
    /// the job is to be forwarded. A redelivered key returns `false`.
    pub fn observe(&mut self, key: JobKey) -> (r: bool)
        ensures
            r == !old(self).seen_keys().contains(key@),
            final(self).seen_keys() == old(self).seen_keys().insert(key@),
    {
        let mut i: usize = 0;
        while i < self.seen.len()
            invariant
                i <= self.seen@.len(),
                forall|j: int| 0 <= j < i ==> self.seen@[j]@ != key@,
            decreases self.seen@.len() - i,
        {
            let k = &self.seen[i];
            if k.chain_id == key.chain_id && k.log_index == key.log_index && bytes_equal(
                &k.tx_hash,
                &key.tx_hash,
            ) {
                assert(self.seen@[i as int]@ == key@);
                assert(self.seen_keys().contains(key@));
                assert(self.seen_keys().insert(key@) =~= self.seen_keys());
                return false;
            }
            i = i + 1;
        }
        let ghost before = self.seen@;
        self.seen.push(key);
        proof {
            assert(self.seen@[before.len() as int] == key);
            assert forall|k: (u64, Seq<u8>, u64)| #[trigger] self.seen_keys().contains(k) <==> old(
                self,
            ).seen_keys().insert(key@).contains(k) by {
                if self.seen_keys().contains(k) {
                    let j = choose|j: int| 0 <= j < self.seen@.len() && #[trigger] self.seen@[j]@ == k;
                    if j < before.len() {
                        assert(before[j]@ == k);
                    }
                }
                if old(self).seen_keys().contains(k) {
                    let j = choose|j: int| 0 <= j < before.len() && #[trigger] before[j]@ == k;
                    assert(self.seen@[j]@ == k);
                }
            }
            assert(self.seen_keys() =~= old(self).seen_keys().insert(key@));
        }
        true
    }
}

/// The chains whose job listeners are running.
pub struct ChainListeners {
    pub running: Vec<u64>,
}

impl ChainListeners {
    /// One listener per distinct chain id of `chain_ids`.
    pub fn start(chain_ids: &Vec<u64>) -> (r: ChainListeners)
        ensures
            r.running@.no_duplicates(),
            r.running@.to_set() == chain_ids@.to_set(),
    {
        ChainListeners { running: crate::gateway::distinct_ids(chain_ids) }
    }

    /// Stops the listener of the failed chain `chain_id`; the others keep running.
    pub fn stop(&mut self, chain_id: u64) -> (r: bool)
        requires
            old(self).running@.no_duplicates(),
        ensures
            final(self).running@.no_duplicates(),
            final(self).running@.to_set() == old(self).running@.to_set().remove(chain_id),
            r == old(self).running@.contains(chain_id),
    {
        let mut kept: Vec<u64> = Vec::new();
        let mut found = false;
        let mut i: usize = 0;
        while i < self.running.len()
            invariant
                i <= self.running@.len(),
                self.running@.no_duplicates(),
                kept@.no_duplicates(),
                kept@.to_set() == self.running@.take(i as int).to_set().remove(chain_id),
                found == self.running@.take(i as int).to_set().contains(chain_id),
            decreases self.running@.len() - i,
        {
            let x = self.running[i];
            proof {
                assert(self.running@.take(i + 1) =~= self.running@.take(i as int).push(x));
                self.running@.take(i as int).lemma_push_to_set_commute(x);
                assert(!self.running@.take(i as int).contains(x)) by {
                    if self.running@.take(i as int).contains(x) {
                        let j = choose|j: int| 0 <= j < i && self.running@.take(i as int)[j] == x;
                        assert(self.running@[j] == self.running@[i as int]);
                    }
                }
            }
            if x == chain_id {
                found = true;
                assert(kept@.to_set() =~= self.running@.take(i + 1).to_set().remove(chain_id));
            } else {
                proof {
                    kept@.lemma_push_to_set_commute(x);
                    if kept@.contains(x) {
                        assert(kept@.to_set().contains(x));
                        assert(self.running@.take(i as int).to_set().contains(x));
                    }
                }
                kept.push(x);
                assert(kept@.to_set() =~= self.running@.take(i + 1).to_set().remove(chain_id));
            }
            i = i + 1;
        }
        assert(self.running@.take(self.running@.len() as int) =~= self.running@);
        assert(found == self.running@.to_set().contains(chain_id));
        self.running = kept;
        found
    }
}

/// Replaying deliveries adds exactly the delivered keys.
pub proof fn lemma_replay_seen(seen: Set<(u64, Seq<u8>, u64)>, keys: Seq<(u64, Seq<u8>, u64)>)
    ensures
        replay_seen(seen, keys) == seen + keys.to_set(),
    decreases keys.len(),
{
    if keys.len() == 0 {
        assert(keys.to_set() =~= Set::<(u64, Seq<u8>, u64)>::empty());
        assert(seen + keys.to_set() =~= seen);
    } else {
        let pre = keys.drop_last();
        lemma_replay_seen(seen, pre);
        assert(keys =~= pre.push(keys.last()));
        pre.lemma_push_to_set_commute(keys.last());
        assert(replay_seen(seen, keys) =~= seen + keys.to_set());
    }
}

/// However often the stream redelivers an event, its job is forwarded exactly
/// once: a delivery is forwarded if and only if its key was neither seen before
/// nor delivered earlier in the run, and no later delivery of a key is forwarded.
pub proof fn lemma_forward_once(seen: Set<(u64, Seq<u8>, u64)>, keys: Seq<(u64, Seq<u8>, u64)>)
    ensures
        forall|i: int|
            0 <= i < keys.len() ==> (#[trigger] forwarded(seen, keys, i) <==> (!seen.contains(keys[i])
                && forall|j: int| 0 <= j < i ==> keys[j] != keys[i])),
        forall|i: int, j: int|
            0 <= i < j < keys.len() && #[trigger] keys[i] == keys[j] ==> !#[trigger] forwarded(
                seen,
                keys,
                j,
            ),
        forall|i: int|
            0 <= i < keys.len() && !seen.contains(keys[i]) ==> exists|j: int|
                0 <= j <= i && keys[j] == keys[i] && #[trigger] forwarded(seen, keys, j),
{
    assert forall|i: int| 0 <= i < keys.len() implies (#[trigger] forwarded(seen, keys, i) <==> (
    !seen.contains(keys[i]) && forall|j: int| 0 <= j < i ==> keys[j] != keys[i])) by {
        lemma_replay_seen(seen, keys.take(i));
        if exists|j: int| 0 <= j < i && keys[j] == keys[i] {
            let j = choose|j: int| 0 <= j < i && keys[j] == keys[i];
            assert(keys.take(i)[j] == keys[i]);
        }
        if keys.take(i).to_set().contains(keys[i]) {
            let j = choose|j: int| 0 <= j < keys.take(i).len() && keys.take(i)[j] == keys[i];
            assert(keys[j] == keys[i]);
        }
    }
    assert forall|i: int| 0 <= i < keys.len() && !seen.contains(keys[i]) implies exists|j: int|
        0 <= j <= i && keys[j] == keys[i] && #[trigger] forwarded(seen, keys, j) by {
        let first = choose_first(keys, i);
        assert(forwarded(seen, keys, first));
    }
}

/// The index of the first occurrence of `keys[i]`.
proof fn choose_first(keys: Seq<(u64, Seq<u8>, u64)>, i: int) -> (j: int)
    requires
        0 <= i < keys.len(),
    ensures
        0 <= j <= i,
        keys[j] == keys[i],
        forall|m: int| 0 <= m < j ==> keys[m] != keys[i],
    decreases i,
{
    if exists|m: int| 0 <= m < i && keys[m] == keys[i] {
        let m = choose|m: int| 0 <= m < i && keys[m] == keys[i];
        choose_first(keys, m)
    } else {
        i
    }
}

} // verus!
