//! The shared chain-client slot: published once, then handed to every caller.

use vstd::prelude::*;
use std::sync::Arc;

verus! {

/// Relies on std's `Arc::clone`: a new pointer to the same allocation.
#[verifier::external_body]
fn share<T>(a: &Arc<T>) -> (r: Arc<T>)
    ensures
        r == *a,
{
    Arc::clone(a)
}

/// The slot after a caller offers `built`: unchanged when a client is already
/// there, else holding `built`.
pub open spec fn after_publish<T>(slot: Option<Arc<T>>, built: Arc<T>) -> Option<Arc<T>> {
    match slot {
        Some(c) => Some(c),
        None => Some(built),
    }
}

/// The slot after the offers `offers`, made in order.
pub open spec fn replay_publish<T>(slot: Option<Arc<T>>, offers: Seq<Arc<T>>) -> Option<Arc<T>>
    decreases offers.len(),
{
    if offers.len() == 0 {
        slot
    } else {
        after_publish(replay_publish(slot, offers.drop_last()), offers.last())
    }
}

/// The client handed to the caller that makes offer number `i`.
pub open spec fn handed_out<T>(slot: Option<Arc<T>>, offers: Seq<Arc<T>>, i: int) -> Arc<T> {
    after_publish(replay_publish(slot, offers.take(i)), offers[i]).unwrap()
}

/// Holds the chain client once it is built.
pub struct ChainClientSlot<T> {
    pub client: Option<Arc<T>>,
}

impl<T> ChainClientSlot<T> {
    /// An empty slot.
    pub fn new() -> (r: ChainClientSlot<T>)
        ensures
            r.client is None,
    {
        ChainClientSlot { client: None }
    }

    /// The published client, if any; no construction happens here.
    pub fn current(&self) -> (r: Option<Arc<T>>)
        ensures
            r == self.client,
    {
        match &self.client {
            Some(c) => Some(share(c)),
            None => None,
        }
    }

    /// Offers a freshly built client. The first offer is published; every later
    /// one is dropped and its caller gets the published client instead.
    pub fn get_or_publish(&mut self, built: Arc<T>) -> (r: Arc<T>)
        ensures
            final(self).client == after_publish(old(self).client, built),
            final(self).client == Some(r),
    {
        match &self.client {
            Some(c) => share(c),
            None => {
                let r = share(&built);
                self.client = Some(built);
                r
            },
        }
    }
}

/// However offers interleave, every caller is handed the same client: the one
/// already published, or else the first one offered.
pub proof fn lemma_single_client<T>(slot: Option<Arc<T>>, offers: Seq<Arc<T>>)
    requires
        offers.len() > 0,
    ensures
        forall|i: int|
            0 <= i < offers.len() ==> #[trigger] handed_out(slot, offers, i) == match slot {
                Some(c) => c,
                None => offers[0],
            },
{
    let first = match slot {
        Some(c) => c,
        None => offers[0],
    };
    assert forall|i: int| 0 <= i < offers.len() implies #[trigger] handed_out(slot, offers, i)
        == first by {
        lemma_published_prefix(slot, offers, i);
    }
}

proof fn lemma_published_prefix<T>(slot: Option<Arc<T>>, offers: Seq<Arc<T>>, i: int)
    requires
        0 <= i < offers.len(),
    ensures
        i == 0 ==> replay_publish(slot, offers.take(i)) == slot,
        i > 0 ==> replay_publish(slot, offers.take(i)) == Some(
            match slot {
                Some(c) => c,
                None => offers[0],
            },
        ),
    decreases i,
{
    if i == 0 {
        assert(offers.take(0) =~= Seq::<Arc<T>>::empty());
    } else {
        let pre = offers.take(i);
        assert(pre.drop_last() =~= offers.take(i - 1));
        assert(pre.last() == offers[i - 1]);
        lemma_published_prefix(slot, offers, i - 1);
    }
}

} // verus!
