//! One-shot configuration intake.

use vstd::prelude::*;
use crate::error::GatewayError;

verus! {

/// The two configuration gates and the values they guard.
pub struct ConfigGates {
    pub immutable_injected: bool,
    pub mutable_injected: bool,
    pub enclave_owner: String,
    pub wallet: String,
    pub stream_api_key: String,
}

/// State after one immutable-configuration injection with `owner`.
pub open spec fn after_immutable(g: ConfigGates, owner: String) -> ConfigGates {
    if g.immutable_injected {
        g
    } else {
        ConfigGates { immutable_injected: true, enclave_owner: owner, ..g }
    }
}

/// State after one mutable-configuration injection with `gas_key` and `api_key`.
pub open spec fn after_mutable(g: ConfigGates, gas_key: String, api_key: String) -> ConfigGates {
    if g.mutable_injected {
        g
    } else {
        ConfigGates { mutable_injected: true, wallet: gas_key, stream_api_key: api_key, ..g }
    }
}

/// State after the immutable injections `owners`, applied in order.
pub open spec fn replay_immutable(g: ConfigGates, owners: Seq<String>) -> ConfigGates
    decreases owners.len(),
{
    if owners.len() == 0 {
        g
    } else {
        after_immutable(replay_immutable(g, owners.drop_last()), owners.last())
    }
}

/// State after the mutable injections `keys` (gas key, stream API key), applied in order.
pub open spec fn replay_mutable(g: ConfigGates, keys: Seq<(String, String)>) -> ConfigGates
    decreases keys.len(),
{
    if keys.len() == 0 {
        g
    } else {
        let k = keys.last();
        after_mutable(replay_mutable(g, keys.drop_last()), k.0, k.1)
    }
}

impl ConfigGates {
    /// Both gates closed, nothing stored.
    pub fn new() -> (r: ConfigGates)
        ensures
            !r.immutable_injected,
            !r.mutable_injected,
            r.enclave_owner@.len() == 0,
            r.wallet@.len() == 0,
            r.stream_api_key@.len() == 0,
    {
        ConfigGates {
            immutable_injected: false,
            mutable_injected: false,
            enclave_owner: String::new(),
            wallet: String::new(),
            stream_api_key: String::new(),
        }
    }

    /// Stores the enclave owner and closes the immutable gate, once. A repeated
    /// call changes nothing and reports `Rejection`.
    pub fn inject_immutable(&mut self, owner: String) -> (r: Result<(), GatewayError>)
        ensures
            *final(self) == after_immutable(*old(self), owner),
            r is Ok <==> !old(self).immutable_injected,
            r is Err ==> r == Err::<(), GatewayError>(GatewayError::Rejection),
    {
        if self.immutable_injected {
            return Err(GatewayError::Rejection);
        }
        self.enclave_owner = owner;
        self.immutable_injected = true;
        Ok(())
    }

    /// Stores the wallet (from the gas key) and the stream API key and closes the
    /// mutable gate, once. A repeated call changes nothing and reports `Rejection`.
    pub fn inject_mutable(&mut self, gas_key: String, stream_api_key: String) -> (r: Result<
        (),
        GatewayError,
    >)
        ensures
            *final(self) == after_mutable(*old(self), gas_key, stream_api_key),
            r is Ok <==> !old(self).mutable_injected,
            r is Err ==> r == Err::<(), GatewayError>(GatewayError::Rejection),
    {
        if self.mutable_injected {
            return Err(GatewayError::Rejection);
        }
        self.wallet = gas_key;
        self.stream_api_key = stream_api_key;
        self.mutable_injected = true;
        Ok(())
    }

    /// Whether both gates are closed, the condition for any registration step.
    pub fn both_injected(&self) -> (r: bool)
        ensures
            r == (self.immutable_injected && self.mutable_injected),
    {
        self.immutable_injected && self.mutable_injected
    }
}

/// Once closed, the immutable gate stays closed and the stored owner stays.
pub proof fn lemma_immutable_monotone(g: ConfigGates, owners: Seq<String>)
    requires
        g.immutable_injected,
    ensures
        replay_immutable(g, owners) == g,
    decreases owners.len(),
{
    if owners.len() > 0 {
        lemma_immutable_monotone(g, owners.drop_last());
    }
}

/// Over any order of immutable injections on open gates, the first call is the
/// only one that succeeds, every later one is rejected, and the stored owner is
/// the one of the successful call.
pub proof fn lemma_immutable_exactly_once(g: ConfigGates, owners: Seq<String>)
    requires
        !g.immutable_injected,
        owners.len() > 0,
    ensures
        forall|i: int|
            0 <= i < owners.len() ==> (!#[trigger] replay_immutable(g, owners.take(i)).immutable_injected
                <==> i == 0),
        replay_immutable(g, owners).immutable_injected,
        replay_immutable(g, owners).enclave_owner == owners[0],
{
    assert(owners.take(0) =~= Seq::<String>::empty());
    assert forall|i: int| 1 <= i <= owners.len() implies #[trigger] replay_immutable(
        g,
        owners.take(i),
    ).immutable_injected && replay_immutable(g, owners.take(i)).enclave_owner == owners[0] by {
        lemma_immutable_prefix(g, owners, i);
    }
    assert(owners.take(owners.len() as int) =~= owners);
}

proof fn lemma_immutable_prefix(g: ConfigGates, owners: Seq<String>, i: int)
    requires
        !g.immutable_injected,
        1 <= i <= owners.len(),
    ensures
        replay_immutable(g, owners.take(i)).immutable_injected,
        replay_immutable(g, owners.take(i)).enclave_owner == owners[0],
    decreases i,
{
    let pre = owners.take(i);
    assert(pre.drop_last() =~= owners.take(i - 1));
    assert(replay_immutable(g, pre) == after_immutable(replay_immutable(g, owners.take(i - 1)), pre.last()));
    if i == 1 {
        assert(owners.take(0) =~= Seq::<String>::empty());
        assert(replay_immutable(g, owners.take(0)) == g);
        assert(pre.last() == owners[0]);
    } else {
        lemma_immutable_prefix(g, owners, i - 1);
    }
}

/// Over any order of mutable injections on open gates, the first call is the
/// only one that succeeds, every later one is rejected, and the stored keys are
/// those of the successful call.
pub proof fn lemma_mutable_exactly_once(g: ConfigGates, keys: Seq<(String, String)>)
    requires
        !g.mutable_injected,
        keys.len() > 0,
    ensures
        forall|i: int|
            0 <= i < keys.len() ==> (!#[trigger] replay_mutable(g, keys.take(i)).mutable_injected
                <==> i == 0),
        replay_mutable(g, keys).mutable_injected,
        replay_mutable(g, keys).wallet == keys[0].0,
        replay_mutable(g, keys).stream_api_key == keys[0].1,
{
    assert(keys.take(0) =~= Seq::<(String, String)>::empty());
    assert forall|i: int| 1 <= i <= keys.len() implies #[trigger] replay_mutable(
        g,
        keys.take(i),
    ).mutable_injected && replay_mutable(g, keys.take(i)).wallet == keys[0].0
        && replay_mutable(g, keys.take(i)).stream_api_key == keys[0].1 by {
        lemma_mutable_prefix(g, keys, i);
    }
    assert(keys.take(keys.len() as int) =~= keys);
}

proof fn lemma_mutable_prefix(g: ConfigGates, keys: Seq<(String, String)>, i: int)
    requires
        !g.mutable_injected,
        1 <= i <= keys.len(),
    ensures
        replay_mutable(g, keys.take(i)).mutable_injected,
        replay_mutable(g, keys.take(i)).wallet == keys[0].0,
        replay_mutable(g, keys.take(i)).stream_api_key == keys[0].1,
    decreases i,
{
    let pre = keys.take(i);
    assert(pre.drop_last() =~= keys.take(i - 1));
    assert(replay_mutable(g, pre) == after_mutable(
        replay_mutable(g, keys.take(i - 1)),
        pre.last().0,
        pre.last().1,
    ));
    if i == 1 {
        assert(keys.take(0) =~= Seq::<(String, String)>::empty());
        assert(replay_mutable(g, keys.take(0)) == g);
        assert(pre.last() == keys[0]);
    } else {
        lemma_mutable_prefix(g, keys, i - 1);
    }
}

/// The two gates are independent: mutable injections never touch the immutable
/// gate or the owner.
pub proof fn lemma_gates_independent(g: ConfigGates, keys: Seq<(String, String)>)
    ensures
        replay_mutable(g, keys).immutable_injected == g.immutable_injected,
        replay_mutable(g, keys).enclave_owner == g.enclave_owner,
    decreases keys.len(),
{
    if keys.len() > 0 {
        lemma_gates_independent(g, keys.drop_last());
    }
}

} // verus!
