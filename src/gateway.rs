//! The process-wide gateway state and the signed registration message.

use vstd::prelude::*;
use crate::crypto::{
    address_of, derive_address, keccak, keccak_of, sign_digest, signature_of, signs, valid_secret,
};
use crate::error::GatewayError;
use crate::gate::{after_immutable, after_mutable, ConfigGates};

verus! {

/// The eight big-endian bytes of `x`.
pub open spec fn u64_be(x: u64) -> Seq<u8> {
    seq![
        (x / 0x100000000000000) as u8,
        ((x / 0x1000000000000) % 256) as u8,
        ((x / 0x10000000000) % 256) as u8,
        ((x / 0x100000000) % 256) as u8,
        ((x / 0x1000000) % 256) as u8,
        ((x / 0x10000) % 256) as u8,
        ((x / 0x100) % 256) as u8,
        (x % 256) as u8,
    ]
}

/// The registration message: the enclave address followed by each requested
/// chain id as eight big-endian bytes, in the order given.
pub open spec fn message_bytes(address: Seq<u8>, ids: Seq<u64>) -> Seq<u8>
    decreases ids.len(),
{
    if ids.len() == 0 {
        address
    } else {
        message_bytes(address, ids.drop_last()) + u64_be(ids.last())
    }
}

/// Appends the eight big-endian bytes of `x` to `out`.
fn push_u64_be(out: &mut Vec<u8>, x: u64)
    ensures
        final(out)@ == old(out)@ + u64_be(x),
{
    out.push((x / 0x100000000000000) as u8);
    out.push(((x / 0x1000000000000) % 256) as u8);
    out.push(((x / 0x10000000000) % 256) as u8);
    out.push(((x / 0x100000000) % 256) as u8);
    out.push(((x / 0x1000000) % 256) as u8);
    out.push(((x / 0x10000) % 256) as u8);
    out.push(((x / 0x100) % 256) as u8);
    out.push((x % 256) as u8);
    assert(final(out)@ =~= old(out)@ + u64_be(x));
}

/// A copy of `v`.
fn copy_bytes(v: &Vec<u8>) -> (r: Vec<u8>)
    ensures
        r@ == v@,
{
    let mut r: Vec<u8> = Vec::new();
    let mut i: usize = 0;
    while i < v.len()
        invariant
            i <= v@.len(),
            r@ == v@.take(i as int),
        decreases v@.len() - i,
    {
        r.push(v[i]);
        i = i + 1;
        assert(r@ =~= v@.take(i as int));
    }
    assert(v@.take(v@.len() as int) =~= v@);
    r
}

/// A copy of `v`.
fn copy_ids(v: &Vec<u64>) -> (r: Vec<u64>)
    ensures
        r@ == v@,
{
    let mut r: Vec<u64> = Vec::new();
    let mut i: usize = 0;
    while i < v.len()
        invariant
            i <= v@.len(),
            r@ == v@.take(i as int),
        decreases v@.len() - i,
    {
        r.push(v[i]);
        i = i + 1;
        assert(r@ =~= v@.take(i as int));
    }
    assert(v@.take(v@.len() as int) =~= v@);
    r
}

/// Whether `x` occurs in `v`.
fn contains_id(v: &Vec<u64>, x: u64) -> (r: bool)
    ensures
        r == v@.contains(x),
{
    let mut i: usize = 0;
    while i < v.len()
        invariant
            i <= v@.len(),
            forall|j: int| 0 <= j < i ==> v@[j] != x,
        decreases v@.len() - i,
    {
        if v[i] == x {
            return true;
        }
        i = i + 1;
    }
    false
}

/// The first occurrence of each element of `ids`, in order.
pub open spec fn first_occurrences(ids: Seq<u64>) -> Seq<u64>
    decreases ids.len(),
{
    if ids.len() == 0 {
        ids
    } else {
        let prev = first_occurrences(ids.drop_last());
        if prev.contains(ids.last()) {
            prev
        } else {
            prev.push(ids.last())
        }
    }
}

/// The distinct elements of `ids`, first occurrences kept in order.
pub fn distinct_ids(ids: &Vec<u64>) -> (r: Vec<u64>)
    ensures
        r@ == first_occurrences(ids@),
        r@.no_duplicates(),
        r@.to_set() == ids@.to_set(),
{
    let mut r: Vec<u64> = Vec::new();
    let mut i: usize = 0;
    assert(ids@.take(0) =~= Seq::<u64>::empty());
    while i < ids.len()
        invariant
            i <= ids@.len(),
            r@.no_duplicates(),
            r@.to_set() == ids@.take(i as int).to_set(),
            r@ == first_occurrences(ids@.take(i as int)),
        decreases ids@.len() - i,
    {
        let x = ids[i];
        proof {
            assert(ids@.take(i + 1) =~= ids@.take(i as int).push(x));
            assert(ids@.take(i + 1).drop_last() =~= ids@.take(i as int));
            ids@.take(i as int).lemma_push_to_set_commute(x);
        }
        if !contains_id(&r, x) {
            proof {
                r@.lemma_push_to_set_commute(x);
            }
            r.push(x);
        } else {
            assert(r@.to_set().contains(x));
            assert(r@.to_set().insert(x) =~= r@.to_set());
        }
        i = i + 1;
    }
    assert(ids@.take(ids@.len() as int) =~= ids@);
    r
}

/// The registration message for `address` and `ids`.
pub fn registration_message(address: &Vec<u8>, ids: &Vec<u64>) -> (r: Vec<u8>)
    ensures
        r@ == message_bytes(address@, ids@),
{
    let mut out = copy_bytes(address);
    let mut i: usize = 0;
    assert(ids@.take(0) =~= Seq::<u64>::empty());
    while i < ids.len()
        invariant
            i <= ids@.len(),
            out@ == message_bytes(address@, ids@.take(i as int)),
        decreases ids@.len() - i,
    {
        push_u64_be(&mut out, ids[i]);
        proof {
            let t = ids@.take(i + 1);
            assert(t.drop_last() =~= ids@.take(i as int));
            assert(t.last() == ids@[i as int]);
        }
        i = i + 1;
    }
    assert(ids@.take(ids@.len() as int) =~= ids@);
    out
}

/// A registration message signed by the enclave key.
pub struct SignedRegistration {
    /// The enclave address the message binds.
    pub enclave_address: Vec<u8>,
    /// The requested chain ids, as given.
    pub chain_ids: Vec<u64>,
    /// The Keccak-256 digest of the message.
    pub digest: Vec<u8>,
    /// The recoverable signature of the digest, `r || s || v`.
    pub signature: Vec<u8>,
}

/// The gateway's shared state: its identity, the configuration gates, the
/// requested chain ids and the registration flags.
pub struct GatewayState {
    pub enclave_secret: Vec<u8>,
    pub enclave_address: Vec<u8>,
    pub gates: ConfigGates,
    pub request_chain_ids: Vec<u64>,
    pub registration_listener_active: bool,
    pub registered: bool,
}

impl GatewayState {
    /// The invariant every method keeps.
    pub open spec fn wf(&self) -> bool {
        &&& self.enclave_address@ == address_of(self.enclave_secret@)
        &&& self.request_chain_ids@.no_duplicates()
        &&& self.registered ==> self.gates.immutable_injected && self.gates.mutable_injected
        &&& self.registration_listener_active ==> self.registered
            && self.request_chain_ids@.len() > 0
    }

    /// The state at startup for the enclave key `secret`; `Config` exactly when
    /// the key is not a valid secp256k1 signing key.
    pub fn new(secret: Vec<u8>) -> (r: Result<GatewayState, GatewayError>)
        ensures
            r matches Ok(s) ==> {
                &&& s.wf()
                &&& s.enclave_secret@ == secret@
                &&& s.enclave_address@ == address_of(secret@)
                &&& !s.gates.immutable_injected && !s.gates.mutable_injected
                &&& s.request_chain_ids@.len() == 0
                &&& !s.registration_listener_active
                &&& !s.registered
            },
            r is Ok <==> valid_secret(secret@),
            r is Err ==> r == Err::<GatewayState, GatewayError>(GatewayError::Config),
    {
        match derive_address(&secret) {
            Some(enclave_address) => Ok(
                GatewayState {
                    enclave_secret: secret,
                    enclave_address,
                    gates: ConfigGates::new(),
                    request_chain_ids: Vec::new(),
                    registration_listener_active: false,
                    registered: false,
                },
            ),
            None => Err(GatewayError::Config),
        }
    }

    /// Immutable-configuration intake: stores `owner` once; a repeat is rejected
    /// and changes nothing.
    pub fn inject_immutable_config(&mut self, owner: String) -> (r: Result<(), GatewayError>)
        requires
            old(self).wf(),
        ensures
            final(self).wf(),
            final(self).gates == after_immutable(old(self).gates, owner),
            final(self).enclave_secret == old(self).enclave_secret,
            final(self).enclave_address == old(self).enclave_address,
            final(self).request_chain_ids == old(self).request_chain_ids,
            final(self).registration_listener_active == old(self).registration_listener_active,
            final(self).registered == old(self).registered,
            r is Ok <==> !old(self).gates.immutable_injected,
            r is Err ==> r == Err::<(), GatewayError>(GatewayError::Rejection),
    {
        self.gates.inject_immutable(owner)
    }

    /// Mutable-configuration intake: stores the wallet and stream key once; a
    /// repeat is rejected and changes nothing.
    pub fn inject_mutable_config(&mut self, gas_key: String, stream_api_key: String) -> (r: Result<
        (),
        GatewayError,
    >)
        requires
            old(self).wf(),
        ensures
            final(self).wf(),
            final(self).gates == after_mutable(old(self).gates, gas_key, stream_api_key),
            final(self).enclave_secret == old(self).enclave_secret,
            final(self).enclave_address == old(self).enclave_address,
            final(self).request_chain_ids == old(self).request_chain_ids,
            final(self).registration_listener_active == old(self).registration_listener_active,
            final(self).registered == old(self).registered,
            r is Ok <==> !old(self).gates.mutable_injected,
            r is Err ==> r == Err::<(), GatewayError>(GatewayError::Rejection),
    {
        self.gates.inject_mutable(gas_key, stream_api_key)
    }

    /// Records the requested chain ids and returns the registration message for
    /// them, signed by the enclave key. Once job listeners run, the recorded set
    /// is fixed and later requests only get their message signed. Refused with `Registration`, changing
    /// nothing, until both configuration gates are closed; `Crypto`, with no
    /// detail, when signing fails.
    pub fn export_signed_registration_message(&mut self, chain_ids: Vec<u64>) -> (r: Result<
        SignedRegistration,
        GatewayError,
    >)
        requires
            old(self).wf(),
        ensures
            final(self).wf(),
            final(self).enclave_secret == old(self).enclave_secret,
            final(self).enclave_address == old(self).enclave_address,
            final(self).gates == old(self).gates,
            final(self).registration_listener_active == old(self).registration_listener_active,
            final(self).registered == old(self).registered,
            !(old(self).gates.immutable_injected && old(self).gates.mutable_injected) ==> {
                &&& r matches Err(e) && e == GatewayError::Registration
                &&& final(self).request_chain_ids == old(self).request_chain_ids
            },
            old(self).gates.immutable_injected && old(self).gates.mutable_injected ==> {
                &&& !old(self).registration_listener_active
                    ==> final(self).request_chain_ids@.to_set() == chain_ids@.to_set()
                &&& old(self).registration_listener_active ==> final(self).request_chain_ids
                    == old(self).request_chain_ids
                &&& r is Ok <==> signs(
                    old(self).enclave_secret@,
                    keccak_of(message_bytes(old(self).enclave_address@, chain_ids@)),
                )
                &&& r matches Err(e) ==> e == GatewayError::Crypto
                &&& r matches Ok(m) ==> {
                    &&& m.enclave_address@ == old(self).enclave_address@
                    &&& m.chain_ids@ == chain_ids@
                    &&& m.digest@ == keccak_of(message_bytes(old(self).enclave_address@, chain_ids@))
                    &&& m.signature@ == signature_of(old(self).enclave_secret@, m.digest@)
                }
            },
    {
        if !self.gates.both_injected() {
            return Err(GatewayError::Registration);
        }
        if !self.registration_listener_active {
            self.request_chain_ids = distinct_ids(&chain_ids);
        }
        let message = registration_message(&self.enclave_address, &chain_ids);
        let digest = keccak(&message);
        match sign_digest(&self.enclave_secret, &digest) {
            Some(signature) => Ok(
                SignedRegistration {
                    enclave_address: copy_bytes(&self.enclave_address),
                    chain_ids,
                    digest,
                    signature,
                },
            ),
            None => Err(GatewayError::Crypto),
        }
    }

    /// Records the chain's confirmation of the registration. Takes effect only
    /// when both configuration gates are closed; returns whether the gateway is
    /// registered afterwards. The flag never goes back.
    pub fn mark_registered(&mut self) -> (r: bool)
        requires
            old(self).wf(),
        ensures
            final(self).wf(),
            final(self).registered == (old(self).registered || (old(self).gates.immutable_injected
                && old(self).gates.mutable_injected)),
            r == final(self).registered,
            final(self).enclave_secret == old(self).enclave_secret,
            final(self).enclave_address == old(self).enclave_address,
            final(self).gates == old(self).gates,
            final(self).request_chain_ids == old(self).request_chain_ids,
            final(self).registration_listener_active == old(self).registration_listener_active,
    {
        if self.gates.both_injected() {
            self.registered = true;
        }
        self.registered
    }

    /// The chain ids to start job listeners for: all requested ids the first
    /// time the gateway is registered with a non-empty request; none on any
    /// other call.
    pub fn start_job_listeners(&mut self) -> (r: Vec<u64>)
        requires
            old(self).wf(),
        ensures
            final(self).wf(),
            old(self).registered && old(self).request_chain_ids@.len() > 0
                && !old(self).registration_listener_active ==> {
                &&& r@ == old(self).request_chain_ids@
                &&& final(self).registration_listener_active
            },
            !(old(self).registered && old(self).request_chain_ids@.len() > 0
                && !old(self).registration_listener_active) ==> {
                &&& r@.len() == 0
                &&& final(self).registration_listener_active
                    == old(self).registration_listener_active
            },
            final(self).enclave_secret == old(self).enclave_secret,
            final(self).enclave_address == old(self).enclave_address,
            final(self).gates == old(self).gates,
            final(self).request_chain_ids == old(self).request_chain_ids,
            final(self).registered == old(self).registered,
    {
        if self.registered && self.request_chain_ids.len() > 0 && !self.registration_listener_active {
            self.registration_listener_active = true;
            copy_ids(&self.request_chain_ids)
        } else {
            Vec::new()
        }
    }
}

} // verus!
