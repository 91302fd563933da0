//! The one-shot randomness artifact: drawn and encrypted once per process.

use vstd::prelude::*;
use rand::rngs::OsRng;
use rand::RngCore;
use crate::error::GatewayError;

verus! {

/// Length of the random secret, in bytes.
pub const RANDOMNESS_LEN: usize = 64;

/// Relies on rand's `OsRng::try_fill_bytes`: fills `buf` from the operating
/// system's source, keeping its length; `false` when the source fails.
#[verifier::external_body]
fn fill_from_os(buf: &mut Vec<u8>) -> (r: bool)
    ensures
        final(buf)@.len() == old(buf)@.len(),
{
    OsRng.try_fill_bytes(buf.as_mut_slice()).is_ok()
}

/// The store and the result after one generation with `randomness` and the
/// encryption outcome `encrypted`.
pub open spec fn after_generate(
    st: RandomnessStore,
    randomness: Vec<u8>,
    encrypted: Option<String>,
) -> (RandomnessStore, Result<String, GatewayError>) {
    if st.randomness is Some {
        (st, Err(GatewayError::Rejection))
    } else {
        match encrypted {
            Some(ct) => (RandomnessStore { randomness: Some(randomness), encrypted: ct }, Ok(ct)),
            None => (st, Err(GatewayError::Crypto)),
        }
    }
}

/// The store after the generations `calls`, made in order.
pub open spec fn replay_generate(
    st: RandomnessStore,
    calls: Seq<(Vec<u8>, Option<String>)>,
) -> RandomnessStore
    decreases calls.len(),
{
    if calls.len() == 0 {
        st
    } else {
        after_generate(replay_generate(st, calls.drop_last()), calls.last().0, calls.last().1).0
    }
}

/// The result of generation number `i` of `calls`.
pub open spec fn generate_outcome(
    st: RandomnessStore,
    calls: Seq<(Vec<u8>, Option<String>)>,
    i: int,
) -> Result<String, GatewayError> {
    after_generate(replay_generate(st, calls.take(i)), calls[i].0, calls[i].1).1
}

/// The stored randomness and its encryption, both absent until the one
/// successful generation.
pub struct RandomnessStore {
    pub randomness: Option<Vec<u8>>,
    pub encrypted: String,
}

impl RandomnessStore {
    /// Nothing generated yet.
    pub fn new() -> (r: RandomnessStore)
        ensures
            r.randomness is None,
            r.encrypted@.len() == 0,
    {
        RandomnessStore { randomness: None, encrypted: String::new() }
    }

    /// Draws a fresh secret of `RANDOMNESS_LEN` bytes for a generation. Refused
    /// with `Rejection` when the artifact already exists, and with `Crypto` when
    /// the operating system's source fails.
    pub fn draw_randomness(&self) -> (r: Result<Vec<u8>, GatewayError>)
        ensures
            self.randomness is Some ==> r == Err::<Vec<u8>, GatewayError>(GatewayError::Rejection),
            self.randomness is None ==> match r {
                Ok(bytes) => bytes@.len() == RANDOMNESS_LEN,
                Err(e) => e == GatewayError::Crypto,
            },
    {
        if self.randomness.is_some() {
            return Err(GatewayError::Rejection);
        }
        let mut buf: Vec<u8> = Vec::new();
        let mut i: usize = 0;
        while i < RANDOMNESS_LEN
            invariant
                i <= RANDOMNESS_LEN,
                buf@.len() == i,
            decreases RANDOMNESS_LEN - i,
        {
            buf.push(0);
            i = i + 1;
        }
        if fill_from_os(&mut buf) {
            Ok(buf)
        } else {
            Err(GatewayError::Crypto)
        }
    }
}

/// Completes a generation with the drawn `randomness` and the outcome of
/// encrypting it (`None` when encryption failed). The first completion with
/// a ciphertext stores both and returns the ciphertext; once stored, every
/// call is refused with `Rejection`; a failed encryption gives `Crypto`, with
/// no detail, and stores nothing.
pub fn generate(state: &mut RandomnessStore, randomness: Vec<u8>, encrypted: Option<String>) -> (r:
    Result<String, GatewayError>)
    ensures
        (*final(state), r) == after_generate(*old(state), randomness, encrypted),
{
    if state.randomness.is_some() {
        return Err(GatewayError::Rejection);
    }
    match encrypted {
        Some(ct) => {
            state.randomness = Some(randomness);
            state.encrypted = ct.clone();
            Ok(ct)
        },
        None => Err(GatewayError::Crypto),
    }
}

proof fn lemma_stored_stays(
    st: RandomnessStore,
    calls: Seq<(Vec<u8>, Option<String>)>,
    i: int,
    j: int,
)
    requires
        0 <= i < j <= calls.len(),
        after_generate(replay_generate(st, calls.take(i)), calls[i].0, calls[i].1).0.randomness is Some,
    ensures
        replay_generate(st, calls.take(j)) == after_generate(
            replay_generate(st, calls.take(i)),
            calls[i].0,
            calls[i].1,
        ).0,
    decreases j - i,
{
    assert(calls.take(j).drop_last() =~= calls.take(j - 1));
    assert(calls.take(j).last() == calls[j - 1]);
    if j > i + 1 {
        lemma_stored_stays(st, calls, i, j - 1);
    }
}

/// Once an artifact is stored, every later generation, however often it is
/// repeated, is refused with `Rejection` and leaves the store as it is.
pub proof fn lemma_artifact_stays(st: RandomnessStore, calls: Seq<(Vec<u8>, Option<String>)>)
    requires
        st.randomness is Some,
    ensures
        replay_generate(st, calls) == st,
        forall|i: int|
            0 <= i < calls.len() ==> #[trigger] generate_outcome(st, calls, i) == Err::<
                String,
                GatewayError,
            >(GatewayError::Rejection),
    decreases calls.len(),
{
    if calls.len() > 0 {
        lemma_artifact_stays(st, calls.drop_last());
        assert forall|i: int| 0 <= i < calls.len() implies #[trigger] generate_outcome(st, calls, i)
            == Err::<String, GatewayError>(GatewayError::Rejection) by {
            if i < calls.len() - 1 {
                assert(calls.take(i) =~= calls.drop_last().take(i));
                assert(calls.drop_last()[i] == calls[i]);
                assert(generate_outcome(st, calls.drop_last(), i) == Err::<String, GatewayError>(
                    GatewayError::Rejection,
                ));
            } else {
                assert(calls.take(i) =~= calls.drop_last());
            }
        }
    }
}

/// In any history of generations, at most one succeeds, and the ciphertext it
/// returns is the one the store keeps.
pub proof fn lemma_single_artifact(st: RandomnessStore, calls: Seq<(Vec<u8>, Option<String>)>)
    ensures
        forall|i: int, j: int|
            0 <= i < calls.len() && 0 <= j < calls.len() && #[trigger] generate_outcome(st, calls, i) is Ok
                && #[trigger] generate_outcome(st, calls, j) is Ok ==> i == j,
        forall|i: int|
            0 <= i < calls.len() && #[trigger] generate_outcome(st, calls, i) is Ok ==> generate_outcome(
                st,
                calls,
                i,
            ) == Ok::<String, GatewayError>(replay_generate(st, calls).encrypted),
{
    assert forall|i: int, j: int|
        0 <= i < calls.len() && 0 <= j < calls.len() && #[trigger] generate_outcome(st, calls, i) is Ok
            && #[trigger] generate_outcome(st, calls, j) is Ok implies i == j by {
        if i < j {
            lemma_stored_stays(st, calls, i, j);
        } else if j < i {
            lemma_stored_stays(st, calls, j, i);
        }
    }
    assert forall|i: int|
        0 <= i < calls.len() && #[trigger] generate_outcome(st, calls, i) is Ok implies generate_outcome(
            st,
            calls,
            i,
        ) == Ok::<String, GatewayError>(replay_generate(st, calls).encrypted) by {
        lemma_stored_stays(st, calls, i, calls.len() as int);
        assert(calls.take(calls.len() as int) =~= calls);
    }
}

/// With nothing stored and every encryption succeeding, however many callers
/// race, the first generation is the only one that succeeds, every other is
/// refused with `Rejection`, and the store keeps the first caller's artifact.
pub proof fn lemma_generate_exactly_once(st: RandomnessStore, calls: Seq<(Vec<u8>, Option<String>)>)
    requires
        st.randomness is None,
        calls.len() > 0,
        forall|i: int| 0 <= i < calls.len() ==> (#[trigger] calls[i]).1 is Some,
    ensures
        generate_outcome(st, calls, 0) == Ok::<String, GatewayError>(calls[0].1.unwrap()),
        forall|i: int|
            0 < i < calls.len() ==> #[trigger] generate_outcome(st, calls, i) == Err::<
                String,
                GatewayError,
            >(GatewayError::Rejection),
        replay_generate(st, calls).randomness == Some(calls[0].0),
        replay_generate(st, calls).encrypted == calls[0].1.unwrap(),
{
    assert(calls.take(0) =~= Seq::<(Vec<u8>, Option<String>)>::empty());
    assert forall|i: int| 0 < i < calls.len() implies #[trigger] generate_outcome(st, calls, i)
        == Err::<String, GatewayError>(GatewayError::Rejection) by {
        lemma_stored_stays(st, calls, 0, i);
    }
    lemma_stored_stays(st, calls, 0, calls.len() as int);
    assert(calls.take(calls.len() as int) =~= calls);
}

} // verus!
