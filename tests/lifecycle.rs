use std::sync::Arc;

use alloy::primitives::{keccak256, Address, Signature, B256};
use serverless_gateway::backoff::backoff_delay;
use serverless_gateway::chain_client::ChainClientSlot;
use serverless_gateway::epoch::{next_registration_instant, registration_delay};
use serverless_gateway::error::GatewayError;
use serverless_gateway::gate::ConfigGates;
use serverless_gateway::gateway::{distinct_ids, registration_message, GatewayState};
use serverless_gateway::jobs::{JobDeduplicator, JobKey};
use serverless_gateway::randomness::{generate, RandomnessStore, RANDOMNESS_LEN};
use serverless_gateway::registration::{
    RegistrationAction, RegistrationEvent, RegistrationPhase, RegistrationScheduler,
};

fn secret_one() -> Vec<u8> {
    let mut s = vec![0u8; 32];
    s[31] = 1;
    s
}

fn configured_gateway() -> GatewayState {
    let mut g = GatewayState::new(secret_one()).unwrap();
    g.inject_immutable_config("0xabc".to_string()).unwrap();
    g.inject_mutable_config("gas".to_string(), "stream".to_string()).unwrap();
    g
}

#[test]
fn epoch_boundaries_for_offset_ten_interval_twenty() {
    assert_eq!(next_registration_instant(10, 20, 5), Some(10));
    assert_eq!(next_registration_instant(10, 20, 11), Some(30));
    assert_eq!(next_registration_instant(10, 20, 30), Some(30));
    assert_eq!(next_registration_instant(10, 20, 31), Some(50));
    assert_eq!(next_registration_instant(10, 20, 10), Some(10));
}

#[test]
fn epoch_edge_cases() {
    assert_eq!(next_registration_instant(10, 0, 5), Some(10));
    assert_eq!(next_registration_instant(10, 0, 11), None);
    assert_eq!(next_registration_instant(0, 7, 0), Some(0));
    assert_eq!(next_registration_instant(u64::MAX - 5, 10, u64::MAX), None);
    assert_eq!(next_registration_instant(0, u64::MAX, 1), Some(u64::MAX));
    assert_eq!(registration_delay(10, 20, 11), Some(19));
    assert_eq!(registration_delay(10, 20, 30), Some(0));
    assert_eq!(registration_delay(10, 0, 11), None);
}

#[test]
fn immutable_config_once_and_owner_kept() {
    let mut g = GatewayState::new(secret_one()).unwrap();
    assert_eq!(g.inject_immutable_config("0xabc".to_string()), Ok(()));
    assert_eq!(
        g.inject_immutable_config("0xdef".to_string()),
        Err(GatewayError::Rejection)
    );
    assert_eq!(g.gates.enclave_owner, "0xabc");
    assert!(g.gates.immutable_injected);
    assert!(!g.gates.mutable_injected);
}

#[test]
fn mutable_config_once_and_keys_kept() {
    let mut gates = ConfigGates::new();
    assert_eq!(gates.inject_mutable("k1".to_string(), "s1".to_string()), Ok(()));
    assert_eq!(
        gates.inject_mutable("k2".to_string(), "s2".to_string()),
        Err(GatewayError::Rejection)
    );
    assert_eq!(gates.wallet, "k1");
    assert_eq!(gates.stream_api_key, "s1");
    assert!(!gates.immutable_injected);
    assert!(!gates.both_injected());
}

#[test]
fn many_immutable_injections_one_success() {
    let mut gates = ConfigGates::new();
    let owners = ["0x1", "0x2", "0x3", "0x4"];
    let ok: usize = owners
        .iter()
        .map(|o| gates.inject_immutable(o.to_string()))
        .filter(|r| r.is_ok())
        .count();
    assert_eq!(ok, 1);
    assert_eq!(gates.enclave_owner, "0x1");
}

#[test]
fn invalid_enclave_key_is_config_error() {
    assert!(matches!(GatewayState::new(vec![0u8; 32]), Err(GatewayError::Config)));
    assert!(matches!(GatewayState::new(vec![1u8; 5]), Err(GatewayError::Config)));
}

#[test]
fn enclave_address_of_known_key() {
    let g = GatewayState::new(secret_one()).unwrap();
    let expected: Address = "0x7E5F4552091A69125d5DfCb7b8C2659029395Bdf".parse().unwrap();
    assert_eq!(g.enclave_address, expected.to_vec());
}

#[test]
fn registration_message_layout() {
    let address = vec![0xaau8; 20];
    let m = registration_message(&address, &vec![1, 137]);
    let mut expected = address.clone();
    expected.extend_from_slice(&[0, 0, 0, 0, 0, 0, 0, 1]);
    expected.extend_from_slice(&[0, 0, 0, 0, 0, 0, 0, 137]);
    assert_eq!(m, expected);
    assert_eq!(registration_message(&address, &vec![]), address);
    let big = registration_message(&vec![], &vec![0x0102030405060708]);
    assert_eq!(big, vec![1, 2, 3, 4, 5, 6, 7, 8]);
}

#[test]
fn signed_message_rejected_before_gates() {
    let mut g = GatewayState::new(secret_one()).unwrap();
    assert!(matches!(
        g.export_signed_registration_message(vec![1, 137]),
        Err(GatewayError::Registration)
    ));
    g.inject_immutable_config("0xabc".to_string()).unwrap();
    assert!(matches!(
        g.export_signed_registration_message(vec![1, 137]),
        Err(GatewayError::Registration)
    ));
    assert!(g.request_chain_ids.is_empty());
}

#[test]
fn signed_message_verifies_after_gates() {
    let mut g = configured_gateway();
    let m = g.export_signed_registration_message(vec![1, 137]).unwrap();
    assert_eq!(m.chain_ids, vec![1, 137]);
    assert_eq!(m.enclave_address, g.enclave_address);
    let message = registration_message(&g.enclave_address, &vec![1, 137]);
    assert_eq!(m.digest, keccak256(&message).to_vec());
    assert_ne!(m.digest, message);
    assert_eq!(m.signature.len(), 65);
    let sig = Signature::from_raw(&m.signature).unwrap();
    let signer = sig
        .recover_address_from_prehash(&B256::from_slice(&m.digest))
        .unwrap();
    assert_eq!(signer.to_vec(), g.enclave_address);
    let mut ids = g.request_chain_ids.clone();
    ids.sort();
    assert_eq!(ids, vec![1, 137]);
}

#[test]
fn requested_chain_ids_are_deduplicated() {
    assert_eq!(distinct_ids(&vec![137, 1, 137, 1, 5]), vec![137, 1, 5]);
    assert_eq!(distinct_ids(&vec![]), Vec::<u64>::new());
    let mut g = configured_gateway();
    g.export_signed_registration_message(vec![1, 1, 137]).unwrap();
    assert_eq!(g.request_chain_ids, vec![1, 137]);
}

#[test]
fn registered_only_with_both_gates() {
    let mut g = GatewayState::new(secret_one()).unwrap();
    assert!(!g.mark_registered());
    assert!(!g.registered);
    g.inject_immutable_config("0xabc".to_string()).unwrap();
    assert!(!g.mark_registered());
    g.inject_mutable_config("gas".to_string(), "stream".to_string()).unwrap();
    assert!(g.mark_registered());
    assert!(g.registered);
}

#[test]
fn job_listeners_start_once() {
    let mut g = configured_gateway();
    assert!(g.start_job_listeners().is_empty());
    g.mark_registered();
    assert!(g.start_job_listeners().is_empty());
    g.export_signed_registration_message(vec![1, 137]).unwrap();
    assert_eq!(g.start_job_listeners(), vec![1, 137]);
    assert!(g.registration_listener_active);
    assert!(g.start_job_listeners().is_empty());
    g.export_signed_registration_message(vec![5]).unwrap();
    assert_eq!(g.request_chain_ids, vec![1, 137]);
}

#[test]
fn backoff_doubles_up_to_cap() {
    let delays: Vec<u64> = (0..9).map(backoff_delay).collect();
    assert_eq!(delays, vec![1, 2, 4, 8, 16, 32, 60, 60, 60]);
    assert_eq!(backoff_delay(u32::MAX), 60);
}

#[test]
fn scheduler_full_run() {
    let mut s = RegistrationScheduler::new(10, 20);
    assert_eq!(s.handle(RegistrationEvent::Clock { now: 11 }), RegistrationAction::Idle);
    assert_eq!(
        s.handle(RegistrationEvent::GatesObserved { immutable_injected: true, mutable_injected: false }),
        RegistrationAction::Idle
    );
    assert_eq!(s.phase, RegistrationPhase::WaitingConfig);
    s.handle(RegistrationEvent::GatesObserved { immutable_injected: true, mutable_injected: true });
    assert_eq!(s.phase, RegistrationPhase::ReadyToRegister);
    assert_eq!(
        s.handle(RegistrationEvent::Clock { now: 11 }),
        RegistrationAction::WaitUntil { instant: 30 }
    );
    assert_eq!(s.phase, RegistrationPhase::Registering);
    assert_eq!(
        s.handle(RegistrationEvent::Clock { now: 29 }),
        RegistrationAction::WaitUntil { instant: 30 }
    );
    assert_eq!(s.handle(RegistrationEvent::Clock { now: 30 }), RegistrationAction::Submit);
    assert_eq!(
        s.handle(RegistrationEvent::RecoverableError),
        RegistrationAction::RetryAfter { seconds: 1 }
    );
    assert_eq!(
        s.handle(RegistrationEvent::RecoverableError),
        RegistrationAction::RetryAfter { seconds: 2 }
    );
    assert_eq!(s.phase, RegistrationPhase::Registering);
    assert_eq!(s.handle(RegistrationEvent::Confirmed), RegistrationAction::MarkRegistered);
    assert!(s.is_registered());
    assert_eq!(s.handle(RegistrationEvent::UnrecoverableError), RegistrationAction::Idle);
    assert_eq!(s.phase, RegistrationPhase::Registered);
}

#[test]
fn confirmation_without_gates_does_not_register() {
    let mut s = RegistrationScheduler::new(10, 20);
    assert_eq!(s.handle(RegistrationEvent::Confirmed), RegistrationAction::Idle);
    assert_eq!(s.phase, RegistrationPhase::WaitingConfig);
    assert!(!s.is_registered());
}

#[test]
fn scheduler_fails_for_good() {
    let mut s = RegistrationScheduler::new(10, 20);
    s.handle(RegistrationEvent::GatesObserved { immutable_injected: true, mutable_injected: true });
    s.handle(RegistrationEvent::Clock { now: 0 });
    assert_eq!(s.target, 10);
    assert_eq!(s.handle(RegistrationEvent::UnrecoverableError), RegistrationAction::ReportFailure);
    assert_eq!(s.phase, RegistrationPhase::Failed);
    assert_eq!(s.handle(RegistrationEvent::Confirmed), RegistrationAction::Idle);
    assert_eq!(s.phase, RegistrationPhase::Failed);

    let mut z = RegistrationScheduler::new(10, 0);
    z.handle(RegistrationEvent::GatesObserved { immutable_injected: true, mutable_injected: true });
    assert_eq!(z.handle(RegistrationEvent::Clock { now: 11 }), RegistrationAction::ReportFailure);
    assert_eq!(z.phase, RegistrationPhase::Failed);
}

#[test]
fn chain_client_published_once() {
    let mut slot: ChainClientSlot<u32> = ChainClientSlot::new();
    assert!(slot.current().is_none());
    let a = slot.get_or_publish(Arc::new(1));
    let b = slot.get_or_publish(Arc::new(2));
    assert!(Arc::ptr_eq(&a, &b));
    assert_eq!(*b, 1);
    assert!(Arc::ptr_eq(&slot.current().unwrap(), &a));
}

#[test]
fn redelivered_job_forwarded_once() {
    let mut d = JobDeduplicator::new();
    let key = |chain_id: u64, log_index: u64| JobKey { chain_id, tx_hash: vec![7u8; 32], log_index };
    assert!(d.observe(key(1, 0)));
    assert!(!d.observe(key(1, 0)));
    assert!(d.observe(key(1, 1)));
    assert!(d.observe(key(137, 0)));
    assert!(!d.observe(key(137, 0)));
    assert!(d.observe(JobKey { chain_id: 1, tx_hash: vec![8u8; 32], log_index: 0 }));
    assert!(!d.observe(key(1, 1)));
}

#[test]
fn randomness_generated_once() {
    let mut store = RandomnessStore::new();
    let r1 = store.draw_randomness().unwrap();
    assert_eq!(r1.len(), RANDOMNESS_LEN);
    let r2 = store.draw_randomness().unwrap();
    assert_ne!(r1, r2);
    assert_eq!(generate(&mut store, r1.clone(), Some("cipher".to_string())), Ok("cipher".to_string()));
    assert_eq!(
        generate(&mut store, r2, Some("other".to_string())),
        Err(GatewayError::Rejection)
    );
    assert_eq!(store.encrypted, "cipher");
    assert_eq!(store.randomness, Some(r1));
    assert_eq!(store.draw_randomness(), Err(GatewayError::Rejection));
}

#[test]
fn randomness_encryption_failure_stores_nothing() {
    let mut store = RandomnessStore::new();
    let r = store.draw_randomness().unwrap();
    assert_eq!(generate(&mut store, r.clone(), None), Err(GatewayError::Crypto));
    assert!(store.randomness.is_none());
    assert_eq!(generate(&mut store, r, Some("c".to_string())), Ok("c".to_string()));
}

fn order_bytes() -> Vec<u8> {
    let hex = "FFFFFFFFFFFFFFFFFFFFFFFFFFFFFFFEBAAEDCE6AF48A03BBFD25E8CD0364141";
    (0..32).map(|i| u8::from_str_radix(&hex[2 * i..2 * i + 2], 16).unwrap()).collect()
}

#[test]
fn enclave_key_range_is_exact() {
    let order = order_bytes();
    assert!(matches!(GatewayState::new(order.clone()), Err(GatewayError::Config)));
    let mut below = order.clone();
    below[31] -= 1;
    assert!(GatewayState::new(below).is_ok());
    assert!(matches!(GatewayState::new(vec![0xffu8; 32]), Err(GatewayError::Config)));
    let mut short = vec![0u8; 24];
    short[23] = 1;
    let g = GatewayState::new(short).unwrap();
    assert_eq!(g.enclave_address, GatewayState::new(secret_one()).unwrap().enclave_address);
    assert!(matches!(GatewayState::new(vec![1u8; 23]), Err(GatewayError::Config)));
    assert!(matches!(GatewayState::new(vec![1u8; 33]), Err(GatewayError::Config)));
}

#[test]
fn signed_message_succeeds_for_valid_key_and_any_ids() {
    let mut g = configured_gateway();
    assert!(g.export_signed_registration_message(vec![]).is_ok());
    let m = g.export_signed_registration_message(vec![u64::MAX, 0]).unwrap();
    let sig = Signature::from_raw(&m.signature).unwrap();
    let signer = sig.recover_address_from_prehash(&B256::from_slice(&m.digest)).unwrap();
    assert_eq!(signer.to_vec(), g.enclave_address);
}

#[test]
fn many_generate_calls_one_artifact() {
    let mut store = RandomnessStore::new();
    let mut wins = Vec::new();
    for i in 0..5 {
        let r = vec![i as u8; RANDOMNESS_LEN];
        match generate(&mut store, r, Some(format!("cipher{}", i))) {
            Ok(c) => wins.push(c),
            Err(e) => assert_eq!(e, GatewayError::Rejection),
        }
    }
    assert_eq!(wins, vec!["cipher0".to_string()]);
    assert_eq!(store.encrypted, "cipher0");
    assert_eq!(store.randomness, Some(vec![0u8; RANDOMNESS_LEN]));
    for _ in 0..3 {
        assert_eq!(
            generate(&mut store, vec![9u8; RANDOMNESS_LEN], Some("again".to_string())),
            Err(GatewayError::Rejection)
        );
    }
    assert_eq!(store.encrypted, "cipher0");
}
