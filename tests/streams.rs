use serverless_gateway::jobs::ChainListeners;
use serverless_gateway::stream::{StreamAction, StreamCursor, StreamEvent};

#[test]
fn stream_resumes_after_last_observed_block() {
    let mut c = StreamCursor::new(100);
    assert_eq!(c.handle(StreamEvent::Connected), StreamAction::SubscribeFrom { block: 100 });
    assert_eq!(c.handle(StreamEvent::Observed { block: 120 }), StreamAction::Continue);
    assert_eq!(c.handle(StreamEvent::Observed { block: 110 }), StreamAction::Continue);
    assert_eq!(c.last_observed, Some(120));
    assert_eq!(c.handle(StreamEvent::Disconnected), StreamAction::ReconnectAfter { seconds: 1 });
    assert_eq!(c.handle(StreamEvent::Disconnected), StreamAction::ReconnectAfter { seconds: 2 });
    assert_eq!(c.handle(StreamEvent::Disconnected), StreamAction::ReconnectAfter { seconds: 4 });
    assert!(!c.connected);
    assert_eq!(c.handle(StreamEvent::Connected), StreamAction::SubscribeFrom { block: 121 });
    assert!(c.connected);
    assert_eq!(c.attempts, 0);
    assert_eq!(c.handle(StreamEvent::Disconnected), StreamAction::ReconnectAfter { seconds: 1 });
}

#[test]
fn stream_backoff_is_capped() {
    let mut c = StreamCursor::new(0);
    let mut last = StreamAction::Continue;
    for _ in 0..20 {
        last = c.handle(StreamEvent::Disconnected);
    }
    assert_eq!(last, StreamAction::ReconnectAfter { seconds: 60 });
    c.handle(StreamEvent::Observed { block: u64::MAX });
    assert_eq!(c.handle(StreamEvent::Connected), StreamAction::SubscribeFrom { block: u64::MAX });
}

#[test]
fn failed_chain_listener_is_isolated() {
    let mut l = ChainListeners::start(&vec![1, 137, 1, 42]);
    assert_eq!(l.running, vec![1, 137, 42]);
    assert!(l.stop(137));
    assert_eq!(l.running, vec![1, 42]);
    assert!(!l.stop(137));
    assert!(!l.stop(5));
    assert_eq!(l.running, vec![1, 42]);
}
