use downlink::hub::{Delivery, Hub, BACKLOG_CAPACITY};

fn payload(tag: u8) -> Vec<u8> {
    vec![tag, 0x10, 0x20]
}

fn expect_payload(d: Option<Delivery>) -> Vec<u8> {
    match d {
        Some(Delivery::Payload(body)) => body,
        Some(Delivery::Gap(n)) => panic!("expected a payload, got a gap of {n}"),
        None => panic!("expected a payload, got nothing"),
    }
}

#[test]
fn publish_with_zero_subscribers_succeeds() {
    let mut hub = Hub::new();
    let delivered = hub.publish(&payload(1));
    assert_eq!(delivered, 0);
    assert_eq!(hub.subscriber_count(), 0);
}

#[test]
fn payloads_arrive_in_publish_order() {
    let mut hub = Hub::new();
    let s = hub.subscribe();
    assert_eq!(hub.publish(&payload(1)), 1);
    assert_eq!(hub.publish(&payload(2)), 1);
    assert_eq!(expect_payload(hub.next(s)), payload(1));
    assert_eq!(expect_payload(hub.next(s)), payload(2));
    assert!(hub.next(s).is_none());
}

#[test]
fn fresh_subscriber_sees_only_later_payloads() {
    let mut hub = Hub::new();
    let early = hub.subscribe();
    assert_eq!(hub.publish(&payload(1)), 1);
    let late = hub.subscribe();
    assert_eq!(hub.publish(&payload(2)), 2);
    assert_eq!(expect_payload(hub.next(early)), payload(1));
    assert_eq!(expect_payload(hub.next(early)), payload(2));
    assert_eq!(expect_payload(hub.next(late)), payload(2));
    assert!(hub.next(late).is_none());
}

#[test]
fn backlog_overflow_yields_gap_then_newest() {
    let mut hub = Hub::new();
    let s = hub.subscribe();
    let total: usize = 200;
    for i in 0..total {
        let body = vec![(i / 256) as u8, (i % 256) as u8];
        assert_eq!(hub.publish(&body), 1);
    }
    let dropped = (total - BACKLOG_CAPACITY) as u64;
    match hub.next(s) {
        Some(Delivery::Gap(n)) => assert_eq!(n, dropped),
        _ => panic!("expected a gap notice first"),
    }
    for i in (total - BACKLOG_CAPACITY)..total {
        let body = expect_payload(hub.next(s));
        assert_eq!(body, vec![(i / 256) as u8, (i % 256) as u8]);
    }
    assert!(hub.next(s).is_none());
    // The slow subscriber was never disconnected: it still receives.
    assert_eq!(hub.publish(&payload(9)), 1);
    assert_eq!(expect_payload(hub.next(s)), payload(9));
}

#[test]
fn gap_notice_is_delivered_once() {
    let mut hub = Hub::new();
    let s = hub.subscribe();
    for i in 0..(BACKLOG_CAPACITY + 3) {
        hub.publish(&vec![i as u8]);
    }
    match hub.next(s) {
        Some(Delivery::Gap(3)) => {}
        _ => panic!("expected a gap of 3"),
    }
    // After the gap notice the oldest kept payload follows; no second gap.
    assert_eq!(expect_payload(hub.next(s)), vec![3u8]);
}

#[test]
fn unsubscribe_leaves_others_untouched() {
    let mut hub = Hub::new();
    let s1 = hub.subscribe();
    let s2 = hub.subscribe();
    assert_eq!(hub.subscriber_count(), 2);
    assert_eq!(hub.publish(&payload(1)), 2);
    assert!(hub.unsubscribe(s1));
    assert_eq!(hub.subscriber_count(), 1);
    assert_eq!(hub.publish(&payload(2)), 1);
    assert_eq!(expect_payload(hub.next(s2)), payload(1));
    assert_eq!(expect_payload(hub.next(s2)), payload(2));
    assert!(hub.next(s1).is_none());
    assert!(!hub.is_subscribed(s1));
    assert!(hub.is_subscribed(s2));
}

#[test]
fn unsubscribe_twice_removes_once() {
    let mut hub = Hub::new();
    let s = hub.subscribe();
    assert!(hub.unsubscribe(s));
    assert!(!hub.unsubscribe(s));
    assert_eq!(hub.subscriber_count(), 0);
}

#[test]
fn handles_are_never_reused() {
    let mut hub = Hub::new();
    let s1 = hub.subscribe();
    hub.unsubscribe(s1);
    let s2 = hub.subscribe();
    assert_ne!(s1, s2);
}
