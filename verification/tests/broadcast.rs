use libdogd::{Broadcaster, Delivery, PublishError};

fn text(s: &str) -> Delivery {
    Delivery::Text(s.to_string())
}

#[test]
fn subscriber_before_the_first_publish_gets_all_in_order() {
    let mut hub = Broadcaster::new();
    let c = hub.subscribe().unwrap();
    for p in ["one", "two", "three", "four"] {
        assert_eq!(hub.publish(p), Ok(()));
    }
    assert_eq!(hub.pending(&c), 4);
    for p in ["one", "two", "three", "four"] {
        assert_eq!(hub.receive(&c), text(p));
    }
    assert_eq!(hub.receive(&c), Delivery::Idle);
}

#[test]
fn receives_between_publishes_keep_the_order() {
    let mut hub = Broadcaster::new();
    let c = hub.subscribe().unwrap();
    hub.publish("one").unwrap();
    hub.publish("two").unwrap();
    assert_eq!(hub.receive(&c), text("one"));
    hub.publish("three").unwrap();
    assert_eq!(hub.receive(&c), text("two"));
    assert_eq!(hub.receive(&c), text("three"));
    assert_eq!(hub.receive(&c), Delivery::Idle);
    hub.publish("four").unwrap();
    assert_eq!(hub.receive(&c), text("four"));
}

#[test]
fn late_subscriber_misses_what_came_before() {
    let mut hub = Broadcaster::new();
    let early = hub.subscribe().unwrap();
    hub.publish("one").unwrap();
    let late = hub.subscribe().unwrap();
    assert_eq!(hub.pending(&late), 0);
    hub.publish("two").unwrap();
    hub.publish("three").unwrap();
    assert_eq!(hub.receive(&late), text("two"));
    assert_eq!(hub.receive(&late), text("three"));
    assert_eq!(hub.receive(&late), Delivery::Idle);
    assert_eq!(hub.receive(&early), text("one"));
    assert_eq!(hub.receive(&early), text("two"));
    assert_eq!(hub.receive(&early), text("three"));
}

#[test]
fn unsubscribing_in_mid_stream_leaves_the_others_alone() {
    let mut hub = Broadcaster::new();
    let a = hub.subscribe().unwrap();
    let b = hub.subscribe().unwrap();
    let c = hub.subscribe().unwrap();
    hub.publish("one").unwrap();
    assert_eq!(hub.receive(&b), text("one"));
    hub.publish("two").unwrap();
    hub.unsubscribe(b);
    hub.publish("three").unwrap();
    for consumer in [&a, &c] {
        assert_eq!(hub.receive(consumer), text("one"));
        assert_eq!(hub.receive(consumer), text("two"));
        assert_eq!(hub.receive(consumer), text("three"));
        assert_eq!(hub.receive(consumer), Delivery::Idle);
    }
}

#[test]
fn one_leaves_before_reading_the_other_gets_both() {
    let mut hub = Broadcaster::new();
    let a = hub.subscribe().unwrap();
    let b = hub.subscribe().unwrap();
    hub.publish("first\n").unwrap();
    hub.unsubscribe(a);
    hub.publish("second\n").unwrap();
    assert_eq!(hub.receive(&b), text("first\n"));
    assert_eq!(hub.receive(&b), text("second\n"));
    assert_eq!(hub.receive(&b), Delivery::Idle);
}

#[test]
fn a_detached_consumer_gets_nothing_more() {
    let mut hub = Broadcaster::new();
    let a = hub.subscribe().unwrap();
    hub.publish("one").unwrap();
    assert!(hub.is_attached(&a));
    hub.detach(&a);
    assert!(!hub.is_attached(&a));
    assert_eq!(hub.pending(&a), 0);
    assert_eq!(hub.receive(&a), Delivery::Closed);
    hub.publish("two").unwrap();
    assert_eq!(hub.receive(&a), Delivery::Closed);
    hub.detach(&a);
    assert!(!hub.is_attached(&a));
}

#[test]
fn handles_are_numbered_in_order_and_never_again() {
    let mut hub = Broadcaster::new();
    let a = hub.subscribe().unwrap();
    let b = hub.subscribe().unwrap();
    assert_eq!((a.id(), b.id()), (0, 1));
    hub.unsubscribe(a);
    let c = hub.subscribe().unwrap();
    assert_eq!(c.id(), 2);
    assert!(hub.is_attached(&b));
    assert!(hub.is_attached(&c));
}

#[test]
fn a_closed_broadcaster_refuses_and_lets_drain() {
    let mut hub = Broadcaster::new();
    let a = hub.subscribe().unwrap();
    hub.publish("one").unwrap();
    assert!(!hub.is_closed());
    hub.close();
    assert!(hub.is_closed());
    assert_eq!(hub.publish("two"), Err(PublishError::Closed));
    assert_eq!(hub.pending(&a), 1);
    assert_eq!(hub.receive(&a), text("one"));
    assert_eq!(hub.receive(&a), Delivery::Closed);
}

#[test]
fn publishing_to_nobody_is_no_failure() {
    let mut hub = Broadcaster::new();
    assert_eq!(hub.publish("lost"), Ok(()));
    let a = hub.subscribe().unwrap();
    assert_eq!(hub.receive(&a), Delivery::Idle);
}

#[test]
fn many_texts_wait_for_a_slow_consumer() {
    let mut hub = Broadcaster::new();
    let slow = hub.subscribe().unwrap();
    let quick = hub.subscribe().unwrap();
    for i in 0..2000 {
        assert_eq!(hub.publish(&format!("r{}", i)), Ok(()));
        assert_eq!(hub.receive(&quick), text(&format!("r{}", i)));
    }
    assert_eq!(hub.pending(&slow), 2000);
    for i in 0..2000 {
        assert_eq!(hub.receive(&slow), text(&format!("r{}", i)));
    }
    assert_eq!(hub.receive(&slow), Delivery::Idle);
}
