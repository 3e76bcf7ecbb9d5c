use component_registry::bus::EventBus;
use component_registry::component::{Component, ComponentChanged, Source};
use component_registry::query::ComponentsSubscription;

fn source_event_added(name: &str) -> ComponentChanged {
    ComponentChanged::Added(Component::Source(Source {
        name: name.to_string(),
        component_type: "stdin".to_string(),
        output_type: "log".to_string(),
    }))
}

fn source_event_removed(name: &str) -> ComponentChanged {
    ComponentChanged::Removed(Component::Source(Source {
        name: name.to_string(),
        component_type: "stdin".to_string(),
        output_type: "log".to_string(),
    }))
}

#[test]
fn publish_without_subscribers_is_discarded() {
    let mut bus = EventBus::new(10);
    bus.publish(source_event_added("a"));
    let id = bus.subscribe();
    assert!(bus.try_recv(id).is_none());
}

#[test]
fn events_arrive_oldest_first() {
    let mut bus = EventBus::new(10);
    let id = bus.subscribe();
    bus.publish(source_event_added("a"));
    bus.publish(source_event_removed("b"));
    match bus.try_recv(id).expect("first event") {
        ComponentChanged::Added(c) => assert_eq!(c.name(), "a"),
        _ => panic!("expected the addition first"),
    }
    match bus.try_recv(id).expect("second event") {
        ComponentChanged::Removed(c) => assert_eq!(c.name(), "b"),
        _ => panic!("expected the removal second"),
    }
    assert!(bus.try_recv(id).is_none());
}

#[test]
fn slow_subscriber_loses_only_oldest_events() {
    let mut bus = EventBus::new(2);
    let lagging = bus.subscribe();
    bus.publish(source_event_added("a"));
    bus.publish(source_event_added("b"));
    bus.publish(source_event_added("c"));
    match bus.try_recv(lagging).expect("event") {
        ComponentChanged::Added(c) => assert_eq!(c.name(), "b", "oldest was dropped"),
        _ => panic!("expected an addition"),
    }
    match bus.try_recv(lagging).expect("event") {
        ComponentChanged::Added(c) => assert_eq!(c.name(), "c"),
        _ => panic!("expected an addition"),
    }
    assert!(bus.try_recv(lagging).is_none());
}

#[test]
fn lagging_subscriber_does_not_affect_others() {
    let mut bus = EventBus::new(2);
    let lagging = bus.subscribe();
    let keeping_up = bus.subscribe();
    bus.publish(source_event_added("a"));
    match bus.try_recv(keeping_up).expect("event") {
        ComponentChanged::Added(c) => assert_eq!(c.name(), "a"),
        _ => panic!("expected an addition"),
    }
    bus.publish(source_event_added("b"));
    bus.publish(source_event_added("c"));
    match bus.try_recv(keeping_up).expect("event") {
        ComponentChanged::Added(c) => assert_eq!(c.name(), "b", "nothing dropped here"),
        _ => panic!("expected an addition"),
    }
    match bus.try_recv(lagging).expect("event") {
        ComponentChanged::Added(c) => assert_eq!(c.name(), "b", "its own oldest was dropped"),
        _ => panic!("expected an addition"),
    }
}

#[test]
fn unsubscribe_frees_the_slot_without_affecting_others() {
    let mut bus = EventBus::new(10);
    let leaving = bus.subscribe();
    let staying = bus.subscribe();
    bus.publish(source_event_added("a"));
    bus.unsubscribe(leaving);
    bus.publish(source_event_added("b"));
    match bus.try_recv(staying).expect("event") {
        ComponentChanged::Added(c) => assert_eq!(c.name(), "a"),
        _ => panic!("expected an addition"),
    }
    match bus.try_recv(staying).expect("event") {
        ComponentChanged::Added(c) => assert_eq!(c.name(), "b"),
        _ => panic!("expected an addition"),
    }
    assert!(bus.try_recv(leaving).is_none(), "a released slot holds nothing");
}

#[test]
fn added_stream_skips_removals() {
    let mut bus = EventBus::new(10);
    let subscription = ComponentsSubscription::new();
    let added = subscription.component_added(&mut bus);
    bus.publish(source_event_removed("gone"));
    bus.publish(source_event_added("fresh"));
    let got = added.try_next(&mut bus).expect("the addition");
    assert_eq!(got.name(), "fresh");
    assert!(added.try_next(&mut bus).is_none());
}

#[test]
fn removed_stream_skips_additions() {
    let mut bus = EventBus::new(10);
    let subscription = ComponentsSubscription::new();
    let removed = subscription.component_removed(&mut bus);
    bus.publish(source_event_added("fresh"));
    bus.publish(source_event_removed("gone"));
    let got = removed.try_next(&mut bus).expect("the removal");
    assert_eq!(got.name(), "gone");
    assert!(removed.try_next(&mut bus).is_none());
}

#[test]
fn cancelled_stream_releases_its_slot() {
    let mut bus = EventBus::new(10);
    let subscription = ComponentsSubscription::new();
    let added = subscription.component_added(&mut bus);
    let other = subscription.component_added(&mut bus);
    added.cancel(&mut bus);
    bus.publish(source_event_added("a"));
    let got = other.try_next(&mut bus).expect("unaffected subscriber");
    assert_eq!(got.name(), "a");
}
