use component_registry::bus::EventBus;
use component_registry::component::{Component, ComponentKind, Sink, Source, Transform};
use component_registry::query::{ComponentsQuery, ComponentsSubscription};
use component_registry::state::Registry;
use component_registry::{update_config, Config};

fn source(name: &str, component_type: &str, output_type: &str) -> Source {
    Source {
        name: name.to_string(),
        component_type: component_type.to_string(),
        output_type: output_type.to_string(),
    }
}

fn transform(name: &str, component_type: &str, inputs: &[&str]) -> Transform {
    Transform {
        name: name.to_string(),
        component_type: component_type.to_string(),
        inputs: inputs.iter().map(|s| s.to_string()).collect(),
    }
}

fn sink(name: &str, component_type: &str, inputs: &[&str]) -> Sink {
    Sink {
        name: name.to_string(),
        component_type: component_type.to_string(),
        inputs: inputs.iter().map(|s| s.to_string()).collect(),
    }
}

fn empty_config() -> Config {
    Config { sources: Vec::new(), transforms: Vec::new(), sinks: Vec::new() }
}

#[test]
fn one_source_added_to_empty_registry() {
    let mut registry = Registry::new();
    let mut bus = EventBus::new(10);
    let subscription = ComponentsSubscription::new();
    let added = subscription.component_added(&mut bus);

    let mut config = empty_config();
    config.sources.push(source("in", "stdin", "log"));
    update_config(&mut registry, &mut bus, &config);

    let event = added.try_next(&mut bus).expect("one added event");
    match event {
        Component::Source(s) => {
            assert_eq!(s.name, "in");
            assert_eq!(s.component_type, "stdin");
        }
        _ => panic!("expected a source"),
    }
    let query = ComponentsQuery::new();
    let sources = query.sources(&registry);
    assert_eq!(sources.len(), 1);
    assert_eq!(sources[0].name, "in");
    assert_eq!(sources[0].component_type, "stdin");
}

#[test]
fn source_removed_when_topology_emptied() {
    let mut registry = Registry::new();
    let mut bus = EventBus::new(10);
    let mut config = empty_config();
    config.sources.push(source("in", "stdin", "log"));
    update_config(&mut registry, &mut bus, &config);

    let subscription = ComponentsSubscription::new();
    let removed = subscription.component_removed(&mut bus);
    update_config(&mut registry, &mut bus, &empty_config());

    let event = removed.try_next(&mut bus).expect("one removed event");
    match event {
        Component::Source(s) => assert_eq!(s.name, "in"),
        _ => panic!("expected a source"),
    }
    let query = ComponentsQuery::new();
    assert!(query.components(&registry).is_empty());
}

#[test]
fn replacement_reports_only_changed_names() {
    let mut registry = Registry::new();
    let mut bus = EventBus::new(10);
    let mut config = empty_config();
    config.sources.push(source("a", "stdin", "log"));
    config.sinks.push(sink("b", "console", &["a"]));
    update_config(&mut registry, &mut bus, &config);

    let subscription = ComponentsSubscription::new();
    let added = subscription.component_added(&mut bus);
    let removed = subscription.component_removed(&mut bus);

    let mut next = empty_config();
    next.transforms.push(transform("c", "json_parser", &["b"]));
    next.sinks.push(sink("b", "console", &["c"]));
    update_config(&mut registry, &mut bus, &next);

    let got_removed = removed.try_next(&mut bus).expect("a is removed");
    assert_eq!(got_removed.name(), "a");
    assert!(removed.try_next(&mut bus).is_none(), "no further removal, none for b");

    let got_added = added.try_next(&mut bus).expect("c is added");
    assert_eq!(got_added.name(), "c");
    assert!(added.try_next(&mut bus).is_none(), "no further addition, none for b");
}

#[test]
fn update_without_subscribers_succeeds_and_is_not_replayed() {
    let mut registry = Registry::new();
    let mut bus = EventBus::new(10);
    let mut config = empty_config();
    config.sources.push(source("in", "stdin", "log"));
    update_config(&mut registry, &mut bus, &config);

    let subscription = ComponentsSubscription::new();
    let added = subscription.component_added(&mut bus);
    let removed = subscription.component_removed(&mut bus);
    assert!(added.try_next(&mut bus).is_none(), "no replay of earlier events");
    assert!(removed.try_next(&mut bus).is_none(), "no replay of earlier events");
    assert_eq!(registry.get(&"in".to_string()).expect("present").name(), "in");
}

#[test]
fn identical_topology_emits_no_events() {
    let mut registry = Registry::new();
    let mut bus = EventBus::new(10);
    let mut config = empty_config();
    config.sources.push(source("in", "stdin", "log"));
    config.sinks.push(sink("out", "console", &["in"]));
    update_config(&mut registry, &mut bus, &config);

    let subscription = ComponentsSubscription::new();
    let added = subscription.component_added(&mut bus);
    let removed = subscription.component_removed(&mut bus);
    update_config(&mut registry, &mut bus, &config);

    assert!(added.try_next(&mut bus).is_none());
    assert!(removed.try_next(&mut bus).is_none());
}

#[test]
fn content_change_under_same_name_is_silent() {
    let mut registry = Registry::new();
    let mut bus = EventBus::new(10);
    let mut config = empty_config();
    config.sources.push(source("in", "stdin", "log"));
    update_config(&mut registry, &mut bus, &config);

    let subscription = ComponentsSubscription::new();
    let added = subscription.component_added(&mut bus);
    let removed = subscription.component_removed(&mut bus);

    let mut changed = empty_config();
    changed.sources.push(source("in", "file", "metric"));
    update_config(&mut registry, &mut bus, &changed);

    assert!(added.try_next(&mut bus).is_none(), "identity-based diff: no event");
    assert!(removed.try_next(&mut bus).is_none(), "identity-based diff: no event");
    let got = registry.get(&"in".to_string()).expect("still present");
    assert_eq!(got.component_type(), "file");
}

#[test]
fn two_subscribers_observe_the_same_additions() {
    let mut registry = Registry::new();
    let mut bus = EventBus::new(10);
    let subscription = ComponentsSubscription::new();
    let first = subscription.component_added(&mut bus);
    let second = subscription.component_added(&mut bus);

    let mut config = empty_config();
    config.sources.push(source("a", "stdin", "log"));
    config.sources.push(source("b", "file", "log"));
    update_config(&mut registry, &mut bus, &config);

    let mut seen_first = vec![
        first.try_next(&mut bus).expect("two events").name().clone(),
        first.try_next(&mut bus).expect("two events").name().clone(),
    ];
    let mut seen_second = vec![
        second.try_next(&mut bus).expect("two events").name().clone(),
        second.try_next(&mut bus).expect("two events").name().clone(),
    ];
    assert!(first.try_next(&mut bus).is_none());
    assert!(second.try_next(&mut bus).is_none());
    seen_first.sort();
    seen_second.sort();
    assert_eq!(seen_first, vec!["a".to_string(), "b".to_string()]);
    assert_eq!(seen_first, seen_second);
}

#[test]
fn lookup_of_absent_name_is_not_found() {
    let mut registry = Registry::new();
    let mut bus = EventBus::new(10);
    assert!(registry.get(&"missing".to_string()).is_none());
    let mut config = empty_config();
    config.sources.push(source("in", "stdin", "log"));
    update_config(&mut registry, &mut bus, &config);
    assert!(registry.get(&"missing".to_string()).is_none());
    assert!(registry.get(&"in".to_string()).is_some());
}

#[test]
fn queries_filter_by_kind() {
    let mut registry = Registry::new();
    let mut bus = EventBus::new(10);
    let mut config = empty_config();
    config.sources.push(source("s1", "stdin", "log"));
    config.sources.push(source("s2", "file", "log"));
    config.transforms.push(transform("t1", "json_parser", &["s1"]));
    config.sinks.push(sink("k1", "console", &["t1"]));
    update_config(&mut registry, &mut bus, &config);

    let query = ComponentsQuery::new();
    assert_eq!(query.components(&registry).len(), 4);
    let sources = query.sources(&registry);
    assert_eq!(sources.len(), 2);
    assert_eq!(sources[0].name, "s1");
    assert_eq!(sources[1].name, "s2");
    let transforms = query.transforms(&registry);
    assert_eq!(transforms.len(), 1);
    assert_eq!(transforms[0].name, "t1");
    assert_eq!(transforms[0].inputs, vec!["s1".to_string()]);
    let sinks = query.sinks(&registry);
    assert_eq!(sinks.len(), 1);
    assert_eq!(sinks[0].name, "k1");

    let by_kind = registry.get_by_kind(ComponentKind::Transform);
    assert_eq!(by_kind.len(), 1);
    assert_eq!(by_kind[0].name(), "t1");
}
