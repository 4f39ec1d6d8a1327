use meterlog::discovery::locate_from_events;
use meterlog::discovery::DiscoveryEvent;
use meterlog::discovery::Locator;

#[test]
fn five_search_passes_exhaust_the_search() {
    let events = vec![
        DiscoveryEvent::SearchStarted,
        DiscoveryEvent::SearchStarted,
        DiscoveryEvent::SearchStarted,
        DiscoveryEvent::SearchStarted,
        DiscoveryEvent::SearchStarted,
    ];
    let (found, used) = locate_from_events(&events);
    assert!(found.is_none());
    assert_eq!(used, 5);
}

#[test]
fn exhaustion_comes_on_the_fifth_pass_not_after() {
    let events = vec![
        DiscoveryEvent::SearchStarted,
        DiscoveryEvent::SearchStarted,
        DiscoveryEvent::SearchStarted,
        DiscoveryEvent::SearchStarted,
        DiscoveryEvent::SearchStarted,
        DiscoveryEvent::Resolved(vec!["10.0.0.17".to_string()]),
    ];
    let (found, used) = locate_from_events(&events);
    assert!(found.is_none());
    assert_eq!(used, 5);
}

#[test]
fn four_passes_do_not_exhaust_the_search() {
    let events = vec![
        DiscoveryEvent::SearchStarted,
        DiscoveryEvent::SearchStarted,
        DiscoveryEvent::SearchStarted,
        DiscoveryEvent::SearchStarted,
        DiscoveryEvent::Resolved(vec!["10.0.0.17".to_string()]),
    ];
    let (found, used) = locate_from_events(&events);
    assert_eq!(found.unwrap(), "10.0.0.17");
    assert_eq!(used, 5);
}

#[test]
fn first_address_of_first_resolution_wins() {
    let events = vec![
        DiscoveryEvent::Resolved(vec!["10.0.0.17".to_string(), "10.0.0.99".to_string()]),
        DiscoveryEvent::SearchStarted,
        DiscoveryEvent::Resolved(vec!["10.0.0.99".to_string()]),
    ];
    let (found, used) = locate_from_events(&events);
    assert_eq!(found.unwrap(), "10.0.0.17");
    assert_eq!(used, 1);
}

#[test]
fn other_events_change_nothing() {
    let events = vec![
        DiscoveryEvent::Other,
        DiscoveryEvent::Other,
        DiscoveryEvent::Other,
        DiscoveryEvent::Resolved(vec!["10.0.0.17".to_string()]),
    ];
    let (found, used) = locate_from_events(&events);
    assert_eq!(found.unwrap(), "10.0.0.17");
    assert_eq!(used, 4);
}

#[test]
fn closed_source_means_not_found() {
    let events = vec![DiscoveryEvent::SearchStarted, DiscoveryEvent::Other];
    let (found, used) = locate_from_events(&events);
    assert!(found.is_none());
    assert_eq!(used, 2);
}

#[test]
fn resolution_without_addresses_stops_with_nothing() {
    let events = vec![
        DiscoveryEvent::Resolved(Vec::new()),
        DiscoveryEvent::Resolved(vec!["10.0.0.17".to_string()]),
    ];
    let (found, used) = locate_from_events(&events);
    assert!(found.is_none());
    assert_eq!(used, 1);
}

#[test]
fn locator_decides_event_by_event() {
    let mut locator = Locator::new();
    for _ in 0..4 {
        assert!(locator.on_event(&DiscoveryEvent::SearchStarted).is_none());
    }
    assert!(locator.on_event(&DiscoveryEvent::Other).is_none());
    let decision = locator.on_event(&DiscoveryEvent::SearchStarted);
    assert!(matches!(decision, Some(None)));
}
