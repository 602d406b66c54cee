use unison_editor::port_utils::{find_available_port, find_available_ports};

#[test]
fn test_find_available_port() {
    // Should find some port
    let port = find_available_port(50000, |_| true);
    assert!(port.is_some());
}

#[test]
fn test_find_multiple_ports() {
    // Should find 3 distinct ports
    let ports = find_available_ports(3, 50000, |_| true);
    assert!(ports.is_some());
    let ports = ports.unwrap();
    assert_eq!(ports.len(), 3);
    // All ports should be distinct
    assert_ne!(ports[0], ports[1]);
    assert_ne!(ports[1], ports[2]);
    assert_ne!(ports[0], ports[2]);
}

#[test]
fn first_free_port_after_an_occupied_range() {
    assert_eq!(find_available_port(5000, |p| p >= 5003), Some(5003));
    assert_eq!(find_available_port(5000, |_| true), Some(5000));
    assert_eq!(find_available_port(5000, |p| p == 5099), Some(5099));
}

#[test]
fn no_port_when_all_hundred_are_occupied() {
    assert_eq!(find_available_port(5000, |p| p >= 5100), None);
    assert_eq!(find_available_port(5000, |_| false), None);
}

#[test]
fn scan_probes_in_order_and_stops_at_the_first_free_port() {
    let seen = std::cell::RefCell::new(Vec::new());
    let found = find_available_port(7000, |p| {
        seen.borrow_mut().push(p);
        p == 7002
    });
    assert_eq!(found, Some(7002));
    assert_eq!(*seen.borrow(), vec![7000, 7001, 7002]);
}

#[test]
fn scan_ends_at_the_last_port_there_is() {
    assert_eq!(find_available_port(65500, |_| false), None);
    assert_eq!(find_available_port(65500, |p| p == 65535), Some(65535));
    assert_eq!(find_available_port(65535, |_| true), Some(65535));
    let count = std::cell::Cell::new(0);
    let _ = find_available_port(65500, |_| {
        count.set(count.get() + 1);
        false
    });
    assert_eq!(count.get(), 36);
}

#[test]
fn several_ports_are_the_first_free_ones_in_order() {
    assert_eq!(find_available_ports(3, 6000, |p| p % 2 == 1), Some(vec![6001, 6003, 6005]));
    assert_eq!(find_available_ports(1, 6000, |p| p >= 6099), Some(vec![6099]));
    assert_eq!(find_available_ports(0, 6000, |_| false), Some(vec![]));
    assert_eq!(find_available_ports(100, 6000, |_| true).map(|v| v.len()), Some(100));
}

#[test]
fn several_ports_fail_when_the_scan_finds_fewer() {
    assert_eq!(find_available_ports(2, 6000, |p| p == 6050), None);
    assert_eq!(find_available_ports(101, 6000, |_| true), None);
    assert_eq!(find_available_ports(1, 6000, |p| p >= 6100), None);
    assert_eq!(find_available_ports(2, 65535, |_| true), None);
}

#[test]
fn several_ports_stop_probing_once_enough_are_found() {
    let count = std::cell::Cell::new(0);
    let found = find_available_ports(2, 6000, |_| {
        count.set(count.get() + 1);
        true
    });
    assert_eq!(found, Some(vec![6000, 6001]));
    assert_eq!(count.get(), 2);
}
