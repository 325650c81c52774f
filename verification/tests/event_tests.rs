use neslib::events::DefaultType;
use neslib::events::Event;

#[test]
fn kind_codes_round_trip() {
    let kinds = [
        DefaultType::Arrival,
        DefaultType::Departure,
        DefaultType::InProcess,
        DefaultType::End,
        DefaultType::Probe,
        DefaultType::Maintenance,
        DefaultType::NoEvent,
    ];
    for k in kinds {
        assert_eq!(DefaultType::from(k.to_char()), k);
    }
}

#[test]
fn kind_codes_expected_chars() {
    assert_eq!(DefaultType::Arrival.to_char(), 'A');
    assert_eq!(DefaultType::Departure.to_char(), 'D');
    assert_eq!(DefaultType::InProcess.to_char(), 'I');
    assert_eq!(DefaultType::End.to_char(), 'E');
    assert_eq!(DefaultType::Probe.to_char(), 'P');
    assert_eq!(DefaultType::Maintenance.to_char(), 'M');
    assert_eq!(DefaultType::NoEvent.to_char(), 'N');
}

#[test]
fn unrecognized_code_falls_back_to_no_event() {
    assert_eq!(DefaultType::from('X'), DefaultType::NoEvent);
    assert_eq!(DefaultType::from('a'), DefaultType::NoEvent);
}

#[test]
fn kind_labels() {
    assert_eq!(DefaultType::Arrival.label(), "Arrival");
    assert_eq!(DefaultType::Departure.label(), "Departure");
    assert_eq!(DefaultType::NoEvent.label(), "NoEvent");
}

#[test]
fn new_event_fields() {
    let e = Event::new('A', 1, 5, 3, 2, "S".to_string());
    assert_eq!(e.kind, 'A');
    assert_eq!(e.create_time, 1);
    assert_eq!(e.occur_time, 5);
    assert_eq!(e.service_time, 3);
    assert_eq!(e.arrival_time, 2);
    assert_eq!(e.sub_type, 'N');
    assert_eq!(e.destination, "S");
}

#[test]
fn gen_arrival_fields() {
    let e = Event::gen_arrival(10, 3, 5, 1);
    assert_eq!(e.kind, 'A');
    assert_eq!(e.create_time, 10);
    assert_eq!(e.occur_time, 13);
    assert_eq!(e.service_time, 5);
    assert_eq!(e.arrival_time, 11);
    assert_eq!(e.sub_type, 'A');
    assert_eq!(e.destination, "None");
}

#[test]
fn gen_departure_fields() {
    let e = Event::gen_departure(10, 3, 4);
    assert_eq!(e.kind, 'D');
    assert_eq!(e.create_time, 10);
    assert_eq!(e.occur_time, 13);
    assert_eq!(e.service_time, 0);
    assert_eq!(e.arrival_time, 6);
    assert_eq!(e.sub_type, 'N');
    assert_eq!(e.destination, "None");
}

#[test]
fn event_equality_is_structural() {
    let a = Event::new('A', 0, 5, 3, 2, "S".to_string());
    let b = Event::new('A', 0, 5, 3, 2, "S".to_string());
    let c = Event::new('A', 0, 5, 3, 2, "T".to_string());
    let d = Event::new('A', 0, 6, 3, 2, "S".to_string());
    assert!(a == b);
    assert!(a == a.clone());
    assert!(a != c);
    assert!(a != d);
}
