use tle_propagator::dispatch::{Admission, Dispatcher};
use tle_propagator::tle::TLEUpdate;

fn update(id: &str) -> TLEUpdate {
    TLEUpdate {
        id: id.to_string(),
        line_1: String::new(),
        line_2: String::new(),
        epoch: String::new(),
    }
}

#[test]
fn updates_start_while_slots_are_free() {
    let mut d = Dispatcher::new(2);
    assert!(matches!(d.offer(update("a")), Admission::Start { update } if update.id == "a"));
    assert!(matches!(d.offer(update("b")), Admission::Start { update } if update.id == "b"));
    assert_eq!(d.in_flight, 2);
}

#[test]
fn updates_wait_when_every_slot_is_taken() {
    let mut d = Dispatcher::new(2);
    d.offer(update("a"));
    d.offer(update("b"));
    assert!(matches!(d.offer(update("c")), Admission::Queued));
    assert!(matches!(d.offer(update("d")), Admission::Queued));
    assert!(matches!(d.offer(update("e")), Admission::Refused { update } if update.id == "e"));
    assert_eq!(d.in_flight, 2);
    assert_eq!(d.backlog.len(), 2);
}

#[test]
fn finished_session_hands_its_slot_to_the_oldest_waiting_update() {
    let mut d = Dispatcher::new(1);
    d.offer(update("a"));
    d.offer(update("b"));
    let next = d.finish();
    assert_eq!(next.map(|u| u.id), Some("b".to_string()));
    assert_eq!(d.in_flight, 1);
    assert!(d.finish().is_none());
    assert_eq!(d.in_flight, 0);
    assert!(d.is_drained());
    assert!(d.finish().is_none());
    assert_eq!(d.in_flight, 0);
}

#[test]
fn in_flight_never_exceeds_the_limit() {
    let mut d = Dispatcher::new(3);
    let mut started = 0usize;
    for i in 0..50 {
        if let Admission::Start { .. } = d.offer(update(&i.to_string())) {
            started += 1;
        }
        assert!(d.in_flight <= 3);
        if i % 4 == 3 {
            if d.finish().is_some() {
                started += 1;
            }
            assert!(d.in_flight <= 3);
        }
    }
    assert!(started >= 3);
}

#[test]
fn shutdown_refuses_new_updates_and_drains_the_rest() {
    let mut d = Dispatcher::new(1);
    d.offer(update("a"));
    d.offer(update("b"));
    d.shutdown();
    assert!(matches!(d.offer(update("c")), Admission::Refused { update } if update.id == "c"));
    assert!(!d.is_drained());
    assert_eq!(d.finish().map(|u| u.id), Some("b".to_string()));
    assert!(d.finish().is_none());
    assert!(d.is_drained());
}

#[test]
fn dispatcher_without_slots_refuses_everything() {
    let mut d = Dispatcher::new(0);
    assert!(matches!(d.offer(update("a")), Admission::Refused { .. }));
    assert!(d.is_drained());
}
