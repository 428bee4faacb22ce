use bingo::registry::{Registry, REGISTRY_CAPACITY};
use bingo::session::{Action, Event, Phase, Session};

fn waiting_session(game: u128) -> Session {
    let mut s = Session::new(game);
    assert_eq!(s.step(Event::Validated(true)), Action::Wait);
    s
}

fn push_through(s: &mut Session) {
    assert_eq!(s.step(Event::Fetched(true)), Action::SendFields);
    assert_eq!(s.step(Event::Sent(true)), Action::SendPlayers);
    assert_eq!(s.step(Event::Sent(true)), Action::Wait);
}

#[test]
fn record_change_advances_the_clock() {
    let mut r = Registry::new();
    assert_eq!(r.version(), 0);
    assert_eq!(r.last_changed(1), None);
    assert_eq!(r.record_change(1), 1);
    assert_eq!(r.record_change(2), 2);
    assert_eq!(r.record_change(1), 3);
    assert_eq!(r.last_changed(1), Some(3));
    assert_eq!(r.last_changed(2), Some(2));
    assert_eq!(r.len(), 2);
    assert_eq!(r.version(), 3);
    let snap = r.snapshot();
    r.record_change(2);
    assert_eq!(snap.last_changed(2), Some(2));
    assert_eq!(snap.version(), 3);
}

#[test]
fn full_registry_is_cleared_before_a_new_game() {
    let mut r = Registry::new();
    for g in 0..REGISTRY_CAPACITY as u128 {
        r.record_change(g);
    }
    assert_eq!(r.len(), REGISTRY_CAPACITY);
    r.record_change(5);
    assert_eq!(r.len(), REGISTRY_CAPACITY);
    let t = r.record_change(REGISTRY_CAPACITY as u128);
    assert_eq!(r.len(), 1);
    assert_eq!(r.last_changed(REGISTRY_CAPACITY as u128), Some(t));
    assert_eq!(r.last_changed(5), None);
}

#[test]
fn rapid_changes_coalesce_into_one_push() {
    let mut r = Registry::new();
    let mut s = waiting_session(9);
    r.record_change(9);
    r.record_change(9);
    let latest = r.record_change(9);
    assert_eq!(s.wake(&r), Action::Fetch);
    assert_eq!(s.watermark(), latest);
    push_through(&mut s);
    assert_eq!(s.wake(&r), Action::Wait);
    assert_eq!(s.watermark(), latest);
}

#[test]
fn changes_to_other_games_are_irrelevant() {
    let mut r = Registry::new();
    let mut s = waiting_session(1);
    r.record_change(2);
    assert_eq!(s.wake(&r), Action::Wait);
    assert_eq!(s.phase(), Phase::Waiting);
    r.record_change(1);
    assert_eq!(s.wake(&r), Action::Fetch);
    assert_eq!(s.watermark(), 2);
}

#[test]
fn pushes_never_go_back_in_time() {
    let mut r = Registry::new();
    let mut s = waiting_session(4);
    let mut marks = Vec::new();
    for i in 0..20u128 {
        r.record_change(i % 3 + 3);
        if s.wake(&r) == Action::Fetch {
            marks.push(s.watermark());
            push_through(&mut s);
        }
    }
    assert!(marks.len() >= 2);
    for w in marks.windows(2) {
        assert!(w[0] < w[1]);
    }
    // a stale snapshot after a push is never relevant
    let stale = r.snapshot();
    r.record_change(4);
    assert_eq!(s.wake(&r), Action::Fetch);
    push_through(&mut s);
    assert_eq!(s.wake(&stale), Action::Wait);
}

#[test]
fn failed_validation_closes() {
    let mut s = Session::new(3);
    assert_eq!(s.step(Event::Validated(false)), Action::Close);
    assert_eq!(s.phase(), Phase::Closed);
    assert_eq!(s.step(Event::Validated(true)), Action::Close);
}

#[test]
fn lost_signal_closes() {
    let mut s = waiting_session(3);
    assert_eq!(s.step(Event::SignalLost), Action::Close);
    let mut r = Registry::new();
    r.record_change(3);
    assert_eq!(s.wake(&r), Action::Close);
}

#[test]
fn send_or_fetch_failure_closes() {
    let mut r = Registry::new();
    r.record_change(3);
    let mut s = waiting_session(3);
    assert_eq!(s.wake(&r), Action::Fetch);
    assert_eq!(s.step(Event::Fetched(true)), Action::SendFields);
    assert_eq!(s.step(Event::Sent(false)), Action::Close);
    assert_eq!(s.phase(), Phase::Closed);

    let mut s = waiting_session(3);
    assert_eq!(s.wake(&r), Action::Fetch);
    assert_eq!(s.step(Event::Fetched(false)), Action::Close);
}

#[test]
fn spurious_wake_without_new_version_waits() {
    let mut s = waiting_session(3);
    let step = s.step(Event::Woken { version: 0, last_changed: Some(5) });
    assert_eq!(step, Action::Wait);
    assert_eq!(s.watermark(), 0);
}
