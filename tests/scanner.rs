use coco_parking::scanner::{process_event, EventKind, KeyKind, ScanEvent, ScannerState};

fn make_event(key: KeyKind, name: Option<&str>) -> ScanEvent {
    ScanEvent { kind: EventKind::KeyPress(key), name: name.map(str::to_string) }
}

#[test]
fn process_event_enter_with_short_burst_emits_barcode() {
    let now = 1_000_000;
    let mut state = ScannerState::new(now);
    let e1 = make_event(KeyKind::Other, Some("A"));
    assert!(process_event(e1, &mut state, now).is_none());
    let e2 = make_event(KeyKind::Other, Some("B"));
    assert!(process_event(e2, &mut state, now).is_none());
    let e3 = make_event(KeyKind::Return, None);
    let out = process_event(e3, &mut state, now);
    assert_eq!(out, Some("AB".to_string()));
}

#[test]
fn process_event_enter_with_empty_buffer_returns_none() {
    let now = 1_000_000;
    let mut state = ScannerState::new(now);
    let e = make_event(KeyKind::Return, None);
    assert!(process_event(e, &mut state, now).is_none());
}

#[test]
fn process_event_single_char_then_enter_returns_none_min_length() {
    let now = 1_000_000;
    let mut state = ScannerState::new(now);
    let e1 = make_event(KeyKind::Other, Some("1"));
    process_event(e1, &mut state, now);
    let e2 = make_event(KeyKind::Return, None);
    assert!(process_event(e2, &mut state, now).is_none());
}

#[test]
fn process_event_enter_clears_buffer() {
    let now = 1_000_000;
    let mut state = ScannerState::new(now);
    process_event(make_event(KeyKind::Other, Some("A")), &mut state, now);
    process_event(make_event(KeyKind::Return, None), &mut state, now);
    let out = process_event(make_event(KeyKind::Return, None), &mut state, now);
    assert!(out.is_none());
}

#[test]
fn process_event_long_gap_clears_buffer_then_only_new_chars_remain() {
    let t0 = 1_000_000;
    let mut state = ScannerState::new(t0);
    process_event(make_event(KeyKind::Other, Some("A")), &mut state, t0);
    let t1 = t0 + 100;
    process_event(make_event(KeyKind::Other, Some("B")), &mut state, t1);
    let out = process_event(make_event(KeyKind::Return, None), &mut state, t1);
    assert!(out.is_none(), "buffer was cleared by gap so only 'B' remained (len 1 < MIN_BARCODE_LEN)");
}

#[test]
fn keypad_enter_also_ends_a_scan() {
    let now = 5_000;
    let mut state = ScannerState::new(now);
    process_event(make_event(KeyKind::Other, Some("12")), &mut state, now);
    let out = process_event(make_event(KeyKind::KpReturn, None), &mut state, now + 10);
    assert_eq!(out, Some("12".to_string()));
}

#[test]
fn slow_burst_is_not_a_scan() {
    let mut state = ScannerState::new(0);
    let mut t = 0;
    for _ in 0..20 {
        process_event(make_event(KeyKind::Other, Some("7")), &mut state, t);
        t += 45;
    }
    let out = process_event(make_event(KeyKind::Return, None), &mut state, t);
    assert!(out.is_none());
}

#[test]
fn non_key_events_change_nothing() {
    let mut state = ScannerState::new(0);
    process_event(make_event(KeyKind::Other, Some("9")), &mut state, 0);
    let out = process_event(ScanEvent { kind: EventKind::Other, name: Some("x".to_string()) }, &mut state, 10);
    assert!(out.is_none());
    assert_eq!(state.buffer, "9");
}
