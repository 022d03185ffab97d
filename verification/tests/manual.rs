use svled::manual::{circle_of, manual_key, place_manually, step_walk, ManualKey, Marker, Walk};
use svled::positions::{ScanEntry, Status};

fn entry(status: Status) -> ScanEntry {
    ScanEntry { status, xy: (1, 2), depth: Some((3, 4)) }
}

fn table() -> Vec<ScanEntry> {
    vec![
        entry(Status::SuccessXy),
        entry(Status::RecalibrateXy),
        entry(Status::SuccessXy),
        entry(Status::RecalibrateZ),
        entry(Status::SuccessXy),
    ]
}

#[test]
fn keys_have_meanings() {
    assert_eq!(manual_key(114), Some(ManualKey::Forward));
    assert_eq!(manual_key(101), Some(ManualKey::Back));
    assert_eq!(manual_key(102), Some(ManualKey::NextFailure));
    assert_eq!(manual_key(113), Some(ManualKey::Finish));
    assert_eq!(manual_key(32), None);
    assert_eq!(manual_key(-1), None);
}

#[test]
fn forward_stops_at_the_last_led() {
    let t = table();
    assert_eq!(
        step_walk(&t, 5, 0, ManualKey::Forward),
        Walk { cursor: 1, switch_off: Some(0), finished: false }
    );
    assert_eq!(
        step_walk(&t, 5, 4, ManualKey::Forward),
        Walk { cursor: 4, switch_off: None, finished: false }
    );
    assert_eq!(
        step_walk(&t, 3, 2, ManualKey::Forward),
        Walk { cursor: 2, switch_off: None, finished: false }
    );
}

#[test]
fn back_stops_at_the_first_led() {
    let t = table();
    assert_eq!(
        step_walk(&t, 5, 3, ManualKey::Back),
        Walk { cursor: 2, switch_off: Some(3), finished: false }
    );
    assert_eq!(
        step_walk(&t, 5, 1, ManualKey::Back),
        Walk { cursor: 0, switch_off: Some(1), finished: false }
    );
    assert_eq!(
        step_walk(&t, 5, 0, ManualKey::Back),
        Walk { cursor: 0, switch_off: Some(0), finished: false }
    );
}

#[test]
fn jump_goes_to_the_next_failure() {
    let t = table();
    assert_eq!(
        step_walk(&t, 5, 0, ManualKey::NextFailure),
        Walk { cursor: 1, switch_off: Some(0), finished: false }
    );
    assert_eq!(
        step_walk(&t, 5, 1, ManualKey::NextFailure),
        Walk { cursor: 3, switch_off: Some(1), finished: false }
    );
    assert_eq!(
        step_walk(&t, 5, 3, ManualKey::NextFailure),
        Walk { cursor: 3, switch_off: Some(3), finished: false }
    );
    assert_eq!(
        step_walk(&t, 3, 1, ManualKey::NextFailure),
        Walk { cursor: 1, switch_off: Some(1), finished: false }
    );
    assert_eq!(
        step_walk(&t, 9, 4, ManualKey::NextFailure),
        Walk { cursor: 4, switch_off: Some(4), finished: false }
    );
}

#[test]
fn finish_ends_the_walk() {
    assert_eq!(
        step_walk(&table(), 5, 2, ManualKey::Finish),
        Walk { cursor: 2, switch_off: None, finished: true }
    );
}

#[test]
fn click_places_the_led() {
    let mut t = table();
    place_manually(&mut t, 1, false, 70, 80);
    assert_eq!(t[1], ScanEntry { status: Status::ManualXy, xy: (70, 80), depth: Some((3, 4)) });
    place_manually(&mut t, 3, true, 5, 6);
    assert_eq!(t[3], ScanEntry { status: Status::ManualZ, xy: (1, 2), depth: Some((5, 6)) });
    assert_eq!(t[0], entry(Status::SuccessXy));
}

#[test]
fn circle_is_red_for_failures() {
    assert_eq!(circle_of(&entry(Status::RecalibrateXy), false), ((1, 2), Marker::Red));
    assert_eq!(circle_of(&entry(Status::RecalibrateZ), true), ((3, 4), Marker::Red));
    assert_eq!(circle_of(&entry(Status::SuccessXy), false), ((1, 2), Marker::Green));
    assert_eq!(circle_of(&entry(Status::ManualZ), true), ((3, 4), Marker::Green));
    assert_eq!(circle_of(&entry(Status::Uncalibrated), false), ((1, 2), Marker::Green));
    let no_side = ScanEntry { status: Status::SuccessXy, xy: (1, 2), depth: None };
    assert_eq!(circle_of(&no_side, true), ((0, 0), Marker::Green));
}
