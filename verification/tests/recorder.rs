use svled::recorder::{
    encode_byte_record, encode_text_record, list_bytes, push_delay_markers, without_reserved,
    Formats, Recorder,
};
use svled::wire::ColorCommand;

fn markers(elapsed: u64) -> Vec<u8> {
    let mut out = Vec::new();
    push_delay_markers(&mut out, elapsed);
    out
}

#[test]
fn reserved_command_has_its_red_raised() {
    let text = encode_text_record(5, ColorCommand { index: 1, r: 2, g: 3, b: 4 });
    assert_eq!(String::from_utf8(text).unwrap(), "T:5\n1|3|3|4\n");
}

#[test]
fn reserved_command_never_appears_as_data() {
    let text = encode_text_record(1, ColorCommand { index: 1, r: 2, g: 3, b: 4 });
    assert!(!String::from_utf8(text).unwrap().contains("1|2|3|4"));
    assert_eq!(
        without_reserved(ColorCommand { index: 1, r: 2, g: 3, b: 4 }),
        ColorCommand { index: 1, r: 3, g: 3, b: 4 }
    );
    assert_eq!(
        without_reserved(ColorCommand { index: 1, r: 2, g: 3, b: 5 }),
        ColorCommand { index: 1, r: 2, g: 3, b: 5 }
    );
}

#[test]
fn text_record_holds_delay_and_command() {
    let text = encode_text_record(1234, ColorCommand { index: 65535, r: 0, g: 255, b: 10 });
    assert_eq!(String::from_utf8(text).unwrap(), "T:1234\n65535|0|255|10\n");
}

#[test]
fn nothing_is_recorded_within_the_same_millisecond() {
    assert!(encode_text_record(0, ColorCommand { index: 1, r: 1, g: 1, b: 1 }).is_empty());
    assert!(encode_byte_record(0, ColorCommand { index: 1, r: 1, g: 1, b: 1 }).is_empty());
}

#[test]
fn delay_of_510_is_two_full_markers() {
    assert_eq!(markers(510), vec![0xFE, 0xFF, 0xFE, 0xFF]);
}

#[test]
fn delay_of_400_is_one_full_marker_and_a_remainder() {
    assert_eq!(markers(400), vec![0xFE, 0xFF, 0xFE, 0x91]);
}

#[test]
fn short_delays_are_one_marker() {
    assert_eq!(markers(0), Vec::<u8>::new());
    assert_eq!(markers(1), vec![0xFE, 0x01]);
    assert_eq!(markers(254), vec![0xFE, 0xFE]);
    assert_eq!(markers(255), vec![0xFE, 0xFF]);
    assert_eq!(markers(256), vec![0xFE, 0xFF, 0xFE, 0x01]);
}

#[test]
fn byte_record_ends_with_the_command() {
    let bytes = encode_byte_record(400, ColorCommand { index: 0x0102, r: 9, g: 8, b: 7 });
    assert_eq!(bytes, vec![0xFE, 0xFF, 0xFE, 0x91, 0x02, 0x01, 9, 8, 7]);
}

#[test]
fn byte_record_keeps_the_reserved_command() {
    let bytes = encode_byte_record(1, ColorCommand { index: 1, r: 2, g: 3, b: 4 });
    assert_eq!(bytes, vec![0xFE, 0x01, 1, 0, 2, 3, 4]);
}

#[test]
fn listing_shows_bytes_in_upper_case_hexadecimal() {
    let listing = list_bytes(&[0xFE, 0x91, 0x00, 0x0A, 0xFF]);
    assert_eq!(String::from_utf8(listing).unwrap(), "0xFE, 0x91, 0x00, 0x0A, 0xFF, ");
    assert!(list_bytes(&[]).is_empty());
}

#[test]
fn first_call_records_nothing_and_starts_the_clock() {
    let mut recorder = Recorder::new();
    let added = recorder.maybe_record(
        Formats { text: true, bytes: true },
        1000,
        ColorCommand { index: 3, r: 1, g: 2, b: 3 },
    );
    assert!(added.text.is_empty());
    assert!(added.bytes.is_empty());
    assert!(recorder.started);
    assert_eq!(recorder.last_call_ms, 1000);
}

#[test]
fn later_calls_record_the_time_since_the_call_before() {
    let mut recorder = Recorder::new();
    let formats = Formats { text: true, bytes: true };
    recorder.maybe_record(formats, 1000, ColorCommand { index: 0, r: 0, g: 0, b: 0 });
    let added = recorder.maybe_record(formats, 1400, ColorCommand { index: 7, r: 1, g: 2, b: 3 });
    assert_eq!(String::from_utf8(added.text).unwrap(), "T:400\n7|1|2|3\n");
    assert_eq!(
        String::from_utf8(added.bytes).unwrap(),
        "0xFE, 0xFF, 0xFE, 0x91, 0x07, 0x00, 0x01, 0x02, 0x03, "
    );
    assert_eq!(recorder.last_call_ms, 1400);
    let same = recorder.maybe_record(formats, 1400, ColorCommand { index: 8, r: 1, g: 2, b: 3 });
    assert!(same.text.is_empty() && same.bytes.is_empty());
}

#[test]
fn every_call_moves_the_remembered_time() {
    let mut recorder = Recorder::new();
    let off = Formats { text: false, bytes: false };
    recorder.maybe_record(off, 10, ColorCommand { index: 0, r: 0, g: 0, b: 0 });
    let added = recorder.maybe_record(off, 50, ColorCommand { index: 0, r: 0, g: 0, b: 0 });
    assert!(added.text.is_empty() && added.bytes.is_empty());
    assert_eq!(recorder.last_call_ms, 50);
    let text_only = recorder.maybe_record(
        Formats { text: true, bytes: false },
        53,
        ColorCommand { index: 2, r: 0, g: 0, b: 9 },
    );
    assert_eq!(String::from_utf8(text_only.text).unwrap(), "T:3\n2|0|0|9\n");
    assert!(text_only.bytes.is_empty());
}

#[test]
fn clock_that_goes_back_records_nothing() {
    let mut recorder = Recorder::new();
    let formats = Formats { text: true, bytes: true };
    recorder.maybe_record(formats, 500, ColorCommand { index: 0, r: 0, g: 0, b: 0 });
    let added = recorder.maybe_record(formats, 400, ColorCommand { index: 1, r: 1, g: 1, b: 1 });
    assert!(added.text.is_empty() && added.bytes.is_empty());
    assert_eq!(recorder.last_call_ms, 500);
}
