use svled::demo::{axis_span, axis_value, touches, Axis, Span};
use svled::naming::{position_name, position_name_for, recovery_name, recovery_name_for};
use svled::positions::{ScanEntry, Status};
use svled::speedtest::{clear_commands, random_command};
use svled::text::{parse_decimal, push_decimal, split_fields};
use svled::unity::{decode_packet, is_lit, trim, PacketEvent};
use svled::playback::ParseError;
use svled::wire::ColorCommand;

fn entry(x: i32, y: i32, z: i32) -> ScanEntry {
    ScanEntry { status: Status::SuccessZ, xy: (x, y), depth: Some((z, y)) }
}

#[test]
fn axis_values_are_read() {
    let e = entry(1, 2, 3);
    assert_eq!(axis_value(&e, Axis::X), 1);
    assert_eq!(axis_value(&e, Axis::Y), 2);
    assert_eq!(axis_value(&e, Axis::Z), 3);
    let flat = ScanEntry { status: Status::SuccessXy, xy: (1, 2), depth: None };
    assert_eq!(axis_value(&flat, Axis::Z), 0);
}

#[test]
fn span_leaves_out_the_last_entry() {
    let table = vec![entry(5, 50, 7), entry(3, 10, 9), entry(-100, 1000, 100)];
    assert_eq!(axis_span(&table, Axis::X), Span { lowest: 3, highest: 5 });
    assert_eq!(axis_span(&table, Axis::Y), Span { lowest: 10, highest: 50 });
    assert_eq!(axis_span(&table, Axis::Z), Span { lowest: 7, highest: 9 });
    assert_eq!(axis_span(&vec![], Axis::X), Span { lowest: i32::MAX, highest: i32::MIN });
    assert_eq!(
        axis_span(&vec![entry(1, 1, 1)], Axis::X),
        Span { lowest: i32::MAX, highest: i32::MIN }
    );
}

#[test]
fn band_reaches_fuzz_to_either_side() {
    assert!(touches(10, 12, 2));
    assert!(touches(14, 12, 2));
    assert!(!touches(9, 12, 2));
    assert!(!touches(15, 12, 2));
    assert!(touches(i32::MAX, i32::MAX, i32::MAX));
    assert!(!touches(0, 1, -1));
}

#[test]
fn random_commands_stay_in_range() {
    let mut generator = rand::thread_rng();
    for _ in 0..2000 {
        let command = random_command(&mut generator, 7).unwrap();
        assert!(command.index < 7);
        assert!(command.r < 255 && command.g < 255 && command.b < 255);
    }
    assert_eq!(random_command(&mut generator, 0), None);
    assert_eq!(random_command(&mut generator, 65536), None);
    assert!(random_command(&mut generator, 65537).unwrap().index < 1);
}

#[test]
fn random_commands_vary() {
    let mut generator = rand::thread_rng();
    let first = random_command(&mut generator, 60000).unwrap();
    let mut differs = false;
    for _ in 0..200 {
        if random_command(&mut generator, 60000).unwrap() != first {
            differs = true;
        }
    }
    assert!(differs);
}

#[test]
fn clearing_switches_every_led_off() {
    assert_eq!(
        clear_commands(3),
        vec![
            ColorCommand { index: 0, r: 0, g: 0, b: 0 },
            ColorCommand { index: 1, r: 0, g: 0, b: 0 },
            ColorCommand { index: 2, r: 0, g: 0, b: 0 },
        ]
    );
    assert!(clear_commands(0).is_empty());
    let many = clear_commands(65538);
    assert_eq!(many.len(), 65538);
    assert_eq!(many[65535].index, 65535);
    assert_eq!(many[65536].index, 0);
    assert_eq!(many[65537].index, 1);
}

#[test]
fn recovery_files_are_named_by_time() {
    assert_eq!(recovery_name_for("2024-01-02-03:04:05"), "temp-pos-2024-01-02-03:04:05");
    let name = recovery_name();
    assert!(name.starts_with("temp-pos-"));
    assert_eq!(name.len(), "temp-pos-".len() + 19);
    assert!(name.as_bytes()["temp-pos-".len()..].iter().all(|b| b.is_ascii_digit() || *b == b'-' || *b == b':'));
}

#[test]
fn position_files_are_named_by_the_operator_or_by_time() {
    assert_eq!(position_name_for("mine.json", "2024-01-02-03:04:05"), "mine.json");
    assert_eq!(position_name_for("", "2024-01-02-03:04:05"), "2024-01-02-03:04:05-ledpos.json");
    assert_eq!(position_name("tree.json"), "tree.json");
    let name = position_name("");
    assert!(name.ends_with("-ledpos.json"));
    assert_eq!(name.len(), 19 + "-ledpos.json".len());
}

#[test]
fn decimal_numbers_are_written_without_leading_zeros() {
    let mut out = b"x".to_vec();
    push_decimal(&mut out, 0);
    push_decimal(&mut out, 7);
    push_decimal(&mut out, 10);
    push_decimal(&mut out, 65535);
    push_decimal(&mut out, u64::MAX);
    assert_eq!(String::from_utf8(out).unwrap(), "x07106553518446744073709551615");
}

#[test]
fn decimal_numbers_are_read_within_a_limit() {
    assert_eq!(parse_decimal(b"255", 0, 255), Some(255));
    assert_eq!(parse_decimal(b"256", 0, 255), None);
    assert_eq!(parse_decimal(b"0000255", 0, 255), Some(255));
    assert_eq!(parse_decimal(b"ab12", 2, 255), Some(12));
    assert_eq!(parse_decimal(b"ab12", 4, 255), None);
    assert_eq!(parse_decimal(b"", 0, 255), None);
    assert_eq!(parse_decimal(b"+1", 0, 255), None);
    assert_eq!(parse_decimal(b"1 ", 0, 255), None);
    assert_eq!(parse_decimal(b"0", 0, 0), Some(0));
    assert_eq!(parse_decimal(b"1", 0, 0), None);
    assert_eq!(parse_decimal(b"18446744073709551615", 0, u64::MAX), Some(u64::MAX));
    assert_eq!(parse_decimal(b"18446744073709551616", 0, u64::MAX), None);
    assert_eq!(parse_decimal(b"99999999999999999999999", 0, u64::MAX), None);
}

#[test]
fn fields_are_cut_at_the_separator() {
    assert_eq!(split_fields(b"1|22|333", b'|'), vec![b"1".to_vec(), b"22".to_vec(), b"333".to_vec()]);
    assert_eq!(split_fields(b"", b'|'), vec![Vec::<u8>::new()]);
    assert_eq!(split_fields(b"|", b'|'), vec![Vec::<u8>::new(), Vec::<u8>::new()]);
    assert_eq!(split_fields(b"a||b|", b'|'), vec![b"a".to_vec(), vec![], b"b".to_vec(), vec![]]);
    assert_eq!(split_fields(b"abc", b'|'), vec![b"abc".to_vec()]);
}

#[test]
fn packets_are_trimmed_and_read() {
    assert_eq!(trim(b"  E5\r\n\0"), b"E5".to_vec());
    assert_eq!(trim(b" \n "), Vec::<u8>::new());
    assert_eq!(trim(b"a b"), b"a b".to_vec());
    assert_eq!(decode_packet(b"E5\n"), Ok(PacketEvent::Clear { index: 5 }));
    assert_eq!(
        decode_packet(b"12|1|2|3\0\0\0"),
        Ok(PacketEvent::Show { command: ColorCommand { index: 12, r: 1, g: 2, b: 3 } })
    );
    assert_eq!(decode_packet(b"CLEAR"), Ok(PacketEvent::ClearAll));
    assert_eq!(decode_packet(b" CLEAR\n"), Ok(PacketEvent::ClearAll));
    assert_eq!(decode_packet(b"T:5"), Ok(PacketEvent::Unknown));
    assert_eq!(decode_packet(b"FAIL"), Ok(PacketEvent::Unknown));
    assert_eq!(decode_packet(b""), Ok(PacketEvent::Unknown));
    assert_eq!(decode_packet(b"Ex"), Err(ParseError::Clear));
    assert_eq!(decode_packet(b"1|2|3|999"), Err(ParseError::Color));
}

#[test]
fn black_leaves_an_led_unlit() {
    assert!(is_lit(PacketEvent::Show { command: ColorCommand { index: 1, r: 0, g: 0, b: 1 } }));
    assert!(!is_lit(PacketEvent::Show { command: ColorCommand { index: 1, r: 0, g: 0, b: 0 } }));
    assert!(!is_lit(PacketEvent::Clear { index: 1 }));
    assert!(!is_lit(PacketEvent::ClearAll));
    assert!(!is_lit(PacketEvent::Unknown));
}
