use svled::playback::{
    event_command, read_line, read_vled, read_vled_until_malformed, LogError, LogPrefix,
    ParseError, PlaybackEvent, RateMeter, RateReport,
};
use svled::recorder::{encode_text_record, Formats, Recorder};
use svled::wire::ColorCommand;

fn show(index: u16, r: u8, g: u8, b: u8) -> PlaybackEvent {
    PlaybackEvent::Show { command: ColorCommand { index, r, g, b } }
}

#[test]
fn clear_line_gives_an_index() {
    assert_eq!(read_line(b"E12"), Ok(PlaybackEvent::Clear { index: 12 }));
    assert_eq!(read_line(b"E65535"), Ok(PlaybackEvent::Clear { index: 65535 }));
    assert_eq!(read_line(b"E0"), Ok(PlaybackEvent::Clear { index: 0 }));
}

#[test]
fn clear_line_with_a_bad_index_is_malformed() {
    assert_eq!(read_line(b"E"), Err(ParseError::Clear));
    assert_eq!(read_line(b"E65536"), Err(ParseError::Clear));
    assert_eq!(read_line(b"E1x"), Err(ParseError::Clear));
    assert_eq!(read_line(b"E-1"), Err(ParseError::Clear));
    assert_eq!(read_line(b"E1|2|3|4"), Err(ParseError::Clear));
}

#[test]
fn color_line_gives_a_command() {
    assert_eq!(read_line(b"250|1|2|3"), Ok(show(250, 1, 2, 3)));
    assert_eq!(read_line(b"65535|255|255|255"), Ok(show(65535, 255, 255, 255)));
    assert_eq!(read_line(b"007|000|00|0"), Ok(show(7, 0, 0, 0)));
}

#[test]
fn color_line_with_bad_fields_is_malformed() {
    assert_eq!(read_line(b"1|2|3"), Err(ParseError::Color));
    assert_eq!(read_line(b"1|2|3|4|5"), Err(ParseError::Color));
    assert_eq!(read_line(b"1|2|3|"), Err(ParseError::Color));
    assert_eq!(read_line(b"|"), Err(ParseError::Color));
    assert_eq!(read_line(b"1|256|3|4"), Err(ParseError::Color));
    assert_eq!(read_line(b"65536|1|3|4"), Err(ParseError::Color));
    assert_eq!(read_line(b"1|a|3|4"), Err(ParseError::Color));
    assert_eq!(read_line(b"1| 2|3|4"), Err(ParseError::Color));
}

#[test]
fn delay_line_gives_milliseconds() {
    assert_eq!(read_line(b"T:0"), Ok(PlaybackEvent::Delay { millis: 0 }));
    assert_eq!(read_line(b"T:510"), Ok(PlaybackEvent::Delay { millis: 510 }));
    assert_eq!(
        read_line(b"T:18446744073709551615"),
        Ok(PlaybackEvent::Delay { millis: u64::MAX })
    );
}

#[test]
fn delay_line_with_a_bad_number_is_malformed() {
    assert_eq!(read_line(b"T:"), Err(ParseError::Delay));
    assert_eq!(read_line(b"T:18446744073709551616"), Err(ParseError::Delay));
    assert_eq!(read_line(b"T:1.5"), Err(ParseError::Delay));
    assert_eq!(read_line(b"T:abc"), Err(ParseError::Delay));
}

#[test]
fn other_lines_are_passed_over() {
    assert_eq!(read_line(b""), Ok(PlaybackEvent::Unknown));
    assert_eq!(read_line(b"hello"), Ok(PlaybackEvent::Unknown));
    assert_eq!(read_line(b"T"), Ok(PlaybackEvent::Unknown));
    assert_eq!(read_line(b"T5"), Ok(PlaybackEvent::Unknown));
    assert_eq!(read_line(b"12"), Ok(PlaybackEvent::Unknown));
}

#[test]
fn events_give_the_commands_to_send() {
    assert_eq!(
        event_command(PlaybackEvent::Clear { index: 9 }),
        Some(ColorCommand { index: 9, r: 0, g: 0, b: 0 })
    );
    assert_eq!(event_command(show(1, 2, 3, 4)), Some(ColorCommand { index: 1, r: 2, g: 3, b: 4 }));
    assert_eq!(event_command(PlaybackEvent::Delay { millis: 5 }), None);
    assert_eq!(event_command(PlaybackEvent::Unknown), None);
}

#[test]
fn log_is_read_line_by_line() {
    let log = b"T:20\n1|3|3|4\nE7\nnoise\nT:5\r\n300|0|0|255";
    let events = vec![
        PlaybackEvent::Delay { millis: 20 },
        show(1, 3, 3, 4),
        PlaybackEvent::Clear { index: 7 },
        PlaybackEvent::Unknown,
        PlaybackEvent::Delay { millis: 5 },
        show(300, 0, 0, 255),
    ];
    assert_eq!(read_vled(log), events);
    assert_eq!(read_vled_until_malformed(log), LogPrefix { events, failure: None });
}

#[test]
fn empty_log_has_no_events() {
    assert_eq!(read_vled(b""), vec![]);
    assert_eq!(read_vled(b"\n"), vec![PlaybackEvent::Unknown]);
    assert_eq!(read_vled(b"E1\n"), vec![PlaybackEvent::Clear { index: 1 }]);
    assert_eq!(
        read_vled(b"E1\n\n"),
        vec![PlaybackEvent::Clear { index: 1 }, PlaybackEvent::Unknown]
    );
    assert_eq!(read_vled_until_malformed(b""), LogPrefix { events: vec![], failure: None });
}

#[test]
fn first_malformed_line_is_reported_with_the_events_before_it() {
    assert_eq!(
        read_vled_until_malformed(b"T:1\n1|2|3\nEx\n"),
        LogPrefix {
            events: vec![PlaybackEvent::Delay { millis: 1 }],
            failure: Some(LogError { line: 1, error: ParseError::Color }),
        }
    );
    assert_eq!(
        read_vled_until_malformed(b"Ex"),
        LogPrefix { events: vec![], failure: Some(LogError { line: 0, error: ParseError::Clear }) }
    );
    assert_eq!(
        read_vled_until_malformed(b"E1\nE2\nT:x\nE"),
        LogPrefix {
            events: vec![PlaybackEvent::Clear { index: 1 }, PlaybackEvent::Clear { index: 2 }],
            failure: Some(LogError { line: 2, error: ParseError::Delay }),
        }
    );
}

#[test]
fn good_line_before_a_malformed_field_is_still_handed_back() {
    let prefix = read_vled_until_malformed(b"7|1|2|3\n5|x|0|0\n");
    assert_eq!(prefix.events, vec![show(7, 1, 2, 3)]);
    assert_eq!(prefix.failure, Some(LogError { line: 1, error: ParseError::Color }));
}

#[test]
fn color_field_of_256_is_malformed_and_sends_nothing() {
    let prefix = read_vled_until_malformed(b"5|256|0|0");
    assert!(prefix.events.is_empty());
    assert_eq!(prefix.failure, Some(LogError { line: 0, error: ParseError::Color }));
}

#[test]
fn carriage_return_is_kept_on_a_line_without_line_feed() {
    assert_eq!(read_vled(b"E1\r\n"), vec![PlaybackEvent::Clear { index: 1 }]);
    assert_eq!(
        read_vled_until_malformed(b"E1\r").failure,
        Some(LogError { line: 0, error: ParseError::Clear })
    );
}

#[test]
fn recorded_commands_play_back_in_order() {
    let steps = [
        (3u64, ColorCommand { index: 0, r: 255, g: 0, b: 0 }),
        (400, ColorCommand { index: 1, r: 2, g: 3, b: 4 }),
        (1, ColorCommand { index: 299, r: 9, g: 8, b: 7 }),
        (70_000, ColorCommand { index: 65535, r: 255, g: 255, b: 255 }),
    ];
    let mut log = Vec::new();
    for (elapsed, command) in steps {
        log.extend(encode_text_record(elapsed, command));
    }
    let events = read_vled(&log);
    let sent: Vec<ColorCommand> = events.iter().filter_map(|e| event_command(*e)).collect();
    assert_eq!(
        sent,
        vec![
            ColorCommand { index: 0, r: 255, g: 0, b: 0 },
            ColorCommand { index: 1, r: 3, g: 3, b: 4 },
            ColorCommand { index: 299, r: 9, g: 8, b: 7 },
            ColorCommand { index: 65535, r: 255, g: 255, b: 255 },
        ]
    );
    let delays: Vec<u64> = events
        .iter()
        .filter_map(|e| match e {
            PlaybackEvent::Delay { millis } => Some(*millis),
            _ => None,
        })
        .collect();
    assert_eq!(delays, vec![3, 400, 1, 70_000]);
}

#[test]
fn commands_within_one_millisecond_are_not_played_back() {
    let mut recorder = Recorder::new();
    let formats = Formats { text: true, bytes: false };
    let mut log = Vec::new();
    for (now, index) in [(100u64, 1u16), (100, 2), (105, 3), (105, 4), (200, 5)] {
        let added = recorder.maybe_record(formats, now, ColorCommand { index, r: 1, g: 1, b: 1 });
        log.extend(added.text);
    }
    let events = read_vled(&log);
    let sent: Vec<u16> =
        events.iter().filter_map(|e| event_command(*e)).map(|c| c.index).collect();
    assert_eq!(sent, vec![3, 5]);
}

#[test]
fn rate_meter_reports_once_a_second() {
    let mut meter = RateMeter::new(1000);
    assert_eq!(meter.note_line(1100, true), None);
    assert_eq!(meter.note_line(1200, false), None);
    assert_eq!(meter.note_line(1999, true), None);
    assert_eq!(meter.packets, 2);
    assert_eq!(meter.note_line(2000, true), Some(RateReport { packets: 3, seconds: 1 }));
    assert_eq!(meter, RateMeter { window_start_ms: 2000, packets: 0 });
    assert_eq!(meter.note_line(5500, false), Some(RateReport { packets: 0, seconds: 3 }));
    assert_eq!(meter.note_line(5000, true), None);
    assert_eq!(meter.packets, 1);
}
