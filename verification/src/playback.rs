//! Reading the text log back into the commands and delays it holds.

use crate::recorder::{CLEAR_LETTER, DELAY_COLON, DELAY_LETTER, FIELD_SEPARATOR, LINE_END};
use crate::text::{fields, number_in, parse_decimal, split_fields};
use crate::wire::ColorCommand;
use vstd::prelude::*;

verus! {

/// The carriage return that may stand before a line feed.
pub const CARRIAGE_RETURN: u8 = 13;

/// What one line of the log asks for.
#[derive(Clone, Copy, Debug, PartialEq, Eq, Structural)]
pub enum PlaybackEvent {
    /// Switch one LED off.
    Clear { index: u16 },
    /// Show a color on one LED.
    Show { command: ColorCommand },
    /// Wait before the next line.
    Delay { millis: u64 },
    /// The line is of no known kind and is passed over.
    Unknown,
}

/// Why a line could not be read.
#[derive(Clone, Copy, Debug, PartialEq, Eq, Structural)]
pub enum ParseError {
    /// What follows `E` is not an index.
    Clear,
    /// The line holds `|` but not an index and three colors.
    Color,
    /// What follows `T:` is not a number of milliseconds.
    Delay,
}

/// A line that could not be read, and its place in the log.
#[derive(Clone, Copy, Debug, PartialEq, Eq, Structural)]
pub struct LogError {
    /// The number of the line, counted from zero.
    pub line: usize,
    pub error: ParseError,
}

/// The command that four fields stand for: an index and three colors, each
/// a decimal number within its range.
pub open spec fn color_of_fields(parts: Seq<Seq<u8>>) -> Option<ColorCommand> {
    if parts.len() == 4 && number_in(parts[0], 0xFFFF) is Some && number_in(parts[1], 0xFF) is Some
        && number_in(parts[2], 0xFF) is Some && number_in(parts[3], 0xFF) is Some {
        Some(
            ColorCommand {
                index: number_in(parts[0], 0xFFFF)->0 as u16,
                r: number_in(parts[1], 0xFF)->0 as u8,
                g: number_in(parts[2], 0xFF)->0 as u8,
                b: number_in(parts[3], 0xFF)->0 as u8,
            },
        )
    } else {
        None
    }
}

/// What a line, taken without its line end, asks for.
///
/// A line that begins with `E` clears the LED whose index follows. Any
/// other line that holds `|` sets a color. Any other line that begins with
/// `T:` is a delay. A number that cannot be read makes the line malformed.
/// Every other line is passed over.
pub open spec fn line_event(line: Seq<u8>) -> Result<PlaybackEvent, ParseError> {
    if line.len() > 0 && line[0] == CLEAR_LETTER {
        match number_in(line.skip(1), 0xFFFF) {
            Some(index) => Ok(PlaybackEvent::Clear { index: index as u16 }),
            None => Err(ParseError::Clear),
        }
    } else if line.contains(FIELD_SEPARATOR) {
        match color_of_fields(fields(line, FIELD_SEPARATOR)) {
            Some(command) => Ok(PlaybackEvent::Show { command }),
            None => Err(ParseError::Color),
        }
    } else if line.len() >= 2 && line[0] == DELAY_LETTER && line[1] == DELAY_COLON {
        match number_in(line.skip(2), 0xFFFF_FFFF_FFFF_FFFF) {
            Some(millis) => Ok(PlaybackEvent::Delay { millis: millis as u64 }),
            None => Err(ParseError::Delay),
        }
    } else {
        Ok(PlaybackEvent::Unknown)
    }
}

/// A line without the carriage return that may end it.
pub open spec fn strip_return(line: Seq<u8>) -> Seq<u8> {
    if line.len() > 0 && line.last() == CARRIAGE_RETURN {
        line.drop_last()
    } else {
        line
    }
}

/// The lines of a log. Each line feed ends a line, and a carriage return
/// just before it belongs to the line end. What follows the last line feed
/// is a line too, unless it is empty.
pub open spec fn log_lines(log: Seq<u8>) -> Seq<Seq<u8>> {
    let pieces = fields(log, LINE_END);
    let ended = pieces.drop_last();
    let lines = Seq::new(ended.len(), |i: int| strip_return(ended[i]));
    if pieces.last().len() == 0 {
        lines
    } else {
        lines.push(pieces.last())
    }
}

/// What a run of lines asks for, in order; or the first line that could
/// not be read.
pub open spec fn events_of(lines: Seq<Seq<u8>>) -> Result<Seq<PlaybackEvent>, LogError>
    decreases lines.len(),
{
    if lines.len() == 0 {
        Ok(Seq::<PlaybackEvent>::empty())
    } else {
        match events_of(lines.drop_last()) {
            Err(failure) => Err(failure),
            Ok(events) => match line_event(lines.last()) {
                Ok(event) => Ok(events.push(event)),
                Err(error) => Err(LogError { line: (lines.len() - 1) as usize, error }),
            },
        }
    }
}

/// What a whole log asks for.
pub open spec fn log_events(log: Seq<u8>) -> Result<Seq<PlaybackEvent>, LogError> {
    events_of(log_lines(log))
}

/// The command that an event sends, if it sends one: clearing an LED sends
/// black.
pub open spec fn command_of(event: PlaybackEvent) -> Option<ColorCommand> {
    match event {
        PlaybackEvent::Clear { index } => Some(ColorCommand { index, r: 0, g: 0, b: 0 }),
        PlaybackEvent::Show { command } => Some(command),
        _ => None,
    }
}

/// The commands that a run of events sends, in order.
pub open spec fn dispatched(events: Seq<PlaybackEvent>) -> Seq<ColorCommand>
    decreases events.len(),
{
    if events.len() == 0 {
        Seq::<ColorCommand>::empty()
    } else {
        match command_of(events.last()) {
            Some(command) => dispatched(events.drop_last()).push(command),
            None => dispatched(events.drop_last()),
        }
    }
}

/// Whether a text holds a byte.
fn holds(text: &[u8], byte: u8) -> (found: bool)
    ensures
        found == text@.contains(byte),
{
    let mut at: usize = 0;
    while at < text.len()
        invariant
            at <= text@.len(),
            forall|i: int| 0 <= i < at ==> text@[i] != byte,
        decreases text@.len() - at,
    {
        if text[at] == byte {
            return true;
        }
        at = at + 1;
    }
    false
}

/// Reads four fields as an index and three colors.
fn color_fields(parts: &Vec<Vec<u8>>) -> (command: Option<ColorCommand>)
    ensures
        command == color_of_fields(Seq::new(parts@.len(), |i: int| parts@[i]@)),
{
    let ghost shown = Seq::new(parts@.len(), |i: int| parts@[i]@);
    if parts.len() != 4 {
        return None;
    }
    proof {
        assert(shown[0].skip(0) =~= shown[0]);
        assert(shown[1].skip(0) =~= shown[1]);
        assert(shown[2].skip(0) =~= shown[2]);
        assert(shown[3].skip(0) =~= shown[3]);
    }
    let index = parse_decimal(parts[0].as_slice(), 0, 0xFFFF);
    let r = parse_decimal(parts[1].as_slice(), 0, 0xFF);
    let g = parse_decimal(parts[2].as_slice(), 0, 0xFF);
    let b = parse_decimal(parts[3].as_slice(), 0, 0xFF);
    match (index, r, g, b) {
        (Some(index), Some(r), Some(g), Some(b)) => Some(
            ColorCommand { index: index as u16, r: r as u8, g: g as u8, b: b as u8 },
        ),
        _ => None,
    }
}

/// Reads one line of the log, given without its line end.
pub fn read_line(line: &[u8]) -> (event: Result<PlaybackEvent, ParseError>)
    ensures
        event == line_event(line@),
{
    if line.len() > 0 && line[0] == CLEAR_LETTER {
        match parse_decimal(line, 1, 0xFFFF) {
            Some(index) => Ok(PlaybackEvent::Clear { index: index as u16 }),
            None => Err(ParseError::Clear),
        }
    } else if holds(line, FIELD_SEPARATOR) {
        let parts = split_fields(line, FIELD_SEPARATOR);
        proof {
            assert(Seq::new(parts@.len(), |i: int| parts@[i]@) =~= fields(line@, FIELD_SEPARATOR));
        }
        match color_fields(&parts) {
            Some(command) => Ok(PlaybackEvent::Show { command }),
            None => Err(ParseError::Color),
        }
    } else if line.len() >= 2 && line[0] == DELAY_LETTER && line[1] == DELAY_COLON {
        match parse_decimal(line, 2, 0xFFFF_FFFF_FFFF_FFFF) {
            Some(millis) => Ok(PlaybackEvent::Delay { millis }),
            None => Err(ParseError::Delay),
        }
    } else {
        Ok(PlaybackEvent::Unknown)
    }
}

/// The command to send for an event, if it asks for one.
pub fn event_command(event: PlaybackEvent) -> (command: Option<ColorCommand>)
    ensures
        command == command_of(event),
{
    match event {
        PlaybackEvent::Clear { index } => Some(ColorCommand { index, r: 0, g: 0, b: 0 }),
        PlaybackEvent::Show { command } => Some(command),
        _ => None,
    }
}

/// A line that cannot be read stays the first such line when more lines
/// follow.
pub proof fn lemma_error_stays(lines: Seq<Seq<u8>>, shorter: int)
    requires
        0 <= shorter <= lines.len(),
        events_of(lines.take(shorter)) is Err,
    ensures
        events_of(lines) == events_of(lines.take(shorter)),
    decreases lines.len() - shorter,
{
    if shorter < lines.len() {
        assert(lines.drop_last().take(shorter) =~= lines.take(shorter));
        lemma_error_stays(lines.drop_last(), shorter);
    } else {
        assert(lines.take(shorter) =~= lines);
    }
}

/// Copies a line, leaving out the carriage return that may end it.
fn copy_line(piece: &Vec<u8>, strip: bool) -> (line: Vec<u8>)
    ensures
        line@ == if strip {
            strip_return(piece@)
        } else {
            piece@
        },
{
    let length: usize = if strip && piece.len() > 0 && piece[piece.len() - 1] == CARRIAGE_RETURN {
        piece.len() - 1
    } else {
        piece.len()
    };
    let mut line: Vec<u8> = Vec::new();
    let mut at: usize = 0;
    while at < length
        invariant
            at <= length <= piece@.len(),
            line@ == piece@.take(at as int),
        decreases length - at,
    {
        line.push(piece[at]);
        at = at + 1;
        assert(line@ =~= piece@.take(at as int));
    }
    proof {
        if length == piece@.len() {
            assert(piece@.take(length as int) =~= piece@);
        } else {
            assert(piece@.take(length as int) =~= piece@.drop_last());
        }
    }
    line
}

/// What can be read of a log.
#[derive(Debug, PartialEq, Eq)]
pub struct LogPrefix {
    /// The events of the lines before the first line that cannot be read;
    /// of all lines where every line can be read.
    pub events: Vec<PlaybackEvent>,
    /// The first line that cannot be read, if there is one.
    pub failure: Option<LogError>,
}

/// Whether `events` and `failure` are what can be read of a log: either
/// every line can be read and `events` holds them all, or `failure` is the
/// first line that cannot be read and `events` holds the lines before it.
pub open spec fn is_prefix_of(log: Seq<u8>, events: Seq<PlaybackEvent>, failure: Option<LogError>)
    -> bool {
    match failure {
        None => log_events(log) == Ok::<Seq<PlaybackEvent>, LogError>(events),
        Some(first) => {
            &&& log_events(log) == Err::<Seq<PlaybackEvent>, LogError>(first)
            &&& first.line < log_lines(log).len()
            &&& line_event(log_lines(log)[first.line as int]) == Err::<PlaybackEvent, ParseError>(
                first.error,
            )
            &&& events_of(log_lines(log).take(first.line as int)) == Ok::<
                Seq<PlaybackEvent>,
                LogError,
            >(events)
        },
    }
}

/// Reads a log as far as it can be read: the events of its lines in order
/// up to the first line that cannot be read, and that line.
pub fn read_vled_until_malformed(log: &[u8]) -> (prefix: LogPrefix)
    ensures
        is_prefix_of(log@, prefix.events@, prefix.failure),
{
    let pieces = split_fields(log, LINE_END);
    proof {
        crate::text::lemma_fields_exist(log@, LINE_END);
    }
    let ghost lines = log_lines(log@);
    let count: usize = pieces.len();
    let total: usize = if pieces[count - 1].len() == 0 {
        count - 1
    } else {
        count
    };
    let mut events: Vec<PlaybackEvent> = Vec::new();
    let mut at: usize = 0;
    assert(lines.take(0) =~= Seq::<Seq<u8>>::empty());
    while at < total
        invariant
            at <= total,
            total == lines.len(),
            count == pieces@.len(),
            count >= 1,
            total <= count,
            lines == log_lines(log@),
            crate::text::holds_fields(pieces@, log@, LINE_END),
            events_of(lines.take(at as int)) == Ok::<Seq<PlaybackEvent>, LogError>(events@),
        decreases total - at,
    {
        let line = copy_line(&pieces[at], at + 1 < count);
        proof {
            assert(line@ == lines[at as int]);
            assert(lines.take(at as int + 1).drop_last() =~= lines.take(at as int));
            assert(lines.take(at as int + 1).last() == lines[at as int]);
        }
        match read_line(line.as_slice()) {
            Ok(event) => {
                events.push(event);
            },
            Err(error) => {
                proof {
                    lemma_error_stays(lines, at as int + 1);
                }
                return LogPrefix { events, failure: Some(LogError { line: at, error }) };
            },
        }
        at = at + 1;
    }
    proof {
        assert(lines.take(at as int) =~= lines);
    }
    LogPrefix { events, failure: None }
}

/// Reads a whole log of which every line can be read: the events of its
/// lines in order. A log with a malformed number is no input of this
/// function; `read_vled_until_malformed` tells whether a log has one.
pub fn read_vled(log: &[u8]) -> (events: Vec<PlaybackEvent>)
    requires
        log_events(log@) is Ok,
    ensures
        log_events(log@) == Ok::<Seq<PlaybackEvent>, LogError>(events@),
{
    read_vled_until_malformed(log).events
}

/// Counts the commands that playback sends, second by second.
#[derive(Clone, Copy, Debug, PartialEq, Eq, Structural)]
pub struct RateMeter {
    /// When the current count began, in milliseconds of the caller's clock.
    pub window_start_ms: u64,
    /// The commands sent since then.
    pub packets: u32,
}

/// What the meter reports when a count is closed.
#[derive(Clone, Copy, Debug, PartialEq, Eq, Structural)]
pub struct RateReport {
    pub packets: u32,
    pub seconds: u64,
}

/// The whole seconds from the start of the count to `now_ms`; zero where
/// the clock has gone back.
pub open spec fn window_seconds(meter: RateMeter, now_ms: u64) -> u64 {
    if now_ms >= meter.window_start_ms {
        ((now_ms - meter.window_start_ms) / 1000) as u64
    } else {
        0
    }
}

/// The count after a line, which sent a command or did not.
pub open spec fn counted(meter: RateMeter, sent: bool) -> u32 {
    if sent && meter.packets < u32::MAX {
        (meter.packets + 1) as u32
    } else {
        meter.packets
    }
}

/// The meter after a line that was played at `now_ms`: once a second or
/// more has passed the count is closed and a new one begins.
pub open spec fn meter_after(meter: RateMeter, now_ms: u64, sent: bool) -> RateMeter {
    if window_seconds(meter, now_ms) >= 1 {
        RateMeter { window_start_ms: now_ms, packets: 0 }
    } else {
        RateMeter { window_start_ms: meter.window_start_ms, packets: counted(meter, sent) }
    }
}

/// The report after a line that was played at `now_ms`, if the count is
/// closed there.
pub open spec fn report_after(meter: RateMeter, now_ms: u64, sent: bool) -> Option<RateReport> {
    if window_seconds(meter, now_ms) >= 1 {
        Some(RateReport { packets: counted(meter, sent), seconds: window_seconds(meter, now_ms) })
    } else {
        None
    }
}

impl RateMeter {
    /// A meter whose count begins at `now_ms`.
    pub fn new(now_ms: u64) -> (meter: RateMeter)
        ensures
            meter == (RateMeter { window_start_ms: now_ms, packets: 0 }),
    {
        RateMeter { window_start_ms: now_ms, packets: 0 }
    }

    /// Takes note of a line that was played at `now_ms` and tells what to
    /// report, if anything.
    pub fn note_line(&mut self, now_ms: u64, sent: bool) -> (report: Option<RateReport>)
        ensures
            *final(self) == meter_after(*old(self), now_ms, sent),
            report == report_after(*old(self), now_ms, sent),
    {
        let packets: u32 = if sent && self.packets < u32::MAX {
            self.packets + 1
        } else {
            self.packets
        };
        let seconds: u64 = if now_ms >= self.window_start_ms {
            (now_ms - self.window_start_ms) / 1000
        } else {
            0
        };
        if seconds >= 1 {
            self.window_start_ms = now_ms;
            self.packets = 0;
            Some(RateReport { packets, seconds })
        } else {
            self.packets = packets;
            None
        }
    }
}

} // verus!
