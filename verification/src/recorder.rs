//! Recording commands, with the time that passed since the one before, in
//! two formats: a log of text lines and a listing of bytes.

use crate::text::{decimal, push_decimal};
use crate::wire::{high_byte, index_to_bytes, low_byte, ColorCommand};
use vstd::prelude::*;

verus! {

/// `T`, which opens a line that holds a delay.
pub const DELAY_LETTER: u8 = 84;

/// `:`, which follows the `T` of a delay line.
pub const DELAY_COLON: u8 = 58;

/// `E`, which opens a line that clears one LED.
pub const CLEAR_LETTER: u8 = 69;

/// `|`, which separates the fields of a color line.
pub const FIELD_SEPARATOR: u8 = 124;

/// The line feed that ends every line.
pub const LINE_END: u8 = 10;

/// The byte that opens a delay marker in the byte listing.
pub const DELAY_MARKER: u8 = 0xFE;

/// The longest delay, in milliseconds, that one marker holds.
pub const DELAY_CHUNK: u8 = 0xFF;

/// Which of the two logs are written.
#[derive(Clone, Copy, Debug, PartialEq, Eq, Structural)]
pub struct Formats {
    pub text: bool,
    pub bytes: bool,
}

/// What one call adds to each log; empty where nothing is added.
#[derive(Debug, PartialEq, Eq)]
pub struct Recorded {
    pub text: Vec<u8>,
    pub bytes: Vec<u8>,
}

/// The recorder's memory: the time of the call before.
#[derive(Clone, Copy, Debug, PartialEq, Eq, Structural)]
pub struct Recorder {
    /// Whether a call has been made yet.
    pub started: bool,
    /// The time of the last call, in milliseconds of the caller's clock.
    pub last_call_ms: u64,
}

/// The command as the text log holds it. The command `1|2|3|4` is reserved
/// in that format and must not appear as data: its red is raised by one.
pub open spec fn avoid_reserved(command: ColorCommand) -> ColorCommand {
    if command.index == 1 && command.r == 2 && command.g == 3 && command.b == 4 {
        ColorCommand { index: 1, r: 3, g: 3, b: 4 }
    } else {
        command
    }
}

/// The line that holds a delay: `T:`, the milliseconds, a line feed.
pub open spec fn delay_line(elapsed: nat) -> Seq<u8> {
    seq![DELAY_LETTER, DELAY_COLON] + decimal(elapsed) + seq![LINE_END]
}

/// The line that holds a command: index, red, green and blue in decimal
/// with `|` between them, then a line feed.
pub open spec fn color_line(command: ColorCommand) -> Seq<u8> {
    decimal(command.index as nat) + seq![FIELD_SEPARATOR] + decimal(command.r as nat)
        + seq![FIELD_SEPARATOR] + decimal(command.g as nat) + seq![FIELD_SEPARATOR] + decimal(
        command.b as nat,
    ) + seq![LINE_END]
}

/// What the text log gains for a command that follows the one before after
/// `elapsed` milliseconds: nothing within the same millisecond, else the
/// delay line and the line of the command.
pub open spec fn text_record(elapsed: nat, command: ColorCommand) -> Seq<u8> {
    if elapsed >= 1 {
        delay_line(elapsed) + color_line(avoid_reserved(command))
    } else {
        Seq::<u8>::empty()
    }
}

/// `count` markers of a full chunk each: `0xFE 0xFF`, repeated.
pub open spec fn full_markers(count: nat) -> Seq<u8> {
    Seq::new(
        2 * count,
        |i: int|
            if i % 2 == 0 {
                DELAY_MARKER
            } else {
                DELAY_CHUNK
            },
    )
}

/// The markers for a delay: one `0xFE 0xFF` for each full chunk of 255 ms,
/// then `0xFE` and the remainder where one is left.
pub open spec fn delay_markers(elapsed: nat) -> Seq<u8> {
    full_markers(elapsed / 255) + if elapsed % 255 > 0 {
        seq![DELAY_MARKER, (elapsed % 255) as u8]
    } else {
        Seq::<u8>::empty()
    }
}

/// What the byte log stands for after a command that follows the one before
/// after `elapsed` milliseconds: nothing within the same millisecond, else
/// the delay markers, the index in little-endian order, red, green, blue.
pub open spec fn byte_record(elapsed: nat, command: ColorCommand) -> Seq<u8> {
    if elapsed >= 1 {
        delay_markers(elapsed) + seq![
            low_byte(command.index),
            high_byte(command.index),
            command.r,
            command.g,
            command.b,
        ]
    } else {
        Seq::<u8>::empty()
    }
}

/// The upper-case hexadecimal digit for a value below sixteen.
pub open spec fn hex_digit(value: nat) -> u8
    recommends
        value < 16,
{
    if value < 10 {
        (48 + value) as u8
    } else {
        (55 + value) as u8
    }
}

/// How the listing shows one byte: `0x`, two hexadecimal digits, a comma
/// and a space.
pub open spec fn hex_token(byte: u8) -> Seq<u8> {
    seq![48u8, 120u8, hex_digit(byte as nat / 16), hex_digit(byte as nat % 16), 44u8, 32u8]
}

/// The listing of a run of bytes: the tokens of the bytes, one after the
/// other.
pub open spec fn hex_listing(bytes: Seq<u8>) -> Seq<u8>
    decreases bytes.len(),
{
    if bytes.len() == 0 {
        Seq::<u8>::empty()
    } else {
        hex_listing(bytes.drop_last()) + hex_token(bytes.last())
    }
}

/// The time that a call at `now_ms` measures since the call before: zero on
/// the first call, and zero where the clock has gone back.
pub open spec fn elapsed_since(recorder: Recorder, now_ms: u64) -> nat {
    if recorder.started && now_ms >= recorder.last_call_ms {
        (now_ms - recorder.last_call_ms) as nat
    } else {
        0
    }
}

/// The time that the recorder remembers after a call at `now_ms`: that
/// time, unless the clock has gone back.
pub open spec fn remembered_after(recorder: Recorder, now_ms: u64) -> u64 {
    if recorder.started && now_ms < recorder.last_call_ms {
        recorder.last_call_ms
    } else {
        now_ms
    }
}

/// Applies the rule of the reserved command.
pub fn without_reserved(command: ColorCommand) -> (written: ColorCommand)
    ensures
        written == avoid_reserved(command),
{
    if command.index == 1 && command.r == 2 && command.g == 3 && command.b == 4 {
        ColorCommand { index: 1, r: 3, g: 3, b: 4 }
    } else {
        command
    }
}

/// Appends the delay line for `elapsed` milliseconds.
pub fn push_delay_line(out: &mut Vec<u8>, elapsed: u64)
    ensures
        final(out)@ == old(out)@ + delay_line(elapsed as nat),
{
    out.push(DELAY_LETTER);
    out.push(DELAY_COLON);
    push_decimal(out, elapsed);
    out.push(LINE_END);
    assert(out@ =~= old(out)@ + delay_line(elapsed as nat));
}

/// Appends the line of a command, as it is given.
pub fn push_color_line(out: &mut Vec<u8>, command: ColorCommand)
    ensures
        final(out)@ == old(out)@ + color_line(command),
{
    push_decimal(out, command.index as u64);
    out.push(FIELD_SEPARATOR);
    push_decimal(out, command.r as u64);
    out.push(FIELD_SEPARATOR);
    push_decimal(out, command.g as u64);
    out.push(FIELD_SEPARATOR);
    push_decimal(out, command.b as u64);
    out.push(LINE_END);
    assert(out@ =~= old(out)@ + color_line(command));
}

/// Appends the delay markers for `elapsed` milliseconds.
pub fn push_delay_markers(out: &mut Vec<u8>, elapsed: u64)
    ensures
        final(out)@ == old(out)@ + delay_markers(elapsed as nat),
{
    let chunks: u64 = elapsed / 255;
    let remainder: u64 = elapsed % 255;
    let mut written: u64 = 0;
    assert(out@ =~= old(out)@ + full_markers(0));
    while written < chunks
        invariant
            written <= chunks,
            out@ == old(out)@ + full_markers(written as nat),
        decreases chunks - written,
    {
        out.push(DELAY_MARKER);
        out.push(DELAY_CHUNK);
        written = written + 1;
        assert(out@ =~= old(out)@ + full_markers(written as nat));
    }
    if remainder > 0 {
        out.push(DELAY_MARKER);
        out.push(remainder as u8);
    }
    assert(out@ =~= old(out)@ + delay_markers(elapsed as nat));
}

/// The digit that shows a value below sixteen.
fn hex_digit_of(value: u8) -> (shown: u8)
    requires
        value < 16,
    ensures
        shown == hex_digit(value as nat),
{
    if value < 10 {
        48 + value
    } else {
        55 + value
    }
}

/// Lists a run of bytes as text.
pub fn list_bytes(bytes: &[u8]) -> (listing: Vec<u8>)
    ensures
        listing@ == hex_listing(bytes@),
{
    let mut listing: Vec<u8> = Vec::new();
    let mut at: usize = 0;
    assert(bytes@.take(0) =~= Seq::<u8>::empty());
    while at < bytes.len()
        invariant
            at <= bytes@.len(),
            listing@ == hex_listing(bytes@.take(at as int)),
        decreases bytes@.len() - at,
    {
        let byte: u8 = bytes[at];
        proof {
            assert(bytes@.take(at as int + 1).drop_last() =~= bytes@.take(at as int));
            assert(bytes@.take(at as int + 1).last() == byte);
        }
        let ghost before = listing@;
        listing.push(48);
        listing.push(120);
        listing.push(hex_digit_of(byte / 16));
        listing.push(hex_digit_of(byte % 16));
        listing.push(44);
        listing.push(32);
        assert(listing@ =~= before + hex_token(byte));
        at = at + 1;
    }
    assert(bytes@.take(at as int) =~= bytes@);
    listing
}

/// The bytes that the byte log stands for after a command.
pub fn encode_byte_record(elapsed: u64, command: ColorCommand) -> (bytes: Vec<u8>)
    ensures
        bytes@ == byte_record(elapsed as nat, command),
{
    let mut bytes: Vec<u8> = Vec::new();
    if elapsed >= 1 {
        push_delay_markers(&mut bytes, elapsed);
        let (low, high) = index_to_bytes(command.index);
        bytes.push(low);
        bytes.push(high);
        bytes.push(command.r);
        bytes.push(command.g);
        bytes.push(command.b);
    }
    assert(bytes@ =~= byte_record(elapsed as nat, command));
    bytes
}

/// The text that the text log gains after a command.
pub fn encode_text_record(elapsed: u64, command: ColorCommand) -> (text: Vec<u8>)
    ensures
        text@ == text_record(elapsed as nat, command),
{
    let mut text: Vec<u8> = Vec::new();
    if elapsed >= 1 {
        push_delay_line(&mut text, elapsed);
        push_color_line(&mut text, without_reserved(command));
    }
    assert(text@ =~= text_record(elapsed as nat, command));
    text
}

impl Recorder {
    /// A recorder before its first call.
    pub fn new() -> (recorder: Recorder)
        ensures
            !recorder.started,
            recorder.last_call_ms == 0,
    {
        Recorder { started: false, last_call_ms: 0 }
    }

    /// Records a command that is issued at `now_ms`, a time in milliseconds
    /// that the caller reads from a clock.
    ///
    /// Every call moves the remembered time to `now_ms`. The first call
    /// measures no delay, so it adds nothing; neither does a call within the
    /// same millisecond as the one before.
    pub fn maybe_record(&mut self, formats: Formats, now_ms: u64, command: ColorCommand) -> (added:
        Recorded)
        ensures
            final(self).started,
            final(self).last_call_ms == remembered_after(*old(self), now_ms),
            added.text@ == if formats.text {
                text_record(elapsed_since(*old(self), now_ms), command)
            } else {
                Seq::<u8>::empty()
            },
            added.bytes@ == if formats.bytes {
                hex_listing(byte_record(elapsed_since(*old(self), now_ms), command))
            } else {
                Seq::<u8>::empty()
            },
    {
        let elapsed: u64 = if self.started && now_ms >= self.last_call_ms {
            now_ms - self.last_call_ms
        } else {
            0
        };
        if !self.started || now_ms >= self.last_call_ms {
            self.last_call_ms = now_ms;
        }
        self.started = true;
        let text: Vec<u8> = if formats.text {
            encode_text_record(elapsed, command)
        } else {
            Vec::new()
        };
        let bytes: Vec<u8> = if formats.bytes {
            let raw = encode_byte_record(elapsed, command);
            list_bytes(raw.as_slice())
        } else {
            Vec::new()
        };
        Recorded { text, bytes }
    }
}

/// The delay that a run of markers stands for: the sum of the second byte
/// of each marker.
pub open spec fn marked_delay(markers: Seq<u8>) -> nat
    decreases markers.len(),
{
    if markers.len() < 2 {
        0
    } else {
        marked_delay(markers.drop_last().drop_last()) + markers.last() as nat
    }
}

/// Full markers stand for 255 ms each.
proof fn lemma_full_markers_add_up(count: nat)
    ensures
        marked_delay(full_markers(count)) == 255 * count,
    decreases count,
{
    if count > 0 {
        lemma_full_markers_add_up((count - 1) as nat);
        let markers = full_markers(count);
        assert(markers.drop_last().drop_last() =~= full_markers((count - 1) as nat));
        assert(markers.last() == DELAY_CHUNK);
    }
}

/// The markers of a delay are markers, each opened by `0xFE`, and the
/// delays that they hold add up to the delay.
pub proof fn lemma_markers_add_up(elapsed: nat)
    ensures
        delay_markers(elapsed).len() % 2 == 0,
        forall|i: int|
            0 <= i < delay_markers(elapsed).len() && i % 2 == 0 ==> delay_markers(elapsed)[i]
                == DELAY_MARKER,
        marked_delay(delay_markers(elapsed)) == elapsed,
{
    let whole = full_markers(elapsed / 255);
    let markers = delay_markers(elapsed);
    lemma_full_markers_add_up(elapsed / 255);
    if elapsed % 255 > 0 {
        assert(markers.drop_last().drop_last() =~= whole);
        assert(markers.last() == (elapsed % 255) as u8);
    } else {
        assert(markers =~= whole);
    }
}

} // verus!
