//! Reading the packets with which the visualization tool asks for colors.

use crate::playback::{line_event, read_line, ParseError, PlaybackEvent};
use crate::wire::ColorCommand;
use vstd::prelude::*;

verus! {

/// What a packet asks for.
#[derive(Clone, Copy, Debug, PartialEq, Eq, Structural)]
pub enum PacketEvent {
    /// Switch one LED off.
    Clear { index: u16 },
    /// Show a color on one LED.
    Show { command: ColorCommand },
    /// Switch every LED off.
    ClearAll,
    /// The packet is of no known kind.
    Unknown,
}

/// Whether a byte is a blank at the edge of a packet: a space or an ASCII
/// control character.
pub open spec fn is_blank(byte: u8) -> bool {
    byte <= 32 || byte == 127
}

/// A text without the blanks at its end.
pub open spec fn trim_end(text: Seq<u8>) -> Seq<u8>
    decreases text.len(),
{
    if text.len() > 0 && is_blank(text.last()) {
        trim_end(text.drop_last())
    } else {
        text
    }
}

/// A text without the blanks at its start.
pub open spec fn trim_start(text: Seq<u8>) -> Seq<u8>
    decreases text.len(),
{
    if text.len() > 0 && is_blank(text[0]) {
        trim_start(text.drop_first())
    } else {
        text
    }
}

/// A text without the blanks at either end.
pub open spec fn trimmed(text: Seq<u8>) -> Seq<u8> {
    trim_start(trim_end(text))
}

/// The word that asks for every LED to be switched off: `CLEAR`.
pub open spec fn clear_word() -> Seq<u8> {
    seq![67u8, 76u8, 69u8, 65u8, 82u8]
}

/// What a packet asks for.
///
/// The blanks at its ends do not count. The word `CLEAR` switches every LED
/// off. Otherwise the packet is read as a line of the text log is: `E` and
/// an index clear one LED, four fields with `|` between them set a color.
/// A packet of any other kind, a delay too, is unknown.
pub open spec fn packet_event(packet: Seq<u8>) -> Result<PacketEvent, ParseError> {
    let text = trimmed(packet);
    if text == clear_word() {
        Ok(PacketEvent::ClearAll)
    } else {
        match line_event(text) {
            Ok(PlaybackEvent::Clear { index }) => Ok(PacketEvent::Clear { index }),
            Ok(PlaybackEvent::Show { command }) => Ok(PacketEvent::Show { command }),
            Ok(_) => Ok(PacketEvent::Unknown),
            Err(error) => Err(error),
        }
    }
}

/// Copies a text without the blanks at its ends.
pub fn trim(text: &[u8]) -> (kept: Vec<u8>)
    ensures
        kept@ == trimmed(text@),
{
    let mut end: usize = text.len();
    assert(text@.take(end as int) =~= text@);
    while end > 0 && (text[end - 1] <= 32 || text[end - 1] == 127)
        invariant
            end <= text@.len(),
            trim_end(text@) == trim_end(text@.take(end as int)),
        decreases end,
    {
        assert(text@.take(end as int).drop_last() =~= text@.take(end as int - 1));
        end = end - 1;
    }
    let mut start: usize = 0;
    assert(text@.take(end as int).subrange(0, end as int) =~= text@.take(end as int));
    assert(text@.subrange(0, end as int) =~= text@.take(end as int));
    while start < end && (text[start] <= 32 || text[start] == 127)
        invariant
            start <= end <= text@.len(),
            trim_end(text@) == text@.take(end as int),
            trimmed(text@) == trim_start(text@.subrange(start as int, end as int)),
        decreases end - start,
    {
        assert(text@.subrange(start as int, end as int).drop_first() =~= text@.subrange(
            start as int + 1,
            end as int,
        ));
        start = start + 1;
    }
    let mut kept: Vec<u8> = Vec::new();
    let mut at: usize = start;
    while at < end
        invariant
            start <= at <= end <= text@.len(),
            kept@ == text@.subrange(start as int, at as int),
        decreases end - at,
    {
        kept.push(text[at]);
        at = at + 1;
        assert(kept@ =~= text@.subrange(start as int, at as int));
    }
    kept
}

/// Whether a text is the word `CLEAR`.
fn is_clear_word(text: &Vec<u8>) -> (yes: bool)
    ensures
        yes == (text@ == clear_word()),
{
    let yes = text.len() == 5 && text[0] == 67 && text[1] == 76 && text[2] == 69 && text[3] == 65
        && text[4] == 82;
    proof {
        if yes {
            assert(text@ =~= clear_word());
        } else if text@.len() == 5 {
            assert(clear_word()[0] == 67u8 && clear_word()[1] == 76u8 && clear_word()[2] == 69u8
                && clear_word()[3] == 65u8 && clear_word()[4] == 82u8);
        } else {
            assert(clear_word().len() == 5);
        }
    }
    yes
}

/// Reads one packet.
pub fn decode_packet(packet: &[u8]) -> (event: Result<PacketEvent, ParseError>)
    ensures
        event == packet_event(packet@),
{
    let text = trim(packet);
    if is_clear_word(&text) {
        return Ok(PacketEvent::ClearAll);
    }
    match read_line(text.as_slice()) {
        Ok(PlaybackEvent::Clear { index }) => Ok(PacketEvent::Clear { index }),
        Ok(PlaybackEvent::Show { command }) => Ok(PacketEvent::Show { command }),
        Ok(_) => Ok(PacketEvent::Unknown),
        Err(error) => Err(error),
    }
}

/// Whether a packet leaves its LED lit: it shows a color that is not
/// black. This is what the video overlay marks.
pub open spec fn lights(event: PacketEvent) -> bool {
    event matches PacketEvent::Show { command } && (command.r != 0 || command.g != 0 || command.b
        != 0)
}

/// Tells whether a packet leaves its LED lit.
pub fn is_lit(event: PacketEvent) -> (lit: bool)
    ensures
        lit == lights(event),
{
    match event {
        PacketEvent::Show { command } => command.r != 0 || command.g != 0 || command.b != 0,
        _ => false,
    }
}

} // verus!
