//! The color command and the frames that carry it to a controller.

use vstd::prelude::*;

verus! {

/// One instruction for one LED: its index and the color to show.
#[derive(Clone, Copy, Debug, PartialEq, Eq, Structural)]
pub struct ColorCommand {
    pub index: u16,
    pub r: u8,
    pub g: u8,
    pub b: u8,
}

/// First byte of every serial frame.
pub const FRAME_START_FIRST: u8 = 0xFF;

/// Second byte of every serial frame.
pub const FRAME_START_SECOND: u8 = 0xBB;

/// The low byte of an index, sent first.
pub open spec fn low_byte(value: u16) -> u8 {
    (value % 256) as u8
}

/// The high byte of an index, sent second.
pub open spec fn high_byte(value: u16) -> u8 {
    (value / 256) as u8
}

/// The index that two bytes in little-endian order stand for.
pub open spec fn index_of_bytes(low: u8, high: u8) -> int {
    low + 256 * high
}

/// The seven bytes of a serial frame: the two start bytes, the local index
/// in little-endian order, then red, green and blue.
pub open spec fn serial_frame_bytes(command: ColorCommand) -> Seq<u8> {
    seq![
        FRAME_START_FIRST,
        FRAME_START_SECOND,
        low_byte(command.index),
        high_byte(command.index),
        command.r,
        command.g,
        command.b,
    ]
}

/// The five bytes of a datagram: the index in little-endian order, then red,
/// green and blue.
pub open spec fn datagram_bytes(command: ColorCommand) -> Seq<u8> {
    seq![
        low_byte(command.index),
        high_byte(command.index),
        command.r,
        command.g,
        command.b,
    ]
}

/// The three bytes with which the remote device reports a packet that it
/// could not read: the letters `BAD`.
pub open spec fn malformed_reply() -> Seq<u8> {
    seq![0x42u8, 0x41u8, 0x44u8]
}

/// Splits an index into its low and its high byte.
pub fn index_to_bytes(index: u16) -> (bytes: (u8, u8))
    ensures
        bytes.0 == low_byte(index),
        bytes.1 == high_byte(index),
        index_of_bytes(bytes.0, bytes.1) == index,
{
    ((index % 256) as u8, (index / 256) as u8)
}

/// Joins a low and a high byte into the index that they stand for.
pub fn index_from_bytes(low: u8, high: u8) -> (index: u16)
    ensures
        index == index_of_bytes(low, high),
        low_byte(index) == low,
        high_byte(index) == high,
{
    (low as u16) + 256 * (high as u16)
}

/// Builds the serial frame for a command whose index is already local to
/// the strip it is sent to.
pub fn serial_frame(command: ColorCommand) -> (frame: [u8; 7])
    ensures
        frame@ == serial_frame_bytes(command),
{
    let (low, high) = index_to_bytes(command.index);
    let frame: [u8; 7] = [
        FRAME_START_FIRST,
        FRAME_START_SECOND,
        low,
        high,
        command.r,
        command.g,
        command.b,
    ];
    assert(frame@ =~= serial_frame_bytes(command));
    frame
}

/// Builds the datagram for a command.
pub fn datagram(command: ColorCommand) -> (packet: [u8; 5])
    ensures
        packet@ == datagram_bytes(command),
{
    let (low, high) = index_to_bytes(command.index);
    let packet: [u8; 5] = [low, high, command.r, command.g, command.b];
    assert(packet@ =~= datagram_bytes(command));
    packet
}

/// Reads back the command that a datagram carries.
pub fn command_of_datagram(packet: &[u8; 5]) -> (command: ColorCommand)
    ensures
        datagram_bytes(command) == packet@,
{
    let command = ColorCommand {
        index: index_from_bytes(packet[0], packet[1]),
        r: packet[2],
        g: packet[3],
        b: packet[4],
    };
    assert(datagram_bytes(command) =~= packet@);
    command
}

/// Whether a three-byte reply is the report of a malformed packet.
pub fn is_malformed_reply(reply: &[u8; 3]) -> (malformed: bool)
    ensures
        malformed <==> reply@ == malformed_reply(),
{
    let malformed = reply[0] == 0x42 && reply[1] == 0x41 && reply[2] == 0x44;
    proof {
        if malformed {
            assert(reply@ =~= malformed_reply());
        } else {
            assert(malformed_reply()[0] == 0x42u8);
            assert(malformed_reply()[1] == 0x41u8);
            assert(malformed_reply()[2] == 0x44u8);
        }
    }
    malformed
}

/// A datagram, read back, gives the command it was built from.
pub proof fn lemma_datagram_determines_command(a: ColorCommand, b: ColorCommand)
    requires
        datagram_bytes(a) == datagram_bytes(b),
    ensures
        a == b,
{
    let x = datagram_bytes(a);
    let y = datagram_bytes(b);
    assert(x[0] == y[0] && x[1] == y[1] && x[2] == y[2] && x[3] == y[3] && x[4] == y[4]);
    assert(a.index == low_byte(a.index) + 256 * high_byte(a.index));
    assert(b.index == low_byte(b.index) + 256 * high_byte(b.index));
}

} // verus!
