//! What the animations read from a table of positions.

use crate::positions::{coordinate, highest, lowest, ScanEntry};
use vstd::prelude::*;

verus! {

/// The axis along which an animation moves.
#[derive(Clone, Copy, Debug, PartialEq, Eq, Structural)]
pub enum Axis {
    X,
    Y,
    Z,
}

/// The number of an axis: 0 for the horizontal, 1 for the vertical, 2 for
/// the depth.
pub open spec fn axis_number(axis: Axis) -> int {
    match axis {
        Axis::X => 0,
        Axis::Y => 1,
        Axis::Z => 2,
    }
}

/// The range of an animation along its axis.
#[derive(Clone, Copy, Debug, PartialEq, Eq, Structural)]
pub struct Span {
    pub lowest: i32,
    pub highest: i32,
}

/// The number of entries that count for the range: the last entry of a
/// table is left out.
pub open spec fn span_count(length: nat) -> nat {
    if length > 0 {
        (length - 1) as nat
    } else {
        0
    }
}

/// Whether a coordinate lies within `fuzz` of the place that an animation
/// has reached.
pub open spec fn in_band(value: i32, place: i32, fuzz: i32) -> bool {
    place - fuzz <= value <= place + fuzz
}

/// Reads the coordinate of an entry on an axis; an entry without a side
/// view has the depth zero.
pub fn axis_value(entry: &ScanEntry, axis: Axis) -> (value: i32)
    ensures
        value == coordinate(*entry, axis_number(axis)),
{
    match axis {
        Axis::X => entry.xy.0,
        Axis::Y => entry.xy.1,
        Axis::Z => match entry.depth {
            Some(side) => side.0,
            None => 0,
        },
    }
}

/// Finds the range of a table along an axis: the smallest and the largest
/// coordinate of all entries but the last.
pub fn axis_span(table: &Vec<ScanEntry>, axis: Axis) -> (span: Span)
    ensures
        span.lowest == lowest(table@, span_count(table@.len()), axis_number(axis)),
        span.highest == highest(table@, span_count(table@.len()), axis_number(axis)),
{
    let count: usize = if table.len() > 0 {
        table.len() - 1
    } else {
        0
    };
    let mut span = Span { lowest: i32::MAX, highest: i32::MIN };
    let mut at: usize = 0;
    while at < count
        invariant
            at <= count < table@.len() || at == count == 0,
            span.lowest == lowest(table@, at as nat, axis_number(axis)),
            span.highest == highest(table@, at as nat, axis_number(axis)),
        decreases count - at,
    {
        let value = axis_value(&table[at], axis);
        if value < span.lowest {
            span.lowest = value;
        }
        if value > span.highest {
            span.highest = value;
        }
        at = at + 1;
    }
    span
}

/// Tells whether an animation that has reached `place` touches an LED at
/// `value`.
pub fn touches(value: i32, place: i32, fuzz: i32) -> (yes: bool)
    ensures
        yes == in_band(value, place, fuzz),
{
    let low: i64 = place as i64 - fuzz as i64;
    let high: i64 = place as i64 + fuzz as i64;
    low <= value as i64 && value as i64 <= high
}

} // verus!
