//! Manual calibration: the operator walks through the LEDs and places by
//! hand those that the cameras did not find.

use crate::positions::{ScanEntry, Status};
use vstd::prelude::*;

verus! {

/// What the operator asks for.
#[derive(Clone, Copy, Debug, PartialEq, Eq, Structural)]
pub enum ManualKey {
    /// Go to the next LED.
    Forward,
    /// Go to the LED before.
    Back,
    /// Go to the next LED that is marked for another try.
    NextFailure,
    /// Leave manual calibration.
    Finish,
}

/// The color of the circle drawn around an LED.
#[derive(Clone, Copy, Debug, PartialEq, Eq, Structural)]
pub enum Marker {
    /// The position needs attention.
    Red,
    /// The position is accepted.
    Green,
}

/// Where the walk stands after a key.
#[derive(Clone, Copy, Debug, PartialEq, Eq, Structural)]
pub struct Walk {
    /// The LED that is lit next.
    pub cursor: usize,
    /// The LED to switch off first, if any.
    pub switch_off: Option<usize>,
    /// Whether the operator is done.
    pub finished: bool,
}

/// The meaning of a key code: `r`, `e`, `f` and `q`; no other key has one.
pub open spec fn key_meaning(code: i32) -> Option<ManualKey> {
    if code == 114 {
        Some(ManualKey::Forward)
    } else if code == 101 {
        Some(ManualKey::Back)
    } else if code == 102 {
        Some(ManualKey::NextFailure)
    } else if code == 113 {
        Some(ManualKey::Finish)
    } else {
        None
    }
}

/// Reads a key code.
pub fn manual_key(code: i32) -> (key: Option<ManualKey>)
    ensures
        key == key_meaning(code),
{
    if code == 114 {
        Some(ManualKey::Forward)
    } else if code == 101 {
        Some(ManualKey::Back)
    } else if code == 102 {
        Some(ManualKey::NextFailure)
    } else if code == 113 {
        Some(ManualKey::Finish)
    } else {
        None
    }
}

/// Whether `index` is the first LED behind `cursor`, among the first
/// `count`, that is marked for another try.
pub open spec fn is_next_failure(table: Seq<ScanEntry>, count: nat, cursor: nat, index: nat)
    -> bool {
    &&& cursor < index < count
    &&& index < table.len()
    &&& table[index as int].status.to_recalibrate()
    &&& forall|i: int| cursor < i < index ==> !table[i].status.to_recalibrate()
}

/// Whether no LED behind `cursor`, among the first `count`, is marked for
/// another try.
pub open spec fn no_failure_behind(table: Seq<ScanEntry>, count: nat, cursor: nat) -> bool {
    forall|i: int| cursor < i < count && i < table.len() ==> !table[i].status.to_recalibrate()
}

/// Whether `walk` is where a key leads from `cursor` among the first
/// `count` LEDs.
///
/// Forward moves on by one and stays at the last LED. Back moves back by
/// one and stays at the first. The jump goes to the next LED marked for
/// another try and stays where there is none. The LED that is left is
/// switched off; going back and jumping switch the current LED off also
/// where they stay. Finishing changes nothing.
pub open spec fn walk_after(
    table: Seq<ScanEntry>,
    count: nat,
    cursor: nat,
    key: ManualKey,
    walk: Walk,
) -> bool {
    match key {
        ManualKey::Forward => if cursor + 1 < count {
            walk == (Walk {
                cursor: (cursor + 1) as usize,
                switch_off: Some(cursor as usize),
                finished: false,
            })
        } else {
            walk == (Walk { cursor: cursor as usize, switch_off: None, finished: false })
        },
        ManualKey::Back => walk == (Walk {
            cursor: if cursor > 0 {
                (cursor - 1) as usize
            } else {
                0
            },
            switch_off: Some(cursor as usize),
            finished: false,
        }),
        ManualKey::NextFailure => {
            &&& walk.switch_off == Some(cursor as usize)
            &&& !walk.finished
            &&& if walk.cursor == cursor {
                no_failure_behind(table, count, cursor)
            } else {
                is_next_failure(table, count, cursor, walk.cursor as nat)
            }
        },
        ManualKey::Finish => walk == (Walk {
            cursor: cursor as usize,
            switch_off: None,
            finished: true,
        }),
    }
}

/// Moves the walk by one key.
pub fn step_walk(table: &Vec<ScanEntry>, num_led: usize, cursor: usize, key: ManualKey) -> (walk:
    Walk)
    ensures
        walk_after(table@, num_led as nat, cursor as nat, key, walk),
{
    match key {
        ManualKey::Forward => {
            if cursor < usize::MAX && cursor + 1 < num_led {
                Walk { cursor: cursor + 1, switch_off: Some(cursor), finished: false }
            } else {
                Walk { cursor, switch_off: None, finished: false }
            }
        },
        ManualKey::Back => Walk {
            cursor: if cursor > 0 {
                cursor - 1
            } else {
                0
            },
            switch_off: Some(cursor),
            finished: false,
        },
        ManualKey::NextFailure => {
            let end: usize = if num_led < table.len() {
                num_led
            } else {
                table.len()
            };
            if cursor >= end {
                return Walk { cursor, switch_off: Some(cursor), finished: false };
            }
            let mut at: usize = cursor + 1;
            while at < end
                invariant
                    key == ManualKey::NextFailure,
                    cursor < at <= end,
                    end <= num_led,
                    end <= table@.len(),
                    end == num_led || end == table@.len(),
                    forall|i: int| cursor < i < at ==> !table@[i].status.to_recalibrate(),
                decreases end - at,
            {
                if table[at].status.needs_recalibration() {
                    return Walk { cursor: at, switch_off: Some(cursor), finished: false };
                }
                at = at + 1;
            }
            Walk { cursor, switch_off: Some(cursor), finished: false }
        },
        ManualKey::Finish => Walk { cursor, switch_off: None, finished: true },
    }
}

/// The entry of an LED after the operator clicked on it: the click is
/// stored in the view that is being calibrated, and the status says that
/// it was placed by hand.
pub open spec fn placed(entry: ScanEntry, depth: bool, x: i32, y: i32) -> ScanEntry {
    if depth {
        ScanEntry { status: Status::ManualZ, xy: entry.xy, depth: Some((x, y)) }
    } else {
        ScanEntry { status: Status::ManualXy, xy: (x, y), depth: entry.depth }
    }
}

/// Stores a click of the operator as the position of the LED `cursor`.
pub fn place_manually(table: &mut Vec<ScanEntry>, cursor: usize, depth: bool, x: i32, y: i32)
    requires
        cursor < old(table)@.len(),
    ensures
        final(table)@ == old(table)@.update(
            cursor as int,
            placed(old(table)@[cursor as int], depth, x, y),
        ),
{
    let entry = table[cursor];
    let stored = if depth {
        ScanEntry { status: Status::ManualZ, xy: entry.xy, depth: Some((x, y)) }
    } else {
        ScanEntry { status: Status::ManualXy, xy: (x, y), depth: entry.depth }
    };
    table.set(cursor, stored);
}

/// The point at which the circle of an LED is drawn: its place in the view
/// that is being calibrated, and the corner where the side view is missing.
pub open spec fn shown_at(entry: ScanEntry, depth: bool) -> (i32, i32) {
    if depth {
        match entry.depth {
            Some(side) => side,
            None => (0, 0),
        }
    } else {
        entry.xy
    }
}

/// The color of the circle of an LED: red while it is marked for another
/// try, green otherwise.
pub open spec fn marker_for(status: Status) -> Marker {
    if status.to_recalibrate() {
        Marker::Red
    } else {
        Marker::Green
    }
}

/// Tells where and in which color the circle of an LED is drawn.
pub fn circle_of(entry: &ScanEntry, depth: bool) -> (circle: ((i32, i32), Marker))
    ensures
        circle.0 == shown_at(*entry, depth),
        circle.1 == marker_for(entry.status),
{
    let at = if depth {
        match entry.depth {
            Some(side) => side,
            None => (0, 0),
        }
    } else {
        entry.xy
    };
    let color = if entry.status.needs_recalibration() {
        Marker::Red
    } else {
        Marker::Green
    };
    (at, color)
}

/// A click turns the circle green: an LED placed by hand is accepted.
pub proof fn lemma_placed_is_accepted(entry: ScanEntry, depth: bool, x: i32, y: i32)
    ensures
        marker_for(placed(entry, depth, x, y).status) == Marker::Green,
        shown_at(placed(entry, depth, x, y), depth) == (x, y),
{
}

} // verus!
