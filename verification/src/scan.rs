//! The decisions of a calibration scan: which LED to light and how, whether
//! a camera saw it, and what the table holds afterwards.

use crate::positions::{ScanEntry, Status};
use crate::wire::ColorCommand;
use vstd::prelude::*;

verus! {

/// The LED that is lit while the brightest and the darkest luma are
/// measured.
pub const REFERENCE_LED: u16 = 5;

/// The frames that are read for one look at an LED; only the last is used,
/// since the camera hands out frames that it took earlier.
pub const CAPTURE_FRAMES: u32 = 3;

/// The channel that a filtered scan lights and looks for.
#[derive(Clone, Copy, Debug, PartialEq, Eq, Structural)]
pub enum FilterColor {
    Red,
    Green,
    Blue,
}

/// The brightest and the darkest luma that a camera saw while one LED was
/// fully lit and then dark.
#[derive(Clone, Copy, Debug, PartialEq, Eq, Structural)]
pub struct Baseline {
    pub darkest: u8,
    pub brightest: u8,
}

/// The brightest pixel of a frame: its luma and its place.
#[derive(Clone, Copy, Debug, PartialEq, Eq, Structural)]
pub struct Sighting {
    pub peak: u8,
    pub x: i32,
    pub y: i32,
}

/// The channel that a configured number stands for: 0 is red, 1 is green,
/// 2 is blue, and no other number is a channel.
pub open spec fn filter_color_for(number: u32) -> Option<FilterColor> {
    if number == 0 {
        Some(FilterColor::Red)
    } else if number == 1 {
        Some(FilterColor::Green)
    } else if number == 2 {
        Some(FilterColor::Blue)
    } else {
        None
    }
}

/// Reads the configured number of a channel.
pub fn filter_color_of(number: u32) -> (color: Option<FilterColor>)
    ensures
        color == filter_color_for(number),
{
    if number == 0 {
        Some(FilterColor::Red)
    } else if number == 1 {
        Some(FilterColor::Green)
    } else if number == 2 {
        Some(FilterColor::Blue)
    } else {
        None
    }
}

/// The command that lights an LED for a scan. An unfiltered scan lights it
/// white; a filtered scan lights only the channel it looks for, and nothing
/// where no channel is configured.
pub open spec fn lit(index: u16, filtered: bool, color: Option<FilterColor>, brightness: u8)
    -> Option<ColorCommand> {
    if !filtered {
        Some(ColorCommand { index, r: brightness, g: brightness, b: brightness })
    } else {
        match color {
            Some(FilterColor::Red) => Some(ColorCommand { index, r: brightness, g: 0, b: 0 }),
            Some(FilterColor::Green) => Some(ColorCommand { index, r: 0, g: brightness, b: 0 }),
            Some(FilterColor::Blue) => Some(ColorCommand { index, r: 0, g: 0, b: brightness }),
            None => None,
        }
    }
}

/// The command that switches an LED off.
pub open spec fn dark(index: u16) -> ColorCommand {
    ColorCommand { index, r: 0, g: 0, b: 0 }
}

/// Builds the command that lights an LED for a scan, if there is one.
pub fn illuminate(index: u16, filtered: bool, color: Option<FilterColor>, brightness: u8)
    -> (command: Option<ColorCommand>)
    ensures
        command == lit(index, filtered, color, brightness),
{
    if !filtered {
        Some(ColorCommand { index, r: brightness, g: brightness, b: brightness })
    } else {
        match color {
            Some(FilterColor::Red) => Some(ColorCommand { index, r: brightness, g: 0, b: 0 }),
            Some(FilterColor::Green) => Some(ColorCommand { index, r: 0, g: brightness, b: 0 }),
            Some(FilterColor::Blue) => Some(ColorCommand { index, r: 0, g: 0, b: brightness }),
            None => None,
        }
    }
}

/// Builds the command that switches an LED off.
pub fn extinguish(index: u16) -> (command: ColorCommand)
    ensures
        command == dark(index),
{
    ColorCommand { index, r: 0, g: 0, b: 0 }
}

/// Whether a peak counts as the lit LED: it reaches the point halfway
/// between the darkest and the brightest luma of the baseline. Twice the
/// peak is compared with the sum of the two, which is the same test
/// without a fraction.
pub open spec fn bright_enough(peak: u8, baseline: Baseline) -> bool {
    2 * peak >= baseline.darkest + baseline.brightest
}

/// Tells whether a peak counts as the lit LED.
pub fn meets_threshold(peak: u8, baseline: Baseline) -> (found: bool)
    ensures
        found == bright_enough(peak, baseline),
{
    2 * (peak as u16) >= baseline.darkest as u16 + baseline.brightest as u16
}

/// Whether a scan still has to visit an LED. The depth scan visits every
/// LED whose depth it has not found; the front scan visits every LED that
/// no automatic scan has found.
pub open spec fn pending(status: Status, depth: bool) -> bool {
    if depth {
        status != Status::SuccessZ
    } else {
        !status.succeeded()
    }
}

/// Tells whether a scan still has to visit an LED.
pub fn needs_cycle(status: Status, depth: bool) -> (yes: bool)
    ensures
        yes == pending(status, depth),
{
    if depth {
        match status {
            Status::SuccessZ => false,
            _ => true,
        }
    } else {
        !status.is_success()
    }
}

/// Finds the first LED at or after `from` that the scan still has to
/// visit.
pub fn next_pending(table: &Vec<ScanEntry>, from: usize, depth: bool) -> (next: Option<usize>)
    ensures
        match next {
            Some(index) => {
                &&& from <= index < table@.len()
                &&& pending(table@[index as int].status, depth)
                &&& forall|i: int| from <= i < index ==> !pending(table@[i].status, depth)
            },
            None => forall|i: int| from <= i < table@.len() ==> !pending(table@[i].status, depth),
        },
{
    let mut at: usize = from;
    while at < table.len()
        invariant
            from <= at,
            forall|i: int| from <= i < at && i < table@.len() ==> !pending(table@[i].status, depth),
        decreases table@.len() - at,
    {
        if needs_cycle(table[at].status, depth) {
            return Some(at);
        }
        at = at + 1;
    }
    None
}

/// The entry of an LED after a camera looked for it.
///
/// A peak that is bright enough is a success: the depth scan and the second
/// camera store it as the side view, the front scan as the front view. A
/// peak that is not is kept as a best guess, in the side view by the depth
/// scan and in the front view otherwise, and the LED is marked for another
/// try. The view that is not stored stays as it was.
pub open spec fn after_sighting(
    entry: ScanEntry,
    depth: bool,
    second_camera: bool,
    baseline: Baseline,
    seen: Sighting,
) -> ScanEntry {
    if bright_enough(seen.peak, baseline) {
        if depth || second_camera {
            ScanEntry { status: Status::SuccessZ, xy: entry.xy, depth: Some((seen.x, seen.y)) }
        } else {
            ScanEntry { status: Status::SuccessXy, xy: (seen.x, seen.y), depth: entry.depth }
        }
    } else {
        if depth {
            ScanEntry { status: Status::RecalibrateZ, xy: entry.xy, depth: Some((seen.x, seen.y)) }
        } else {
            ScanEntry { status: Status::RecalibrateXy, xy: (seen.x, seen.y), depth: entry.depth }
        }
    }
}

/// Stores what a camera saw of the LED `index`, and tells whether the LED
/// was found.
pub fn record_sighting(
    table: &mut Vec<ScanEntry>,
    index: usize,
    depth: bool,
    second_camera: bool,
    baseline: Baseline,
    seen: Sighting,
) -> (found: bool)
    requires
        index < old(table)@.len(),
    ensures
        found == bright_enough(seen.peak, baseline),
        final(table)@ == old(table)@.update(
            index as int,
            after_sighting(old(table)@[index as int], depth, second_camera, baseline, seen),
        ),
{
    let entry = table[index];
    let found = meets_threshold(seen.peak, baseline);
    let stored = if found {
        if depth || second_camera {
            ScanEntry { status: Status::SuccessZ, xy: entry.xy, depth: Some((seen.x, seen.y)) }
        } else {
            ScanEntry { status: Status::SuccessXy, xy: (seen.x, seen.y), depth: entry.depth }
        }
    } else {
        if depth {
            ScanEntry { status: Status::RecalibrateZ, xy: entry.xy, depth: Some((seen.x, seen.y)) }
        } else {
            ScanEntry { status: Status::RecalibrateXy, xy: (seen.x, seen.y), depth: entry.depth }
        }
    };
    table.set(index, stored);
    found
}

/// How many LEDs a pass found and how many it did not.
#[derive(Clone, Copy, Debug, PartialEq, Eq, Structural)]
pub struct Tally {
    pub success: u32,
    pub failures: u32,
}

/// The tally after one more LED.
pub open spec fn tallied(tally: Tally, found: bool) -> Tally {
    if found {
        Tally {
            success: if tally.success < u32::MAX {
                (tally.success + 1) as u32
            } else {
                tally.success
            },
            failures: tally.failures,
        }
    } else {
        Tally {
            success: tally.success,
            failures: if tally.failures < u32::MAX {
                (tally.failures + 1) as u32
            } else {
                tally.failures
            },
        }
    }
}

/// Counts one more LED.
pub fn tally_one(tally: Tally, found: bool) -> (next: Tally)
    ensures
        next == tallied(tally, found),
{
    if found {
        Tally {
            success: if tally.success < u32::MAX {
                tally.success + 1
            } else {
                tally.success
            },
            failures: tally.failures,
        }
    } else {
        Tally {
            success: tally.success,
            failures: if tally.failures < u32::MAX {
                tally.failures + 1
            } else {
                tally.failures
            },
        }
    }
}

/// A pass does not come back to an LED that it found, and it leaves an LED
/// that it did not find for the next pass in the same view.
pub proof fn lemma_found_is_settled(
    entry: ScanEntry,
    depth: bool,
    second_camera: bool,
    baseline: Baseline,
    seen: Sighting,
)
    ensures
        bright_enough(seen.peak, baseline) ==> !pending(
            after_sighting(entry, depth, second_camera, baseline, seen).status,
            depth,
        ),
        !bright_enough(seen.peak, baseline) ==> pending(
            after_sighting(entry, depth, second_camera, baseline, seen).status,
            depth,
        ) && after_sighting(entry, depth, second_camera, baseline, seen).status.to_recalibrate(),
{
}

} // verus!
