//! The table of LED positions that a scan fills, and the pass that brings
//! it into its final form.

use vstd::prelude::*;

verus! {

/// How far the calibration of one LED has come.
#[derive(Clone, Copy, Debug, PartialEq, Eq, Structural)]
pub enum Status {
    Uncalibrated,
    SuccessXy,
    SuccessZ,
    RecalibrateXy,
    RecalibrateZ,
    ManualXy,
    ManualZ,
}

/// One LED of the table: its status, where the front view saw it, and where
/// the side view saw it, if it did. The first number of the side view is
/// the depth.
#[derive(Clone, Copy, Debug, PartialEq, Eq)]
pub struct ScanEntry {
    pub status: Status,
    pub xy: (i32, i32),
    pub depth: Option<(i32, i32)>,
}

impl Status {
    /// Whether the status is one of the two that an automatic scan gives
    /// on success.
    pub open spec fn succeeded(self) -> bool {
        self == Status::SuccessXy || self == Status::SuccessZ
    }

    /// Whether the status asks for the LED to be located again.
    pub open spec fn to_recalibrate(self) -> bool {
        self == Status::RecalibrateXy || self == Status::RecalibrateZ
    }

    /// Tells whether an automatic scan has located the LED.
    pub fn is_success(self) -> (yes: bool)
        ensures
            yes == self.succeeded(),
    {
        match self {
            Status::SuccessXy | Status::SuccessZ => true,
            _ => false,
        }
    }

    /// Tells whether the LED is to be located again.
    pub fn needs_recalibration(self) -> (yes: bool)
        ensures
            yes == self.to_recalibrate(),
    {
        match self {
            Status::RecalibrateXy | Status::RecalibrateZ => true,
            _ => false,
        }
    }
}

/// The entry of an LED that no scan has seen yet.
pub open spec fn blank_entry() -> ScanEntry {
    ScanEntry { status: Status::Uncalibrated, xy: (0, 0), depth: Some((0, 0)) }
}

/// A table for `num_led` LEDs, none of them located.
pub fn new_table(num_led: u32) -> (table: Vec<ScanEntry>)
    ensures
        table@.len() == num_led,
        forall|i: int| 0 <= i < num_led ==> table@[i] == blank_entry(),
{
    let mut table: Vec<ScanEntry> = Vec::new();
    let mut made: u32 = 0;
    while made < num_led
        invariant
            made <= num_led,
            table@.len() == made,
            forall|i: int| 0 <= i < made ==> table@[i] == blank_entry(),
        decreases num_led - made,
    {
        table.push(ScanEntry { status: Status::Uncalibrated, xy: (0, 0), depth: Some((0, 0)) });
        made = made + 1;
    }
    table
}

/// The three coordinates of an entry; the depth of an entry without a side
/// view counts as zero.
pub open spec fn coordinate(entry: ScanEntry, axis: int) -> int {
    if axis == 0 {
        entry.xy.0 as int
    } else if axis == 1 {
        entry.xy.1 as int
    } else {
        match entry.depth {
            Some(side) => side.0 as int,
            None => 0,
        }
    }
}

/// The second number of the side view of an entry, which the pass leaves
/// alone; zero where there is no side view.
pub open spec fn side_note(entry: ScanEntry) -> int {
    match entry.depth {
        Some(side) => side.1 as int,
        None => 0,
    }
}

/// The smallest coordinate on an axis among the first `count` entries; the
/// largest `i32` where there is none.
pub open spec fn lowest(table: Seq<ScanEntry>, count: nat, axis: int) -> int
    recommends
        count <= table.len(),
    decreases count,
{
    if count == 0 {
        i32::MAX as int
    } else {
        let before = lowest(table, (count - 1) as nat, axis);
        let here = coordinate(table[count - 1], axis);
        if here < before {
            here
        } else {
            before
        }
    }
}

/// The largest coordinate on an axis among the first `count` entries; the
/// smallest `i32` where there is none.
pub open spec fn highest(table: Seq<ScanEntry>, count: nat, axis: int) -> int
    recommends
        count <= table.len(),
    decreases count,
{
    if count == 0 {
        i32::MIN as int
    } else {
        let before = highest(table, (count - 1) as nat, axis);
        let here = coordinate(table[count - 1], axis);
        if here > before {
            here
        } else {
            before
        }
    }
}

/// A coordinate after the pass: moved so that the smallest becomes zero,
/// then mirrored within the range that the axis then has, from zero to the
/// distance between the smallest and the largest. That is the distance of
/// the coordinate from the largest.
pub open spec fn settled(value: int, smallest: int, largest: int) -> int {
    (largest - smallest) - (value - smallest)
}

/// Whether a number can be held in an `i32`.
pub open spec fn in_range(value: int) -> bool {
    i32::MIN <= value <= i32::MAX
}

/// An entry after the pass over the first `count` entries of its table.
/// The horizontal coordinate is only moved; the vertical one and the depth
/// are moved and mirrored.
pub open spec fn processed_entry(table: Seq<ScanEntry>, count: nat, entry: ScanEntry)
    -> ScanEntry {
    ScanEntry {
        status: entry.status,
        xy: (
            (entry.xy.0 - lowest(table, count, 0)) as i32,
            settled(entry.xy.1 as int, lowest(table, count, 1), highest(table, count, 1)) as i32,
        ),
        depth: match entry.depth {
            Some(side) => Some(
                (
                    settled(side.0 as int, lowest(table, count, 2), highest(table, count, 2)) as i32,
                    side.1,
                ),
            ),
            None => None,
        },
    }
}

/// The table after the pass over its first `count` entries; the entries
/// behind them stay as they are.
pub open spec fn processed(table: Seq<ScanEntry>, count: nat) -> Seq<ScanEntry> {
    Seq::new(
        table.len(),
        |i: int|
            if i < count {
                processed_entry(table, count, table[i])
            } else {
                table[i]
            },
    )
}

/// Whether the pass can run over the first `count` entries: they exist,
/// each has a side view, and every coordinate that the pass gives can be
/// held in an `i32`.
pub open spec fn processable(table: Seq<ScanEntry>, count: nat) -> bool {
    &&& count <= table.len()
    &&& forall|i: int|
        0 <= i < count ==> {
            &&& (#[trigger] table[i]).depth is Some
            &&& in_range(table[i].xy.0 - lowest(table, count, 0))
            &&& in_range(
                settled(table[i].xy.1 as int, lowest(table, count, 1), highest(table, count, 1)),
            )
            &&& in_range(
                settled(
                    coordinate(table[i], 2),
                    lowest(table, count, 2),
                    highest(table, count, 2),
                ),
            )
        }
}

/// The smallest and largest coordinates that the pass needs.
#[derive(Clone, Copy, Debug, PartialEq, Eq)]
pub struct Extremes {
    pub x_min: i32,
    pub y_min: i32,
    pub y_max: i32,
    pub z_min: i32,
    pub z_max: i32,
}

/// Whether `found` holds the extremes of the first `count` entries.
pub open spec fn extremes_of(table: Seq<ScanEntry>, count: nat, found: Extremes) -> bool {
    &&& found.x_min == lowest(table, count, 0)
    &&& found.y_min == lowest(table, count, 1)
    &&& found.y_max == highest(table, count, 1)
    &&& found.z_min == lowest(table, count, 2)
    &&& found.z_max == highest(table, count, 2)
}

/// Finds the extremes of the first `count` entries; `None` where one of
/// them has no side view.
pub fn find_extremes(table: &Vec<ScanEntry>, count: usize) -> (found: Option<Extremes>)
    requires
        count <= table@.len(),
    ensures
        found is Some <==> forall|i: int| 0 <= i < count ==> (#[trigger] table@[i]).depth is Some,
        found matches Some(e) ==> extremes_of(table@, count as nat, e),
{
    let mut found = Extremes {
        x_min: i32::MAX,
        y_min: i32::MAX,
        y_max: i32::MIN,
        z_min: i32::MAX,
        z_max: i32::MIN,
    };
    let mut at: usize = 0;
    while at < count
        invariant
            at <= count <= table@.len(),
            forall|i: int| 0 <= i < at ==> (#[trigger] table@[i]).depth is Some,
            extremes_of(table@, at as nat, found),
        decreases count - at,
    {
        let entry = table[at];
        match entry.depth {
            None => {
                return None;
            },
            Some(side) => {
                if entry.xy.0 < found.x_min {
                    found.x_min = entry.xy.0;
                }
                if entry.xy.1 < found.y_min {
                    found.y_min = entry.xy.1;
                }
                if entry.xy.1 > found.y_max {
                    found.y_max = entry.xy.1;
                }
                if side.0 < found.z_min {
                    found.z_min = side.0;
                }
                if side.0 > found.z_max {
                    found.z_max = side.0;
                }
            },
        }
        at = at + 1;
    }
    Some(found)
}

/// A coordinate after the pass, in a type wide enough for every input.
fn settle(value: i32, smallest: i32, largest: i32) -> (moved: i64)
    ensures
        moved == settled(value as int, smallest as int, largest as int),
{
    (largest as i64 - smallest as i64) - (value as i64 - smallest as i64)
}

/// Whether a wide number can be held in an `i32`.
fn fits(value: i64) -> (yes: bool)
    ensures
        yes == in_range(value as int),
{
    -0x8000_0000 <= value && value <= 0x7FFF_FFFF
}

/// Tells whether the pass can run over the first `led_count` entries.
pub fn can_post_process(table: &Vec<ScanEntry>, led_count: u32) -> (yes: bool)
    ensures
        yes == processable(table@, led_count as nat),
{
    if led_count as usize > table.len() {
        return false;
    }
    let count: usize = led_count as usize;
    let found = match find_extremes(table, count) {
        Some(found) => found,
        None => {
            return false;
        },
    };
    let mut at: usize = 0;
    while at < count
        invariant
            at <= count <= table@.len(),
            count == led_count,
            extremes_of(table@, count as nat, found),
            forall|i: int| 0 <= i < count ==> (#[trigger] table@[i]).depth is Some,
            forall|i: int|
                0 <= i < at ==> {
                    &&& in_range((#[trigger] table@[i]).xy.0 - lowest(table@, count as nat, 0))
                    &&& in_range(
                        settled(
                            table@[i].xy.1 as int,
                            lowest(table@, count as nat, 1),
                            highest(table@, count as nat, 1),
                        ),
                    )
                    &&& in_range(
                        settled(
                            coordinate(table@[i], 2),
                            lowest(table@, count as nat, 2),
                            highest(table@, count as nat, 2),
                        ),
                    )
                },
        decreases count - at,
    {
        let entry = table[at];
        let side = match entry.depth {
            Some(side) => side,
            None => {
                return false;
            },
        };
        let x: i64 = entry.xy.0 as i64 - found.x_min as i64;
        let y: i64 = settle(entry.xy.1, found.y_min, found.y_max);
        let z: i64 = settle(side.0, found.z_min, found.z_max);
        if !fits(x) || !fits(y) || !fits(z) {
            return false;
        }
        at = at + 1;
    }
    true
}

/// Brings the first `led_count` entries into their final form.
///
/// Each axis is moved so that its smallest coordinate becomes zero. The
/// vertical axis and the depth are then mirrored at the middle of their
/// range, so that the largest coordinate ends at zero and the smallest at
/// the far end. Statuses and the second number of each side view stay as
/// they are.
pub fn post_process(table: &mut Vec<ScanEntry>, led_count: u32)
    requires
        processable(old(table)@, led_count as nat),
    ensures
        final(table)@ == processed(old(table)@, led_count as nat),
{
    let ghost before = table@;
    let count: usize = led_count as usize;
    let found = match find_extremes(table, count) {
        Some(found) => found,
        None => {
            return ;
        },
    };
    let mut at: usize = 0;
    while at < count
        invariant
            at <= count <= before.len(),
            count == led_count,
            table@.len() == before.len(),
            processable(before, count as nat),
            extremes_of(before, count as nat, found),
            forall|i: int|
                0 <= i < at ==> table@[i] == processed_entry(before, count as nat, before[i]),
            forall|i: int| at <= i < before.len() ==> table@[i] == before[i],
        decreases count - at,
    {
        let entry = table[at];
        assert(entry == before[at as int]);
        let side = match entry.depth {
            Some(side) => side,
            None => {
                return ;
            },
        };
        let x: i64 = entry.xy.0 as i64 - found.x_min as i64;
        let y: i64 = settle(entry.xy.1, found.y_min, found.y_max);
        let z: i64 = settle(side.0, found.z_min, found.z_max);
        let moved = ScanEntry {
            status: entry.status,
            xy: (x as i32, y as i32),
            depth: Some((z as i32, side.1)),
        };
        table.set(at, moved);
        at = at + 1;
    }
    assert(table@ =~= processed(before, led_count as nat));
}

/// Every coordinate of the first `count` entries lies between the smallest
/// and the largest.
pub proof fn lemma_extremes_bound(table: Seq<ScanEntry>, count: nat, axis: int, i: int)
    requires
        count <= table.len(),
        0 <= i < count,
    ensures
        lowest(table, count, axis) <= coordinate(table[i], axis) <= highest(table, count, axis),
    decreases count,
{
    if i < count - 1 {
        lemma_extremes_bound(table, (count - 1) as nat, axis, i);
    }
}

/// The smallest and the largest coordinate are coordinates of entries.
pub proof fn lemma_extremes_attained(table: Seq<ScanEntry>, count: nat, axis: int)
    requires
        0 < count <= table.len(),
    ensures
        exists|i: int| 0 <= i < count && coordinate(table[i], axis) == lowest(table, count, axis),
        exists|i: int| 0 <= i < count && coordinate(table[i], axis) == highest(table, count, axis),
    decreases count,
{
    let here = coordinate(table[count - 1], axis);
    if count == 1 {
        lemma_coordinate_in_range(table[0], axis);
        assert(lowest(table, 0, axis) == i32::MAX);
        assert(highest(table, 0, axis) == i32::MIN);
        assert(coordinate(table[0], axis) == lowest(table, count, axis));
        assert(coordinate(table[0], axis) == highest(table, count, axis));
    } else {
        lemma_extremes_attained(table, (count - 1) as nat, axis);
        let low = choose|i: int|
            0 <= i < count - 1 && coordinate(table[i], axis) == lowest(
                table,
                (count - 1) as nat,
                axis,
            );
        let high = choose|i: int|
            0 <= i < count - 1 && coordinate(table[i], axis) == highest(
                table,
                (count - 1) as nat,
                axis,
            );
        if here < lowest(table, (count - 1) as nat, axis) {
            assert(coordinate(table[count - 1], axis) == lowest(table, count, axis));
        } else {
            assert(coordinate(table[low], axis) == lowest(table, count, axis));
        }
        if here > highest(table, (count - 1) as nat, axis) {
            assert(coordinate(table[count - 1], axis) == highest(table, count, axis));
        } else {
            assert(coordinate(table[high], axis) == highest(table, count, axis));
        }
    }
}

/// A coordinate can be held in an `i32`.
proof fn lemma_coordinate_in_range(entry: ScanEntry, axis: int)
    ensures
        in_range(coordinate(entry, axis)),
{
}

/// A coordinate of an entry that none of the others goes below is the
/// smallest.
proof fn lemma_lowest_is(table: Seq<ScanEntry>, count: nat, axis: int, at: int)
    requires
        count <= table.len(),
        0 <= at < count,
        forall|i: int| 0 <= i < count ==> coordinate(table[at], axis) <= coordinate(table[i], axis),
    ensures
        lowest(table, count, axis) == coordinate(table[at], axis),
{
    lemma_extremes_bound(table, count, axis, at);
    lemma_extremes_attained(table, count, axis);
}

/// A coordinate of an entry that none of the others exceeds is the largest.
proof fn lemma_highest_is(table: Seq<ScanEntry>, count: nat, axis: int, at: int)
    requires
        count <= table.len(),
        0 <= at < count,
        forall|i: int| 0 <= i < count ==> coordinate(table[i], axis) <= coordinate(table[at], axis),
    ensures
        highest(table, count, axis) == coordinate(table[at], axis),
{
    lemma_extremes_bound(table, count, axis, at);
    lemma_extremes_attained(table, count, axis);
}

/// Whether the first `count` entries are in final position: on each axis
/// the smallest coordinate is zero. This asks for at least one entry.
pub open spec fn normalized(table: Seq<ScanEntry>, count: nat) -> bool {
    &&& lowest(table, count, 0) == 0
    &&& lowest(table, count, 1) == 0
    &&& lowest(table, count, 2) == 0
}

/// What the pass does to the first `count` entries: the horizontal axis is
/// moved to start at zero, the two others are turned over so that their
/// largest coordinate ends at zero. The entries are then in final position,
/// and each axis is as long as it was.
pub proof fn lemma_processed_shape(table: Seq<ScanEntry>, count: nat)
    requires
        0 < count,
        processable(table, count),
    ensures
        forall|i: int|
            0 <= i < count ==> {
                &&& coordinate(#[trigger] processed(table, count)[i], 0) == coordinate(table[i], 0)
                    - lowest(table, count, 0)
                &&& coordinate(processed(table, count)[i], 1) == highest(table, count, 1)
                    - coordinate(table[i], 1)
                &&& coordinate(processed(table, count)[i], 2) == highest(table, count, 2)
                    - coordinate(table[i], 2)
                &&& processed(table, count)[i].status == table[i].status
                &&& processed(table, count)[i].depth is Some
                &&& side_note(processed(table, count)[i]) == side_note(table[i])
            },
        normalized(processed(table, count), count),
        highest(processed(table, count), count, 0) == highest(table, count, 0) - lowest(
            table,
            count,
            0,
        ),
        highest(processed(table, count), count, 1) == highest(table, count, 1) - lowest(
            table,
            count,
            1,
        ),
        highest(processed(table, count), count, 2) == highest(table, count, 2) - lowest(
            table,
            count,
            2,
        ),
{
    let after = processed(table, count);
    assert forall|i: int| 0 <= i < count implies {
        &&& lowest(table, count, 0) <= coordinate(#[trigger] table[i], 0) <= highest(
            table,
            count,
            0,
        )
        &&& lowest(table, count, 1) <= coordinate(table[i], 1) <= highest(table, count, 1)
        &&& lowest(table, count, 2) <= coordinate(table[i], 2) <= highest(table, count, 2)
    } by {
        lemma_extremes_bound(table, count, 0, i);
        lemma_extremes_bound(table, count, 1, i);
        lemma_extremes_bound(table, count, 2, i);
    }
    lemma_extremes_attained(table, count, 0);
    lemma_extremes_attained(table, count, 1);
    lemma_extremes_attained(table, count, 2);
    let x_low = choose|i: int| 0 <= i < count && coordinate(table[i], 0) == lowest(table, count, 0);
    let x_high = choose|i: int|
        0 <= i < count && coordinate(table[i], 0) == highest(table, count, 0);
    let y_low = choose|i: int| 0 <= i < count && coordinate(table[i], 1) == lowest(table, count, 1);
    let y_high = choose|i: int|
        0 <= i < count && coordinate(table[i], 1) == highest(table, count, 1);
    let z_low = choose|i: int| 0 <= i < count && coordinate(table[i], 2) == lowest(table, count, 2);
    let z_high = choose|i: int|
        0 <= i < count && coordinate(table[i], 2) == highest(table, count, 2);
    assert forall|i: int| 0 <= i < count implies {
        &&& coordinate(#[trigger] after[i], 0) == coordinate(table[i], 0) - lowest(table, count, 0)
        &&& coordinate(after[i], 1) == highest(table, count, 1) - coordinate(table[i], 1)
        &&& coordinate(after[i], 2) == highest(table, count, 2) - coordinate(table[i], 2)
        &&& after[i].status == table[i].status
        &&& after[i].depth is Some
        &&& side_note(after[i]) == side_note(table[i])
    } by {
        assert(table[i].depth is Some);
    }
    lemma_lowest_is(after, count, 0, x_low);
    lemma_highest_is(after, count, 0, x_high);
    lemma_lowest_is(after, count, 1, y_high);
    lemma_highest_is(after, count, 1, y_low);
    lemma_lowest_is(after, count, 2, z_high);
    lemma_highest_is(after, count, 2, z_low);
}

/// Entries that are in final position and have their side views can be
/// passed over: no coordinate leaves the range of an `i32`.
pub proof fn lemma_normalized_is_processable(table: Seq<ScanEntry>, count: nat)
    requires
        count <= table.len(),
        forall|i: int| 0 <= i < count ==> (#[trigger] table[i]).depth is Some,
        normalized(table, count),
    ensures
        count > 0,
        processable(table, count),
{
    assert forall|i: int| 0 <= i < count implies {
        &&& in_range((#[trigger] table[i]).xy.0 - lowest(table, count, 0))
        &&& in_range(
            settled(table[i].xy.1 as int, lowest(table, count, 1), highest(table, count, 1)),
        )
        &&& in_range(
            settled(coordinate(table[i], 2), lowest(table, count, 2), highest(table, count, 2)),
        )
    } by {
        lemma_extremes_bound(table, count, 0, i);
        lemma_extremes_bound(table, count, 1, i);
        lemma_extremes_bound(table, count, 2, i);
        lemma_extremes_attained(table, count, 1);
        lemma_extremes_attained(table, count, 2);
        let y_high = choose|j: int|
            0 <= j < count && coordinate(table[j], 1) == highest(table, count, 1);
        let z_high = choose|j: int|
            0 <= j < count && coordinate(table[j], 2) == highest(table, count, 2);
        lemma_coordinate_in_range(table[y_high], 1);
        lemma_coordinate_in_range(table[z_high], 2);
        lemma_coordinate_in_range(table[i], 0);
    }
}

/// Running the pass twice over entries that are in final position gives
/// the table back as it was: no coordinate, no status and no side view
/// differs.
pub proof fn lemma_post_process_twice(table: Seq<ScanEntry>, count: nat)
    requires
        count <= table.len(),
        forall|i: int| 0 <= i < count ==> (#[trigger] table[i]).depth is Some,
        normalized(table, count),
    ensures
        processable(table, count),
        processable(processed(table, count), count),
        processed(processed(table, count), count) == table,
{
    let once = processed(table, count);
    lemma_normalized_is_processable(table, count);
    lemma_processed_shape(table, count);
    assert forall|i: int| 0 <= i < count implies (#[trigger] once[i]).depth is Some by {}
    lemma_normalized_is_processable(once, count);
    lemma_processed_shape(once, count);
    let twice = processed(once, count);
    assert forall|i: int| 0 <= i < table.len() implies twice[i] == table[i] by {
        if i < count {
            assert(table[i].depth is Some);
            assert(once[i].depth is Some);
            assert(coordinate(twice[i], 0) == coordinate(table[i], 0));
            assert(coordinate(twice[i], 1) == coordinate(table[i], 1));
            assert(coordinate(twice[i], 2) == coordinate(table[i], 2));
            assert(twice[i].depth is Some);
            assert(side_note(twice[i]) == side_note(table[i]));
            assert(twice[i].depth->0 == table[i].depth->0);
            assert(twice[i].xy == table[i].xy);
        }
    }
    assert(twice =~= table);
}

/// Whether the first `count` entries of `moved` are those of `table` with
/// one distance added to each axis, and nothing else changed.
pub open spec fn shifted(
    table: Seq<ScanEntry>,
    moved: Seq<ScanEntry>,
    count: nat,
    dx: int,
    dy: int,
    dz: int,
) -> bool {
    &&& count <= table.len()
    &&& count <= moved.len()
    &&& forall|i: int|
        0 <= i < count ==> {
            &&& (#[trigger] moved[i]).status == table[i].status
            &&& moved[i].depth is Some
            &&& table[i].depth is Some
            &&& coordinate(moved[i], 0) == coordinate(table[i], 0) + dx
            &&& coordinate(moved[i], 1) == coordinate(table[i], 1) + dy
            &&& coordinate(moved[i], 2) == coordinate(table[i], 2) + dz
            &&& side_note(moved[i]) == side_note(table[i])
        }
}

/// The extremes of a table that was moved as a whole have moved with it.
proof fn lemma_extremes_shift(
    table: Seq<ScanEntry>,
    moved: Seq<ScanEntry>,
    count: nat,
    axis: int,
    distance: int,
)
    requires
        0 < count <= table.len(),
        count <= moved.len(),
        forall|i: int|
            0 <= i < count ==> coordinate(#[trigger] moved[i], axis) == coordinate(table[i], axis)
                + distance,
    ensures
        lowest(moved, count, axis) == lowest(table, count, axis) + distance,
        highest(moved, count, axis) == highest(table, count, axis) + distance,
{
    lemma_extremes_attained(table, count, axis);
    let low = choose|i: int|
        0 <= i < count && coordinate(table[i], axis) == lowest(table, count, axis);
    let high = choose|i: int|
        0 <= i < count && coordinate(table[i], axis) == highest(table, count, axis);
    assert forall|i: int| 0 <= i < count implies coordinate(moved[low], axis) <= coordinate(
        #[trigger] moved[i],
        axis,
    ) <= coordinate(moved[high], axis) by {
        lemma_extremes_bound(table, count, axis, i);
        assert(coordinate(moved[i], axis) == coordinate(table[i], axis) + distance);
    }
    assert(coordinate(moved[low], axis) == coordinate(table[low], axis) + distance);
    assert(coordinate(moved[high], axis) == coordinate(table[high], axis) + distance);
    lemma_lowest_is(moved, count, axis, low);
    lemma_highest_is(moved, count, axis, high);
}

/// The pass looks only at where the entries lie relative to each other: a
/// table that was moved as a whole ends with the same entries.
pub proof fn lemma_shift_invariant(
    table: Seq<ScanEntry>,
    moved: Seq<ScanEntry>,
    count: nat,
    dx: int,
    dy: int,
    dz: int,
)
    requires
        shifted(table, moved, count, dx, dy, dz),
        processable(table, count),
        processable(moved, count),
    ensures
        forall|i: int|
            0 <= i < count ==> #[trigger] processed(moved, count)[i] == processed(table, count)[i],
{
    if count > 0 {
        lemma_extremes_shift(table, moved, count, 0, dx);
        lemma_extremes_shift(table, moved, count, 1, dy);
        lemma_extremes_shift(table, moved, count, 2, dz);
        lemma_processed_shape(table, count);
        lemma_processed_shape(moved, count);
        let a = processed(table, count);
        let b = processed(moved, count);
        assert forall|i: int| 0 <= i < count implies #[trigger] b[i] == a[i] by {
            assert(moved[i].status == table[i].status);
            assert(coordinate(b[i], 0) == coordinate(a[i], 0));
            assert(coordinate(b[i], 1) == coordinate(a[i], 1));
            assert(coordinate(b[i], 2) == coordinate(a[i], 2));
            assert(side_note(b[i]) == side_note(a[i]));
            assert(a[i].depth is Some && b[i].depth is Some);
            assert(b[i].depth->0 == a[i].depth->0);
            assert(b[i].xy == a[i].xy);
        }
    }
}

/// A single entry ends at the origin: it is the smallest and the largest
/// on every axis. Its status and the second number of its side view stay.
pub proof fn lemma_single_entry(table: Seq<ScanEntry>)
    requires
        table.len() >= 1,
        table[0].depth is Some,
    ensures
        processable(table, 1),
        processed(table, 1)[0].status == table[0].status,
        processed(table, 1)[0].xy == (0i32, 0i32),
        processed(table, 1)[0].depth is Some,
        coordinate(processed(table, 1)[0], 2) == 0,
        side_note(processed(table, 1)[0]) == side_note(table[0]),
{
    lemma_lowest_is(table, 1, 0, 0);
    lemma_lowest_is(table, 1, 1, 0);
    lemma_lowest_is(table, 1, 2, 0);
    lemma_highest_is(table, 1, 0, 0);
    lemma_highest_is(table, 1, 1, 0);
    lemma_highest_is(table, 1, 2, 0);
    assert(processable(table, 1));
}

} // verus!
