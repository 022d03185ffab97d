//! What a scan asks of the camera frames: the region to look at and the
//! band of colors to keep.

use crate::scan::FilterColor;
use vstd::prelude::*;

verus! {

/// The largest hue that the camera library knows.
pub const HUE_MAX: u8 = 179;

/// A band of hue, saturation and value: the lowest and the highest of each.
#[derive(Clone, Copy, Debug, PartialEq, Eq, Structural)]
pub struct HsvBounds {
    pub lower_h: u8,
    pub lower_s: u8,
    pub lower_v: u8,
    pub upper_h: u8,
    pub upper_s: u8,
    pub upper_v: u8,
}

/// The band that a channel is filtered with when the configuration names
/// none.
pub open spec fn default_bounds(color: FilterColor) -> HsvBounds {
    match color {
        FilterColor::Red => HsvBounds {
            lower_h: 0,
            lower_s: 100,
            lower_v: 100,
            upper_h: 5,
            upper_s: 255,
            upper_v: 255,
        },
        FilterColor::Green => HsvBounds {
            lower_h: 35,
            lower_s: 100,
            lower_v: 100,
            upper_h: 85,
            upper_s: 255,
            upper_v: 255,
        },
        FilterColor::Blue => HsvBounds {
            lower_h: 120,
            lower_s: 150,
            lower_v: 150,
            upper_h: 140,
            upper_s: 255,
            upper_v: 255,
        },
    }
}

/// The band that six configured numbers stand for: the lower hue,
/// saturation and value, then the upper ones.
pub open spec fn bounds_of_list(list: Seq<u8>) -> HsvBounds
    recommends
        list.len() >= 6,
{
    HsvBounds {
        lower_h: list[0],
        lower_s: list[1],
        lower_v: list[2],
        upper_h: list[3],
        upper_s: list[4],
        upper_v: list[5],
    }
}

/// The six numbers that stand for a band.
pub open spec fn list_of_bounds(bounds: HsvBounds) -> Seq<u8> {
    seq![
        bounds.lower_h,
        bounds.lower_s,
        bounds.lower_v,
        bounds.upper_h,
        bounds.upper_s,
        bounds.upper_v,
    ]
}

/// The band to filter a channel with: the configured one where there is
/// one, else the default of the channel. A configured list of fewer than
/// six numbers gives no band.
pub open spec fn chosen_bounds(color: FilterColor, configured: Option<Seq<u8>>) -> Option<
    HsvBounds,
> {
    match configured {
        Some(list) => if list.len() >= 6 {
            Some(bounds_of_list(list))
        } else {
            None
        },
        None => Some(default_bounds(color)),
    }
}

/// A byte lowered by an amount, but not below zero.
pub open spec fn lowered(value: u8, amount: u8) -> u8 {
    if value >= amount {
        (value - amount) as u8
    } else {
        0
    }
}

/// A byte raised by an amount, but not above 255.
pub open spec fn raised(value: u8, amount: u8) -> u8 {
    if value + amount <= 255 {
        (value + amount) as u8
    } else {
        255
    }
}

/// The smaller of a number and the largest hue.
pub open spec fn hue_capped(value: int) -> u8 {
    if value <= HUE_MAX {
        value as u8
    } else {
        HUE_MAX
    }
}

/// The band around a sampled color: saturation and value reach `range`
/// to either side, the hue a quarter of it, and the hue stays a hue.
pub open spec fn bounds_near(h: u8, s: u8, v: u8, range: u8) -> HsvBounds {
    HsvBounds {
        lower_h: hue_capped(lowered(h, range / 4) as int),
        lower_s: lowered(s, range),
        lower_v: lowered(v, range),
        upper_h: hue_capped(h + range / 4),
        upper_s: raised(s, range),
        upper_v: raised(v, range),
    }
}

/// Picks the default band of a channel.
pub fn default_filter(color: FilterColor) -> (bounds: HsvBounds)
    ensures
        bounds == default_bounds(color),
{
    match color {
        FilterColor::Red => HsvBounds {
            lower_h: 0,
            lower_s: 100,
            lower_v: 100,
            upper_h: 5,
            upper_s: 255,
            upper_v: 255,
        },
        FilterColor::Green => HsvBounds {
            lower_h: 35,
            lower_s: 100,
            lower_v: 100,
            upper_h: 85,
            upper_s: 255,
            upper_v: 255,
        },
        FilterColor::Blue => HsvBounds {
            lower_h: 120,
            lower_s: 150,
            lower_v: 150,
            upper_h: 140,
            upper_s: 255,
            upper_v: 255,
        },
    }
}

/// Picks the band to filter a channel with.
pub fn filter_bounds(color: FilterColor, configured: &Option<Vec<u8>>) -> (bounds: Option<
    HsvBounds,
>)
    ensures
        bounds == chosen_bounds(
            color,
            match *configured {
                Some(list) => Some(list@),
                None => None,
            },
        ),
{
    match configured {
        Some(list) => {
            if list.len() >= 6 {
                Some(
                    HsvBounds {
                        lower_h: list[0],
                        lower_s: list[1],
                        lower_v: list[2],
                        upper_h: list[3],
                        upper_s: list[4],
                        upper_v: list[5],
                    },
                )
            } else {
                None
            }
        },
        None => Some(default_filter(color)),
    }
}

/// Builds the band around a sampled color.
pub fn bounds_around(h: u8, s: u8, v: u8, range: u8) -> (bounds: HsvBounds)
    ensures
        bounds == bounds_near(h, s, v, range),
{
    let hue_range: u8 = range / 4;
    let low_h: u8 = if h >= hue_range {
        h - hue_range
    } else {
        0
    };
    let high_h: u16 = h as u16 + hue_range as u16;
    HsvBounds {
        lower_h: if low_h <= HUE_MAX {
            low_h
        } else {
            HUE_MAX
        },
        lower_s: if s >= range {
            s - range
        } else {
            0
        },
        lower_v: if v >= range {
            v - range
        } else {
            0
        },
        upper_h: if high_h <= HUE_MAX as u16 {
            high_h as u8
        } else {
            HUE_MAX
        },
        upper_s: if s as u16 + range as u16 <= 255 {
            s + range
        } else {
            255
        },
        upper_v: if v as u16 + range as u16 <= 255 {
            v + range
        } else {
            255
        },
    }
}

/// Writes a band as the six numbers of the configuration.
pub fn bounds_to_list(bounds: HsvBounds) -> (list: Vec<u8>)
    ensures
        list@ == list_of_bounds(bounds),
{
    let mut list: Vec<u8> = Vec::new();
    list.push(bounds.lower_h);
    list.push(bounds.lower_s);
    list.push(bounds.lower_v);
    list.push(bounds.upper_h);
    list.push(bounds.upper_s);
    list.push(bounds.upper_v);
    assert(list@ =~= list_of_bounds(bounds));
    list
}

/// A band that is written down and read again is the same band, for every
/// channel.
pub proof fn lemma_bounds_read_back(color: FilterColor, bounds: HsvBounds)
    ensures
        chosen_bounds(color, Some(list_of_bounds(bounds))) == Some(bounds),
{
}

/// The band around a sampled color is never empty in saturation and value,
/// and its hues are hues.
pub proof fn lemma_bounds_near_ordered(h: u8, s: u8, v: u8, range: u8)
    ensures
        bounds_near(h, s, v, range).lower_s <= s <= bounds_near(h, s, v, range).upper_s,
        bounds_near(h, s, v, range).lower_v <= v <= bounds_near(h, s, v, range).upper_v,
        bounds_near(h, s, v, range).lower_h <= bounds_near(h, s, v, range).upper_h <= HUE_MAX,
{
}

/// The regions of interest of the cameras and what the baseline measured.
#[derive(Clone, Copy, Debug, PartialEq, Eq)]
pub struct CropPos {
    pub x1_start: i32,
    pub y1_start: i32,
    pub x1_end: i32,
    pub y1_end: i32,
    pub x2_start: Option<i32>,
    pub y2_start: Option<i32>,
    pub x2_end: Option<i32>,
    pub y2_end: Option<i32>,
    pub cam_1_brightest: Option<u8>,
    pub cam_2_brightest: Option<u8>,
    pub cam_1_darkest: Option<u8>,
    pub cam_2_darkest: Option<u8>,
}

/// What one scan works with: the regions, and how the container faces.
#[derive(Clone, Copy, Debug, PartialEq, Eq)]
pub struct ScanData {
    pub pos: CropPos,
    pub invert: bool,
    pub depth: bool,
}

/// The region of the first camera from four configured numbers: the start
/// in x and y, then the end in x and y.
pub open spec fn single_crop(list: Seq<i32>) -> CropPos
    recommends
        list.len() >= 4,
{
    CropPos {
        x1_start: list[0],
        y1_start: list[1],
        x1_end: list[2],
        y1_end: list[3],
        x2_start: None,
        y2_start: None,
        x2_end: None,
        y2_end: None,
        cam_1_brightest: None,
        cam_2_brightest: None,
        cam_1_darkest: None,
        cam_2_darkest: None,
    }
}

/// The regions of both cameras from eight configured numbers: the four of
/// the first camera, then the four of the second.
pub open spec fn double_crop(list: Seq<i32>) -> CropPos
    recommends
        list.len() >= 8,
{
    CropPos {
        x1_start: list[0],
        y1_start: list[1],
        x1_end: list[2],
        y1_end: list[3],
        x2_start: Some(list[4]),
        y2_start: Some(list[5]),
        x2_end: Some(list[6]),
        y2_end: Some(list[7]),
        cam_1_brightest: None,
        cam_2_brightest: None,
        cam_1_darkest: None,
        cam_2_darkest: None,
    }
}

/// The regions that a configured list fixes, so that nobody has to draw
/// them: with two cameras the list must hold exactly eight numbers, with
/// one camera at least four.
pub open spec fn configured_crop(list: Option<Seq<i32>>, multi_camera: bool) -> Option<CropPos> {
    match list {
        None => None,
        Some(list) => if multi_camera {
            if list.len() == 8 {
                Some(double_crop(list))
            } else {
                None
            }
        } else {
            if list.len() >= 4 {
                Some(single_crop(list))
            } else {
                None
            }
        },
    }
}

/// Takes the regions from the configuration where it fixes them; `None`
/// means that they have to be drawn.
pub fn crop(crop_override: &Option<Vec<i32>>, multi_camera: bool) -> (pos: Option<CropPos>)
    ensures
        pos == configured_crop(
            match *crop_override {
                Some(list) => Some(list@),
                None => None,
            },
            multi_camera,
        ),
{
    match crop_override {
        None => None,
        Some(list) => {
            if multi_camera {
                if list.len() == 8 {
                    Some(
                        CropPos {
                            x1_start: list[0],
                            y1_start: list[1],
                            x1_end: list[2],
                            y1_end: list[3],
                            x2_start: Some(list[4]),
                            y2_start: Some(list[5]),
                            x2_end: Some(list[6]),
                            y2_end: Some(list[7]),
                            cam_1_brightest: None,
                            cam_2_brightest: None,
                            cam_1_darkest: None,
                            cam_2_darkest: None,
                        },
                    )
                } else {
                    None
                }
            } else {
                if list.len() >= 4 {
                    Some(
                        CropPos {
                            x1_start: list[0],
                            y1_start: list[1],
                            x1_end: list[2],
                            y1_end: list[3],
                            x2_start: None,
                            y2_start: None,
                            x2_end: None,
                            y2_end: None,
                            cam_1_brightest: None,
                            cam_2_brightest: None,
                            cam_1_darkest: None,
                            cam_2_darkest: None,
                        },
                    )
                } else {
                    None
                }
            }
        },
    }
}

/// A rectangle as the camera library takes it: a corner and a size.
#[derive(Clone, Copy, Debug, PartialEq, Eq, Structural)]
pub struct Rect {
    pub x: i32,
    pub y: i32,
    pub width: i32,
    pub height: i32,
}

/// The rectangle from a start to an end: the start is its corner, the
/// distance to the end its size. There is none where a distance cannot be
/// held in an `i32`.
pub open spec fn rect_between(x_start: i32, y_start: i32, x_end: i32, y_end: i32) -> Option<Rect> {
    if i32::MIN <= x_end - x_start <= i32::MAX && i32::MIN <= y_end - y_start <= i32::MAX {
        Some(
            Rect {
                x: x_start,
                y: y_start,
                width: (x_end - x_start) as i32,
                height: (y_end - y_start) as i32,
            },
        )
    } else {
        None
    }
}

/// Builds the rectangle from a start to an end.
pub fn region(x_start: i32, y_start: i32, x_end: i32, y_end: i32) -> (rect: Option<Rect>)
    ensures
        rect == rect_between(x_start, y_start, x_end, y_end),
{
    let width: i64 = x_end as i64 - x_start as i64;
    let height: i64 = y_end as i64 - y_start as i64;
    if -0x8000_0000 <= width && width <= 0x7FFF_FFFF && -0x8000_0000 <= height && height
        <= 0x7FFF_FFFF {
        Some(Rect { x: x_start, y: y_start, width: width as i32, height: height as i32 })
    } else {
        None
    }
}

/// Whether the window library reports a key: it gives a positive code, and
/// 255 where no key was pressed.
pub open spec fn is_key(code: i32) -> bool {
    code > 0 && code != 255
}

/// Tells whether a key was pressed.
pub fn key_pressed(code: i32) -> (pressed: bool)
    ensures
        pressed == is_key(code),
{
    code > 0 && code != 255
}

/// What the mouse did in the window in which a region is drawn.
#[derive(Clone, Copy, Debug, PartialEq, Eq, Structural)]
pub enum MouseEvent {
    /// The left button went down.
    Down { x: i32, y: i32 },
    /// The left button went up.
    Up { x: i32, y: i32 },
    /// The mouse moved.
    Move { x: i32, y: i32 },
    /// Anything else.
    Other,
}

/// A region while it is drawn.
#[derive(Clone, Copy, Debug, PartialEq, Eq, Structural)]
pub struct Selection {
    pub x_start: i32,
    pub y_start: i32,
    pub x_end: i32,
    pub y_end: i32,
    /// Whether the button is held down.
    pub dragging: bool,
}

/// The region after an event of the mouse: pressing the button sets the
/// start, releasing it sets the end, and moving with the button held takes
/// the end along.
pub open spec fn dragged(selection: Selection, event: MouseEvent) -> Selection {
    match event {
        MouseEvent::Down { x, y } => Selection {
            x_start: x,
            y_start: y,
            x_end: selection.x_end,
            y_end: selection.y_end,
            dragging: true,
        },
        MouseEvent::Up { x, y } => Selection {
            x_start: selection.x_start,
            y_start: selection.y_start,
            x_end: x,
            y_end: y,
            dragging: false,
        },
        MouseEvent::Move { x, y } => if selection.dragging {
            Selection {
                x_start: selection.x_start,
                y_start: selection.y_start,
                x_end: x,
                y_end: y,
                dragging: true,
            }
        } else {
            selection
        },
        MouseEvent::Other => selection,
    }
}

/// Whether a region counts as drawn: neither its start nor its end lies
/// on the left edge, where both are before the first click.
pub open spec fn is_drawn(selection: Selection) -> bool {
    selection.x_start != 0 && selection.x_end != 0
}

/// Whether a point counts as picked: it lies on neither the left nor the
/// upper edge, where it is before the first click.
pub open spec fn is_picked(x: i32, y: i32) -> bool {
    x != 0 && y != 0
}

/// A region before anything was drawn.
pub fn no_selection() -> (selection: Selection)
    ensures
        selection == (Selection { x_start: 0, y_start: 0, x_end: 0, y_end: 0, dragging: false }),
        !is_drawn(selection),
{
    Selection { x_start: 0, y_start: 0, x_end: 0, y_end: 0, dragging: false }
}

/// Applies an event of the mouse to a region.
pub fn drag(selection: Selection, event: MouseEvent) -> (next: Selection)
    ensures
        next == dragged(selection, event),
{
    match event {
        MouseEvent::Down { x, y } => Selection {
            x_start: x,
            y_start: y,
            x_end: selection.x_end,
            y_end: selection.y_end,
            dragging: true,
        },
        MouseEvent::Up { x, y } => Selection {
            x_start: selection.x_start,
            y_start: selection.y_start,
            x_end: x,
            y_end: y,
            dragging: false,
        },
        MouseEvent::Move { x, y } => {
            if selection.dragging {
                Selection {
                    x_start: selection.x_start,
                    y_start: selection.y_start,
                    x_end: x,
                    y_end: y,
                    dragging: true,
                }
            } else {
                selection
            }
        },
        MouseEvent::Other => selection,
    }
}

/// Tells whether a region counts as drawn.
pub fn selection_drawn(selection: Selection) -> (drawn: bool)
    ensures
        drawn == is_drawn(selection),
{
    selection.x_start != 0 && selection.x_end != 0
}

/// Tells whether a point counts as picked.
pub fn point_picked(x: i32, y: i32) -> (picked: bool)
    ensures
        picked == is_picked(x, y),
{
    x != 0 && y != 0
}

/// The regions of a scan in which nobody draws: the whole frame of each
/// camera.
pub open spec fn whole_frames(frame: (i32, i32), second_frame: Option<(i32, i32)>) -> CropPos {
    CropPos {
        x1_start: 0,
        y1_start: 0,
        x1_end: frame.0,
        y1_end: frame.1,
        x2_start: Some(0),
        y2_start: Some(0),
        x2_end: match second_frame {
            Some(size) => Some(size.0),
            None => None,
        },
        y2_end: match second_frame {
            Some(size) => Some(size.1),
            None => None,
        },
        cam_1_brightest: None,
        cam_2_brightest: None,
        cam_1_darkest: None,
        cam_2_darkest: None,
    }
}

/// Builds the regions that cover the whole frame of each camera; a frame
/// is given by its width and its height.
pub fn whole_frame_crop(frame: (i32, i32), second_frame: Option<(i32, i32)>) -> (pos: CropPos)
    ensures
        pos == whole_frames(frame, second_frame),
{
    let (width, height) = frame;
    let (x2_end, y2_end) = match second_frame {
        Some((second_width, second_height)) => (Some(second_width), Some(second_height)),
        None => (None, None),
    };
    CropPos {
        x1_start: 0,
        y1_start: 0,
        x1_end: width,
        y1_end: height,
        x2_start: Some(0),
        y2_start: Some(0),
        x2_end,
        y2_end,
        cam_1_brightest: None,
        cam_2_brightest: None,
        cam_1_darkest: None,
        cam_2_darkest: None,
    }
}

} // verus!
