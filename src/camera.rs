use vstd::prelude::*;

use crate::geometry::{clamp_spec, Point, Rect, MAP_X1, MAP_X2, MAP_Y1, MAP_Y2};
use crate::terminal_constants::MAIN_CONSOLE_WIDTH;

verus! {

/// The part of the main console that shows the map.
pub const MAIN_VIEW_X1: i32 = 3;

pub const MAIN_VIEW_Y1: i32 = 3;

pub const MAIN_VIEW_X2: i32 = MAIN_CONSOLE_WIDTH - 4;

pub const MAIN_VIEW_Y2: i32 = 40;

/// How far the player may get from the camera before it follows.
pub const OFFSET_FROM_PLAYER_X: i32 = 15;

pub const OFFSET_FROM_PLAYER_Y: i32 = 10;

pub fn main_view_position() -> (r: Rect)
    ensures
        r == (Rect { x1: MAIN_VIEW_X1, y1: MAIN_VIEW_Y1, x2: MAIN_VIEW_X2, y2: MAIN_VIEW_Y2 }),
{
    Rect { x1: MAIN_VIEW_X1, y1: MAIN_VIEW_Y1, x2: MAIN_VIEW_X2, y2: MAIN_VIEW_Y2 }
}

/// Where the camera may stand so that the view stays on the map: the map
/// shrunk by half the view on each side.
pub open spec fn camera_border_spec() -> Rect {
    let width = MAIN_VIEW_X2 - MAIN_VIEW_X1;
    let height = MAIN_VIEW_Y2 - MAIN_VIEW_Y1;
    Rect {
        x1: (MAP_X1 + width / 2) as i32,
        y1: (MAP_Y1 + height / 2) as i32,
        x2: (MAP_X2 - (width - width / 2)) as i32,
        y2: (MAP_Y2 - (height - height / 2)) as i32,
    }
}

pub fn camera_border() -> (r: Rect)
    ensures
        r == camera_border_spec(),
        r == (Rect { x1: -54i32, y1: -82i32, x2: 53i32, y2: 81i32 }),
{
    let width = MAIN_VIEW_X2 - MAIN_VIEW_X1;
    let height = MAIN_VIEW_Y2 - MAIN_VIEW_Y1;
    Rect {
        x1: MAP_X1 + width / 2,
        y1: MAP_Y1 + height / 2,
        x2: MAP_X2 - (width - width / 2),
        y2: MAP_Y2 - (height - height / 2),
    }
}

/// The camera: the map cell shown at the centre of the main view.
#[derive(Clone, Copy, Debug, PartialEq, Eq, Structural)]
pub struct Camera {
    pub position: Point,
}

/// One coordinate of the camera after following: pulled to within `offset`
/// of the player, then kept within `[lo, hi]`.
pub open spec fn follow_axis(camera: int, player: int, offset: int, lo: int, hi: int) -> int {
    clamp_spec(clamp_spec(camera, player - offset, player + offset), lo, hi)
}

pub open spec fn followed(c: Camera, player: Point) -> Camera {
    let b = camera_border_spec();
    Camera {
        position: Point {
            x: follow_axis(c.position.x as int, player.x as int, OFFSET_FROM_PLAYER_X as int, b.x1 as int, b.x2 as int) as i32,
            y: follow_axis(c.position.y as int, player.y as int, OFFSET_FROM_PLAYER_Y as int, b.y1 as int, b.y2 as int) as i32,
        },
    }
}

fn follow_coordinate(camera: i32, player: i32, offset: i32, lo: i32, hi: i32) -> (r: i32)
    requires
        0 <= offset,
        lo <= hi,
    ensures
        r == follow_axis(camera as int, player as int, offset as int, lo as int, hi as int),
{
    let near = player as i64 - offset as i64;
    let far = player as i64 + offset as i64;
    let c = camera as i64;
    let pulled = if c < near {
        near
    } else if c > far {
        far
    } else {
        c
    };
    let kept = if pulled < lo as i64 {
        lo as i64
    } else if pulled > hi as i64 {
        hi as i64
    } else {
        pulled
    };
    kept as i32
}

impl Camera {
    pub fn new(position: Point) -> (r: Camera)
        ensures
            r.position == position,
    {
        Camera { position }
    }

    pub fn _get_position(&self) -> (r: &Point)
        ensures
            *r == self.position,
    {
        &self.position
    }

    /// The map cell shown at the top left corner of the console.
    pub fn get_start_view(&self) -> (r: Point)
        requires
            self.position.x >= i32::MIN + (MAIN_VIEW_X1 + MAIN_VIEW_X2) / 2,
            self.position.y >= i32::MIN + (MAIN_VIEW_Y1 + MAIN_VIEW_Y2) / 2,
        ensures
            r.x == self.position.x - (MAIN_VIEW_X1 + MAIN_VIEW_X2) / 2,
            r.y == self.position.y - (MAIN_VIEW_Y1 + MAIN_VIEW_Y2) / 2,
    {
        Point {
            x: self.position.x - (MAIN_VIEW_X1 + MAIN_VIEW_X2) / 2,
            y: self.position.y - (MAIN_VIEW_Y1 + MAIN_VIEW_Y2) / 2,
        }
    }
}

/// Lets the camera follow the player: it moves only as far as needed to keep
/// the player within the offsets, and never so far that the view leaves the
/// map.
pub fn move_camera(camera: &mut Camera, player: Point)
    ensures
        *final(camera) == followed(*old(camera), player),
{
    let b = camera_border();
    let x = follow_coordinate(camera.position.x, player.x, OFFSET_FROM_PLAYER_X, b.x1, b.x2);
    let y = follow_coordinate(camera.position.y, player.y, OFFSET_FROM_PLAYER_Y, b.y1, b.y2);
    camera.position = Point { x, y };
}

} // verus!
