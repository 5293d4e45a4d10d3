use vstd::prelude::*;

verus! {

/// A cell of the integer grid.
#[derive(Clone, Copy, Debug, PartialEq, Eq, Structural)]
pub struct Point {
    pub x: i32,
    pub y: i32,
}

impl Point {
    pub fn new(x: i32, y: i32) -> (r: Point)
        ensures
            r == (Point { x, y }),
    {
        Point { x, y }
    }
}

/// A rectangle of cells given by two corners; `x2` and `y2` are exclusive
/// bounds where the rectangle is normalised.
#[derive(Clone, Copy, Debug, PartialEq, Eq, Structural)]
pub struct Rect {
    pub x1: i32,
    pub y1: i32,
    pub x2: i32,
    pub y2: i32,
}

/// Lower bounds (inclusive) and upper bounds (exclusive) of the world map.
pub const MAP_X1: i32 = -100;

pub const MAP_Y1: i32 = -100;

pub const MAP_X2: i32 = 100;

pub const MAP_Y2: i32 = 100;

/// Width and height of the world map, in cells.
pub const MAP_WIDTH: usize = 200;

pub const MAP_HEIGHT: usize = 200;

pub open spec fn clamp_spec(v: int, lo: int, hi: int) -> int {
    if v < lo {
        lo
    } else if v > hi {
        hi
    } else {
        v
    }
}

/// The bounding rectangle of the world map.
pub fn map_border() -> (r: Rect)
    ensures
        r == (Rect { x1: MAP_X1, y1: MAP_Y1, x2: MAP_X2, y2: MAP_Y2 }),
{
    Rect { x1: MAP_X1, y1: MAP_Y1, x2: MAP_X2, y2: MAP_Y2 }
}

/// The cell reached from `p` by the offset `(dx, dy)`, each coordinate
/// clamped to the map, `[MAP_X1, MAP_X2 - 1]` and `[MAP_Y1, MAP_Y2 - 1]`.
pub open spec fn shifted_in_map(p: Point, dx: int, dy: int) -> Point {
    Point {
        x: clamp_spec(p.x + dx, MAP_X1 as int, MAP_X2 - 1) as i32,
        y: clamp_spec(p.y + dy, MAP_Y1 as int, MAP_Y2 - 1) as i32,
    }
}

pub open spec fn in_map(p: Point) -> bool {
    MAP_X1 <= p.x < MAP_X2 && MAP_Y1 <= p.y < MAP_Y2
}

fn clamp_i64(v: i64, lo: i64, hi: i64) -> (r: i64)
    requires
        lo <= hi,
    ensures
        r == clamp_spec(v as int, lo as int, hi as int),
{
    if v < lo {
        lo
    } else if v > hi {
        hi
    } else {
        v
    }
}

/// Moves `p` by `(dx, dy)` and keeps the result on the map.
pub fn shift_in_map(p: Point, dx: i32, dy: i32) -> (r: Point)
    ensures
        r == shifted_in_map(p, dx as int, dy as int),
        in_map(r),
{
    let x = clamp_i64(p.x as i64 + dx as i64, MAP_X1 as i64, MAP_X2 as i64 - 1);
    let y = clamp_i64(p.y as i64 + dy as i64, MAP_Y1 as i64, MAP_Y2 as i64 - 1);
    Point { x: x as i32, y: y as i32 }
}

} // verus!

verus! {

pub open spec fn min_spec(a: int, b: int) -> int {
    if a <= b {
        a
    } else {
        b
    }
}

pub open spec fn max_spec(a: int, b: int) -> int {
    if a >= b {
        a
    } else {
        b
    }
}

/// Turns a rectangle given by two corner cells, in any order, into the
/// normalised rectangle that covers both corners and every cell between.
pub trait QuasiRect {
    fn envelop_rect(&self) -> Rect;
}

impl QuasiRect for Rect {
    fn envelop_rect(&self) -> (r: Rect)
        ensures
            self.x1 < i32::MAX && self.x2 < i32::MAX && self.y1 < i32::MAX && self.y2 < i32::MAX
                ==> r == (Rect {
                x1: min_spec(self.x1 as int, self.x2 as int) as i32,
                x2: (max_spec(self.x1 as int, self.x2 as int) + 1) as i32,
                y1: min_spec(self.y1 as int, self.y2 as int) as i32,
                y2: (max_spec(self.y1 as int, self.y2 as int) + 1) as i32,
            }),
    {
        let (x1, x2) = if self.x1 <= self.x2 {
            (self.x1, self.x2)
        } else {
            (self.x2, self.x1)
        };
        let (y1, y2) = if self.y1 <= self.y2 {
            (self.y1, self.y2)
        } else {
            (self.y2, self.y1)
        };
        let x2 = if x2 < i32::MAX {
            x2 + 1
        } else {
            x2
        };
        let y2 = if y2 < i32::MAX {
            y2 + 1
        } else {
            y2
        };
        Rect { x1, x2, y1, y2 }
    }
}

/// The cells of a normalised rectangle, row by row.
pub fn cells_of(r: Rect) -> (cells: Vec<Point>)
    requires
        r.x1 <= r.x2 && r.y1 <= r.y2 ==> (r.x2 - r.x1) * (r.y2 - r.y1) <= usize::MAX,
    ensures
        r.x1 <= r.x2 && r.y1 <= r.y2 ==> cells@.len() == (r.x2 - r.x1) * (r.y2 - r.y1),
        forall|c: Point| cells@.contains(c) <==> (r.x1 <= c.x < r.x2 && r.y1 <= c.y < r.y2),
{
    let mut cells: Vec<Point> = Vec::new();
    let mut y = r.y1;
    while y < r.y2
        invariant
            r.y1 <= r.y2 ==> r.y1 <= y <= r.y2,
            r.y1 > r.y2 ==> y == r.y1,
            r.x1 <= r.x2 ==> cells@.len() == (r.x2 - r.x1) * (y - r.y1),
            r.x1 > r.x2 ==> cells@.len() == 0,
            forall|c: Point|
                #[trigger] cells@.contains(c) <==> (r.x1 <= c.x < r.x2 && r.y1 <= c.y < y),
        decreases r.y2 - y,
    {
        let mut x = r.x1;
        let ghost row_start = cells@;
        while x < r.x2
            invariant
                r.y1 <= y < r.y2,
                r.x1 <= r.x2 ==> r.x1 <= x <= r.x2,
                r.x1 > r.x2 ==> x == r.x1,
                cells@.len() == row_start.len() + if x >= r.x1 { x - r.x1 } else { 0 },
                forall|c: Point|
                    #[trigger] cells@.contains(c) <==> (row_start.contains(c) || (c.y == y && r.x1 <= c.x
                        < x)),
            decreases r.x2 - x,
        {
            let ghost before = cells@;
            let ghost x0 = x;
            cells.push(Point { x, y });
            x += 1;
            assert forall|c: Point|
                #[trigger] cells@.contains(c) <==> (row_start.contains(c) || (c.y == y && r.x1 <= c.x
                    < x)) by {
                if cells@.contains(c) {
                    let i = choose|i: int| 0 <= i < cells@.len() && cells@[i] == c;
                    if i < before.len() {
                        assert(before[i] == c);
                        assert(before.contains(c));
                    }
                }
                if before.contains(c) {
                    let i = choose|i: int| 0 <= i < before.len() && before[i] == c;
                    assert(cells@[i] == c);
                }
                if c == (Point { x: x0, y }) {
                    assert(cells@[before.len() as int] == c);
                }
            }
        }
        assert forall|c: Point| cells@.contains(c) <==> (r.x1 <= c.x < r.x2 && r.y1 <= c.y < y + 1) by {
            assert(cells@.contains(c) <==> (row_start.contains(c) || (c.y == y && r.x1 <= c.x < x)));
            assert(row_start.contains(c) <==> (r.x1 <= c.x < r.x2 && r.y1 <= c.y < y));
        }
        proof {
            if r.x1 <= r.x2 {
                assert((r.x2 - r.x1) * (y - r.y1) + (r.x2 - r.x1) == (r.x2 - r.x1) * (y + 1 - r.y1))
                    by (nonlinear_arith);
            }
        }
        y += 1;
    }
    cells
}

} // verus!
