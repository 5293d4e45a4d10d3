use vstd::prelude::*;
use vstd::set_lib::{lemma_int_range, set_int_range};

use crate::geometry::{in_map, shift_in_map, shifted_in_map, Point};
use rltk::RandomNumberGenerator;

verus! {

/// A colour as red, green and blue intensities.
#[derive(Clone, Copy, Debug, PartialEq, Eq, Structural)]
pub struct Rgb {
    pub r: u8,
    pub g: u8,
    pub b: u8,
}

/// How an entity is drawn: a glyph of the font in a foreground colour over a
/// background colour.
#[derive(Clone, Copy, Debug, PartialEq, Eq, Structural)]
pub struct Renderable {
    pub is_visible: bool,
    pub glyph: u16,
    pub fg: Rgb,
    pub bg: Rgb,
}

/// The font glyph of a character: its code point cut to sixteen bits.
pub open spec fn glyph_of(c: char) -> u16 {
    (c as u32 % 0x10000) as u16
}

fn to_glyph(c: char) -> (r: u16)
    ensures
        r == glyph_of(c),
{
    ((c as u32) % 0x10000) as u16
}

impl Renderable {
    /// A visible glyph in `color` over black.
    pub fn new(glyph: char, color: Rgb) -> (r: Renderable)
        ensures
            r == (Renderable { is_visible: true, glyph: glyph_of(glyph), fg: color, bg: Rgb { r: 0, g: 0, b: 0 } }),
    {
        Renderable { is_visible: true, glyph: to_glyph(glyph), fg: color, bg: Rgb { r: 0, g: 0, b: 0 } }
    }

    /// Nothing to draw.
    pub fn new_blank() -> (r: Renderable)
        ensures
            r == (Renderable { is_visible: false, glyph: 0, fg: Rgb { r: 0, g: 0, b: 0 }, bg: Rgb { r: 0, g: 0, b: 0 } }),
    {
        Renderable { is_visible: false, glyph: 0, fg: Rgb { r: 0, g: 0, b: 0 }, bg: Rgb { r: 0, g: 0, b: 0 } }
    }

    /// A visible glyph in `color` over `background`.
    pub fn new_bg(glyph: char, color: Rgb, background: Rgb) -> (r: Renderable)
        ensures
            r == (Renderable { is_visible: true, glyph: glyph_of(glyph), fg: color, bg: background }),
    {
        Renderable { is_visible: true, glyph: to_glyph(glyph), fg: color, bg: background }
    }

    /// Makes the entity visible as `glyph` in `color`, over its background.
    pub fn show(&mut self, glyph: char, color: Rgb)
        ensures
            *final(self) == (Renderable { is_visible: true, glyph: glyph_of(glyph), fg: color, bg: old(self).bg }),
    {
        self.is_visible = true;
        self.glyph = to_glyph(glyph);
        self.fg = color;
    }
}

/// Marks an entity whose look goes through the stages of a growing plant.
#[derive(Clone, Copy, Debug, PartialEq, Eq, Structural)]
pub struct RenderStack {}

/// Marks a planned job on a cell, owned by the entity that planned it.
#[derive(Clone, Copy, Debug, PartialEq, Eq, Structural)]
pub struct PlanJob {}

/// Progress of a move is kept in fixed point: `PROGRESS_ONE` is a whole cell.
pub const PROGRESS_ONE: u64 = 1_000_000_000;

/// Progress at which the grid coordinate of a moving entity changes.
pub const PROGRESS_HALF: u64 = 500_000_000;

/// The four grid directions.
#[derive(Clone, Copy, Debug, PartialEq, Eq, Structural)]
pub enum Direction {
    Left,
    Right,
    Top,
    Down,
}

pub open spec fn direction_dx(d: Direction) -> int {
    match d {
        Direction::Left => -1,
        Direction::Right => 1,
        _ => 0,
    }
}

pub open spec fn direction_dy(d: Direction) -> int {
    match d {
        Direction::Top => -1,
        Direction::Down => 1,
        _ => 0,
    }
}

fn direction_offset(d: Direction) -> (r: (i32, i32))
    ensures
        r.0 == direction_dx(d),
        r.1 == direction_dy(d),
{
    match d {
        Direction::Left => (-1, 0),
        Direction::Right => (1, 0),
        Direction::Top => (0, -1),
        Direction::Down => (0, 1),
    }
}

/// Moves an entity one cell at a time. `offset` is the progress of the current
/// move in units of `1 / PROGRESS_ONE` cell, and `speed` is the progress made
/// per tick of simulated time.
#[derive(Clone, Copy, Debug, PartialEq, Eq, Structural)]
pub struct Mover {
    pub offset: u64,
    pub speed: u64,
    pub direction: Option<Direction>,
}

/// One step of a mover, `delta` ticks long. An idle mover does nothing. A
/// moving one adds `speed * delta` to its progress; when the progress reaches
/// one half for the first time in this move, the position takes one step in
/// the direction, clamped to the map; when it reaches one whole cell, the
/// mover becomes idle again.
pub open spec fn mover_step(p: Point, m: Mover, delta: nat) -> (Point, Mover) {
    match m.direction {
        None => (p, m),
        Some(d) => {
            let sum = m.offset + m.speed * delta;
            let next_pos = if m.offset < PROGRESS_HALF && sum >= PROGRESS_HALF {
                shifted_in_map(p, direction_dx(d), direction_dy(d))
            } else {
                p
            };
            let next_mover = if sum >= PROGRESS_ONE {
                Mover { offset: 0, speed: m.speed, direction: None }
            } else {
                Mover { offset: sum as u64, speed: m.speed, direction: m.direction }
            };
            (next_pos, next_mover)
        },
    }
}

impl Mover {
    /// Progress lies within the current cell, and an idle mover has none.
    pub open spec fn wf(self) -> bool {
        &&& self.offset < PROGRESS_ONE
        &&& self.direction is None ==> self.offset == 0
    }

    pub open spec fn requested(self, d: Direction) -> Mover {
        if self.direction is None {
            Mover { direction: Some(d), ..self }
        } else {
            self
        }
    }

    pub fn new_speed(speed: u64) -> (r: Mover)
        ensures
            r == (Mover { offset: 0, speed, direction: None }),
            r.wf(),
    {
        Mover { offset: 0, speed, direction: None }
    }

    /// Asks for a move in direction `d`; a move already under way wins.
    pub fn request(&mut self, d: Direction)
        ensures
            *final(self) == old(self).requested(d),
    {
        if self.direction.is_none() {
            self.direction = Some(d);
        }
    }

    pub fn move_left(&mut self)
        ensures
            *final(self) == old(self).requested(Direction::Left),
    {
        self.request(Direction::Left)
    }

    pub fn move_right(&mut self)
        ensures
            *final(self) == old(self).requested(Direction::Right),
    {
        self.request(Direction::Right)
    }

    pub fn move_top(&mut self)
        ensures
            *final(self) == old(self).requested(Direction::Top),
    {
        self.request(Direction::Top)
    }

    pub fn move_down(&mut self)
        ensures
            *final(self) == old(self).requested(Direction::Down),
    {
        self.request(Direction::Down)
    }

    fn stop(&mut self)
        ensures
            *final(self) == (Mover { offset: 0, speed: old(self).speed, direction: None }),
    {
        self.offset = 0;
        self.direction = None;
    }

    /// Advances the move by `frame_delta` ticks, updating `pos` at the
    /// midpoint of the move.
    pub fn advance(&mut self, pos: &mut Point, frame_delta: u64)
        requires
            old(self).wf(),
        ensures
            final(self).wf(),
            (*final(pos), *final(self)) == mover_step(*old(pos), *old(self), frame_delta as nat),
    {
        match self.direction {
            None => {},
            Some(d) => {
                let speed = self.speed as u128;
                let delta = frame_delta as u128;
                assert(speed * delta <= 0xffff_ffff_ffff_ffffu128 * 0xffff_ffff_ffff_ffffu128)
                    by (nonlinear_arith)
                    requires
                        speed <= 0xffff_ffff_ffff_ffffu128,
                        delta <= 0xffff_ffff_ffff_ffffu128,
                ;
                let sum = self.offset as u128 + speed * delta;
                if self.offset < PROGRESS_HALF && sum >= PROGRESS_HALF as u128 {
                    let (dx, dy) = direction_offset(d);
                    *pos = shift_in_map(*pos, dx, dy);
                }
                if sum >= PROGRESS_ONE as u128 {
                    self.stop();
                } else {
                    self.offset = sum as u64;
                }
            },
        }
    }
}

/// A step changes the position only while progress is still below one half,
/// and a move that has changed it keeps progress at or above one half until
/// it ends, so one move changes the position at most once. The changed
/// position is the neighbouring cell clamped to the map, and a step that
/// brings progress to a whole cell leaves the mover idle.
pub proof fn lemma_move_commits_once_within_map(p: Point, m: Mover, delta: nat)
    requires
        m.wf(),
    ensures
        mover_step(p, m, delta).1.wf(),
        m.offset >= PROGRESS_HALF ==> mover_step(p, m, delta).0 == p,
        m.direction is Some && m.offset < PROGRESS_HALF && m.offset + m.speed * delta >= PROGRESS_HALF
            ==> mover_step(p, m, delta).0 == shifted_in_map(
            p,
            direction_dx(m.direction->0),
            direction_dy(m.direction->0),
        ) && in_map(mover_step(p, m, delta).0),
        mover_step(p, m, delta).0 != p && mover_step(p, m, delta).1.direction is Some
            ==> mover_step(p, m, delta).1.offset >= PROGRESS_HALF,
        m.direction is Some && m.offset + m.speed * delta >= PROGRESS_ONE ==> mover_step(
            p,
            m,
            delta,
        ).1.direction is None && mover_step(p, m, delta).1.offset == 0,
{
    assert(m.speed * delta >= 0) by (nonlinear_arith);
}

/// Advances every mover by `frame_delta` ticks together with its position.
pub fn process_mover(entities: &mut Vec<(Point, Mover)>, frame_delta: u64)
    requires
        forall|i: int| 0 <= i < old(entities)@.len() ==> (#[trigger] old(entities)@[i]).1.wf(),
    ensures
        final(entities)@.len() == old(entities)@.len(),
        forall|i: int|
            0 <= i < old(entities)@.len() ==> #[trigger] final(entities)@[i] == mover_step(
                old(entities)@[i].0,
                old(entities)@[i].1,
                frame_delta as nat,
            ),
        forall|i: int| 0 <= i < final(entities)@.len() ==> (#[trigger] final(entities)@[i]).1.wf(),
{
    let n = entities.len();
    let mut i: usize = 0;
    while i < n
        invariant
            n == entities@.len(),
            n == old(entities)@.len(),
            i <= n,
            forall|j: int|
                0 <= j < i ==> #[trigger] entities@[j] == mover_step(
                    old(entities)@[j].0,
                    old(entities)@[j].1,
                    frame_delta as nat,
                ),
            forall|j: int| i <= j < n ==> #[trigger] entities@[j] == old(entities)@[j],
            forall|j: int| 0 <= j < n ==> (#[trigger] entities@[j]).1.wf(),
            forall|j: int| 0 <= j < n ==> (#[trigger] old(entities)@[j]).1.wf(),
        decreases n - i,
    {
        let (mut pos, mut mover) = entities[i];
        mover.advance(&mut pos, frame_delta);
        entities.set(i, (pos, mover));
        i += 1;
    }
}

/// rltk's random number generator, carried through opaque.
#[verifier::external_type_specification]
#[verifier::external_body]
pub struct ExRandomNumberGenerator(RandomNumberGenerator);

/// Relies on `RandomNumberGenerator::new`: a generator seeded from
/// `getrandom`, or from the clock where that fails; nothing is known of the
/// numbers it gives.
#[verifier::external_body]
pub(crate) fn new_generator() -> RandomNumberGenerator {
    RandomNumberGenerator::new()
}

/// Relies on `RandomNumberGenerator::range`: a number drawn from `lo..hi`,
/// inclusive of `lo` and exclusive of `hi`; an empty range panics there.
#[verifier::external_body]
pub(crate) fn draw_in_range(rng: &mut RandomNumberGenerator, lo: i32, hi: i32) -> (r: i32)
    requires
        lo < hi,
    ensures
        lo <= r < hi,
{
    rng.range(lo, hi)
}

/// Number of equally likely outcomes of a roll of the direction chooser.
pub const ROLL_SIDES: i32 = 4;

/// Rolls below this value keep the last direction.
pub const REPEAT_ROLLS: i32 = 3;

pub open spec fn keeps_last(roll: int) -> bool {
    roll < REPEAT_ROLLS
}

/// Whether a roll in `0..ROLL_SIDES` keeps the last direction.
pub fn keeps_last_direction(roll: i32) -> (r: bool)
    ensures
        r == keeps_last(roll as int),
{
    roll < REPEAT_ROLLS
}

/// The direction coded by a choice in `0..4`.
pub open spec fn direction_of_choice(c: int) -> Direction {
    if c == 0 {
        Direction::Left
    } else if c == 1 {
        Direction::Right
    } else if c == 2 {
        Direction::Top
    } else {
        Direction::Down
    }
}

/// Of the `ROLL_SIDES` equally likely rolls, exactly `REPEAT_ROLLS` keep the
/// last direction: a fresh direction is drawn with probability one quarter,
/// so the last direction is kept with probability three quarters.
pub proof fn lemma_repeat_share()
    ensures
        set_int_range(0, ROLL_SIDES as int).filter(|r: int| keeps_last(r)) =~= set_int_range(
            0,
            REPEAT_ROLLS as int,
        ),
        set_int_range(0, ROLL_SIDES as int).len() == 4,
        set_int_range(0, REPEAT_ROLLS as int).len() == 3,
{
    lemma_int_range(0, ROLL_SIDES as int);
    lemma_int_range(0, REPEAT_ROLLS as int);
}

/// Picks the direction of a wandering entity: mostly the last one, now and
/// then a random one.
pub struct HareBrain {
    pub last_choise: i32,
    pub rand: RandomNumberGenerator,
}

impl HareBrain {
    /// The last choice codes a direction.
    pub open spec fn wf(&self) -> bool {
        0 <= self.last_choise < ROLL_SIDES
    }

    pub fn new() -> (r: HareBrain)
        ensures
            r.wf(),
    {
        let mut rand = new_generator();
        let last_choise = draw_in_range(&mut rand, 0, ROLL_SIDES);
        HareBrain { last_choise, rand }
    }

    /// Rolls the generator: one of the `ROLL_SIDES` outcomes, each as likely
    /// as the others.
    pub fn roll(&mut self) -> (r: i32)
        ensures
            0 <= r < ROLL_SIDES,
            final(self).last_choise == old(self).last_choise,
    {
        draw_in_range(&mut self.rand, 0, ROLL_SIDES)
    }

    /// The choice coded as a direction.
    pub fn direction(&self) -> (r: Direction)
        ensures
            r == direction_of_choice(self.last_choise as int),
    {
        if self.last_choise == 0 {
            Direction::Left
        } else if self.last_choise == 1 {
            Direction::Right
        } else if self.last_choise == 2 {
            Direction::Top
        } else {
            Direction::Down
        }
    }

    /// Gives an idle mover the direction that `roll` picks: the last choice
    /// if the roll keeps it, `fresh` otherwise. A mover under way, and the
    /// last choice with it, is left alone.
    pub fn steer(&mut self, m: &mut Mover, roll: i32, fresh: i32)
        requires
            old(self).wf(),
            0 <= fresh < ROLL_SIDES,
        ensures
            final(self).wf(),
            old(m).direction is Some ==> *final(m) == *old(m) && final(self).last_choise == old(
                self,
            ).last_choise,
            old(m).direction is None ==> final(self).last_choise == (if keeps_last(roll as int) {
                old(self).last_choise
            } else {
                fresh
            }) && *final(m) == old(m).requested(direction_of_choice(final(self).last_choise as int)),
    {
        if m.direction.is_some() {
            return;
        }
        if !keeps_last_direction(roll) {
            self.last_choise = fresh;
        }
        let d = self.direction();
        m.request(d);
    }

    /// Leaves a mover that is under way alone; gives an idle one a direction,
    /// the last one if a roll keeps it and a freshly drawn one otherwise.
    pub fn think(&mut self, m: &mut Mover)
        requires
            old(self).wf(),
        ensures
            final(self).wf(),
            brain_step(*old(m), old(self).last_choise, *final(m), final(self).last_choise),
    {
        if m.direction.is_some() {
            return;
        }
        let roll = self.roll();
        let fresh = if keeps_last_direction(roll) {
            self.last_choise
        } else {
            self.roll()
        };
        self.steer(m, roll, fresh);
    }
}

/// What one step of the direction chooser does to a mover and to the last
/// choice, whatever the rolls were.
pub open spec fn brain_step(m: Mover, last: i32, after: Mover, last_after: i32) -> bool {
    if m.direction is Some {
        after == m && last_after == last
    } else {
        &&& 0 <= last_after < ROLL_SIDES
        &&& after == m.requested(direction_of_choice(last_after as int))
    }
}

/// Lets each entity's direction chooser steer its mover.
pub fn process_hare_brain(entities: &mut Vec<(Mover, HareBrain)>)
    requires
        forall|i: int| 0 <= i < old(entities)@.len() ==> (#[trigger] old(entities)@[i]).1.wf(),
    ensures
        final(entities)@.len() == old(entities)@.len(),
        forall|i: int|
            0 <= i < old(entities)@.len() ==> #[trigger] brain_step(
                old(entities)@[i].0,
                old(entities)@[i].1.last_choise,
                final(entities)@[i].0,
                final(entities)@[i].1.last_choise,
            ),
        forall|i: int| 0 <= i < final(entities)@.len() ==> (#[trigger] final(entities)@[i]).1.wf(),
{
    let n = entities.len();
    let mut i: usize = 0;
    while i < n
        invariant
            n == entities@.len(),
            n == old(entities)@.len(),
            i <= n,
            forall|j: int|
                0 <= j < i ==> #[trigger] brain_step(
                    old(entities)@[j].0,
                    old(entities)@[j].1.last_choise,
                    entities@[j].0,
                    entities@[j].1.last_choise,
                ),
            forall|j: int| i <= j < n ==> #[trigger] entities@[j] == old(entities)@[j],
            forall|j: int| 0 <= j < n ==> (#[trigger] entities@[j]).1.wf(),
        decreases n - i,
    {
        let entity = &mut entities[i];
        entity.1.think(&mut entity.0);
        i += 1;
    }
}

} // verus!
