use vstd::prelude::*;

use crate::geometry::{shift_in_map, shifted_in_map, Point, Rect};

verus! {

/// What the arrow keys steer.
#[derive(Clone, Copy, Debug, PartialEq, Eq, Structural, Hash)]
pub enum ControlMode {
    /// The player's entity.
    Player,
    /// The first corner of the selection.
    Cursor,
    /// The second corner of the selection.
    Corner,
    /// Nothing: the world runs on its own.
    Auto,
}

/// A command read from the keyboard.
#[derive(Clone, Copy, Debug, PartialEq, Eq, Structural)]
pub enum Command {
    Move { dx: i32, dy: i32 },
    Action,
    SwitchMode,
    AutoMode,
}

/// What the host has to do after a command.
#[derive(Clone, Copy, Debug, PartialEq, Eq, Structural)]
pub enum ControlAction {
    Nothing,
    /// Plant at the player's position after a delay, unless the player moves
    /// in the meantime.
    PlantLater,
    /// Plan a job on every cell of the selection.
    PlanJobs,
}

pub open spec fn next_mode(m: ControlMode) -> ControlMode {
    match m {
        ControlMode::Player => ControlMode::Cursor,
        ControlMode::Cursor => ControlMode::Corner,
        ControlMode::Corner => ControlMode::Player,
        ControlMode::Auto => ControlMode::Player,
    }
}

/// Player and selection after the arrow keys moved whatever `mode` steers
/// by `(dx, dy)`, clamped to the map.
pub open spec fn moved(mode: ControlMode, player: Point, cursor: Rect, dx: int, dy: int) -> (Point, Rect) {
    match mode {
        ControlMode::Player => (shifted_in_map(player, dx, dy), cursor),
        ControlMode::Cursor => {
            let c = shifted_in_map(Point { x: cursor.x1, y: cursor.y1 }, dx, dy);
            (player, Rect { x1: c.x, y1: c.y, ..cursor })
        },
        ControlMode::Corner => {
            let c = shifted_in_map(Point { x: cursor.x2, y: cursor.y2 }, dx, dy);
            (player, Rect { x2: c.x, y2: c.y, ..cursor })
        },
        ControlMode::Auto => (player, cursor),
    }
}

pub open spec fn action_of(mode: ControlMode) -> ControlAction {
    match mode {
        ControlMode::Player => ControlAction::PlantLater,
        ControlMode::Cursor => ControlAction::PlanJobs,
        ControlMode::Corner => ControlAction::PlanJobs,
        ControlMode::Auto => ControlAction::Nothing,
    }
}

impl ControlMode {
    /// The mode's name, as shown to the player.
    pub fn name(&self) -> (r: &'static str)
        ensures
            *self == ControlMode::Player ==> r@ == "Player"@,
            *self == ControlMode::Cursor ==> r@ == "Cursor"@,
            *self == ControlMode::Corner ==> r@ == "Corner"@,
            *self == ControlMode::Auto ==> r@ == "Auto"@,
    {
        match *self {
            ControlMode::Player => "Player",
            ControlMode::Cursor => "Cursor",
            ControlMode::Corner => "Corner",
            ControlMode::Auto => "Auto",
        }
    }

    /// Steps to the next mode; entering the cursor mode collapses the
    /// selection onto the player's cell.
    pub fn switch_control_mode(&mut self, player: Point, cursor: &mut Rect)
        ensures
            *final(self) == next_mode(*old(self)),
            *final(self) == ControlMode::Cursor ==> *final(cursor) == (Rect {
                x1: player.x,
                y1: player.y,
                x2: player.x,
                y2: player.y,
            }),
            *final(self) != ControlMode::Cursor ==> *final(cursor) == *old(cursor),
    {
        *self = match *self {
            ControlMode::Player => ControlMode::Cursor,
            ControlMode::Cursor => ControlMode::Corner,
            ControlMode::Corner => ControlMode::Player,
            ControlMode::Auto => ControlMode::Player,
        };
        if *self == ControlMode::Cursor {
            *cursor = Rect { x1: player.x, y1: player.y, x2: player.x, y2: player.y };
        }
    }

    pub fn switch_auto_mode(&mut self)
        ensures
            *final(self) == ControlMode::Auto,
    {
        *self = ControlMode::Auto;
    }

    /// Moves whatever the mode steers by `(delta_x, delta_y)`, clamped to
    /// the map.
    pub fn process_moving(&self, player: &mut Point, cursor: &mut Rect, delta_x: i32, delta_y: i32)
        ensures
            (*final(player), *final(cursor)) == moved(
                *self,
                *old(player),
                *old(cursor),
                delta_x as int,
                delta_y as int,
            ),
    {
        match *self {
            ControlMode::Player => {
                *player = shift_in_map(*player, delta_x, delta_y);
            },
            ControlMode::Cursor => {
                let c = shift_in_map(Point { x: cursor.x1, y: cursor.y1 }, delta_x, delta_y);
                cursor.x1 = c.x;
                cursor.y1 = c.y;
            },
            ControlMode::Corner => {
                let c = shift_in_map(Point { x: cursor.x2, y: cursor.y2 }, delta_x, delta_y);
                cursor.x2 = c.x;
                cursor.y2 = c.y;
            },
            ControlMode::Auto => {},
        }
    }

    /// What the action key asks for in this mode.
    pub fn process_action(&self) -> (r: ControlAction)
        ensures
            r == action_of(*self),
    {
        match *self {
            ControlMode::Player => ControlAction::PlantLater,
            ControlMode::Cursor => ControlAction::PlanJobs,
            ControlMode::Corner => ControlAction::PlanJobs,
            ControlMode::Auto => ControlAction::Nothing,
        }
    }
}

/// Applies one keyboard command, if any, to the mode, the player and the
/// selection, and says what the host must do next.
pub fn player_input(mode: &mut ControlMode, command: Option<Command>, player: &mut Point, cursor: &mut Rect) -> (r:
    ControlAction)
    ensures
        command is None ==> *final(mode) == *old(mode) && *final(player) == *old(player) && *final(cursor)
            == *old(cursor) && r == ControlAction::Nothing,
        command matches Some(Command::Move { dx, dy }) ==> *final(mode) == *old(mode) && (
        *final(player),
        *final(cursor),
        ) == moved(*old(mode), *old(player), *old(cursor), dx as int, dy as int) && r
            == ControlAction::Nothing,
        command == Some(Command::Action) ==> *final(mode) == *old(mode) && *final(player) == *old(player)
            && *final(cursor) == *old(cursor) && r == action_of(*old(mode)),
        command == Some(Command::SwitchMode) ==> *final(mode) == next_mode(*old(mode)) && *final(player)
            == *old(player) && r == ControlAction::Nothing && (*final(mode) == ControlMode::Cursor
            ==> *final(cursor) == (Rect {
            x1: old(player).x,
            y1: old(player).y,
            x2: old(player).x,
            y2: old(player).y,
        })) && (*final(mode) != ControlMode::Cursor ==> *final(cursor) == *old(cursor)),
        command == Some(Command::AutoMode) ==> *final(mode) == ControlMode::Auto && *final(player)
            == *old(player) && *final(cursor) == *old(cursor) && r == ControlAction::Nothing,
{
    match command {
        None => ControlAction::Nothing,
        Some(Command::Move { dx, dy }) => {
            mode.process_moving(player, cursor, dx, dy);
            ControlAction::Nothing
        },
        Some(Command::Action) => mode.process_action(),
        Some(Command::SwitchMode) => {
            mode.switch_control_mode(*player, cursor);
            ControlAction::Nothing
        },
        Some(Command::AutoMode) => {
            mode.switch_auto_mode();
            ControlAction::Nothing
        },
    }
}

} // verus!
