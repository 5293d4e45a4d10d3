use odnodvorets::camera::{camera_border, main_view_position, move_camera, Camera};
use odnodvorets::control::{player_input, Command, ControlAction, ControlMode};
use odnodvorets::geometry::{
    cells_of, map_border, shift_in_map, Point, QuasiRect, Rect, MAP_HEIGHT, MAP_WIDTH,
};
use odnodvorets::map::{_canal_map, random_map, MapTile};
use odnodvorets::terminal_constants::Consoles;

#[test]
fn consoles_numbers_fonts_and_sizes() {
    assert_eq!(Consoles::Main.num(), 0);
    assert_eq!(Consoles::AdditionalVga.num(), 1);
    assert_eq!(Consoles::Main.font(), "unicode_16x16.png");
    assert_eq!(Consoles::AdditionalVga.font(), "vga8x16.png");
    assert_eq!(Consoles::Main.font_dimensions(), (16, 16));
    assert_eq!(Consoles::AdditionalVga.font_dimensions(), (8, 16));
    assert_eq!(Consoles::Main.dimensions(), Point::new(100, 50));
    assert_eq!(Consoles::AdditionalVga.dimensions(), Point::new(200, 50));
}

#[test]
fn shift_clamps_to_map() {
    assert_eq!(shift_in_map(Point::new(99, -100), 1, -1), Point::new(99, -100));
    assert_eq!(shift_in_map(Point::new(0, 0), -1, 1), Point::new(-1, 1));
    assert_eq!(shift_in_map(Point::new(i32::MAX, i32::MIN), 1, -1), Point::new(99, -100));
    assert_eq!(map_border(), Rect { x1: -100, y1: -100, x2: 100, y2: 100 });
}

#[test]
fn envelop_rect_normalises_corners() {
    let r = Rect { x1: 5, y1: 2, x2: 3, y2: 4 };
    assert_eq!(r.envelop_rect(), Rect { x1: 3, y1: 2, x2: 6, y2: 5 });
    let single = Rect { x1: 1, y1: 1, x2: 1, y2: 1 };
    assert_eq!(single.envelop_rect(), Rect { x1: 1, y1: 1, x2: 2, y2: 2 });
}

#[test]
fn cells_of_lists_every_cell() {
    let cells = cells_of(Rect { x1: 3, y1: 2, x2: 6, y2: 4 });
    assert_eq!(cells.len(), 6);
    assert_eq!(cells[0], Point::new(3, 2));
    assert_eq!(cells[5], Point::new(5, 3));
    assert!(cells_of(Rect { x1: 3, y1: 2, x2: 3, y2: 4 }).is_empty());
}

#[test]
fn canal_map_has_water_on_every_tenth_line() {
    let m = _canal_map();
    assert_eq!(m.len(), MAP_WIDTH);
    assert!(m.iter().all(|c| c.len() == MAP_HEIGHT));
    // Index 0 is x = -100, a canal.
    assert_eq!(m[0][5], MapTile::Water);
    assert_eq!(m[5][5], MapTile::Ground);
    assert_eq!(m[105][110], MapTile::Water);
    assert_eq!(m[101][99], MapTile::Ground);
}

#[test]
fn random_map_has_grass_and_water() {
    let m = random_map();
    assert_eq!(m.len(), MAP_WIDTH);
    assert!(m.iter().all(|c| c.len() == MAP_HEIGHT));
    let count = |t: MapTile| m.iter().flatten().filter(|x| **x == t).count();
    assert!(count(MapTile::Grass) > 10000);
    assert!(count(MapTile::Water) > 1000);
    assert!(count(MapTile::Ground) > 1000);
}

#[test]
fn control_modes_cycle_and_reset_cursor() {
    let mut mode = ControlMode::Player;
    let mut player = Point::new(20, 50);
    let mut cursor = Rect { x1: 0, y1: 0, x2: 7, y2: 7 };
    assert_eq!(
        player_input(&mut mode, Some(Command::SwitchMode), &mut player, &mut cursor),
        ControlAction::Nothing
    );
    assert_eq!(mode, ControlMode::Cursor);
    assert_eq!(cursor, Rect { x1: 20, y1: 50, x2: 20, y2: 50 });
    player_input(&mut mode, Some(Command::Move { dx: 1, dy: 0 }), &mut player, &mut cursor);
    assert_eq!(cursor, Rect { x1: 21, y1: 50, x2: 20, y2: 50 });
    player_input(&mut mode, Some(Command::SwitchMode), &mut player, &mut cursor);
    assert_eq!(mode, ControlMode::Corner);
    player_input(&mut mode, Some(Command::Move { dx: 0, dy: -1 }), &mut player, &mut cursor);
    assert_eq!(cursor, Rect { x1: 21, y1: 50, x2: 20, y2: 49 });
    assert_eq!(player, Point::new(20, 50));
    assert_eq!(
        player_input(&mut mode, Some(Command::Action), &mut player, &mut cursor),
        ControlAction::PlanJobs
    );
    player_input(&mut mode, Some(Command::SwitchMode), &mut player, &mut cursor);
    assert_eq!(mode, ControlMode::Player);
    player_input(&mut mode, Some(Command::Move { dx: -1, dy: 0 }), &mut player, &mut cursor);
    assert_eq!(player, Point::new(19, 50));
    assert_eq!(
        player_input(&mut mode, Some(Command::Action), &mut player, &mut cursor),
        ControlAction::PlantLater
    );
    player_input(&mut mode, Some(Command::AutoMode), &mut player, &mut cursor);
    assert_eq!(mode, ControlMode::Auto);
    assert_eq!(mode.name(), "Auto");
    player_input(&mut mode, Some(Command::Move { dx: 1, dy: 0 }), &mut player, &mut cursor);
    assert_eq!(player, Point::new(19, 50));
    assert_eq!(
        player_input(&mut mode, None, &mut player, &mut cursor),
        ControlAction::Nothing
    );
    player_input(&mut mode, Some(Command::SwitchMode), &mut player, &mut cursor);
    assert_eq!(mode, ControlMode::Player);
}

#[test]
fn camera_follows_player_within_border() {
    assert_eq!(camera_border(), Rect { x1: -54, y1: -82, x2: 53, y2: 81 });
    assert_eq!(main_view_position(), Rect { x1: 3, y1: 3, x2: 96, y2: 40 });
    let mut c = Camera::new(Point::new(20, 50));
    move_camera(&mut c, Point::new(30, 50));
    assert_eq!(c.position, Point::new(20, 50));
    move_camera(&mut c, Point::new(40, 50));
    assert_eq!(c.position, Point::new(25, 50));
    move_camera(&mut c, Point::new(99, 99));
    assert_eq!(c.position, Point::new(53, 81));
    assert_eq!(*c._get_position(), Point::new(53, 81));
    assert_eq!(c.get_start_view(), Point::new(4, 60));
}
