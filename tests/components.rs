use odnodvorets::components::{
    keeps_last_direction, process_hare_brain, process_mover, Direction, HareBrain, Mover,
    Renderable, Rgb, PROGRESS_HALF, PROGRESS_ONE, ROLL_SIDES,
};
use odnodvorets::flow_timer::TICKS_PER_UNIT;
use odnodvorets::geometry::{Point, MAP_X2, MAP_Y1};

/// 0.001 cell per time unit.
const SLOW: u64 = 1000;

#[test]
fn move_right_commits_at_midpoint_and_ends_at_whole_cell() {
    let mut m = Mover::new_speed(SLOW);
    let mut p = Point::new(20, 50);
    m.move_right();
    for step in 1..=10u64 {
        m.advance(&mut p, 100 * TICKS_PER_UNIT);
        if step < 10 {
            assert_eq!(m.offset, step * PROGRESS_ONE / 10);
            assert_eq!(m.direction, Some(Direction::Right));
        }
        if step < 5 {
            assert_eq!(p, Point::new(20, 50));
        } else {
            assert_eq!(p, Point::new(21, 50));
        }
    }
    assert_eq!(m.offset, 0);
    assert_eq!(m.direction, None);
    m.advance(&mut p, 100 * TICKS_PER_UNIT);
    assert_eq!(p, Point::new(21, 50));
}

#[test]
fn overshooting_step_commits_once_and_stops() {
    let mut m = Mover::new_speed(SLOW);
    let mut p = Point::new(0, 0);
    m.move_down();
    m.advance(&mut p, 5000 * TICKS_PER_UNIT);
    assert_eq!(p, Point::new(0, 1));
    assert_eq!(m.direction, None);
    assert_eq!(m.offset, 0);
}

#[test]
fn move_at_border_is_clamped_and_ends_idle() {
    let mut m = Mover::new_speed(SLOW);
    let mut p = Point::new(MAP_X2 - 1, MAP_Y1);
    m.move_right();
    for _ in 0..10 {
        m.advance(&mut p, 100 * TICKS_PER_UNIT);
    }
    assert_eq!(p, Point::new(MAP_X2 - 1, MAP_Y1));
    assert_eq!(m.direction, None);
    m.move_top();
    for _ in 0..10 {
        m.advance(&mut p, 100 * TICKS_PER_UNIT);
    }
    assert_eq!(p, Point::new(MAP_X2 - 1, MAP_Y1));
    assert_eq!(m.direction, None);
}

#[test]
fn first_request_wins() {
    let mut m = Mover::new_speed(SLOW);
    m.move_left();
    m.move_down();
    assert_eq!(m.direction, Some(Direction::Left));
}

#[test]
fn idle_mover_stays_put() {
    let mut m = Mover::new_speed(SLOW);
    let mut p = Point::new(3, 4);
    m.advance(&mut p, 1_000_000);
    assert_eq!(p, Point::new(3, 4));
    assert_eq!(m, Mover::new_speed(SLOW));
}

#[test]
fn process_mover_skips_idle_entities_and_moves_the_rest() {
    let mut idle = Mover::new_speed(SLOW);
    idle.offset = 0;
    let mut busy = Mover::new_speed(SLOW);
    busy.move_left();
    let mut entities = vec![(Point::new(1, 1), idle), (Point::new(2, 2), busy)];
    process_mover(&mut entities, PROGRESS_HALF / SLOW);
    assert_eq!(entities[0], (Point::new(1, 1), idle));
    assert_eq!(entities[1].0, Point::new(1, 2));
    assert_eq!(entities[1].1.offset, PROGRESS_HALF);
}

#[test]
fn roll_keeps_last_direction_three_times_in_four() {
    let mut brain = HareBrain::new();
    let draws = 200_000;
    let mut kept = 0;
    let mut seen = [false; 4];
    for _ in 0..draws {
        let r = brain.roll();
        assert!((0..ROLL_SIDES).contains(&r));
        seen[r as usize] = true;
        if keeps_last_direction(r) {
            kept += 1;
        }
    }
    assert!(seen.iter().all(|s| *s));
    let freq = kept as f64 / draws as f64;
    assert!((freq - 0.75).abs() < 0.01, "frequency {}", freq);
}

#[test]
fn hare_brain_gives_idle_mover_a_direction() {
    let mut brain = HareBrain::new();
    assert!((0..4).contains(&brain.last_choise));
    let mut same = 0;
    let draws = 100_000;
    for _ in 0..draws {
        let last = brain.last_choise;
        let mut m = Mover::new_speed(SLOW);
        brain.think(&mut m);
        assert_eq!(m.direction, Some(brain.direction()));
        if brain.last_choise == last {
            same += 1;
        }
    }
    // Kept on three rolls in four, and a fresh draw hits the same direction
    // one time in four: 0.75 + 0.25 * 0.25.
    let freq = same as f64 / draws as f64;
    assert!((freq - 0.8125).abs() < 0.01, "frequency {}", freq);
}

#[test]
fn hare_brain_leaves_moving_mover_alone() {
    let mut brain = HareBrain::new();
    let last = brain.last_choise;
    let mut m = Mover::new_speed(SLOW);
    m.move_top();
    let before = m;
    brain.think(&mut m);
    assert_eq!(m, before);
    assert_eq!(brain.last_choise, last);
}

#[test]
fn process_hare_brain_steers_every_idle_mover() {
    let mut moving = Mover::new_speed(SLOW);
    moving.move_left();
    let mut entities = vec![
        (Mover::new_speed(SLOW), HareBrain::new()),
        (moving, HareBrain::new()),
        (Mover::new_speed(SLOW), HareBrain::new()),
    ];
    process_hare_brain(&mut entities);
    assert!(entities[0].0.direction.is_some());
    assert_eq!(entities[1].0.direction, Some(Direction::Left));
    assert!(entities[2].0.direction.is_some());
}

#[test]
fn renderables_hold_glyph_and_colours() {
    let red = Rgb { r: 255, g: 0, b: 0 };
    let blue = Rgb { r: 0, g: 0, b: 255 };
    let black = Rgb { r: 0, g: 0, b: 0 };
    let r = Renderable::new('h', red);
    assert_eq!(r, Renderable { is_visible: true, glyph: 'h' as u16, fg: red, bg: black });
    let mut b = Renderable::new_blank();
    assert!(!b.is_visible);
    b.show('T', red);
    assert_eq!(b, Renderable { is_visible: true, glyph: 'T' as u16, fg: red, bg: black });
    let g = Renderable::new_bg('Ё', blue, red);
    assert_eq!(g.glyph, 'Ё' as u32 as u16);
    assert_eq!(g.bg, red);
}

#[test]
fn steer_keeps_last_on_low_rolls_and_takes_fresh_otherwise() {
    let mut brain = HareBrain::new();
    brain.last_choise = 2;
    for roll in 0..3 {
        let mut m = Mover::new_speed(SLOW);
        brain.steer(&mut m, roll, 0);
        assert_eq!(brain.last_choise, 2);
        assert_eq!(m.direction, Some(Direction::Top));
    }
    let mut m = Mover::new_speed(SLOW);
    brain.steer(&mut m, 3, 0);
    assert_eq!(brain.last_choise, 0);
    assert_eq!(m.direction, Some(Direction::Left));
    let mut m = Mover::new_speed(SLOW);
    brain.steer(&mut m, 3, 3);
    assert_eq!(brain.last_choise, 3);
    assert_eq!(m.direction, Some(Direction::Down));
    let mut busy = Mover::new_speed(SLOW);
    busy.move_right();
    brain.steer(&mut busy, 3, 1);
    assert_eq!(brain.last_choise, 3);
    assert_eq!(busy.direction, Some(Direction::Right));
}
