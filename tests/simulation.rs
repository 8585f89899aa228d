use physarum::agent::{apply_steer, steer_decision, Agent, Steer, DIR_ONE, HEADINGS, STEER_ONE};
use physarum::field::{isqrt, Field, SimulationParams, MICROS};
use physarum::grid::{stencil_cell, stencil_into, window_total, ONE};

fn directions() -> Vec<(i32, i32)> {
    let half = HEADINGS / 2;
    let first: Vec<(i32, i32)> = (0..half)
        .map(|h| {
            let a = h as f64 * std::f64::consts::TAU / HEADINGS as f64;
            ((a.cos() * DIR_ONE as f64) as i32, (a.sin() * DIR_ONE as f64) as i32)
        })
        .collect();
    let second: Vec<(i32, i32)> = first.iter().map(|&(c, s)| (-c, -s)).collect();
    first.into_iter().chain(second).collect()
}

fn still_params() -> SimulationParams {
    SimulationParams {
        move_speed: 0,
        evaporation_speed: 0,
        diffuse_speed: 0,
        sense_angle_difference: 0,
        sense_distance: 0,
        sense_size: 0,
        turn_speed: 0,
    }
}

fn cell(field: &Field, i: usize, j: usize) -> u32 {
    field.field_snapshot()[i * field.height() as usize + j]
}

#[test]
fn agent_moving_past_the_wall_is_clamped_and_turned() {
    let params = SimulationParams { move_speed: 1000, ..still_params() };
    let mut field = Field::new(10, 10, params, directions(), 1);
    field.add_point_with(&vec![0]);
    assert_eq!(field.agents()[0], Agent { x: 500, y: 500, angle: 0 });
    field.update_with(MICROS as u32, &vec![0], &vec![7]);
    assert_eq!(field.agents()[0], Agent { x: 899, y: 500, angle: 7 });
    assert_eq!(cell(&field, 8, 5), ONE);
}

#[test]
fn agent_inside_the_grid_moves_without_turning() {
    let params = SimulationParams { move_speed: 300, ..still_params() };
    let mut field = Field::new(10, 10, params, directions(), 1);
    field.add_point_with(&vec![0]);
    field.update_with(MICROS as u32, &vec![12345], &vec![7]);
    assert_eq!(field.agents()[0], Agent { x: 800, y: 500, angle: 0 });
    assert_eq!(cell(&field, 8, 5), ONE);
}

#[test]
fn hotspot_beyond_sensing_distance_leaves_heading_unchanged() {
    let params = SimulationParams {
        sense_distance: 500,
        sense_size: 1,
        sense_angle_difference: 600,
        turn_speed: 4000,
        ..still_params()
    };
    let mut field = Field::new(50, 50, params, directions(), 3);
    field.add_random_with(&vec![45], &vec![25], &vec![0]);
    field.update_with(0, &vec![0], &vec![0]);
    assert_eq!(cell(&field, 45, 25), ONE);
    field.add_point_with(&vec![0]);
    field.update_with(MICROS as u32, &vec![50000], &vec![9]);
    assert_eq!(field.agents()[0], Agent { x: 2500, y: 2500, angle: 0 });
}

#[test]
fn spawns_produce_the_requested_counts_and_reset_clears() {
    let mut field = Field::new(40, 30, SimulationParams::default(), directions(), 5);
    assert!(!field.can_run());
    field.add_point(5);
    assert_eq!(field.agents().len(), 5);
    assert!(field.can_run());
    for a in field.agents() {
        assert_eq!((a.x, a.y), (2000, 1500));
        assert!(a.angle < HEADINGS);
    }
    field.add_random(7);
    assert_eq!(field.agents().len(), 7);
    field.add_circle(9, 1000);
    assert_eq!(field.agents().len(), 9);
    field.add_inward_circle(11, 1000);
    assert_eq!(field.agents().len(), 11);
    field.update(16_000);
    field.reset();
    assert_eq!(field.agents().len(), 0);
    assert!(!field.can_run());
    assert_eq!(field.field_snapshot().len(), 40 * 30);
    assert!(field.field_snapshot().iter().all(|&c| c == 0));
}

#[test]
fn zero_agent_spawns_are_empty() {
    let mut field = Field::new(4, 4, SimulationParams::default(), directions(), 5);
    field.add_circle(0, 0);
    assert_eq!(field.agents().len(), 0);
    assert!(field.can_run());
}

#[test]
fn random_spawn_places_agents_on_whole_cells_inside_the_grid() {
    let mut field = Field::new(7, 3, SimulationParams::default(), directions(), 9);
    field.add_random(300);
    for a in field.agents() {
        assert!(0 <= a.x && a.x < 700 && a.x % 100 == 0);
        assert!(0 <= a.y && a.y < 300 && a.y % 100 == 0);
        assert!(a.angle < HEADINGS);
    }
    let xs: std::collections::BTreeSet<i64> = field.agents().iter().map(|a| a.x).collect();
    assert!(xs.len() > 1);
}

#[test]
fn circle_spawn_stays_within_radius() {
    let mut field = Field::new(100, 100, SimulationParams::default(), directions(), 11);
    field.add_circle(500, 3000);
    for a in field.agents() {
        let dx = (a.x - 5000) as i128;
        let dy = (a.y - 5000) as i128;
        assert!(dx * dx + dy * dy <= 3000 * 3000);
    }
    field.add_inward_circle(500, 3000);
    for a in field.agents() {
        let dx = (a.x - 5000) as i128;
        let dy = (a.y - 5000) as i128;
        assert!(dx * dx + dy * dy <= 3000 * 3000);
    }
}

#[test]
fn inward_circle_heading_is_circle_heading_turned_by_half() {
    let mut field = Field::new(100, 100, SimulationParams::default(), directions(), 11);
    let angles = vec![0, 1024, 2048, 3000, 4095];
    let draws = vec![0, 100, 8_999_999, 4_000_000, 1];
    field.add_circle_with(&angles, &draws);
    let out: Vec<Agent> = field.agents().clone();
    field.add_inward_circle_with(&angles, &draws);
    let inward: Vec<Agent> = field.agents().clone();
    for (o, i) in out.iter().zip(inward.iter()) {
        assert_eq!((o.x, o.y), (i.x, i.y));
        assert_eq!(i.angle, (o.angle + 2048) % 4096);
    }
    assert_eq!(out[0], Agent { x: 5000, y: 5000, angle: 0 });
    assert_eq!(out[2], Agent { x: 5000 - 2999, y: 5000, angle: 2048 });
    assert_eq!(inward[1], Agent { x: 5000, y: 5010, angle: 3072 });
}

#[test]
fn zero_time_step_only_deposits() {
    let mut field = Field::new(60, 40, SimulationParams::default(), directions(), 17);
    field.add_random(50);
    for _ in 0..5 {
        field.update(16_000);
    }
    let before = field.field_snapshot().clone();
    let agents = field.agents().clone();
    let n = agents.len();
    field.update_with(0, &vec![40000; n], &vec![1; n]);
    assert_eq!(field.agents(), &agents);
    let h = 40usize;
    for p in 0..before.len() {
        let occupied = agents.iter().any(|a| (a.x / 100) as usize * h + (a.y / 100) as usize == p);
        let expected = if occupied { ONE } else { before[p] };
        assert_eq!(field.field_snapshot()[p], expected);
    }
}

#[test]
fn seeded_runs_are_identical() {
    let run = || {
        let mut field = Field::new(80, 60, SimulationParams::default(), directions(), 42);
        field.add_inward_circle(200, 2500);
        for dt in [16_000u32, 17_000, 15_500, 16_000] {
            field.update(dt);
        }
        (field.agents().clone(), field.field_snapshot().clone())
    };
    assert_eq!(run(), run());
}

#[test]
fn repeated_steps_keep_cells_in_range_and_agents_on_grid() {
    let mut field = Field::new(64, 48, SimulationParams::default(), directions(), 23);
    field.add_circle(400, 6000);
    for _ in 0..20 {
        field.update(16_000);
        for a in field.agents() {
            assert!(0 <= a.x && a.x < 6400);
            assert!(0 <= a.y && a.y < 4800);
        }
        assert!(field.field_snapshot().iter().all(|&c| c <= ONE));
    }
    assert!(field.field_snapshot().iter().any(|&c| c > 0));
}

#[test]
fn stencil_cell_examples() {
    assert_eq!(stencil_cell(ONE, 9 * ONE as u64, 0, 0), ONE);
    assert_eq!(stencil_cell(ONE, ONE as u64, ONE as u64 / 2, 0), 36408);
    assert_eq!(stencil_cell(1000, 9000, ONE as u64 / 4, 10), 990);
    assert_eq!(stencil_cell(ONE, 3 * ONE as u64, ONE as u64, 0), 21845);
    assert_eq!(stencil_cell(100, 900, 0, 200), 0);
    assert_eq!(stencil_cell(ONE, 0, 2 * ONE as u64, 0), 0);
    assert_eq!(stencil_cell(u32::MAX, 0, 0, 0), u32::MAX);
}

#[test]
fn stencil_skips_outside_neighbours_and_divides_by_nine() {
    let cells = vec![9000u32; 9];
    let mut out = vec![0u32; 9];
    stencil_into(&cells, &mut out, 3, 3, ONE as u64, 0);
    assert_eq!(out[4], 9000);
    assert_eq!(out[0], 4000);
    assert_eq!(out[1], 6000);
    assert_eq!(cells, vec![9000u32; 9]);
}

#[test]
fn sensing_window_clamps_to_the_edges() {
    let cells: Vec<u32> = (1..=6).collect();
    assert_eq!(window_total(&cells, 2, 3, -5, -5, 0), 1);
    assert_eq!(window_total(&cells, 2, 3, 10, 10, 0), 6);
    assert_eq!(window_total(&cells, 2, 3, 0, 1, 1), 1 + 2 + 3 + 1 + 2 + 3 + 4 + 5 + 6);
    assert_eq!(window_total(&cells, 2, 3, 0, 0, 2), 3 * (1 + 1 + 1 + 2 + 3) + 2 * (4 + 4 + 4 + 5 + 6));
}

#[test]
fn steering_follows_the_priority_order() {
    assert_eq!(steer_decision(5, 1, 1), Steer::Straight);
    assert_eq!(steer_decision(0, 3, 2), Steer::Wander);
    assert_eq!(steer_decision(2, 1, 3), Steer::Right);
    assert_eq!(steer_decision(2, 3, 1), Steer::Straight);
    assert_eq!(steer_decision(0, 0, 0), Steer::Straight);
    assert_eq!(steer_decision(1, 1, 1), Steer::Straight);
}

#[test]
fn turns_by_steering_strength() {
    assert_eq!(apply_steer(0, Steer::Wander, 0, 1000), 3096);
    assert_eq!(apply_steer(0, Steer::Wander, STEER_ONE - 1, 1000), 999);
    assert_eq!(apply_steer(10, Steer::Right, 32768, 100), 4056);
    assert_eq!(apply_steer(10, Steer::Left, 32768, 100), 60);
    assert_eq!(apply_steer(10, Steer::Straight, 32768, 100), 10);
}

#[test]
fn integer_square_root() {
    assert_eq!(isqrt(0), 0);
    assert_eq!(isqrt(15), 3);
    assert_eq!(isqrt(16), 4);
    assert_eq!(isqrt(u64::MAX), 4_294_967_295);
}

#[test]
fn default_params() {
    let p = SimulationParams::default();
    assert_eq!(p.move_speed, 5000);
    assert_eq!(p.sense_size, 3);
    assert_eq!(p.diffuse_speed, 8 * ONE);
}

#[test]
fn heading_table_negates_across_half_a_turn() {
    let dirs = directions();
    let n = HEADINGS as usize;
    assert_eq!(dirs.len(), n);
    for h in 0..n {
        let (c, s) = dirs[h];
        assert_eq!(dirs[(h + n / 2) % n], (-c, -s));
        assert!((c as i64) * (c as i64) + (s as i64) * (s as i64) <= DIR_ONE * DIR_ONE);
    }
}

#[test]
fn inward_circle_agents_face_the_centre() {
    let dirs = directions();
    let mut field = Field::new(100, 100, SimulationParams::default(), dirs.clone(), 31);
    field.add_inward_circle(300, 4000);
    for a in field.agents() {
        let (hx, hy) = dirs[a.angle as usize];
        let (dx, dy) = (a.x - 5000, a.y - 5000);
        // The heading vector points back at the centre: opposite to the offset.
        assert!(dx as i128 * hx as i128 + dy as i128 * hy as i128 <= 0);
    }
}
