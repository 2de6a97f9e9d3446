use rocket::entity::{Asteroid, Projectile, Vec2};
use rocket::geom::Rect;
use rocket::sim::{Color, Input, Simulation};

fn no_input() -> Input {
    Input { up: false, down: false, left: false, right: false }
}

fn rect(x: i32, y: i32, w: i32, h: i32) -> Rect {
    Rect { x, y, w, h }
}

fn player_at(x: i32, y: i32) -> Rect {
    rect(x, y, 10, 20)
}

fn asteroid_at(x: i32, y: i32) -> Asteroid {
    Asteroid { rect: rect(x, y, 20, 20), vel: Vec2 { x: 0, y: 2 }, has_collided: false }
}

fn projectile_at(x: i32, y: i32) -> Projectile {
    Projectile { rect: rect(x, y, 5, 15), vel: Vec2 { x: 0, y: -5 }, has_collided: false }
}

fn sim_with(player: Rect, asteroids: Vec<Asteroid>, projectiles: Vec<Projectile>, frames: u32) -> Simulation {
    Simulation { player, asteroids, projectiles, frames }
}

#[test]
fn boundary_clamp_up() {
    // Strictly above the stop line: the upward step is dropped whole.
    let mut sim = sim_with(player_at(300, 85), vec![], vec![], 0);
    let held = Input { up: true, down: false, left: false, right: false };
    sim.advance_frame_with_spawn_x(held, 0);
    assert_eq!(sim.player.y, 85);
    // On the line: the step still applies.
    let mut sim = sim_with(player_at(300, 90), vec![], vec![], 0);
    sim.advance_frame_with_spawn_x(held, 0);
    assert_eq!(sim.player.y, 85);
}

#[test]
fn boundary_clamp_down() {
    // Bottom edge already past the arena: the downward step is dropped.
    let mut sim = sim_with(player_at(300, 585), vec![], vec![], 0);
    let held = Input { up: false, down: true, left: false, right: false };
    sim.advance_frame_with_spawn_x(held, 0);
    assert_eq!(sim.player.y, 585);
    // One step earlier the move is still allowed, ending past the edge.
    let mut sim = sim_with(player_at(300, 580), vec![], vec![], 0);
    sim.advance_frame_with_spawn_x(held, 0);
    assert_eq!(sim.player.y, 585);
}

#[test]
fn boundary_clamp_left() {
    // Left edge already across the left boundary: the step is dropped.
    let mut sim = sim_with(player_at(-5, 300), vec![], vec![], 0);
    let held = Input { up: false, down: false, left: true, right: false };
    sim.advance_frame_with_spawn_x(held, 0);
    assert_eq!(sim.player.x, -5);
    // At zero the step still applies.
    let mut sim = sim_with(player_at(0, 300), vec![], vec![], 0);
    sim.advance_frame_with_spawn_x(held, 0);
    assert_eq!(sim.player.x, -5);
}

#[test]
fn boundary_clamp_right() {
    // Right edge already past the arena: the step is dropped.
    let mut sim = sim_with(player_at(595, 300), vec![], vec![], 0);
    let held = Input { up: false, down: false, left: false, right: true };
    sim.advance_frame_with_spawn_x(held, 0);
    assert_eq!(sim.player.x, 595);
    let mut sim = sim_with(player_at(590, 300), vec![], vec![], 0);
    sim.advance_frame_with_spawn_x(held, 0);
    assert_eq!(sim.player.x, 595);
}

#[test]
fn movement_steps_are_five_units() {
    let mut sim = sim_with(player_at(300, 300), vec![], vec![], 0);
    sim.advance_frame_with_spawn_x(Input { up: true, down: false, left: false, right: false }, 0);
    assert_eq!((sim.player.x, sim.player.y), (300, 295));
    sim.advance_frame_with_spawn_x(Input { up: false, down: true, left: false, right: false }, 0);
    assert_eq!((sim.player.x, sim.player.y), (300, 300));
    sim.advance_frame_with_spawn_x(Input { up: false, down: false, left: true, right: false }, 0);
    assert_eq!((sim.player.x, sim.player.y), (295, 300));
    sim.advance_frame_with_spawn_x(Input { up: false, down: false, left: false, right: true }, 0);
    assert_eq!((sim.player.x, sim.player.y), (300, 300));
    // No keys held: the player does not move.
    sim.advance_frame_with_spawn_x(no_input(), 0);
    assert_eq!((sim.player.x, sim.player.y), (300, 300));
}

#[test]
fn two_spawns_over_one_cycle() {
    // One full cycle of the frame counter from zero is 61 frames; with no
    // collisions and nothing leaving the screen, exactly two asteroids
    // appear, at the two trigger frames.
    let mut sim = sim_with(player_at(300, 540), vec![], vec![], 0);
    let mut seen_after_20 = 0;
    let mut seen_after_51 = 0;
    for k in 1..=61 {
        sim.advance_frame_with_spawn_x(no_input(), 0);
        if k == 21 {
            seen_after_20 = sim.asteroids.len();
        }
        if k == 51 {
            seen_after_51 = sim.asteroids.len();
        }
    }
    assert_eq!(seen_after_20, 1);
    assert_eq!(seen_after_51, 2);
    assert_eq!(sim.asteroids.len(), 2);
    assert_eq!(sim.frames, 0);
}

#[test]
fn spawned_asteroid_shape_and_random_position() {
    // A trigger frame appends exactly one asteroid of the fixed shape; its
    // horizontal position is drawn inside the arena.
    let mut sim = sim_with(player_at(300, 540), vec![], vec![], 20);
    sim.advance_frame(no_input());
    assert_eq!(sim.asteroids.len(), 1);
    let a = &sim.asteroids[0];
    assert!(0 <= a.rect.x && a.rect.x < 600);
    assert_eq!(a.rect.y, 6);
    assert_eq!((a.rect.w, a.rect.h), (20, 20));
    assert_eq!((a.vel.x, a.vel.y), (0, 2));
    assert!(!a.has_collided);
}

#[test]
fn asteroid_drifts_down_two_units() {
    let mut sim = sim_with(player_at(300, 540), vec![asteroid_at(100, 50)], vec![], 0);
    sim.advance_frame_with_spawn_x(no_input(), 0);
    assert_eq!(sim.asteroids.len(), 1);
    assert_eq!((sim.asteroids[0].rect.x, sim.asteroids[0].rect.y), (100, 52));
}

#[test]
fn projectile_climbs_five_units() {
    let mut sim = sim_with(player_at(300, 540), vec![], vec![projectile_at(300, 200)], 0);
    sim.advance_frame_with_spawn_x(no_input(), 0);
    assert_eq!(sim.projectiles.len(), 1);
    assert_eq!((sim.projectiles[0].rect.x, sim.projectiles[0].rect.y), (300, 195));
}

#[test]
fn offscreen_asteroid_pruned() {
    // One asteroid reaches the bottom band edge this frame and is gone on
    // this very call; the other stays one unit short of it.
    let asteroids = vec![asteroid_at(100, 598), asteroid_at(200, 597)];
    let mut sim = sim_with(player_at(300, 100), asteroids, vec![], 0);
    sim.advance_frame_with_spawn_x(no_input(), 0);
    assert_eq!(sim.asteroids.len(), 1);
    assert_eq!((sim.asteroids[0].rect.x, sim.asteroids[0].rect.y), (200, 599));
}

#[test]
fn offscreen_projectile_pruned() {
    // A projectile that reaches the top band edge is gone on this very
    // call; one unit lower it survives.
    let projectiles = vec![projectile_at(100, 5), projectile_at(200, 6)];
    let mut sim = sim_with(player_at(300, 540), vec![], projectiles, 0);
    sim.advance_frame_with_spawn_x(no_input(), 0);
    assert_eq!(sim.projectiles.len(), 1);
    assert_eq!((sim.projectiles[0].rect.x, sim.projectiles[0].rect.y), (200, 1));
}

#[test]
fn collision_removes_both_and_spares_the_rest() {
    // After this frame's motion the first asteroid and the first
    // projectile overlap; both vanish, the far pair is untouched.
    let asteroids = vec![asteroid_at(100, 300), asteroid_at(400, 300)];
    let projectiles = vec![projectile_at(105, 305), projectile_at(500, 100)];
    let mut sim = sim_with(player_at(300, 540), asteroids, projectiles, 0);
    sim.advance_frame_with_spawn_x(no_input(), 0);
    assert_eq!(sim.asteroids.len(), 1);
    assert_eq!((sim.asteroids[0].rect.x, sim.asteroids[0].rect.y), (400, 302));
    assert_eq!(sim.projectiles.len(), 1);
    assert_eq!((sim.projectiles[0].rect.x, sim.projectiles[0].rect.y), (500, 95));
}

#[test]
fn touching_edges_count_as_collision() {
    // The projectile's top edge lands exactly on the asteroid's bottom
    // edge after motion; edge contact collides.
    let asteroids = vec![asteroid_at(100, 278)];
    let projectiles = vec![projectile_at(110, 305)];
    let mut sim = sim_with(player_at(300, 540), asteroids, projectiles, 0);
    sim.advance_frame_with_spawn_x(no_input(), 0);
    assert_eq!(sim.asteroids.len(), 0);
    assert_eq!(sim.projectiles.len(), 0);
}

#[test]
fn fire_then_projectile_leaves_after_108_frames() {
    // Fired from y = 540 and climbing five units per frame, the projectile
    // reaches the top band edge with the 108th following frame, so the
    // collection is empty at every tick from there on.
    let mut sim = sim_with(player_at(300, 540), vec![], vec![], 0);
    sim.spawn_projectile();
    assert_eq!(sim.projectiles.len(), 1);
    assert_eq!((sim.projectiles[0].rect.x, sim.projectiles[0].rect.y), (300, 540));
    for k in 1..=109 {
        sim.advance_frame_with_spawn_x(no_input(), 0);
        if k == 107 {
            assert_eq!(sim.projectiles.len(), 1);
            assert_eq!(sim.projectiles[0].rect.y, 5);
        }
        if k >= 108 {
            assert_eq!(sim.projectiles.len(), 0);
        }
    }
}

#[test]
fn scenario_third_asteroid_after_trigger_frame() {
    // Start: player at (300, 540), two fresh asteroids, counter at zero.
    // After 20 quiet frames the counter reads 20 but the spawner has not
    // fired yet; the very next frame sees the trigger value and appends
    // the third asteroid.
    let asteroids = vec![asteroid_at(100, 6), asteroid_at(200, 6)];
    let mut sim = sim_with(player_at(300, 540), asteroids, vec![], 0);
    for _ in 0..20 {
        sim.advance_frame_with_spawn_x(no_input(), 0);
    }
    assert_eq!(sim.frames, 20);
    assert_eq!(sim.asteroids.len(), 2);
    sim.advance_frame_with_spawn_x(no_input(), 0);
    assert_eq!(sim.asteroids.len(), 3);
}

#[test]
fn render_snapshot_twice_is_identical() {
    let asteroids = vec![asteroid_at(100, 50)];
    let projectiles = vec![projectile_at(300, 400)];
    let sim = sim_with(player_at(300, 540), asteroids, projectiles, 7);
    let first = sim.render_snapshot();
    let second = sim.render_snapshot();
    assert_eq!(first, second);
}

#[test]
fn render_snapshot_contents() {
    let asteroids = vec![asteroid_at(100, 50), asteroid_at(200, 60)];
    let projectiles = vec![projectile_at(300, 400)];
    let sim = sim_with(player_at(300, 540), asteroids, projectiles, 0);
    let shapes = sim.render_snapshot();
    assert_eq!(shapes.len(), 4);
    assert_eq!(shapes[0], (rect(300, 540, 10, 20), Color::White));
    assert_eq!(shapes[1], (rect(100, 50, 20, 20), Color::White));
    assert_eq!(shapes[2], (rect(200, 60, 20, 20), Color::White));
    assert_eq!(shapes[3], (rect(300, 400, 5, 15), Color::Red));
}

#[test]
fn new_start_state() {
    let sim = Simulation::new();
    assert_eq!((sim.player.x, sim.player.y), (300, 540));
    assert_eq!((sim.player.w, sim.player.h), (10, 20));
    assert_eq!(sim.asteroids.len(), 2);
    for a in &sim.asteroids {
        assert!(0 <= a.rect.x && a.rect.x < 600);
        assert_eq!(a.rect.y, 6);
        assert_eq!((a.rect.w, a.rect.h), (20, 20));
        assert_eq!((a.vel.x, a.vel.y), (0, 2));
        assert!(!a.has_collided);
    }
    assert_eq!(sim.projectiles.len(), 0);
    assert_eq!(sim.frames, 0);
}

#[test]
fn spawn_projectile_has_no_cooldown() {
    let mut sim = sim_with(player_at(250, 500), vec![], vec![], 0);
    sim.spawn_projectile();
    sim.spawn_projectile();
    assert_eq!(sim.projectiles.len(), 2);
    for p in &sim.projectiles {
        assert_eq!((p.rect.x, p.rect.y), (250, 500));
        assert_eq!((p.rect.w, p.rect.h), (5, 15));
        assert_eq!((p.vel.x, p.vel.y), (0, -5));
        assert!(!p.has_collided);
    }
}

#[test]
fn remove_asteroid_drops_the_first() {
    let asteroids = vec![asteroid_at(100, 50), asteroid_at(200, 60)];
    let mut sim = sim_with(player_at(300, 540), asteroids, vec![], 0);
    sim.remove_asteroid();
    assert_eq!(sim.asteroids.len(), 1);
    assert_eq!(sim.asteroids[0].rect.x, 200);
}

#[test]
fn player_hit_signal() {
    // An asteroid that drifts onto the player this frame raises the
    // signal; it stays in the collection, since only projectiles destroy
    // asteroids.
    let mut sim = sim_with(player_at(300, 540), vec![asteroid_at(300, 538)], vec![], 0);
    let hit = sim.advance_frame_with_spawn_x(no_input(), 0);
    assert!(hit);
    assert_eq!(sim.asteroids.len(), 1);
    let mut sim = sim_with(player_at(300, 540), vec![asteroid_at(100, 100)], vec![], 0);
    let hit = sim.advance_frame_with_spawn_x(no_input(), 0);
    assert!(!hit);
}

#[test]
fn frame_counter_wraps_after_sixty() {
    let mut sim = sim_with(player_at(300, 540), vec![], vec![], 59);
    sim.advance_frame_with_spawn_x(no_input(), 0);
    assert_eq!(sim.frames, 60);
    sim.advance_frame_with_spawn_x(no_input(), 0);
    assert_eq!(sim.frames, 0);
}
