use robot_swarm::agent::RobotType;
use robot_swarm::grid::{ResourceKind, Terrain, WorldGrid};
use robot_swarm::world::World;

/// The obstacle layer the app derives from the continuous-noise
/// collaborator: one flag per cell, row-major.
fn noise_obstacles(width: usize, height: usize, seed: u32) -> Vec<bool> {
    let perlin = noise::Perlin::new(seed);
    let mut flags = Vec::with_capacity(width * height);
    for y in 0..height {
        for x in 0..width {
            let v = noise::NoiseFn::get(&perlin, [x as f64 / 10.0, y as f64 / 10.0]);
            flags.push(v > 0.4);
        }
    }
    flags
}

fn open_obstacles(width: usize, height: usize) -> Vec<bool> {
    std::iter::repeat(false).take(width * height).collect()
}

#[test]
fn generation_is_deterministic() {
    let (w, h, seed) = (30usize, 20usize, 42u32);
    let a = WorldGrid::new(w, h, seed, &noise_obstacles(w, h, seed));
    let b = WorldGrid::new(w, h, seed, &noise_obstacles(w, h, seed));
    assert_eq!(a.width, b.width);
    assert_eq!(a.height, b.height);
    assert_eq!(a.base_x, b.base_x);
    assert_eq!(a.base_y, b.base_y);
    assert_eq!(a.data, b.data);
}

#[test]
fn generation_centres_the_base() {
    let g = WorldGrid::new(10, 10, 7, &open_obstacles(10, 10));
    assert_eq!(g.base_x, 5);
    assert_eq!(g.base_y, 5);
    assert_eq!(g.cell_at(5, 5), Terrain::Base);
}

#[test]
fn placement_hash_has_expected_values() {
    // Expected cells computed independently from the placement hash:
    // a cell holds a resource when its draw is divisible by ten, and the
    // kind follows the next digit of the draw.
    let g = WorldGrid::new(10, 10, 99, &open_obstacles(10, 10));
    assert_eq!(g.cell_at(5, 1), Terrain::Resource(ResourceKind::Ore));
    assert_eq!(g.cell_at(8, 0), Terrain::Resource(ResourceKind::Energy));
    assert_eq!(g.cell_at(5, 4), Terrain::Resource(ResourceKind::Energy));
    assert_eq!(g.cell_at(9, 4), Terrain::Resource(ResourceKind::Ore));
    assert_eq!(g.cell_at(0, 0), Terrain::Empty);
    assert_eq!(g.cell_at(5, 5), Terrain::Base);
}

#[test]
fn clone_map_is_a_deep_copy() {
    let g = WorldGrid::new(12, 9, 3, &noise_obstacles(12, 9, 3));
    let mut c = g.clone_map();
    assert_eq!(c.data, g.data);
    assert_eq!(c.width, g.width);
    assert_eq!(c.height, g.height);
    assert_eq!(c.base_x, g.base_x);
    assert_eq!(c.base_y, g.base_y);
    c.place_resource(0, 0, ResourceKind::Ore);
    assert_eq!(c.cell_at(0, 0), Terrain::Resource(ResourceKind::Ore));
    assert_ne!(g.cell_at(0, 0), Terrain::Resource(ResourceKind::Ore));
}

#[test]
fn deplete_consumes_and_is_idempotent() {
    let mut g = WorldGrid::new(10, 10, 1, &open_obstacles(10, 10));
    g.place_resource(2, 3, ResourceKind::Energy);
    assert!(g.cell_at(2, 3) == Terrain::Resource(ResourceKind::Energy));
    g.deplete(2, 3);
    assert_eq!(g.cell_at(2, 3), Terrain::Empty);
    g.deplete(2, 3);
    assert_eq!(g.cell_at(2, 3), Terrain::Empty);
    g.deplete(5, 5);
    assert_eq!(g.cell_at(5, 5), Terrain::Base);
}

#[test]
fn registry_keeps_discovery_order() {
    let mut reg = robot_swarm::claims::ClaimRegistry::new();
    reg.report(1, 1);
    reg.report(2, 2);
    reg.report(3, 3);
    assert_eq!(reg.size(), 3);
    assert_eq!(reg.nth_unclaimed(0), Some((1, 1)));
    assert_eq!(reg.nth_unclaimed(1), Some((2, 2)));
    assert_eq!(reg.nth_unclaimed(2), Some((3, 3)));
    assert_eq!(reg.nth_unclaimed(3), None);
}

#[test]
fn registry_report_is_idempotent() {
    let mut reg = robot_swarm::claims::ClaimRegistry::new();
    reg.report(4, 5);
    reg.report(4, 5);
    assert_eq!(reg.size(), 1);
    assert!(reg.contains(4, 5));
}

#[test]
fn registry_release_is_idempotent() {
    let mut reg = robot_swarm::claims::ClaimRegistry::new();
    reg.report(4, 5);
    reg.release(9, 9);
    assert_eq!(reg.size(), 1);
    reg.release(4, 5);
    assert_eq!(reg.size(), 0);
    reg.release(4, 5);
    assert_eq!(reg.size(), 0);
}

#[test]
fn secondary_acquires_second_outstanding() {
    // Discoveries A, B, C in that order: the primary's next target is A.
    // After A is collected and D is discovered, the outstanding set is
    // {B, C, D}: the secondary acquires C, the entry at index 1, not B.
    let mut reg = robot_swarm::claims::ClaimRegistry::new();
    reg.report(1, 0); // A
    reg.report(2, 0); // B
    reg.report(3, 0); // C
    assert_eq!(reg.nth_unclaimed(0), Some((1, 0)));
    reg.release(1, 0);
    reg.report(4, 0); // D
    assert_eq!(reg.nth_unclaimed(0), Some((2, 0)));
    assert_eq!(reg.nth_unclaimed(1), Some((3, 0)));
    assert_eq!(reg.nth_unclaimed(2), Some((4, 0)));
}

#[test]
fn log_buffer_evicts_oldest() {
    let mut logs = robot_swarm::logbuf::LogBuffer::new();
    for i in 0..13usize {
        logs.log_event(robot_swarm::logbuf::LogEvent::MinerWaiting { id: i });
    }
    assert_eq!(logs.len(), 10);
    assert_eq!(logs.get(0), robot_swarm::logbuf::LogEvent::MinerWaiting { id: 3 });
    assert_eq!(logs.get(9), robot_swarm::logbuf::LogEvent::MinerWaiting { id: 12 });
}

#[test]
fn explorer_reports_and_miner_collects() {
    // 10x10 grid, fixed seed, one explorer and one miner at the base
    // (5, 5); a resource is forced at (5, 6).
    let obstacles = open_obstacles(10, 10);
    let roster = vec![RobotType::Explorer, RobotType::Miner];
    let mut world = World::new(10, 10, 99, &obstacles, &roster);
    world.grid.place_resource(5, 6, ResourceKind::Ore);
    for x in 0..10 {
        for y in 0..10 {
            if !(x == 5 && y == 6) && !(x == 5 && y == 5) && world.grid.cell_at(x, y) != Terrain::Empty {
                world.grid.deplete(x, y);
            }
        }
    }
    // Tick 1: the explorer steps down onto the resource (direction 3).
    world.tick_with(0, 3);
    assert_eq!(world.robots[0].x, 5);
    assert_eq!(world.robots[0].y, 6);
    assert_eq!(world.claims.size(), 0);
    // Tick 2: standing on the resource, the explorer reports it.
    world.tick_with(0, 2);
    assert!(world.claims.contains(5, 6));
    // Miner tick: acquires (5, 6), steps onto it, collects atomically.
    world.tick_with(1, 0);
    assert_eq!(world.robots[1].x, 5);
    assert_eq!(world.robots[1].y, 6);
    assert_eq!(world.robots[1].inventory, 1);
    assert_eq!(world.robots[1].target, None);
    assert_eq!(world.grid.cell_at(5, 6), Terrain::Empty);
    assert!(!world.claims.contains(5, 6));
}

#[test]
fn secondary_miner_waits_for_quota() {
    let obstacles = open_obstacles(11, 11);
    let roster = vec![RobotType::Miner, RobotType::Miner];
    let mut world = World::new(11, 11, 5, &obstacles, &roster);
    // Fewer than two outstanding claims: the secondary (the later miner)
    // pauses and nudges itself one cell off the base.
    world.tick_with(1, 0);
    assert!(world.robots[1].paused);
    assert_eq!(world.robots[1].target, None);
    assert_eq!((world.robots[1].x, world.robots[1].y), (6, 5));
    // Two discoveries later it acquires the second outstanding claim.
    world.grid.place_resource(1, 1, ResourceKind::Ore);
    world.grid.place_resource(2, 2, ResourceKind::Energy);
    world.claims.report(1, 1);
    world.claims.report(2, 2);
    world.tick_with(1, 0);
    assert!(!world.robots[1].paused);
    assert_eq!(world.robots[1].target, Some((2, 2)));
}

#[test]
fn quota_wait_nudge_avoids_obstacles() {
    // The cell right of the base is an obstacle: the waiting secondary
    // steps to the left side instead.
    let mut obstacles = open_obstacles(11, 11);
    obstacles[5 * 11 + 6] = true; // obstacle at (6, 5), beside the base (5, 5)
    let roster = vec![RobotType::Miner, RobotType::Miner];
    let mut world = World::new(11, 11, 5, &obstacles, &roster);
    world.tick_with(1, 0);
    assert!(world.robots[1].paused);
    assert_eq!((world.robots[1].x, world.robots[1].y), (4, 5));
}

#[test]
fn quota_wait_nudge_stays_when_blocked() {
    // Both cells beside the base are obstacles: the waiting secondary
    // stays on the base rather than stepping onto one.
    let mut obstacles = open_obstacles(11, 11);
    obstacles[5 * 11 + 6] = true; // (6, 5)
    obstacles[5 * 11 + 4] = true; // (4, 5)
    let roster = vec![RobotType::Miner, RobotType::Miner];
    let mut world = World::new(11, 11, 5, &obstacles, &roster);
    world.tick_with(1, 0);
    assert!(world.robots[1].paused);
    assert_eq!((world.robots[1].x, world.robots[1].y), (5, 5));
}

#[test]
fn primary_miner_takes_earliest_claim() {
    let obstacles = open_obstacles(11, 11);
    let roster = vec![RobotType::Miner, RobotType::Miner];
    let mut world = World::new(11, 11, 5, &obstacles, &roster);
    world.grid.place_resource(1, 1, ResourceKind::Ore);
    world.grid.place_resource(2, 2, ResourceKind::Energy);
    world.claims.report(1, 1);
    world.claims.report(2, 2);
    world.tick_with(0, 0);
    assert_eq!(world.robots[0].target, Some((1, 1)));
}

#[test]
fn full_miner_deposits_at_base() {
    let obstacles = open_obstacles(10, 10);
    let roster = vec![RobotType::Miner];
    let mut world = World::new(10, 10, 2, &obstacles, &roster);
    world.robots[0].x = 6;
    world.robots[0].y = 6;
    world.robots[0].inventory = 5;
    world.tick_with(0, 0);
    assert_eq!((world.robots[0].x, world.robots[0].y), (5, 5));
    assert_eq!(world.robots[0].inventory, 0);
}

#[test]
fn inventory_reset_needs_full_load() {
    let obstacles = open_obstacles(10, 10);
    let roster = vec![RobotType::Miner];
    let mut world = World::new(10, 10, 2, &obstacles, &roster);
    world.robots[0].x = 6;
    world.robots[0].y = 6;
    world.robots[0].inventory = 3;
    // Not full: the miner wanders instead of returning, and keeps its load.
    world.tick_with(0, 1);
    assert_eq!(world.robots[0].inventory, 3);
}

#[test]
fn wandering_wraps_at_the_edges() {
    let obstacles = open_obstacles(9, 7);
    let roster = vec![RobotType::Explorer];
    let mut world = World::new(9, 7, 11, &obstacles, &roster);
    world.robots[0].x = 0;
    world.robots[0].y = 0;
    world.tick_with(0, 0);
    assert_eq!((world.robots[0].x, world.robots[0].y), (8, 0));
    world.tick_with(0, 2);
    assert_eq!((world.robots[0].x, world.robots[0].y), (8, 6));
}

#[test]
fn wander_into_obstacle_stays_put() {
    let mut obstacles = open_obstacles(9, 7);
    obstacles[3 * 9 + 5] = true; // obstacle at (5, 3)
    let roster = vec![RobotType::Explorer];
    let mut world = World::new(9, 7, 11, &obstacles, &roster);
    world.robots[0].x = 5;
    world.robots[0].y = 4;
    // Direction 2 points at the obstacle: the move is rejected and no
    // alternate direction is tried this tick.
    world.tick_with(0, 2);
    assert_eq!((world.robots[0].x, world.robots[0].y), (5, 4));
}

#[test]
fn positions_and_inventories_stay_valid() {
    let (w, h, seed) = (15usize, 15usize, 21u32);
    let obstacles = noise_obstacles(w, h, seed);
    let roster = vec![RobotType::Explorer, RobotType::Miner, RobotType::Miner];
    let mut world = World::new(w, h, seed, &obstacles, &roster);
    for step in 0..240usize {
        let agent = step % 3;
        let dir = (step % 4) as u8;
        world.tick_with(agent, dir);
        for r in &world.robots {
            assert!(r.x < w && r.y < h);
            assert!(r.inventory <= 5);
            assert_ne!(world.grid.cell_at(r.x, r.y), Terrain::Obstacle);
        }
    }
}

#[test]
fn snapshot_carries_every_agent() {
    let obstacles = open_obstacles(10, 10);
    let roster = vec![RobotType::Explorer, RobotType::Miner, RobotType::Miner];
    let mut world = World::new(10, 10, 8, &obstacles, &roster);
    let s0 = world.snapshot();
    assert_eq!(s0.robots.len(), 3);
    world.tick_with(0, 1);
    world.tick_with(1, 2);
    let s1 = world.snapshot();
    assert_eq!(s1.robots.len(), 3);
    assert_eq!(s1.grid.data, world.grid.data);
    assert_eq!(s1.robots[1].x, world.robots[1].x);
}

#[test]
fn random_tick_keeps_the_world_valid() {
    let obstacles = open_obstacles(10, 10);
    let roster = vec![RobotType::Explorer];
    let mut world = World::new(10, 10, 4, &obstacles, &roster);
    for _ in 0..50 {
        world.tick(0);
        assert!(world.robots[0].x < 10 && world.robots[0].y < 10);
    }
}
