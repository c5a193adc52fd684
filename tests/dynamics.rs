use voxel_world::block::Block;
use voxel_world::coords::BlockPos;
use voxel_world::player::{
    check_player_collision, player_movement_system, FixedVec3, Player, PlayerInput, JUMP_VELOCITY,
};
use voxel_world::world::WorldMap;

fn idle() -> PlayerInput {
    PlayerInput {
        move_x: 0,
        move_z: 0,
        jump: false,
        fly_up: false,
        fly_down: false,
        toggle_fly_mode: false,
        toggle_view_mode: false,
        toggle_chunk_debug_mode: false,
    }
}

fn airborne_at(x: i64, y: i64, z: i64) -> Player {
    let mut p = Player::new();
    p.position = FixedVec3 { x, y, z };
    p.on_ground = false;
    p
}

#[test]
fn falling_through_an_empty_world_respawns() {
    let w = WorldMap::new();
    let mut p = airborne_at(0, 50_000, 0);
    let mut lowest = p.position.y;
    let mut respawned = false;
    for _ in 0..10_000 {
        player_movement_system(&w, &mut p, &idle(), 16);
        if p.position == (FixedVec3 { x: 0, y: 100_000, z: 0 }) {
            respawned = true;
            break;
        }
        lowest = lowest.min(p.position.y);
    }
    assert!(respawned);
    assert!(lowest >= -50_000);
    assert_eq!(p.vertical_velocity, 0);
}

#[test]
fn landing_on_a_single_block() {
    let mut w = WorldMap::new();
    w.set_block(&BlockPos { x: 0, y: 0, z: 0 }, Block::Stone);
    let mut p = airborne_at(0, 5_000, 0);
    for _ in 0..1_000 {
        player_movement_system(&w, &mut p, &idle(), 16);
        if p.on_ground {
            break;
        }
    }
    assert!(p.on_ground);
    assert_eq!(p.vertical_velocity, 0);
    let feet = p.position.y - p.height / 2;
    assert!(feet >= 1_000 && feet < 1_250, "feet at {}", feet);
}

#[test]
fn jump_then_fall_back() {
    let mut w = WorldMap::new();
    w.set_block(&BlockPos { x: 0, y: 0, z: 0 }, Block::Stone);
    let mut p = Player::new();
    p.position = FixedVec3 { x: 0, y: 1_900, z: 0 };
    let jump = PlayerInput { jump: true, ..idle() };
    player_movement_system(&w, &mut p, &jump, 16);
    assert_eq!(p.vertical_velocity, JUMP_VELOCITY);
    assert!(!p.on_ground);
    assert_eq!(p.position.y, 1_900 + 160);
    player_movement_system(&w, &mut p, &idle(), 16);
    assert_eq!(p.vertical_velocity, JUMP_VELOCITY - 320);
    assert_eq!(p.position.y, 2_060 + (JUMP_VELOCITY - 320) * 16 / 1000);
    let mut peak = p.position.y;
    for _ in 0..1_000 {
        player_movement_system(&w, &mut p, &idle(), 16);
        peak = peak.max(p.position.y);
        if p.on_ground {
            break;
        }
    }
    assert!(p.on_ground);
    assert!(peak > 1_900 + 2_000 && peak < 1_900 + 2_600);
    assert!(p.position.y - p.height / 2 >= 1_000);
}

#[test]
fn walls_stop_planar_motion_without_penetration() {
    let mut w = WorldMap::new();
    for x in -2..8 {
        for z in -2..3 {
            w.set_block(&BlockPos { x, y: 0, z }, Block::Stone);
        }
    }
    for z in -2..3 {
        for y in 1..4 {
            w.set_block(&BlockPos { x: 5, y, z }, Block::Stone);
        }
    }
    let mut p = Player::new();
    p.position = FixedVec3 { x: 500, y: 1_900, z: 500 };
    let walk = PlayerInput { move_x: 1000, ..idle() };
    for _ in 0..300 {
        player_movement_system(&w, &mut p, &walk, 16);
        let mut probe = p;
        probe.position.y += 1;
        assert!(!check_player_collision(&w, probe.position, &probe));
    }
    assert!(p.position.x + p.width / 2 < 5_000);
    assert!(p.position.x > 4_000);
}

#[test]
fn flying_ignores_gravity_and_rises() {
    let w = WorldMap::new();
    let mut p = Player::new();
    let toggle = PlayerInput { toggle_fly_mode: true, ..idle() };
    player_movement_system(&w, &mut p, &toggle, 16);
    assert!(p.is_flying);
    let y0 = p.position.y;
    let up = PlayerInput { fly_up: true, ..idle() };
    player_movement_system(&w, &mut p, &up, 100);
    assert_eq!(p.position.y, y0 + 3_000);
    assert_eq!(p.vertical_velocity, 0);
    let fast = PlayerInput { move_z: -1000, ..idle() };
    player_movement_system(&w, &mut p, &fast, 100);
    assert_eq!(p.position.z, -1_500);
}

#[test]
fn flying_keeps_height_and_velocity_without_input() {
    let w = WorldMap::new();
    let mut p = airborne_at(0, 100_000, 0);
    p.is_flying = true;
    p.vertical_velocity = -10_000;
    player_movement_system(&w, &mut p, &idle(), 16);
    assert_eq!(p.position, FixedVec3 { x: 0, y: 100_000, z: 0 });
    assert_eq!(p.vertical_velocity, -10_000);
    assert!(!p.on_ground);
}

#[test]
fn flying_through_blocks_does_not_ground() {
    let mut w = WorldMap::new();
    w.set_block(&BlockPos { x: 0, y: 0, z: 0 }, Block::Stone);
    let mut p = airborne_at(0, 1_900, 0);
    p.is_flying = true;
    let down = PlayerInput { fly_down: true, ..idle() };
    player_movement_system(&w, &mut p, &down, 100);
    assert_eq!(p.position.y, 1_900 - 3_000);
    assert!(!p.on_ground);
    assert_eq!(p.vertical_velocity, 0);
}

#[test]
fn a_long_tick_is_accepted() {
    let w = WorldMap::new();
    let mut p = airborne_at(0, 50_000, 0);
    player_movement_system(&w, &mut p, &idle(), 1_000_000);
    assert_eq!(p.position, FixedVec3 { x: 0, y: 100_000, z: 0 });
    assert_eq!(p.vertical_velocity, 0);
}
