//! Player dynamics: per-tick planar movement, jumping, gravity, fly mode and
//! axis-by-axis collision against the chunk store. Positions are fixed-point,
//! in thousandths of a block; velocities are in thousandths of a block per
//! second; tick lengths are in milliseconds. Every division rounds down.
use vstd::prelude::*;

use crate::block::{is_solid, solid};
use crate::coords::{block_to_chunk_coord, chunk_component, BlockPos, ChunkPos};
use crate::mesh::block_in;
use crate::streaming::{in_stream_range, STREAM_LIMIT};
use crate::world::WorldMap;

verus! {

/// Position units per block.
pub const SUBUNITS: i64 = 1000;

/// Milliseconds per second.
pub const MILLIS: i64 = 1000;

/// The length of a unit planar direction in `PlayerInput`.
pub const DIRECTION_SCALE: i32 = 1000;

/// Walking speed, in thousandths of a block per second.
pub const WALK_SPEED: i64 = 5000;

/// Flying speed, in thousandths of a block per second.
pub const FLY_SPEED: i64 = 15000;

/// Vertical velocity given by a jump, in thousandths of a block per second.
pub const JUMP_VELOCITY: i64 = 10000;

/// Gravity, in thousandths of a block per second squared.
pub const GRAVITY: i64 = -20000;

/// Below this height the player is respawned.
pub const FALL_LIMIT: i64 = -50000;

/// The height of the respawn point `(0, SPAWN_Y, 0)`.
pub const SPAWN_Y: i64 = 100000;

/// Beyond this distance from the origin on any axis the player is respawned.
pub const WORLD_LIMIT: i64 = 1000000000000;

/// The largest downward speed a player can reach before the fall limit.
pub const MAX_FALL_SPEED: i64 = 1000000100000000;

/// The longest tick, in milliseconds, that the fixed-point arithmetic of a
/// tick holds in 64 bits.
pub const MAX_TICK_MS: u32 = 1000000;

/// The default player width.
pub const PLAYER_WIDTH: i64 = 800;

/// The default player height.
pub const PLAYER_HEIGHT: i64 = 1800;

/// A fixed-point position, in thousandths of a block.
#[derive(Clone, Copy, Debug, PartialEq, Eq, Structural)]
pub struct FixedVec3 {
    pub x: i64,
    pub y: i64,
    pub z: i64,
}

/// Whether the camera is in the player's head or behind it.
#[derive(Clone, Copy, Debug, PartialEq, Eq, Structural)]
pub enum ViewMode {
    FirstPerson,
    ThirdPerson,
}

/// The controlled player. Its box is centred on `position`, `width` wide
/// along x and z and `height` tall.
#[derive(Clone, Copy, Debug, PartialEq, Eq, Structural)]
pub struct Player {
    pub position: FixedVec3,
    pub vertical_velocity: i64,
    pub on_ground: bool,
    pub view_mode: ViewMode,
    pub is_flying: bool,
    pub chunk_debug_mode: bool,
    pub width: i64,
    pub height: i64,
}

/// One tick of input. `(move_x, move_z)` is the planar direction of motion,
/// already projected on the camera's horizontal plane and normalised to
/// length `DIRECTION_SCALE` (or zero); the flags are the held (`jump`,
/// `fly_up`, `fly_down`) and just-pressed (`toggle_*`) actions.
#[derive(Clone, Copy, Debug, PartialEq, Eq, Structural)]
pub struct PlayerInput {
    pub move_x: i32,
    pub move_z: i32,
    pub jump: bool,
    pub fly_up: bool,
    pub fly_down: bool,
    pub toggle_fly_mode: bool,
    pub toggle_view_mode: bool,
    pub toggle_chunk_debug_mode: bool,
}

/// The respawn point.
pub open spec fn spawn_point() -> FixedVec3 {
    FixedVec3 { x: 0, y: SPAWN_Y, z: 0 }
}

impl Player {
    /// The player is within the world and its velocity is within bounds.
    pub open spec fn wf(&self) -> bool {
        &&& -WORLD_LIMIT <= self.position.x <= WORLD_LIMIT
        &&& -WORLD_LIMIT <= self.position.y <= WORLD_LIMIT
        &&& -WORLD_LIMIT <= self.position.z <= WORLD_LIMIT
        &&& -MAX_FALL_SPEED <= self.vertical_velocity <= JUMP_VELOCITY
    }

    /// Whether the player is within the world and its velocity is within
    /// bounds.
    pub fn is_well_formed(&self) -> (r: bool)
        ensures
            r == self.wf(),
    {
        -WORLD_LIMIT <= self.position.x && self.position.x <= WORLD_LIMIT && -WORLD_LIMIT
            <= self.position.y && self.position.y <= WORLD_LIMIT && -WORLD_LIMIT <= self.position.z
            && self.position.z <= WORLD_LIMIT && -MAX_FALL_SPEED <= self.vertical_velocity
            && self.vertical_velocity <= JUMP_VELOCITY
    }

    /// A grounded, walking player in first-person view at the respawn point.
    pub fn new() -> (r: Player)
        ensures
            r.wf(),
            r.position == spawn_point(),
            r.vertical_velocity == 0,
            r.on_ground,
            !r.is_flying,
            r.width == PLAYER_WIDTH,
            r.height == PLAYER_HEIGHT,
    {
        Player {
            position: FixedVec3 { x: 0, y: SPAWN_Y, z: 0 },
            vertical_velocity: 0,
            on_ground: true,
            view_mode: ViewMode::FirstPerson,
            is_flying: false,
            chunk_debug_mode: false,
            width: PLAYER_WIDTH,
            height: PLAYER_HEIGHT,
        }
    }
}

/// Whether the point `(x, y, z)` lies in a solid block.
pub open spec fn solid_at(blocks: Map<BlockPos, crate::block::Block>, x: int, y: int, z: int) -> bool {
    match block_in(blocks, x / SUBUNITS as int, y / SUBUNITS as int, z / SUBUNITS as int) {
        Some(k) => solid(k),
        None => false,
    }
}

/// Whether a box of the given size centred on `pos` collides: one of its
/// eight corners (the four corners of its footprint, at the feet and at the
/// head) lies in a solid block.
pub open spec fn collides(blocks: Map<BlockPos, crate::block::Block>, pos: FixedVec3, width: int, height: int) -> bool {
    let hw = width / 2;
    let hh = height / 2;
    ||| solid_at(blocks, pos.x - hw, pos.y - hh, pos.z - hw)
    ||| solid_at(blocks, pos.x + hw, pos.y - hh, pos.z - hw)
    ||| solid_at(blocks, pos.x - hw, pos.y - hh, pos.z + hw)
    ||| solid_at(blocks, pos.x + hw, pos.y - hh, pos.z + hw)
    ||| solid_at(blocks, pos.x - hw, pos.y + hh, pos.z - hw)
    ||| solid_at(blocks, pos.x + hw, pos.y + hh, pos.z - hw)
    ||| solid_at(blocks, pos.x - hw, pos.y + hh, pos.z + hw)
    ||| solid_at(blocks, pos.x + hw, pos.y + hh, pos.z + hw)
}

/// The mode toggles of a tick.
pub open spec fn toggle_step(p: Player, i: PlayerInput) -> Player {
    Player {
        view_mode: if i.toggle_view_mode {
            match p.view_mode {
                ViewMode::FirstPerson => ViewMode::ThirdPerson,
                ViewMode::ThirdPerson => ViewMode::FirstPerson,
            }
        } else {
            p.view_mode
        },
        chunk_debug_mode: p.chunk_debug_mode != i.toggle_chunk_debug_mode,
        is_flying: p.is_flying != i.toggle_fly_mode,
        ..p
    }
}

/// Vertical flight: up or down at twice the flying speed, without collision.
pub open spec fn fly_step(p: Player, i: PlayerInput, dt: int) -> Player {
    if p.is_flying {
        let d = 2 * FLY_SPEED * dt / (MILLIS as int);
        let y1 = if i.fly_up { p.position.y + d } else { p.position.y as int };
        let y2 = if i.fly_down { y1 - d } else { y1 };
        Player { position: FixedVec3 { y: y2 as i64, ..p.position }, ..p }
    } else {
        p
    }
}

/// The displacement along one axis for a direction component over a tick.
pub open spec fn planar_displacement(component: int, flying: bool, dt: int) -> int {
    component * (if flying { FLY_SPEED } else { WALK_SPEED }) * dt / (DIRECTION_SCALE * MILLIS) as int
}

/// Planar movement: along x, then along z, each accepted when flying or
/// when the box at the new position does not collide.
pub open spec fn planar_step(blocks: Map<BlockPos, crate::block::Block>, p: Player, i: PlayerInput, dt: int) -> Player {
    if i.move_x == 0 && i.move_z == 0 {
        p
    } else {
        let px = FixedVec3 {
            x: (p.position.x + planar_displacement(i.move_x as int, p.is_flying, dt)) as i64,
            ..p.position
        };
        let q1 = if p.is_flying || !collides(blocks, px, p.width as int, p.height as int) {
            Player { position: px, ..p }
        } else {
            p
        };
        let pz = FixedVec3 {
            z: (q1.position.z + planar_displacement(i.move_z as int, q1.is_flying, dt)) as i64,
            ..q1.position
        };
        if q1.is_flying || !collides(blocks, pz, q1.width as int, q1.height as int) {
            Player { position: pz, ..q1 }
        } else {
            q1
        }
    }
}

/// Jumping and gravity, when not flying.
pub open spec fn velocity_step(p: Player, i: PlayerInput, dt: int) -> Player {
    if p.is_flying {
        p
    } else if p.on_ground && i.jump {
        Player { vertical_velocity: JUMP_VELOCITY, on_ground: false, ..p }
    } else if !p.on_ground {
        Player { vertical_velocity: (p.vertical_velocity + GRAVITY * dt / (MILLIS as int)) as i64, ..p }
    } else {
        p
    }
}

/// Vertical movement, when not flying: the player lands (and stops) when the box at the new
/// height collides, and is airborne at the new height otherwise.
pub open spec fn vertical_step(blocks: Map<BlockPos, crate::block::Block>, p: Player, dt: int) -> Player {
    let py = FixedVec3 { y: (p.position.y + p.vertical_velocity * dt / (MILLIS as int)) as i64, ..p.position };
    if collides(blocks, py, p.width as int, p.height as int) {
        Player { on_ground: true, vertical_velocity: 0, ..p }
    } else {
        Player { position: py, on_ground: false, ..p }
    }
}

/// Respawn at the respawn point, at rest, below the fall limit or beyond
/// the world limit.
pub open spec fn respawn_step(p: Player) -> Player {
    if p.position.y < FALL_LIMIT || p.position.y > WORLD_LIMIT || p.position.x < -WORLD_LIMIT
        || p.position.x > WORLD_LIMIT || p.position.z < -WORLD_LIMIT || p.position.z > WORLD_LIMIT {
        Player { position: spawn_point(), vertical_velocity: 0, ..p }
    } else {
        p
    }
}

/// Whether the player flies during a tick with this input.
pub open spec fn flies_during(p: Player, i: PlayerInput) -> bool {
    p.is_flying != i.toggle_fly_mode
}

/// The player after one tick of `dt` milliseconds.
pub open spec fn tick(blocks: Map<BlockPos, crate::block::Block>, p: Player, i: PlayerInput, dt: int) -> Player {
    let q0 = toggle_step(p, i);
    let q1 = fly_step(q0, i, dt);
    let q2 = planar_step(blocks, q1, i, dt);
    let q3 = velocity_step(q2, i, dt);
    let q4 = if q3.is_flying {
        q3
    } else {
        vertical_step(blocks, q3, dt)
    };
    respawn_step(q4)
}

/// An input whose direction is at most a unit long on each axis.
pub open spec fn input_ok(i: PlayerInput) -> bool {
    -DIRECTION_SCALE <= i.move_x <= DIRECTION_SCALE && -DIRECTION_SCALE <= i.move_z <= DIRECTION_SCALE
}

/// Whether the direction of an input is at most a unit long on each axis.
pub fn input_in_range(i: &PlayerInput) -> (r: bool)
    ensures
        r == input_ok(*i),
{
    -DIRECTION_SCALE <= i.move_x && i.move_x <= DIRECTION_SCALE && -DIRECTION_SCALE <= i.move_z
        && i.move_z <= DIRECTION_SCALE
}

/// Floored division.
fn div_floor(n: i128, d: i128) -> (r: i128)
    requires
        0 < d <= 1000000,
        -1000000000000000000000000 <= n <= 1000000000000000000000000,
    ensures
        r == n / d,
{
    let k: i128 = 1000000000000000000000000;
    proof {
        let (ni, di, ki) = (n as int, d as int, k as int);
        assert(ni == di * (ni / di) + ni % di && 0 <= ni % di < di) by (nonlinear_arith)
            requires
                di > 0,
        ;
        assert(di * (ni / di + ki) + ni % di == ni + di * ki) by (nonlinear_arith)
            requires
                ni == di * (ni / di) + ni % di,
        ;
        assert(0 <= di * ki <= 1000000 * ki) by (nonlinear_arith)
            requires
                0 < di <= 1000000,
                ki > 0,
        ;
        vstd::arithmetic::div_mod::lemma_fundamental_div_mod_converse(
            ni + di * ki,
            di,
            ni / di + ki,
            ni % di,
        );
    }
    let shifted = n + d * k;
    shifted / d - k
}

/// Whether the point `(x, y, z)` lies in a solid block of the store.
fn solid_point(world_map: &WorldMap, x: i128, y: i128, z: i128) -> (r: bool)
    requires
        -100000000000000000000 <= x <= 100000000000000000000,
        -100000000000000000000 <= y <= 100000000000000000000,
        -100000000000000000000 <= z <= 100000000000000000000,
    ensures
        r == solid_at(world_map@, x as int, y as int, z as int),
{
    let bx = div_floor(x, 1000);
    let by = div_floor(y, 1000);
    let bz = div_floor(z, 1000);
    if bx < i32::MIN as i128 || bx > i32::MAX as i128 || by < i32::MIN as i128 || by > i32::MAX as i128
        || bz < i32::MIN as i128 || bz > i32::MAX as i128 {
        return false;
    }
    match world_map.get_block_by_coordinates(&BlockPos { x: bx as i32, y: by as i32, z: bz as i32 }) {
        Some(b) => is_solid(b.kind),
        None => false,
    }
}

/// Whether the point `(x, y, z)` lies in a solid block of the store.
pub fn is_block_at_position(world_map: &WorldMap, x: i64, y: i64, z: i64) -> (r: bool)
    ensures
        r == solid_at(world_map@, x as int, y as int, z as int),
{
    solid_point(world_map, x as i128, y as i128, z as i128)
}

/// Whether the box of the player's size centred on `pos` collides.
pub fn check_player_collision(world_map: &WorldMap, pos: FixedVec3, player: &Player) -> (r: bool)
    ensures
        r == collides(world_map@, pos, player.width as int, player.height as int),
{
    let hw = div_floor(player.width as i128, 2);
    let hh = div_floor(player.height as i128, 2);
    assert(-4611686018427387904 <= hw <= 4611686018427387904 && -4611686018427387904 <= hh
        <= 4611686018427387904) by (nonlinear_arith)
        requires
            hw == player.width / 2,
            hh == player.height / 2,
            -9223372036854775808 <= player.width <= 9223372036854775807,
            -9223372036854775808 <= player.height <= 9223372036854775807,
    ;
    let (x, y, z) = (pos.x as i128, pos.y as i128, pos.z as i128);
    let foot = y - hh;
    let head = y + hh;
    solid_point(world_map, x - hw, foot, z - hw) || solid_point(world_map, x + hw, foot, z - hw)
        || solid_point(world_map, x - hw, foot, z + hw) || solid_point(world_map, x + hw, foot, z + hw)
        || solid_point(world_map, x - hw, head, z - hw) || solid_point(world_map, x + hw, head, z - hw)
        || solid_point(world_map, x - hw, head, z + hw) || solid_point(world_map, x + hw, head, z + hw)
}

fn apply_toggles(p: Player, i: &PlayerInput) -> (r: Player)
    ensures
        r == toggle_step(p, *i),
{
    let view_mode = if i.toggle_view_mode {
        match p.view_mode {
            ViewMode::FirstPerson => ViewMode::ThirdPerson,
            ViewMode::ThirdPerson => ViewMode::FirstPerson,
        }
    } else {
        p.view_mode
    };
    Player {
        view_mode,
        chunk_debug_mode: p.chunk_debug_mode != i.toggle_chunk_debug_mode,
        is_flying: p.is_flying != i.toggle_fly_mode,
        ..p
    }
}

fn fly_vertical(p: Player, i: &PlayerInput, dt: u32) -> (r: Player)
    requires
        -WORLD_LIMIT <= p.position.y <= WORLD_LIMIT,
        dt <= MAX_TICK_MS,
    ensures
        r == fly_step(p, *i, dt as int),
        -WORLD_LIMIT - 30000000 <= r.position.y <= WORLD_LIMIT + 30000000,
{
    if p.is_flying {
        let d: i64 = 30 * (dt as i64);
        assert(d == 2 * FLY_SPEED * dt / (MILLIS as int)) by (nonlinear_arith)
            requires
                d == 30 * dt,
        ;
        let y1 = if i.fly_up { p.position.y + d } else { p.position.y };
        let y2 = if i.fly_down { y1 - d } else { y1 };
        Player { position: FixedVec3 { y: y2, ..p.position }, ..p }
    } else {
        p
    }
}

fn planar_offset(component: i32, flying: bool, dt: u32) -> (r: i64)
    requires
        -DIRECTION_SCALE <= component <= DIRECTION_SCALE,
        dt <= MAX_TICK_MS,
    ensures
        r == planar_displacement(component as int, flying, dt as int),
        -15000000 <= r <= 15000000,
{
    let speed: i64 = if flying { FLY_SPEED } else { WALK_SPEED };
    let a: i128 = component as i128 * speed as i128;
    assert(-15000000 <= a <= 15000000) by (nonlinear_arith)
        requires
            a == component * speed,
            -1000 <= component <= 1000,
            0 <= speed <= 15000,
    ;
    assert(-15000000000000 <= a * dt <= 15000000000000) by (nonlinear_arith)
        requires
            -15000000 <= a <= 15000000,
            0 <= dt <= 1000000,
    ;
    let n: i128 = a * dt as i128;
    let q = div_floor(n, 1000000);
    assert(-15000000 <= q <= 15000000) by (nonlinear_arith)
        requires
            q == n / 1000000,
            -15000000000000 <= n <= 15000000000000,
    ;
    q as i64
}

fn move_planar(world_map: &WorldMap, p: Player, i: &PlayerInput, dt: u32) -> (r: Player)
    requires
        -WORLD_LIMIT <= p.position.x <= WORLD_LIMIT,
        -WORLD_LIMIT <= p.position.z <= WORLD_LIMIT,
        input_ok(*i),
        dt <= MAX_TICK_MS,
    ensures
        r == planar_step(world_map@, p, *i, dt as int),
        -WORLD_LIMIT - 15000000 <= r.position.x <= WORLD_LIMIT + 15000000,
        -WORLD_LIMIT - 15000000 <= r.position.z <= WORLD_LIMIT + 15000000,
        r.position.y == p.position.y,
        r.vertical_velocity == p.vertical_velocity,
        r.on_ground == p.on_ground,
        r.is_flying == p.is_flying,
        r.width == p.width,
        r.height == p.height,
{
    if i.move_x == 0 && i.move_z == 0 {
        return p;
    }
    let dx = planar_offset(i.move_x, p.is_flying, dt);
    let px = FixedVec3 { x: p.position.x + dx, ..p.position };
    let q1 = if p.is_flying || !check_player_collision(world_map, px, &p) {
        Player { position: px, ..p }
    } else {
        p
    };
    let dz = planar_offset(i.move_z, q1.is_flying, dt);
    let pz = FixedVec3 { z: q1.position.z + dz, ..q1.position };
    if q1.is_flying || !check_player_collision(world_map, pz, &q1) {
        Player { position: pz, ..q1 }
    } else {
        q1
    }
}

fn update_velocity(p: Player, i: &PlayerInput, dt: u32) -> (r: Player)
    requires
        -MAX_FALL_SPEED <= p.vertical_velocity <= JUMP_VELOCITY,
        dt <= MAX_TICK_MS,
    ensures
        r == velocity_step(p, *i, dt as int),
        -MAX_FALL_SPEED - 20000000 <= r.vertical_velocity <= JUMP_VELOCITY,
{
    if p.is_flying {
        p
    } else if p.on_ground && i.jump {
        Player { vertical_velocity: JUMP_VELOCITY, on_ground: false, ..p }
    } else if !p.on_ground {
        let dt64: i64 = dt as i64;
        assert(0 <= dt64 <= 1000000);
        let g: i64 = 0 - 20 * dt64;
        assert(g == GRAVITY * dt / (MILLIS as int)) by (nonlinear_arith)
            requires
                g == -20 * dt,
        ;
        Player { vertical_velocity: p.vertical_velocity + g, ..p }
    } else {
        p
    }
}

fn move_vertical(world_map: &WorldMap, p: Player, dt: u32) -> (r: Player)
    requires
        -WORLD_LIMIT - 30000000 <= p.position.y <= WORLD_LIMIT + 30000000,
        -MAX_FALL_SPEED - 20000000 <= p.vertical_velocity <= JUMP_VELOCITY,
        dt <= MAX_TICK_MS,
    ensures
        r == vertical_step(world_map@, p, dt as int),
        r.on_ground ==> r.vertical_velocity == 0 && r.position == p.position,
        !r.on_ground ==> r.position.y == p.position.y + p.vertical_velocity * dt / 1000 && r.vertical_velocity
            == p.vertical_velocity,
{
    assert(-1000000120000000000000 <= p.vertical_velocity * dt <= 10000000000) by (nonlinear_arith)
        requires
            -1000000120000000 <= p.vertical_velocity <= 10000,
            0 <= dt <= 1000000,
    ;
    let n: i128 = p.vertical_velocity as i128 * dt as i128;
    let d = div_floor(n, 1000);
    assert(-1000000120000000000 <= d <= 10000000) by (nonlinear_arith)
        requires
            d == n / 1000,
            -1000000120000000000000 <= n <= 10000000000,
    ;
    let py = FixedVec3 { y: p.position.y + d as i64, ..p.position };
    if check_player_collision(world_map, py, &p) {
        Player { on_ground: true, vertical_velocity: 0, ..p }
    } else {
        Player { position: py, on_ground: false, ..p }
    }
}

fn respawn_if_lost(p: Player) -> (r: Player)
    ensures
        r == respawn_step(p),
{
    if p.position.y < FALL_LIMIT || p.position.y > WORLD_LIMIT || p.position.x < -WORLD_LIMIT
        || p.position.x > WORLD_LIMIT || p.position.z < -WORLD_LIMIT || p.position.z > WORLD_LIMIT {
        Player { position: FixedVec3 { x: 0, y: SPAWN_Y, z: 0 }, vertical_velocity: 0, ..p }
    } else {
        p
    }
}

/// A fall that ends above the fall limit after a tick of at least a
/// millisecond started slower than `MAX_FALL_SPEED`.
proof fn lemma_fall_speed(v: int, dt: int, y: int)
    requires
        1 <= dt,
        y <= WORLD_LIMIT,
        y + v * dt / 1000 >= FALL_LIMIT,
    ensures
        v >= -MAX_FALL_SPEED,
{
    assert(v * dt >= 1000 * (v * dt / 1000)) by (nonlinear_arith);
    if v < 0 {
        assert(v * dt <= v) by (nonlinear_arith)
            requires
                v < 0,
                dt >= 1,
        ;
    }
}

/// Advances the player by one tick of `dt_ms` milliseconds against the
/// store: mode toggles; vertical flight when flying; planar movement along x
/// then z, each step kept only when flying or when the box at the new
/// position does not collide; when not flying, jumping from the ground or
/// gravity when airborne, then the vertical step, which lands the player
/// when the box at the new height collides; and a respawn at the respawn
/// point when the player fell below the fall limit or left the world. While
/// flying, the vertical velocity and the on-ground flag are left as they are.
pub fn player_movement_system(world_map: &WorldMap, player: &mut Player, input: &PlayerInput, dt_ms: u32)
    requires
        old(player).wf(),
        input_ok(*input),
        dt_ms <= MAX_TICK_MS,
    ensures
        *final(player) == tick(world_map@, *old(player), *input, dt_ms as int),
        final(player).wf(),
{
    let q0 = apply_toggles(*player, input);
    let q1 = fly_vertical(q0, input, dt_ms);
    let q2 = move_planar(world_map, q1, input, dt_ms);
    let q3 = update_velocity(q2, input, dt_ms);
    let q4 = if q3.is_flying {
        q3
    } else {
        move_vertical(world_map, q3, dt_ms)
    };
    let q5 = respawn_if_lost(q4);
    proof {
        let dt = dt_ms as int;
        if q5 == q4 && !q3.is_flying && !q4.on_ground && q3.vertical_velocity < -MAX_FALL_SPEED {
            if dt == 0 {
                assert(q3.vertical_velocity == q2.vertical_velocity);
            } else {
                lemma_fall_speed(q3.vertical_velocity as int, dt, q3.position.y as int);
            }
        }
    }
    *player = q5;
}

/// The block coordinate of a fixed-point position.
pub fn block_of_position(pos: FixedVec3) -> (r: BlockPos)
    requires
        -WORLD_LIMIT <= pos.x <= WORLD_LIMIT,
        -WORLD_LIMIT <= pos.y <= WORLD_LIMIT,
        -WORLD_LIMIT <= pos.z <= WORLD_LIMIT,
    ensures
        r.x == (pos.x as int) / (SUBUNITS as int),
        r.y == (pos.y as int) / (SUBUNITS as int),
        r.z == (pos.z as int) / (SUBUNITS as int),
        -1000000000 <= r.x <= 1000000000,
        -1000000000 <= r.z <= 1000000000,
{
    let bx = div_floor(pos.x as i128, 1000);
    let by = div_floor(pos.y as i128, 1000);
    let bz = div_floor(pos.z as i128, 1000);
    assert(-1000000000 <= bx <= 1000000000 && -1000000000 <= by <= 1000000000 && -1000000000 <= bz
        <= 1000000000) by (nonlinear_arith)
        requires
            bx == pos.x / 1000,
            by == pos.y / 1000,
            bz == pos.z / 1000,
            -1000000000000 <= pos.x <= 1000000000000,
            -1000000000000 <= pos.y <= 1000000000000,
            -1000000000000 <= pos.z <= 1000000000000,
    ;
    BlockPos { x: bx as i32, y: by as i32, z: bz as i32 }
}

/// The chunk the streaming window is centred on for a player: the chunk of
/// the block the player's position is in, at `y == 0`.
pub fn player_chunk(player: &Player) -> (r: ChunkPos)
    requires
        player.wf(),
    ensures
        r.x == chunk_component((player.position.x as int) / (SUBUNITS as int)),
        r.z == chunk_component((player.position.z as int) / (SUBUNITS as int)),
        r.y == 0,
        in_stream_range(r),
{
    let b = block_of_position(player.position);
    let cx = block_to_chunk_coord(b.x);
    let cz = block_to_chunk_coord(b.z);
    assert(-STREAM_LIMIT <= cx <= STREAM_LIMIT && -STREAM_LIMIT <= cz <= STREAM_LIMIT) by (nonlinear_arith)
        requires
            cx == b.x / 16,
            cz == b.z / 16,
            -1000000000 <= b.x <= 1000000000,
            -1000000000 <= b.z <= 1000000000,
    ;
    ChunkPos { x: cx, y: 0, z: cz }
}

/// Collision soundness: in a tick in which the player does not fly, if no
/// sampled corner of the player's box lies in a solid block at the start,
/// none does at the end, unless the player was respawned.
pub proof fn lemma_collision_sound(blocks: Map<BlockPos, crate::block::Block>, p: Player, i: PlayerInput, dt: int)
    requires
        p.wf(),
        !flies_during(p, i),
        !collides(blocks, p.position, p.width as int, p.height as int),
    ensures
        ({
            let q = tick(blocks, p, i, dt);
            !collides(blocks, q.position, q.width as int, q.height as int) || q.position == spawn_point()
        }),
{
}

/// Fly mode: in a tick in which the player flies, gravity and jumping do
/// not apply and blocks neither ground nor stop the player. The on-ground
/// flag and the vertical velocity stay as they were, the height changes only
/// by the FlyUp and FlyDown motion, and planar moves are taken at flying
/// speed without collision checks, unless the player was respawned.
pub proof fn lemma_fly_mode(blocks: Map<BlockPos, crate::block::Block>, p: Player, i: PlayerInput, dt: int)
    requires
        p.wf(),
        input_ok(i),
        0 <= dt <= MAX_TICK_MS,
        flies_during(p, i),
    ensures
        ({
            let q = tick(blocks, p, i, dt);
            let d = 2 * FLY_SPEED * dt / (MILLIS as int);
            let moving = i.move_x != 0 || i.move_z != 0;
            &&& q.is_flying
            &&& q.on_ground == p.on_ground
            &&& (q.position == spawn_point() && q.vertical_velocity == 0) || {
                &&& q.vertical_velocity == p.vertical_velocity
                &&& q.position.y == p.position.y + (if i.fly_up { d } else { 0 }) - (if i.fly_down {
                    d
                } else {
                    0
                })
                &&& q.position.x == p.position.x + if moving {
                    planar_displacement(i.move_x as int, true, dt)
                } else {
                    0
                }
                &&& q.position.z == p.position.z + if moving {
                    planar_displacement(i.move_z as int, true, dt)
                } else {
                    0
                }
            }
        }),
{
    let d = 2 * FLY_SPEED * dt / (MILLIS as int);
    assert(0 <= d <= 30000000) by (nonlinear_arith)
        requires
            d == 2 * 15000 * dt / 1000,
            0 <= dt <= 1000000,
    ;
    assert(-15000000 <= planar_displacement(i.move_x as int, true, dt) <= 15000000
        && -15000000 <= planar_displacement(i.move_z as int, true, dt) <= 15000000) by (nonlinear_arith)
        requires
            -1000 <= i.move_x <= 1000,
            -1000 <= i.move_z <= 1000,
            0 <= dt <= 1000000,
            planar_displacement(i.move_x as int, true, dt) == i.move_x * 15000 * dt / 1000000,
            planar_displacement(i.move_z as int, true, dt) == i.move_z * 15000 * dt / 1000000,
    ;
}

} // verus!
