use vstd::prelude::*;
use crate::block::{fits_i64, rest_y, Obstacle};
use crate::geometry::{collide, side_of, Extent, Position, Side};

verus! {

/// Vertical speed given to the player when it lands, and so the speed at
/// which its next jump starts.
pub const JUMP_VELOCITY: i64 = 500;

/// Free-fall speed given to the player when it lands.
pub const INITIAL_FALL_SPEED: i64 = 0;

/// How far the player is lifted on the tick that a jump starts.
pub const JUMP_NUDGE: i64 = 1000;

/// Extra downward speed added on every tick of free fall, so that a fall is
/// not a pure parabola.
pub const FALL_BIAS: i64 = 1;

/// Vertical motion state of the player.
#[derive(Clone, Copy, Debug, PartialEq, Eq, Structural)]
pub enum VerticalState {
    Grounded,
    Jumping,
    Falling,
}

/// Motion parameters and state of the player. `gravity` is negative for a
/// downward pull.
#[derive(Clone, Copy, Debug, PartialEq, Eq, Structural)]
pub struct PlayerPhysics {
    pub jump_velocity: i64,
    pub gravity: i64,
    pub movement_speed: i64,
    pub fall_speed: i64,
    pub state: VerticalState,
}

#[derive(Clone, Copy, Debug, PartialEq, Eq, Structural)]
pub struct Player {
    pub position: Position,
    pub extent: Extent,
    pub physics: PlayerPhysics,
}

/// The keys held during one tick.
#[derive(Clone, Copy, Debug, PartialEq, Eq, Structural)]
pub struct Input {
    pub left: bool,
    pub right: bool,
    pub jump: bool,
}

impl Player {
    /// Gravity is even, so that the half step `gravity * dt * dt / 2` of a
    /// jump is exact.
    pub open spec fn wf(self) -> bool {
        self.physics.gravity % 2 == 0
    }
}

/// -1 for left, 1 for right, 0 for neither or both.
pub open spec fn direction(input: Input) -> int {
    (if input.right { 1int } else { 0int }) - (if input.left { 1int } else { 0int })
}

pub open spec fn moved_x(p: Player, input: Input, dt: int) -> int {
    p.position.x + direction(input) * p.physics.movement_speed * dt
}

/// Height after one tick of vertical motion.
pub open spec fn moved_y(p: Player, input: Input, dt: int) -> int {
    let ph = p.physics;
    match ph.state {
        VerticalState::Grounded => if input.jump { p.position.y + JUMP_NUDGE } else { p.position.y as int },
        VerticalState::Jumping => p.position.y + ph.jump_velocity * dt + (ph.gravity / 2) * dt * dt,
        VerticalState::Falling => p.position.y + ph.fall_speed * dt,
    }
}

pub open spec fn moved_jump_velocity(p: Player, dt: int) -> int {
    if p.physics.state == VerticalState::Jumping {
        p.physics.jump_velocity + p.physics.gravity * dt
    } else {
        p.physics.jump_velocity as int
    }
}

pub open spec fn moved_fall_speed(p: Player, dt: int) -> int {
    if p.physics.state == VerticalState::Falling {
        p.physics.fall_speed + p.physics.gravity * dt - FALL_BIAS
    } else {
        p.physics.fall_speed as int
    }
}

pub open spec fn moved_state(p: Player, input: Input) -> VerticalState {
    if p.physics.state == VerticalState::Grounded && input.jump {
        VerticalState::Jumping
    } else {
        p.physics.state
    }
}

/// Every value that one tick of motion writes fits in an `i64`.
pub open spec fn motion_fits(p: Player, input: Input, dt: int) -> bool {
    &&& fits_i64(moved_x(p, input, dt))
    &&& fits_i64(moved_y(p, input, dt))
    &&& fits_i64(moved_jump_velocity(p, dt))
    &&& fits_i64(moved_fall_speed(p, dt))
}

/// One tick of player motion: horizontal input moves the player in every
/// state; a grounded player starts a jump on jump input; a jumping player
/// follows a parabola; a falling player accumulates fall speed.
pub open spec fn moved(p: Player, input: Input, dt: int) -> Player {
    Player {
        position: Position {
            x: moved_x(p, input, dt) as i64,
            y: moved_y(p, input, dt) as i64,
            ..p.position
        },
        physics: PlayerPhysics {
            jump_velocity: moved_jump_velocity(p, dt) as i64,
            fall_speed: moved_fall_speed(p, dt) as i64,
            state: moved_state(p, input),
            ..p.physics
        },
        ..p
    }
}

/// Advances the player by one tick of `dt`.
pub fn move_player(p: Player, input: Input, dt: u32) -> (r: Player)
    requires
        p.wf(),
        motion_fits(p, input, dt as int),
    ensures
        r == moved(p, input, dt as int),
        r.wf(),
{
    let d: i128 = (if input.right { 1i128 } else { 0i128 }) - (if input.left { 1i128 } else { 0i128 });
    let ph = p.physics;
    let t: i128 = dt as i128;
    assert(-1 <= d <= 1);
    assert(-0x8000_0000_0000_0000 * 0x1_0000_0000 <= ph.movement_speed * t <= 0x7fff_ffff_ffff_ffff * 0x1_0000_0000) by (nonlinear_arith)
        requires -0x8000_0000_0000_0000 <= ph.movement_speed <= 0x7fff_ffff_ffff_ffff, 0 <= t <= 0xffff_ffff;
    let mt: i128 = ph.movement_speed as i128 * t;
    let step_x: i128 = if d > 0 { mt } else if d < 0 { -mt } else { 0 };
    assert(step_x == direction(input) * ph.movement_speed * t) by (nonlinear_arith)
        requires step_x == d * mt, mt == ph.movement_speed * t, d == direction(input);
    let x: i64 = (p.position.x as i128 + step_x) as i64;
    let mut r = p;
    r.position.x = x;
    match ph.state {
        VerticalState::Grounded => {
            if input.jump {
                r.position.y = p.position.y + JUMP_NUDGE;
                r.physics.state = VerticalState::Jumping;
            }
        },
        VerticalState::Jumping => {
            let half_g: i128 = ph.gravity as i128 / 2;
            assert(half_g == ph.gravity / 2);
            assert(-0x8000_0000_0000_0000 * 0x1_0000_0000 <= ph.jump_velocity * t <= 0x7fff_ffff_ffff_ffff * 0x1_0000_0000) by (nonlinear_arith)
                requires -0x8000_0000_0000_0000 <= ph.jump_velocity <= 0x7fff_ffff_ffff_ffff, 0 <= t <= 0xffff_ffff;
            assert(-0x8000_0000_0000_0000 * 0x1_0000_0000 <= ph.gravity * t <= 0x7fff_ffff_ffff_ffff * 0x1_0000_0000) by (nonlinear_arith)
                requires -0x8000_0000_0000_0000 <= ph.gravity <= 0x7fff_ffff_ffff_ffff, 0 <= t <= 0xffff_ffff;
            assert(-0x8000_0000_0000_0000 * 0x1_0000_0000 <= half_g * t <= 0x7fff_ffff_ffff_ffff * 0x1_0000_0000) by (nonlinear_arith)
                requires -0x8000_0000_0000_0000 <= half_g <= 0x7fff_ffff_ffff_ffff, 0 <= t <= 0xffff_ffff;
            assert(-0x8000_0000_0000_0000 * 0x1_0000_0000 * 0x1_0000_0000 <= half_g * t * t <= 0x7fff_ffff_ffff_ffff * 0x1_0000_0000 * 0x1_0000_0000) by (nonlinear_arith)
                requires -0x8000_0000_0000_0000 <= half_g <= 0x7fff_ffff_ffff_ffff, 0 <= t <= 0xffff_ffff;
            let y: i128 = p.position.y as i128 + ph.jump_velocity as i128 * t + half_g * t * t;
            r.position.y = y as i64;
            r.physics.jump_velocity = (ph.jump_velocity as i128 + ph.gravity as i128 * t) as i64;
        },
        VerticalState::Falling => {
            assert(-0x8000_0000_0000_0000 * 0x1_0000_0000 <= ph.fall_speed * t <= 0x7fff_ffff_ffff_ffff * 0x1_0000_0000) by (nonlinear_arith)
                requires -0x8000_0000_0000_0000 <= ph.fall_speed <= 0x7fff_ffff_ffff_ffff, 0 <= t <= 0xffff_ffff;
            assert(-0x8000_0000_0000_0000 * 0x1_0000_0000 <= ph.gravity * t <= 0x7fff_ffff_ffff_ffff * 0x1_0000_0000) by (nonlinear_arith)
                requires -0x8000_0000_0000_0000 <= ph.gravity <= 0x7fff_ffff_ffff_ffff, 0 <= t <= 0xffff_ffff;
            r.position.y = (p.position.y as i128 + ph.fall_speed as i128 * t) as i64;
            r.physics.fall_speed = (ph.fall_speed as i128 + ph.gravity as i128 * t - FALL_BIAS as i128) as i64;
        },
    }
    r
}

/// The player standing on `o`: speeds reset, state Grounded, and resting
/// exactly on top of `o`.
pub open spec fn landed_player(p: Player, o: Obstacle) -> Player {
    Player {
        position: Position { y: rest_y(o, p.extent) as i64, ..p.position },
        physics: PlayerPhysics {
            jump_velocity: JUMP_VELOCITY,
            fall_speed: INITIAL_FALL_SPEED,
            state: VerticalState::Grounded,
            ..p.physics
        },
        ..p
    }
}

/// Center x at which the player's left edge meets the right edge of `o`.
pub open spec fn right_of(o: Obstacle, e: Extent) -> int {
    o.position.x + o.extent.half_width + e.half_width
}

/// Center x at which the player's right edge meets the left edge of `o`.
pub open spec fn left_of(o: Obstacle, e: Extent) -> int {
    o.position.x - o.extent.half_width - e.half_width
}

pub open spec fn with_x(p: Player, x: int) -> Player {
    Player { position: Position { x: x as i64, ..p.position }, ..p }
}

/// Resolution of the player against one obstacle: landing on an obstacle
/// below, pushed out sideways from one at the left or right; an obstacle
/// above changes nothing.
pub open spec fn contact_step(p: Player, o: Obstacle) -> Player {
    match side_of(p.position, p.extent, o.position, o.extent) {
        Some(Side::Bottom) => landed_player(p, o),
        Some(Side::Left) => with_x(p, right_of(o, p.extent)),
        Some(Side::Right) => with_x(p, left_of(o, p.extent)),
        _ => p,
    }
}

pub open spec fn touches(p: Player, o: Obstacle) -> bool {
    side_of(p.position, p.extent, o.position, o.extent) is Some
}

/// The player after meeting each obstacle in turn, and whether any of them
/// touched it.
pub open spec fn contact_pass(p: Player, obs: Seq<Obstacle>) -> (Player, bool)
    decreases obs.len(),
{
    if obs.len() == 0 {
        (p, false)
    } else {
        let (q, hit) = contact_pass(p, obs.drop_last());
        (contact_step(q, obs.last()), hit || touches(q, obs.last()))
    }
}

/// Collision resolution of the player: one pass over the obstacles; where
/// none touched it, the player is falling.
pub open spec fn resolved_player(p: Player, obs: Seq<Obstacle>) -> Player {
    let (q, hit) = contact_pass(p, obs);
    if hit {
        q
    } else {
        Player { physics: PlayerPhysics { state: VerticalState::Falling, ..q.physics }, ..q }
    }
}

/// Every position that resolving a player of extent `e` against `o` could
/// write fits in an `i64`.
pub open spec fn push_fits(o: Obstacle, e: Extent) -> bool {
    &&& fits_i64(rest_y(o, e))
    &&& fits_i64(right_of(o, e))
    &&& fits_i64(left_of(o, e))
}

pub open spec fn pushes_fit(obs: Seq<Obstacle>, e: Extent) -> bool {
    forall|k: int| 0 <= k < obs.len() ==> push_fits(#[trigger] obs[k], e)
}

/// Resolves the player against one obstacle, see `contact_step`.
fn resolve_contact(p: Player, o: Obstacle) -> (r: (Player, bool))
    requires
        push_fits(o, p.extent),
    ensures
        r.0 == contact_step(p, o),
        r.1 == touches(p, o),
        r.0.extent == p.extent,
        r.0.wf() == p.wf(),
{
    let mut q = p;
    match collide(p.position, p.extent, o.position, o.extent) {
        Some(Side::Bottom) => {
            q.position.y = (o.position.y as i128 + o.extent.half_height as i128 + p.extent.half_height as i128) as i64;
            q.physics.jump_velocity = JUMP_VELOCITY;
            q.physics.fall_speed = INITIAL_FALL_SPEED;
            q.physics.state = VerticalState::Grounded;
            (q, true)
        },
        Some(Side::Left) => {
            q.position.x = (o.position.x as i128 + o.extent.half_width as i128 + p.extent.half_width as i128) as i64;
            (q, true)
        },
        Some(Side::Right) => {
            q.position.x = (o.position.x as i128 - o.extent.half_width as i128 - p.extent.half_width as i128) as i64;
            (q, true)
        },
        Some(Side::Top) => (q, true),
        None => (q, false),
    }
}

/// Resolves the player against every obstacle in order, see
/// `resolved_player`.
pub fn resolve_player(p: Player, obs: &Vec<Obstacle>) -> (r: Player)
    requires
        pushes_fit(obs@, p.extent),
    ensures
        r == resolved_player(p, obs@),
        r.extent == p.extent,
        r.wf() == p.wf(),
{
    let mut cur = p;
    let mut hit = false;
    let mut i: usize = 0;
    while i < obs.len()
        invariant
            i <= obs.len(),
            pushes_fit(obs@, p.extent),
            (cur, hit) == contact_pass(p, obs@.subrange(0, i as int)),
            cur.extent == p.extent,
            cur.wf() == p.wf(),
        decreases obs.len() - i,
    {
        let o = obs[i];
        assert(push_fits(obs@[i as int], p.extent));
        let (next, touched) = resolve_contact(cur, o);
        assert(obs@.subrange(0, i + 1).drop_last() =~= obs@.subrange(0, i as int));
        cur = next;
        hit = hit || touched;
        i += 1;
    }
    assert(obs@.subrange(0, obs.len() as int) =~= obs@);
    if !hit {
        cur.physics.state = VerticalState::Falling;
    }
    cur
}

/// No key held.
pub open spec fn idle() -> Input {
    Input { left: false, right: false, jump: false }
}

/// The player after `n` ticks of motion of `dt` each, with no key held.
pub open spec fn idle_ticks(p: Player, dt: int, n: nat) -> Player
    decreases n,
{
    if n == 0 {
        p
    } else {
        moved(idle_ticks(p, dt, (n - 1) as nat), idle(), dt)
    }
}

/// A jump follows a parabola: after `n` idle ticks of `dt` from the start
/// height `y0` and start speed `v0`, with `t = n * dt`, the player is still
/// jumping, at height `y0 + v0 * t + gravity / 2 * t * t`, with speed
/// `v0 + gravity * t`.
pub proof fn lemma_jump_parabola(p: Player, dt: int, n: nat)
    requires
        p.wf(),
        p.physics.state == VerticalState::Jumping,
        forall|k: nat| k < n ==> motion_fits(#[trigger] idle_ticks(p, dt, k), idle(), dt),
    ensures
        idle_ticks(p, dt, n).physics.state == VerticalState::Jumping,
        idle_ticks(p, dt, n).physics.gravity == p.physics.gravity,
        idle_ticks(p, dt, n).position.y == p.position.y + p.physics.jump_velocity * (n * dt)
            + (p.physics.gravity / 2) * (n * dt) * (n * dt),
        idle_ticks(p, dt, n).physics.jump_velocity == p.physics.jump_velocity + p.physics.gravity * (n * dt),
    decreases n,
{
    if n > 0 {
        let m = (n - 1) as nat;
        lemma_jump_parabola(p, dt, m);
        let q = idle_ticks(p, dt, m);
        assert(motion_fits(q, idle(), dt));
        let y0 = p.position.y as int;
        let v0 = p.physics.jump_velocity as int;
        let h = p.physics.gravity / 2;
        let g = p.physics.gravity as int;
        assert(g == 2 * h);
        let y = q.position.y as int;
        let v = q.physics.jump_velocity as int;
        assert(y + v * dt + h * dt * dt == y0 + v0 * (n * dt) + h * (n * dt) * (n * dt)) by (nonlinear_arith)
            requires
                y == y0 + v0 * (m * dt) + h * (m * dt) * (m * dt),
                v == v0 + g * (m * dt),
                g == 2 * h,
                n == m + 1,
        ;
        let r = idle_ticks(p, dt, n);
        assert(r == moved(q, idle(), dt));
        assert(moved_y(q, idle(), dt) == y + v * dt + h * dt * dt);
        assert(r.position.y == moved_y(q, idle(), dt));
        assert(v + g * dt == v0 + g * (n * dt)) by (nonlinear_arith)
            requires
                v == v0 + g * (m * dt),
                n == m + 1,
        ;
        assert(r.physics.jump_velocity == v + g * dt);
    } else {
        assert(n * dt == 0) by (nonlinear_arith)
            requires
                n == 0,
        ;
    }
}

proof fn lemma_pass_single(p: Player, o: Obstacle)
    ensures
        contact_pass(p, seq![o]) == (contact_step(p, o), touches(p, o)),
{
    let s = seq![o];
    assert(s.drop_last() =~= Seq::<Obstacle>::empty());
    assert(contact_pass(p, Seq::<Obstacle>::empty()) == (p, false));
    assert(s.last() == o);
}

/// Landing does not depend on the vertical speed: a player that an obstacle
/// touches from below is grounded after resolution against it, with its
/// speeds reset, resting exactly on top of it.
pub proof fn lemma_landing_grounds(p: Player, o: Obstacle)
    requires
        side_of(p.position, p.extent, o.position, o.extent) == Some(Side::Bottom),
    ensures
        resolved_player(p, seq![o]).physics.state == VerticalState::Grounded,
        resolved_player(p, seq![o]).physics.jump_velocity == JUMP_VELOCITY,
        resolved_player(p, seq![o]).physics.fall_speed == INITIAL_FALL_SPEED,
        resolved_player(p, seq![o]).position.y == rest_y(o, p.extent) as i64,
        resolved_player(p, seq![o]).position.x == p.position.x,
{
    lemma_pass_single(p, o);
}

/// Resolving the player twice against the same obstacle, with no motion
/// between, leaves it where the first resolution put it.
pub proof fn lemma_resolve_player_twice(p: Player, o: Obstacle)
    requires
        push_fits(o, p.extent),
    ensures
        resolved_player(resolved_player(p, seq![o]), seq![o]).position == resolved_player(p, seq![o]).position,
{
    lemma_pass_single(p, o);
    let q = resolved_player(p, seq![o]);
    lemma_pass_single(q, o);
}

} // verus!
