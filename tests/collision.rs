use block_game::{
    collide, fall_blocks, move_player, resolve_block, resolve_player, Block, BlockPhysics, Extent,
    Input, Obstacle, ObstacleRole, Player, PlayerError, PlayerPhysics, Position, Scene, Side,
    VerticalState, FALL_BIAS, INITIAL_FALL_SPEED, JUMP_NUDGE, JUMP_VELOCITY,
};

fn pos(x: i64, y: i64) -> Position {
    Position { x, y, z: 0 }
}

fn ext(half_width: u32, half_height: u32) -> Extent {
    Extent { half_width, half_height }
}

fn wall(x: i64, y: i64, hw: u32, hh: u32) -> Obstacle {
    Obstacle { position: pos(x, y), extent: ext(hw, hh) }
}

fn falling_block(x: i64, y: i64, half: u32, fall_speed: u32) -> Block {
    Block {
        position: pos(x, y),
        extent: ext(half, half),
        physics: BlockPhysics { fall_speed, is_falling: true },
        role: ObstacleRole::Inactive,
    }
}

fn player(x: i64, y: i64, state: VerticalState) -> Player {
    Player {
        position: Position { x, y, z: 1 },
        extent: ext(20000, 20000),
        physics: PlayerPhysics {
            jump_velocity: JUMP_VELOCITY,
            gravity: -2,
            movement_speed: 300,
            fall_speed: INITIAL_FALL_SPEED,
            state,
        },
    }
}

const IDLE: Input = Input { left: false, right: false, jump: false };

#[test]
fn collide_reports_bottom_for_rectangle_below() {
    assert_eq!(collide(pos(0, 0), ext(5, 5), pos(0, -10), ext(5, 5)), Some(Side::Bottom));
    assert_eq!(collide(pos(0, 0), ext(5, 5), pos(0, -8), ext(5, 5)), Some(Side::Bottom));
}

#[test]
fn collide_reports_none_for_disjoint_rectangles() {
    assert_eq!(collide(pos(0, 0), ext(1, 1), pos(1000, 1000), ext(2, 2)), None);
    assert_eq!(collide(pos(0, 0), ext(5, 5), pos(0, -11), ext(5, 5)), None);
    assert_eq!(collide(pos(0, 0), ext(5, 5), pos(11, 0), ext(5, 5)), None);
}

#[test]
fn collide_picks_axis_of_smaller_penetration() {
    assert_eq!(collide(pos(0, 0), ext(5, 5), pos(0, 9), ext(5, 5)), Some(Side::Top));
    assert_eq!(collide(pos(0, 0), ext(5, 5), pos(-9, 2), ext(5, 5)), Some(Side::Left));
    assert_eq!(collide(pos(0, 0), ext(5, 5), pos(9, -2), ext(5, 5)), Some(Side::Right));
    // equal depth on both axes: the vertical side wins
    assert_eq!(collide(pos(0, 0), ext(5, 5), pos(8, 8), ext(5, 5)), Some(Side::Top));
    // same center: counted as below
    assert_eq!(collide(pos(0, 0), ext(5, 5), pos(0, 0), ext(5, 5)), Some(Side::Bottom));
    // z does not take part
    assert_eq!(collide(Position { x: 0, y: 0, z: 7 }, ext(5, 5), pos(0, -10), ext(5, 5)), Some(Side::Bottom));
}

#[test]
fn block_falls_and_lands_exactly_on_floor() {
    let floor = wall(0, 0, 250000, 5000);
    let mut scene = Scene {
        walls: vec![floor],
        blocks: vec![falling_block(0, 5000 + 5000 + 50000, 5000, 100)],
        players: vec![],
    };
    let mut ticks: u32 = 0;
    while scene.blocks[0].physics.is_falling {
        let before = scene.blocks[0].position.y;
        assert!(scene.tick(IDLE, 16).is_err());
        ticks += 1;
        assert!(ticks < 1000);
        if scene.blocks[0].physics.is_falling {
            assert_eq!(scene.blocks[0].position.y, before - 1600);
            assert_eq!(scene.blocks[0].role, ObstacleRole::Inactive);
        }
    }
    assert_eq!(ticks, 32);
    assert_eq!(scene.blocks[0].position.y, 0 + 5000 + 5000);
    assert_eq!(scene.blocks[0].role, ObstacleRole::GroundedDynamic);
    // once landed it no longer moves
    assert!(scene.tick(IDLE, 16).is_err());
    assert_eq!(scene.blocks[0].position.y, 10000);
}

#[test]
fn fall_blocks_moves_only_falling_blocks() {
    let mut landed = falling_block(0, 500, 10, 7);
    landed.physics.is_falling = false;
    landed.role = ObstacleRole::GroundedDynamic;
    let mut blocks = vec![falling_block(0, 500, 10, 7), landed];
    fall_blocks(&mut blocks, 3);
    assert_eq!(blocks[0].position.y, 479);
    assert_eq!(blocks[1].position.y, 500);
}

#[test]
fn landed_block_becomes_obstacle_for_next_block() {
    let floor = wall(0, 0, 100, 10);
    let mut resting = falling_block(0, 20, 10, 5);
    resting.physics.is_falling = false;
    resting.role = ObstacleRole::GroundedDynamic;
    let mut scene = Scene {
        walls: vec![floor],
        blocks: vec![resting, falling_block(0, 38, 10, 5)],
        players: vec![],
    };
    scene.resolve_blocks();
    assert_eq!(scene.blocks[1].position.y, 40);
    assert!(!scene.blocks[1].physics.is_falling);
    assert_eq!(scene.blocks[1].role, ObstacleRole::GroundedDynamic);
}

#[test]
fn block_ignores_side_contacts() {
    let obs = vec![wall(-18, 0, 10, 100)];
    let b = falling_block(0, 0, 10, 5);
    assert_eq!(resolve_block(b, &obs), b);
}

#[test]
fn player_lands_on_platform() {
    let platform = wall(0, 0, 100000, 5000);
    let mut scene = Scene {
        walls: vec![platform],
        blocks: vec![],
        players: vec![player(0, 5000 + 20000 + 3000, VerticalState::Falling)],
    };
    let mut ticks: u32 = 0;
    while scene.players[0].physics.state != VerticalState::Grounded {
        assert_eq!(scene.tick(IDLE, 16), Ok(()));
        ticks += 1;
        assert!(ticks < 1000);
    }
    let p = scene.players[0];
    assert_eq!(p.position.y, 25000);
    assert_eq!(p.position.x, 0);
    assert_eq!(p.physics.jump_velocity, JUMP_VELOCITY);
    assert_eq!(p.physics.fall_speed, INITIAL_FALL_SPEED);
}

#[test]
fn falling_accumulates_speed_with_bias() {
    let p = player(0, 100000, VerticalState::Falling);
    let q = move_player(p, IDLE, 16);
    assert_eq!(q.position.y, 100000);
    assert_eq!(q.physics.fall_speed, -32 - FALL_BIAS);
    let r = move_player(q, IDLE, 10);
    assert_eq!(r.position.y, 100000 - 330);
    assert_eq!(r.physics.fall_speed, -33 - 20 - 1);
}

#[test]
fn jump_follows_parabola_until_landing() {
    let platform = wall(0, 0, 100000, 5000);
    let p = player(0, 25000, VerticalState::Grounded);
    let jump = Input { left: false, right: false, jump: true };
    let started = move_player(p, jump, 16);
    assert_eq!(started.physics.state, VerticalState::Jumping);
    assert_eq!(started.position.y, 25000 + JUMP_NUDGE);
    assert_eq!(started.physics.jump_velocity, JUMP_VELOCITY);

    let mut q = started;
    for _ in 0..5 {
        q = move_player(q, IDLE, 16);
        assert_eq!(q.physics.state, VerticalState::Jumping);
    }
    // y0 + v0 * t + g / 2 * t * t with t = 80
    assert_eq!(q.position.y, 26000 + 500 * 80 - 80 * 80);
    assert_eq!(q.physics.jump_velocity, 500 - 2 * 80);

    let obs = vec![platform];
    let mut ticks: u32 = 0;
    loop {
        let r = resolve_player(q, &obs);
        if r.physics.state == VerticalState::Grounded {
            assert!(q.physics.jump_velocity < 0);
            assert_eq!(r.position.y, 25000);
            assert_eq!(r.physics.jump_velocity, JUMP_VELOCITY);
            break;
        }
        // in the air the resolver treats the player as falling
        assert_eq!(r.physics.state, VerticalState::Falling);
        q = move_player(q, IDLE, 16);
        ticks += 1;
        assert!(ticks < 1000);
    }
}

#[test]
fn grounded_player_without_input_stays() {
    let p = player(7, 25000, VerticalState::Grounded);
    assert_eq!(move_player(p, IDLE, 16), p);
}

#[test]
fn horizontal_input_moves_in_every_state() {
    let left = Input { left: true, right: false, jump: false };
    let right = Input { left: false, right: true, jump: false };
    let both = Input { left: true, right: true, jump: false };
    assert_eq!(move_player(player(0, 0, VerticalState::Grounded), left, 10).position.x, -3000);
    assert_eq!(move_player(player(0, 0, VerticalState::Jumping), right, 10).position.x, 3000);
    assert_eq!(move_player(player(0, 0, VerticalState::Falling), both, 10).position.x, 0);
}

#[test]
fn player_is_pushed_out_sideways() {
    let left_wall = wall(-100000, 0, 25000, 500000);
    let right_wall = wall(100000, 0, 25000, 500000);
    let pushed_right = resolve_player(player(-60000, 0, VerticalState::Jumping), &vec![left_wall]);
    assert_eq!(pushed_right.position.x, -100000 + 25000 + 20000);
    assert_eq!(pushed_right.physics.state, VerticalState::Jumping);
    let pushed_left = resolve_player(player(60000, 0, VerticalState::Jumping), &vec![right_wall]);
    assert_eq!(pushed_left.position.x, 100000 - 25000 - 20000);
}

#[test]
fn obstacle_above_changes_nothing() {
    let ceiling = wall(0, 24000, 100000, 5000);
    let p = player(0, 0, VerticalState::Jumping);
    assert_eq!(resolve_player(p, &vec![ceiling]), p);
}

#[test]
fn no_contact_means_falling() {
    let far = wall(0, -900000, 100, 100);
    let r = resolve_player(player(0, 0, VerticalState::Grounded), &vec![far]);
    assert_eq!(r.physics.state, VerticalState::Falling);
    let r = resolve_player(player(0, 0, VerticalState::Jumping), &vec![]);
    assert_eq!(r.physics.state, VerticalState::Falling);
}

#[test]
fn resolving_twice_keeps_position() {
    let platform = wall(0, 0, 100000, 5000);
    let obs = vec![platform];
    let once = resolve_player(player(3, 24000, VerticalState::Falling), &obs);
    let twice = resolve_player(once, &obs);
    assert_eq!(once.position.y, 25000);
    assert_eq!(twice, once);

    let side = vec![wall(-100000, 0, 25000, 500000)];
    let once = resolve_player(player(-60000, 0, VerticalState::Falling), &side);
    assert_eq!(resolve_player(once, &side).position, once.position);

    let b = falling_block(0, 14990, 10000, 5);
    let landed = resolve_block(b, &obs);
    assert_eq!(landed.position.y, 15000);
    assert_eq!(resolve_block(landed, &obs), landed);

    let resting = falling_block(0, 15000, 10000, 5);
    assert_eq!(resolve_block(resting, &obs).position, resting.position);
}

#[test]
fn player_steps_need_exactly_one_player() {
    let mut empty = Scene { walls: vec![], blocks: vec![], players: vec![] };
    assert_eq!(empty.resolve_player(), Err(PlayerError::Missing));
    assert_eq!(empty.move_player(IDLE, 16), Err(PlayerError::Missing));
    let p = player(0, 0, VerticalState::Jumping);
    let mut two = Scene { walls: vec![], blocks: vec![], players: vec![p, p] };
    assert_eq!(two.resolve_player(), Err(PlayerError::NotUnique));
    assert_eq!(two.move_player(IDLE, 16), Err(PlayerError::NotUnique));
    assert_eq!(two.tick(IDLE, 16), Err(PlayerError::NotUnique));
    assert_eq!(two.players[0], p);
    assert_eq!(two.players[1], p);
    assert_eq!(two.check_player(), Err(PlayerError::NotUnique));
}

#[test]
fn player_stands_on_landed_block() {
    let floor = wall(0, 0, 250000, 5000);
    let mut block = falling_block(0, 15000, 10000, 100);
    block.physics.is_falling = false;
    block.role = ObstacleRole::GroundedDynamic;
    let mut scene = Scene {
        walls: vec![floor],
        blocks: vec![block],
        players: vec![player(0, 25000 + 20000 - 100, VerticalState::Falling)],
    };
    assert_eq!(scene.tick(IDLE, 16), Ok(()));
    assert_eq!(scene.players[0].physics.state, VerticalState::Grounded);
    assert_eq!(scene.players[0].position.y, 45000);
}
