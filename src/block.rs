use vstd::prelude::*;
use crate::geometry::{collide, depth_x, side_of, Extent, Position, Side};

verus! {

/// A rectangle that other entities land on or are pushed out of.
#[derive(Clone, Copy, Debug, PartialEq, Eq, Structural)]
pub struct Obstacle {
    pub position: Position,
    pub extent: Extent,
}

/// Whether, and why, an entity takes part in collision queries as an
/// obstacle.
#[derive(Clone, Copy, Debug, PartialEq, Eq, Structural)]
pub enum ObstacleRole {
    /// Not an obstacle: a block that is still falling.
    Inactive,
    /// An obstacle from creation on (floor, walls).
    Static,
    /// A block that has landed and now rests in place.
    GroundedDynamic,
}

/// Fall state of a block: it moves down at `fall_speed` while `is_falling`.
#[derive(Clone, Copy, Debug, PartialEq, Eq, Structural)]
pub struct BlockPhysics {
    pub fall_speed: u32,
    pub is_falling: bool,
}

#[derive(Clone, Copy, Debug, PartialEq, Eq, Structural)]
pub struct Block {
    pub position: Position,
    pub extent: Extent,
    pub physics: BlockPhysics,
    pub role: ObstacleRole,
}

impl Block {
    /// A block falls exactly while it is not an obstacle.
    pub open spec fn wf(self) -> bool {
        self.physics.is_falling <==> self.role == ObstacleRole::Inactive
    }
}

pub open spec fn fits_i64(v: int) -> bool {
    i64::MIN <= v <= i64::MAX
}

/// The height at which a rectangle of extent `e` rests exactly on top of `o`.
pub open spec fn rest_y(o: Obstacle, e: Extent) -> int {
    o.position.y + o.extent.half_height + e.half_height
}

pub open spec fn is_bottom(pos: Position, ext: Extent, o: Obstacle) -> bool {
    side_of(pos, ext, o.position, o.extent) == Some(Side::Bottom)
}

/// The first obstacle, in order, that the rectangle touches from below.
pub open spec fn first_bottom(pos: Position, ext: Extent, obs: Seq<Obstacle>) -> Option<int>
    decreases obs.len(),
{
    if obs.len() == 0 {
        None
    } else {
        match first_bottom(pos, ext, obs.drop_last()) {
            Some(i) => Some(i),
            None => if is_bottom(pos, ext, obs.last()) {
                Some(obs.len() - 1)
            } else {
                None
            },
        }
    }
}

pub open spec fn is_collidable(b: Block) -> bool {
    b.role != ObstacleRole::Inactive
}

pub open spec fn as_obstacle(b: Block) -> Obstacle {
    Obstacle { position: b.position, extent: b.extent }
}

/// The blocks that take part in collision queries, as obstacles, in order.
pub open spec fn landed_obstacles(blocks: Seq<Block>) -> Seq<Obstacle>
    decreases blocks.len(),
{
    if blocks.len() == 0 {
        seq![]
    } else {
        let rest = landed_obstacles(blocks.drop_last());
        if is_collidable(blocks.last()) {
            rest.push(as_obstacle(blocks.last()))
        } else {
            rest
        }
    }
}

/// All obstacles of a scene: its walls, then its collidable blocks.
pub open spec fn obstacles_of(walls: Seq<Obstacle>, blocks: Seq<Block>) -> Seq<Obstacle> {
    walls + landed_obstacles(blocks)
}

/// One tick of block physics: a falling block moves down by
/// `fall_speed * dt`; any other block stays.
pub open spec fn fallen(b: Block, dt: int) -> Block {
    if b.physics.is_falling {
        Block {
            position: Position { y: (b.position.y - b.physics.fall_speed * dt) as i64, ..b.position },
            ..b
        }
    } else {
        b
    }
}

pub open spec fn fall_fits(b: Block, dt: int) -> bool {
    b.physics.is_falling ==> fits_i64(b.position.y - b.physics.fall_speed * dt)
}

/// A block landing on `o`: it stops, becomes an obstacle, and rests exactly
/// on top of `o`.
pub open spec fn landed_on(b: Block, o: Obstacle) -> Block {
    Block {
        position: Position { y: rest_y(o, b.extent) as i64, ..b.position },
        physics: BlockPhysics { is_falling: false, ..b.physics },
        role: ObstacleRole::GroundedDynamic,
        ..b
    }
}

/// Collision resolution of one block: a block that is not yet an obstacle
/// lands on the first obstacle that it touches from below; otherwise it
/// is left as it is.
pub open spec fn resolved_block(b: Block, obs: Seq<Obstacle>) -> Block {
    if is_collidable(b) {
        b
    } else {
        match first_bottom(b.position, b.extent, obs) {
            Some(i) => landed_on(b, obs[i]),
            None => b,
        }
    }
}

/// Every landing height that resolving `b` against `obs` could write fits.
pub open spec fn landing_fits(b: Block, obs: Seq<Obstacle>) -> bool {
    !is_collidable(b) ==> forall|k: int| 0 <= k < obs.len() ==> fits_i64(#[trigger] rest_y(obs[k], b.extent))
}

pub proof fn lemma_first_bottom(pos: Position, ext: Extent, obs: Seq<Obstacle>)
    ensures
        match first_bottom(pos, ext, obs) {
            Some(i) => 0 <= i < obs.len() && is_bottom(pos, ext, obs[i]) && forall|j: int|
                0 <= j < i ==> !is_bottom(pos, ext, #[trigger] obs[j]),
            None => forall|j: int| 0 <= j < obs.len() ==> !is_bottom(pos, ext, #[trigger] obs[j]),
        },
    decreases obs.len(),
{
    if obs.len() > 0 {
        let init = obs.drop_last();
        let n = obs.len() - 1;
        lemma_first_bottom(pos, ext, init);
        assert(forall|j: int| 0 <= j < init.len() ==> #[trigger] init[j] == obs[j]);
        assert(obs.last() == obs[n]);
        match first_bottom(pos, ext, init) {
            Some(i) => {
                assert(first_bottom(pos, ext, obs) == Some(i));
                assert(init[i] == obs[i]);
                assert forall|j: int| 0 <= j < i implies !is_bottom(pos, ext, #[trigger] obs[j]) by {
                    assert(init[j] == obs[j]);
                }
            },
            None => {
                if is_bottom(pos, ext, obs[n]) {
                    assert(first_bottom(pos, ext, obs) == Some(n));
                    assert forall|j: int| 0 <= j < n implies !is_bottom(pos, ext, #[trigger] obs[j]) by {
                        assert(init[j] == obs[j]);
                    }
                } else {
                    assert(first_bottom(pos, ext, obs) is None);
                    assert forall|j: int| 0 <= j < obs.len() implies !is_bottom(pos, ext, #[trigger] obs[j]) by {
                        if j < n {
                            assert(init[j] == obs[j]);
                        }
                    }
                }
            },
        }
    }
}

/// Index of the first obstacle that the rectangle touches from below.
pub fn first_bottom_index(pos: Position, ext: Extent, obs: &Vec<Obstacle>) -> (r: Option<usize>)
    ensures
        match r {
            Some(i) => i < obs.len() && first_bottom(pos, ext, obs@) == Some(i as int),
            None => first_bottom(pos, ext, obs@) is None,
        },
{
    proof {
        lemma_first_bottom(pos, ext, obs@);
    }
    let mut i: usize = 0;
    while i < obs.len()
        invariant
            i <= obs.len(),
            forall|j: int| 0 <= j < i ==> !is_bottom(pos, ext, #[trigger] obs@[j]),
        decreases obs.len() - i,
    {
        if collide(pos, ext, obs[i].position, obs[i].extent) == Some(Side::Bottom) {
            proof {
                lemma_first_bottom(pos, ext, obs@);
                assert(is_bottom(pos, ext, obs@[i as int]));
                if let Some(k) = first_bottom(pos, ext, obs@) {
                    if k < i {
                        assert(!is_bottom(pos, ext, obs@[k]));
                    }
                    assert(k == i);
                }
            }
            return Some(i);
        }
        i += 1;
    }
    None
}

/// Moves every falling block down by its fall speed times `dt`.
pub fn fall_blocks(blocks: &mut Vec<Block>, dt: u32)
    requires
        forall|i: int| 0 <= i < old(blocks).len() ==> fall_fits(#[trigger] old(blocks)[i], dt as int),
    ensures
        final(blocks).len() == old(blocks).len(),
        forall|i: int| 0 <= i < old(blocks).len() ==> #[trigger] final(blocks)[i] == fallen(old(blocks)[i], dt as int),
{
    let ghost orig = blocks@;
    let mut i: usize = 0;
    while i < blocks.len()
        invariant
            blocks.len() == orig.len(),
            i <= orig.len(),
            forall|j: int| 0 <= j < orig.len() ==> fall_fits(#[trigger] orig[j], dt as int),
            forall|j: int| 0 <= j < i ==> #[trigger] blocks@[j] == fallen(orig[j], dt as int),
            forall|j: int| i <= j < orig.len() ==> #[trigger] blocks@[j] == orig[j],
        decreases orig.len() - i,
    {
        let mut b = blocks[i];
        if b.physics.is_falling {
            let drop: i128 = b.physics.fall_speed as i128 * dt as i128;
            b.position.y = (b.position.y as i128 - drop) as i64;
        }
        blocks.set(i, b);
        i += 1;
    }
}

/// Resolves one block against the obstacles, see `resolved_block`.
pub fn resolve_block(b: Block, obs: &Vec<Obstacle>) -> (r: Block)
    requires
        landing_fits(b, obs@),
    ensures
        r == resolved_block(b, obs@),
{
    if b.role != ObstacleRole::Inactive {
        return b;
    }
    match first_bottom_index(b.position, b.extent, obs) {
        Some(i) => {
            let o = obs[i];
            assert(o == obs@[i as int]);
            assert(fits_i64(rest_y(obs@[i as int], b.extent)));
            let y: i128 = o.position.y as i128 + o.extent.half_height as i128 + b.extent.half_height as i128;
            let mut r = b;
            r.position.y = y as i64;
            r.physics.is_falling = false;
            r.role = ObstacleRole::GroundedDynamic;
            r
        },
        None => b,
    }
}

/// Resolves every block against the same set of obstacles.
pub fn resolve_blocks(blocks: &mut Vec<Block>, obs: &Vec<Obstacle>)
    requires
        forall|i: int| 0 <= i < old(blocks).len() ==> landing_fits(#[trigger] old(blocks)[i], obs@),
    ensures
        final(blocks).len() == old(blocks).len(),
        forall|i: int| 0 <= i < old(blocks).len() ==> #[trigger] final(blocks)[i] == resolved_block(old(blocks)[i], obs@),
{
    let ghost orig = blocks@;
    let mut i: usize = 0;
    while i < blocks.len()
        invariant
            blocks.len() == orig.len(),
            i <= orig.len(),
            forall|j: int| 0 <= j < orig.len() ==> landing_fits(#[trigger] orig[j], obs@),
            forall|j: int| 0 <= j < i ==> #[trigger] blocks@[j] == resolved_block(orig[j], obs@),
            forall|j: int| i <= j < orig.len() ==> #[trigger] blocks@[j] == orig[j],
        decreases orig.len() - i,
    {
        let b = resolve_block(blocks[i], obs);
        blocks.set(i, b);
        i += 1;
    }
}

/// Collects the obstacles of a scene: the walls, then the blocks that are
/// obstacles, each in order.
pub fn collidables(walls: &Vec<Obstacle>, blocks: &Vec<Block>) -> (r: Vec<Obstacle>)
    ensures
        r@ == obstacles_of(walls@, blocks@),
{
    let mut r: Vec<Obstacle> = Vec::new();
    let mut i: usize = 0;
    while i < walls.len()
        invariant
            i <= walls.len(),
            r@ == walls@.subrange(0, i as int),
        decreases walls.len() - i,
    {
        r.push(walls[i]);
        i += 1;
        assert(r@ =~= walls@.subrange(0, i as int));
    }
    assert(walls@.subrange(0, walls.len() as int) =~= walls@);
    let mut k: usize = 0;
    while k < blocks.len()
        invariant
            k <= blocks.len(),
            r@ == walls@ + landed_obstacles(blocks@.subrange(0, k as int)),
        decreases blocks.len() - k,
    {
        let b = blocks[k];
        assert(blocks@.subrange(0, k + 1).drop_last() =~= blocks@.subrange(0, k as int));
        if b.role != ObstacleRole::Inactive {
            r.push(Obstacle { position: b.position, extent: b.extent });
            assert(r@ =~= walls@ + landed_obstacles(blocks@.subrange(0, k + 1)));
        }
        k += 1;
    }
    assert(blocks@.subrange(0, blocks.len() as int) =~= blocks@);
    r
}

/// Falling and landing keep a block's fall state and its obstacle role in
/// step: a block stops falling exactly when it becomes an obstacle.
pub proof fn lemma_block_wf_kept(b: Block, obs: Seq<Obstacle>, dt: int)
    requires
        b.wf(),
    ensures
        fallen(b, dt).wf(),
        resolved_block(b, obs).wf(),
{
}

/// Resolving blocks twice, with no motion between, changes nothing the
/// second time: a block that landed is an obstacle and is not tested again.
pub proof fn lemma_resolve_block_twice(b: Block, obs: Seq<Obstacle>)
    ensures
        resolved_block(resolved_block(b, obs), obs) == resolved_block(b, obs),
{
}

/// A block that rests exactly on an obstacle, overlapping it horizontally,
/// is touched by it from below, and landing on it keeps the block where it
/// is.
pub proof fn lemma_block_at_rest(b: Block, o: Obstacle)
    requires
        !is_collidable(b),
        depth_x(b.position, b.extent, o.position, o.extent) >= 0,
        b.position.y == rest_y(o, b.extent),
    ensures
        is_bottom(b.position, b.extent, o),
        resolved_block(b, seq![o]).position == b.position,
{
    let s = seq![o];
    assert(s.drop_last() =~= Seq::<Obstacle>::empty());
    assert(s.last() == o);
    assert(first_bottom(b.position, b.extent, Seq::<Obstacle>::empty()) is None);
    assert(is_bottom(b.position, b.extent, o));
    assert(first_bottom(b.position, b.extent, s) == Some(0int));
}

} // verus!
