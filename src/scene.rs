use vstd::prelude::*;
use crate::block::{
    collidables, fall_blocks, fall_fits, fallen, landing_fits, obstacles_of, resolve_blocks,
    resolved_block, Block, Obstacle,
};
use crate::player::{
    motion_fits, move_player, moved, pushes_fit, resolve_player, resolved_player, Input, Player,
};

verus! {

/// Why a step that needs the player could not run.
#[derive(Clone, Copy, Debug, PartialEq, Eq, Structural)]
pub enum PlayerError {
    /// The scene holds no player.
    Missing,
    /// The scene holds more than one player.
    NotUnique,
}

/// The entities of one scene: static walls, blocks, and the player, of which
/// there should be exactly one.
pub struct Scene {
    pub walls: Vec<Obstacle>,
    pub blocks: Vec<Block>,
    pub players: Vec<Player>,
}

pub open spec fn all_fallen(blocks: Seq<Block>, dt: int) -> Seq<Block> {
    Seq::new(blocks.len(), |i: int| fallen(blocks[i], dt))
}

pub open spec fn all_resolved(blocks: Seq<Block>, obs: Seq<Obstacle>) -> Seq<Block> {
    Seq::new(blocks.len(), |i: int| resolved_block(blocks[i], obs))
}

/// The blocks after a tick's block physics and block collision resolution.
pub open spec fn settled(walls: Seq<Obstacle>, blocks: Seq<Block>, dt: int) -> Seq<Block> {
    let fell = all_fallen(blocks, dt);
    all_resolved(fell, obstacles_of(walls, fell))
}

pub open spec fn player_check(players: Seq<Player>) -> Result<(), PlayerError> {
    if players.len() == 0 {
        Err(PlayerError::Missing)
    } else if players.len() > 1 {
        Err(PlayerError::NotUnique)
    } else {
        Ok(())
    }
}

pub open spec fn falls_fit(blocks: Seq<Block>, dt: int) -> bool {
    forall|i: int| 0 <= i < blocks.len() ==> fall_fits(#[trigger] blocks[i], dt)
}

pub open spec fn landings_fit(blocks: Seq<Block>, obs: Seq<Obstacle>) -> bool {
    forall|i: int| 0 <= i < blocks.len() ==> landing_fits(#[trigger] blocks[i], obs)
}

/// Every value that one whole tick writes fits in an `i64`.
pub open spec fn tick_fits(walls: Seq<Obstacle>, blocks: Seq<Block>, players: Seq<Player>, input: Input, dt: int) -> bool {
    let fell = all_fallen(blocks, dt);
    let obs = obstacles_of(walls, settled(walls, blocks, dt));
    &&& falls_fit(blocks, dt)
    &&& landings_fit(fell, obstacles_of(walls, fell))
    &&& (players.len() == 1 ==> {
        &&& players[0].wf()
        &&& pushes_fit(obs, players[0].extent)
        &&& motion_fits(resolved_player(players[0], obs), input, dt)
    })
}

impl Scene {
    /// The obstacles of the scene: its walls, then its collidable blocks.
    pub open spec fn obstacles(&self) -> Seq<Obstacle> {
        obstacles_of(self.walls@, self.blocks@)
    }

    /// Checks that the scene holds exactly one player.
    pub fn check_player(&self) -> (r: Result<(), PlayerError>)
        ensures
            r == player_check(self.players@),
    {
        if self.players.len() == 0 {
            Err(PlayerError::Missing)
        } else if self.players.len() > 1 {
            Err(PlayerError::NotUnique)
        } else {
            Ok(())
        }
    }

    /// Block physics for one tick: each falling block moves down.
    pub fn fall_blocks(&mut self, dt: u32)
        requires
            falls_fit(old(self).blocks@, dt as int),
        ensures
            final(self).blocks@ == all_fallen(old(self).blocks@, dt as int),
            final(self).walls@ == old(self).walls@,
            final(self).players@ == old(self).players@,
    {
        fall_blocks(&mut self.blocks, dt);
        assert(self.blocks@ =~= all_fallen(old(self).blocks@, dt as int));
    }

    /// Block collision resolution for one tick: every block that is not yet
    /// an obstacle lands on the first obstacle, as the scene stood before
    /// the pass, that it touches from below.
    pub fn resolve_blocks(&mut self)
        requires
            landings_fit(old(self).blocks@, old(self).obstacles()),
        ensures
            final(self).blocks@ == all_resolved(old(self).blocks@, old(self).obstacles()),
            final(self).walls@ == old(self).walls@,
            final(self).players@ == old(self).players@,
    {
        let obs = collidables(&self.walls, &self.blocks);
        resolve_blocks(&mut self.blocks, &obs);
        assert(self.blocks@ =~= all_resolved(old(self).blocks@, old(self).obstacles()));
    }

    /// Player collision resolution for one tick, against the scene's
    /// obstacles (walls and blocks that have landed; a block still falling is
    /// not one). Without exactly one player the scene is left as it is.
    pub fn resolve_player(&mut self) -> (r: Result<(), PlayerError>)
        requires
            old(self).players.len() == 1 ==> pushes_fit(old(self).obstacles(), old(self).players[0].extent),
        ensures
            r == player_check(old(self).players@),
            r is Ok ==> final(self).players@ == seq![resolved_player(old(self).players[0], old(self).obstacles())],
            r is Ok ==> final(self).players[0].wf() == old(self).players[0].wf(),
            r is Err ==> final(self).players@ == old(self).players@,
            final(self).walls@ == old(self).walls@,
            final(self).blocks@ == old(self).blocks@,
    {
        let check = self.check_player();
        if check.is_err() {
            return check;
        }
        let obs = collidables(&self.walls, &self.blocks);
        let p = resolve_player(self.players[0], &obs);
        self.players.set(0, p);
        assert(self.players@ =~= seq![resolved_player(old(self).players[0], old(self).obstacles())]);
        Ok(())
    }

    /// Player motion for one tick. Without exactly one player the scene is
    /// left as it is.
    pub fn move_player(&mut self, input: Input, dt: u32) -> (r: Result<(), PlayerError>)
        requires
            old(self).players.len() == 1 ==> old(self).players[0].wf() && motion_fits(old(self).players[0], input, dt as int),
        ensures
            r == player_check(old(self).players@),
            r is Ok ==> final(self).players@ == seq![moved(old(self).players[0], input, dt as int)],
            r is Err ==> final(self).players@ == old(self).players@,
            final(self).walls@ == old(self).walls@,
            final(self).blocks@ == old(self).blocks@,
    {
        let check = self.check_player();
        if check.is_err() {
            return check;
        }
        let p = move_player(self.players[0], input, dt);
        self.players.set(0, p);
        assert(self.players@ =~= seq![moved(old(self).players[0], input, dt as int)]);
        Ok(())
    }

    /// One whole tick, in order: block physics, block collision resolution,
    /// player collision resolution, player motion. The block steps run in
    /// any case; the player steps only with exactly one player.
    pub fn tick(&mut self, input: Input, dt: u32) -> (r: Result<(), PlayerError>)
        requires
            old(self).players.len() == 1 ==> old(self).players[0].wf(),
            tick_fits(old(self).walls@, old(self).blocks@, old(self).players@, input, dt as int),
        ensures
            r == player_check(old(self).players@),
            final(self).walls@ == old(self).walls@,
            final(self).blocks@ == settled(old(self).walls@, old(self).blocks@, dt as int),
            r is Ok ==> final(self).players@ == seq![
                moved(
                    resolved_player(
                        old(self).players[0],
                        obstacles_of(old(self).walls@, settled(old(self).walls@, old(self).blocks@, dt as int)),
                    ),
                    input,
                    dt as int,
                ),
            ],
            r is Err ==> final(self).players@ == old(self).players@,
    {
        self.fall_blocks(dt);
        self.resolve_blocks();
        let r = self.resolve_player();
        if r.is_err() {
            return r;
        }
        self.move_player(input, dt)
    }
}

} // verus!
