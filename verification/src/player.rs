//! The player's ship and the shots it has in flight.
use vstd::prelude::*;

use crate::frame::{in_grid, is_frame, overlay, Drawable, Frame};
use crate::invaders::{
    first_at, invader_among, lemma_first_at, struck, Invader, Invaders, InvadersView,
};
use crate::shot::{Shot, SHOT_STEP_US};
use crate::{NUM_COLUMNS, NUM_ROWS};

verus! {

/// How many shots the player can have in flight at once. While that many
/// are in the grid, the ship does not fire.
pub const MAX_SHOTS: usize = 2;

/// The glyph of the ship.
pub const SHIP_GLYPH: char = 'A';

/// The glyph of a shot in flight.
pub const SHOT_GLYPH: char = '|';

/// The player: a ship that moves along the bottom row and fires upwards.
pub struct Player {
    x: usize,
    y: usize,
    shots: Vec<Shot>,
}

/// What a [`Player`] is: the position of the ship and the shots in flight,
/// oldest first.
pub struct PlayerView {
    pub x: int,
    pub y: int,
    pub shots: Seq<Shot>,
}

/// Whether one of `shots` is at the cell `(x, y)`.
pub open spec fn shot_among(shots: Seq<Shot>, x: int, y: int) -> bool {
    exists|i: int| 0 <= i < shots.len() && (#[trigger] shots[i]).at(x, y)
}

proof fn lemma_shot_among_take(shots: Seq<Shot>, i: int, x: int, y: int)
    requires
        0 <= i < shots.len(),
    ensures
        shot_among(shots.take(i + 1), x, y) == (shot_among(shots.take(i), x, y) || shots[i].at(
            x,
            y,
        )),
{
    let shorter = shots.take(i);
    let longer = shots.take(i + 1);
    if shot_among(shorter, x, y) {
        let k = choose|k: int| 0 <= k < shorter.len() && (#[trigger] shorter[k]).at(x, y);
        assert(longer[k].at(x, y));
    }
    if shots[i].at(x, y) {
        assert(longer[i].at(x, y));
    }
    if shot_among(longer, x, y) {
        let k = choose|k: int| 0 <= k < longer.len() && (#[trigger] longer[k]).at(x, y);
        if k < i {
            assert(shorter[k].at(x, y));
        }
    }
}

/// Whether an invader of `army` is in the cell of `shot`.
pub open spec fn strikes(shot: Shot, army: Seq<Invader>) -> bool {
    invader_among(army, shot.x as int, shot.y as int)
}

/// Whether one of `shots` is in the same cell as one of `army`.
pub open spec fn any_hit(shots: Seq<Shot>, army: Seq<Invader>) -> bool {
    exists|i: int| 0 <= i < shots.len() && strikes(#[trigger] shots[i], army)
}

/// The shots and the invaders that are left when every shot has met the
/// swarm, the shots taken in the order in which they were fired.
///
/// A shot that finds an invader in its own cell takes the first such invader
/// with it, and both are gone. A later shot is matched against the invaders
/// that are still there, so no invader is hit twice.
pub open spec fn resolve_hits(shots: Seq<Shot>, army: Seq<Invader>) -> (Seq<Shot>, Seq<Invader>)
    decreases shots.len(),
{
    if shots.len() == 0 {
        (shots, army)
    } else {
        let (flying, alive) = resolve_hits(shots.drop_last(), army);
        let shot = shots.last();
        if strikes(shot, alive) {
            (flying, struck(alive, shot.x as int, shot.y as int))
        } else {
            (flying.push(shot), alive)
        }
    }
}

impl PlayerView {
    /// The ship is on the bottom row, inside the grid; at most [`MAX_SHOTS`]
    /// shots are in flight, each inside the grid and above the ship.
    pub open spec fn wf(self) -> bool {
        &&& 0 <= self.x < NUM_COLUMNS
        &&& self.y == NUM_ROWS - 1
        &&& self.shots.len() <= MAX_SHOTS
        &&& forall|i: int|
            0 <= i < self.shots.len() ==> {
                &&& (#[trigger] self.shots[i]).x < NUM_COLUMNS
                &&& self.shots[i].y < self.y
                &&& self.shots[i].since_step < SHOT_STEP_US
            }
    }

    /// The player at the start of a game: in the middle of the bottom row,
    /// with no shot in flight.
    pub open spec fn initial() -> PlayerView {
        PlayerView { x: NUM_COLUMNS as int / 2, y: NUM_ROWS - 1, shots: Seq::empty() }
    }

    /// One column to the left, unless the ship is at the left edge.
    pub open spec fn moved_left(self) -> PlayerView {
        PlayerView { x: if self.x > 0 { self.x - 1 } else { self.x }, ..self }
    }

    /// One column to the right, unless the ship is at the right edge.
    pub open spec fn moved_right(self) -> PlayerView {
        PlayerView { x: if self.x < NUM_COLUMNS - 1 { self.x + 1 } else { self.x }, ..self }
    }

    /// Whether the ship may fire: fewer than [`MAX_SHOTS`] shots are in flight.
    pub open spec fn can_shoot(self) -> bool {
        self.shots.len() < MAX_SHOTS
    }

    /// The player after pulling the trigger: where the ship may fire, a new
    /// shot starts in the cell above it.
    pub open spec fn fired(self) -> PlayerView {
        if self.can_shoot() {
            PlayerView {
                shots: self.shots.push(
                    Shot { x: self.x as usize, y: (self.y - 1) as usize, since_step: 0 },
                ),
                ..self
            }
        } else {
            self
        }
    }

    /// The player after `delta` microseconds: every shot has climbed, and
    /// those that left the grid are gone.
    pub open spec fn updated(self, delta: u64) -> PlayerView {
        PlayerView { shots: self.shots.filter_map(|shot: Shot| shot.advanced(delta)), ..self }
    }

    /// Whether a shot is at the cell `(x, y)`.
    pub open spec fn shot_at(self, x: int, y: int) -> bool {
        shot_among(self.shots, x, y)
    }

    /// What the player shows at the cell `(x, y)`: a shot, else the ship.
    pub open spec fn glyph_at(self, x: int, y: int) -> Option<char> {
        if self.shot_at(x, y) {
            Some(SHOT_GLYPH)
        } else if x == self.x && y == self.y {
            Some(SHIP_GLYPH)
        } else {
            None
        }
    }
}

impl View for Player {
    type V = PlayerView;

    closed spec fn view(&self) -> PlayerView {
        PlayerView { x: self.x as int, y: self.y as int, shots: self.shots@ }
    }
}

impl Player {
    /// A player at the start of a game.
    pub fn new() -> (player: Player)
        ensures
            player@ == PlayerView::initial(),
            player@.wf(),
    {
        Self { x: NUM_COLUMNS / 2, y: NUM_ROWS - 1, shots: Vec::new() }
    }

    /// Column of the ship.
    pub fn x(&self) -> (x: usize)
        ensures
            x == self@.x,
    {
        self.x
    }

    /// Row of the ship.
    pub fn y(&self) -> (y: usize)
        ensures
            y == self@.y,
    {
        self.y
    }

    /// The shots in flight, oldest first.
    pub fn shots(&self) -> (shots: &Vec<Shot>)
        ensures
            shots@ == self@.shots,
    {
        &self.shots
    }

    /// Moves the ship one column to the left; at the left edge it stays.
    pub fn move_left(&mut self)
        requires
            old(self)@.wf(),
        ensures
            final(self)@ == old(self)@.moved_left(),
            final(self)@.wf(),
    {
        if self.x > 0 {
            self.x -= 1;
        }
    }

    /// Moves the ship one column to the right; at the right edge it stays.
    pub fn move_right(&mut self)
        requires
            old(self)@.wf(),
        ensures
            final(self)@ == old(self)@.moved_right(),
            final(self)@.wf(),
    {
        if self.x < NUM_COLUMNS - 1 {
            self.x += 1;
        }
    }

    /// Fires a shot from the cell above the ship, unless [`MAX_SHOTS`] shots
    /// are in flight already. Says whether a shot was fired.
    pub fn shoot(&mut self) -> (fired: bool)
        requires
            old(self)@.wf(),
        ensures
            fired == old(self)@.can_shoot(),
            final(self)@ == old(self)@.fired(),
            final(self)@.wf(),
    {
        if self.shots.len() < MAX_SHOTS {
            self.shots.push(Shot::new(self.x, self.y - 1));
            true
        } else {
            false
        }
    }

    /// Lets `delta` microseconds pass: every shot climbs one row for each
    /// [`SHOT_STEP_US`] of its flight, and shots that leave the grid over the
    /// top are dropped.
    pub fn update(&mut self, delta: u64)
        requires
            old(self)@.wf(),
        ensures
            final(self)@ == old(self)@.updated(delta),
            final(self)@.wf(),
    {
        let ghost advanced = |shot: Shot| shot.advanced(delta);
        let mut kept: Vec<Shot> = Vec::new();
        let mut i: usize = 0;
        while i < self.shots.len()
            invariant
                i <= self.shots.len(),
                *self == *old(self),
                self@.wf(),
                advanced == |shot: Shot| shot.advanced(delta),
                kept@ == self.shots@.take(i as int).filter_map(advanced),
                kept@.len() <= i,
                forall|k: int|
                    0 <= k < kept@.len() ==> {
                        &&& (#[trigger] kept@[k]).x < NUM_COLUMNS
                        &&& kept@[k].y < self.y
                        &&& kept@[k].since_step < SHOT_STEP_US
                    },
            decreases self.shots.len() - i,
        {
            proof {
                self.shots@.lemma_filter_map_take_succ(advanced, i as int);
            }
            match self.shots[i].advance(delta) {
                Some(shot) => {
                    kept.push(shot);
                },
                None => {},
            }
            i += 1;
        }
        assert(self.shots@.take(i as int) == self.shots@);
        self.shots = kept;
    }

    /// Matches every shot against the swarm. A shot in the same cell as an
    /// invader is removed together with that invader; all such pairs are
    /// removed, and no invader is taken by two shots. Says whether at least
    /// one shot hit.
    pub fn detect_hits(&mut self, invaders: &mut Invaders) -> (hit: bool)
        requires
            old(self)@.wf(),
            old(invaders)@.wf(),
        ensures
            hit == any_hit(old(self)@.shots, old(invaders)@.army),
            final(self)@ == (PlayerView {
                shots: resolve_hits(old(self)@.shots, old(invaders)@.army).0,
                ..old(self)@
            }),
            final(invaders)@ == (InvadersView {
                army: resolve_hits(old(self)@.shots, old(invaders)@.army).1,
                ..old(invaders)@
            }),
            final(self)@.wf(),
            final(invaders)@.wf(),
    {
        let mut flying: Vec<Shot> = Vec::new();
        let mut i: usize = 0;
        while i < self.shots.len()
            invariant
                i <= self.shots.len(),
                *self == *old(self),
                self@.wf(),
                invaders@.wf(),
                invaders@.direction == old(invaders)@.direction,
                invaders@.since_move == old(invaders)@.since_move,
                (flying@, invaders@.army) == resolve_hits(
                    self@.shots.take(i as int),
                    old(invaders)@.army,
                ),
                flying@.len() <= i,
                forall|k: int|
                    0 <= k < flying@.len() ==> {
                        &&& (#[trigger] flying@[k]).x < NUM_COLUMNS
                        &&& flying@[k].y < self.y
                        &&& flying@[k].since_step < SHOT_STEP_US
                    },
            decreases self.shots.len() - i,
        {
            let shot = self.shots[i];
            assert(self@.shots.take(i + 1).drop_last() == self@.shots.take(i as int));
            if !invaders.kill_invader_at(shot.x, shot.y) {
                flying.push(shot);
            }
            i += 1;
        }
        proof {
            assert(self@.shots.take(i as int) == self@.shots);
            lemma_hit_shortens(self@.shots, old(invaders)@.army);
        }
        let hit = flying.len() < self.shots.len();
        self.shots = flying;
        hit
    }
}

/// Shots and invaders leave in pairs, and a shot is lost exactly where one
/// of the shots shares a cell with an invader.
pub proof fn lemma_hit_shortens(shots: Seq<Shot>, army: Seq<Invader>)
    ensures
        resolve_hits(shots, army).0.len() <= shots.len(),
        resolve_hits(shots, army).1.len() <= army.len(),
        shots.len() - resolve_hits(shots, army).0.len() == army.len() - resolve_hits(
            shots,
            army,
        ).1.len(),
        resolve_hits(shots, army).0.len() < shots.len() <==> any_hit(shots, army),
        !any_hit(shots, army) ==> resolve_hits(shots, army) == (shots, army),
    decreases shots.len(),
{
    if shots.len() > 0 {
        let earlier = shots.drop_last();
        let shot = shots.last();
        let (flying, alive) = resolve_hits(earlier, army);
        lemma_hit_shortens(earlier, army);
        lemma_first_at(alive, shot.x as int, shot.y as int);
        if any_hit(earlier, army) {
            let k = choose|k: int| 0 <= k < earlier.len() && strikes(#[trigger] earlier[k], army);
            assert(strikes(shots[k], army));
        } else {
            assert(flying.push(shot) == shots);
            if strikes(shot, army) {
                assert(strikes(shots[shots.len() - 1], army));
            }
            if any_hit(shots, army) {
                let k = choose|k: int| 0 <= k < shots.len() && strikes(#[trigger] shots[k], army);
                if k < earlier.len() {
                    assert(strikes(earlier[k], army));
                }
            }
        }
    }
}

/// An invader that is there after a strike was there before it.
proof fn lemma_struck_keeps_absent(army: Seq<Invader>, x: int, y: int, shot: Shot)
    requires
        !strikes(shot, army),
    ensures
        !strikes(shot, struck(army, x, y)),
{
    let left = struck(army, x, y);
    if strikes(shot, left) {
        lemma_first_at(army, x, y);
        let gone = first_at(army, x, y);
        let k = choose|k: int|
            0 <= k < left.len() && (#[trigger] left[k]).at(shot.x as int, shot.y as int);
        if invader_among(army, x, y) {
            if k < gone {
                assert(army[k].at(shot.x as int, shot.y as int));
            } else {
                assert(army[k + 1].at(shot.x as int, shot.y as int));
            }
        } else {
            assert(army[k].at(shot.x as int, shot.y as int));
        }
    }
}

/// When the shots have met the swarm, no shot that is left shares a cell
/// with an invader that is left.
pub proof fn lemma_no_hit_left(shots: Seq<Shot>, army: Seq<Invader>)
    ensures
        !any_hit(resolve_hits(shots, army).0, resolve_hits(shots, army).1),
    decreases shots.len(),
{
    let (flying, alive) = resolve_hits(shots, army);
    if shots.len() > 0 {
        let earlier = shots.drop_last();
        let shot = shots.last();
        let (flying_before, alive_before) = resolve_hits(earlier, army);
        lemma_no_hit_left(earlier, army);
        if any_hit(flying, alive) {
            let k = choose|k: int| 0 <= k < flying.len() && strikes(#[trigger] flying[k], alive);
            if strikes(shot, alive_before) {
                if strikes(flying_before[k], alive_before) {
                } else {
                    lemma_struck_keeps_absent(
                        alive_before,
                        shot.x as int,
                        shot.y as int,
                        flying_before[k],
                    );
                }
            } else {
                if k < flying_before.len() {
                    assert(strikes(flying_before[k], alive_before));
                }
            }
        }
    }
}

/// Matching the shots against the swarm a second time, with no new shot in
/// between, changes nothing and reports no hit: every pair was removed the
/// first time.
pub proof fn lemma_detect_hits_idempotent(shots: Seq<Shot>, army: Seq<Invader>)
    ensures
        !any_hit(resolve_hits(shots, army).0, resolve_hits(shots, army).1),
        resolve_hits(resolve_hits(shots, army).0, resolve_hits(shots, army).1) == resolve_hits(
            shots,
            army,
        ),
{
    lemma_no_hit_left(shots, army);
    lemma_hit_shortens(resolve_hits(shots, army).0, resolve_hits(shots, army).1);
}

impl Drawable for Player {
    open spec fn glyph_at(&self, x: int, y: int) -> Option<char> {
        self@.glyph_at(x, y)
    }

    fn draw(&self, frame: &mut Frame) {
        let ghost before = frame@;
        proof {
            frame.lemma_dimensions();
        }
        frame.set(self.x, self.y, SHIP_GLYPH);
        proof {
            frame.lemma_dimensions();
        }
        let mut i: usize = 0;
        while i < self.shots.len()
            invariant
                i <= self.shots.len(),
                is_frame(before),
                is_frame(frame@),
                forall|x: int, y: int|
                    in_grid(x, y) ==> #[trigger] frame@[x][y] == (if shot_among(
                        self@.shots.take(i as int),
                        x,
                        y,
                    ) {
                        SHOT_GLYPH
                    } else if x == self@.x && y == self@.y {
                        SHIP_GLYPH
                    } else {
                        before[x][y]
                    }),
            decreases self.shots.len() - i,
        {
            let shot = self.shots[i];
            frame.set(shot.x, shot.y, SHOT_GLYPH);
            proof {
                frame.lemma_dimensions();
                assert forall|x: int, y: int| in_grid(x, y) implies #[trigger] frame@[x][y] == (
                if shot_among(self@.shots.take(i + 1), x, y) {
                    SHOT_GLYPH
                } else if x == self@.x && y == self@.y {
                    SHIP_GLYPH
                } else {
                    before[x][y]
                }) by {
                    lemma_shot_among_take(self@.shots, i as int, x, y);
                }
            }
            i += 1;
        }
        assert(self@.shots.take(i as int) == self@.shots);
        assert(frame@ =~~= overlay(before, |x: int, y: int| self.glyph_at(x, y)));
    }
}

} // verus!
