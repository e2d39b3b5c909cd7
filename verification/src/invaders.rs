//! The swarm of invaders: it sweeps from side to side in lockstep and
//! descends one row whenever it reaches an edge of the grid.
use vstd::prelude::*;

use crate::frame::{in_grid, is_frame, overlay, Drawable, Frame};
use crate::{NUM_COLUMNS, NUM_ROWS};

verus! {

/// Microseconds between two moves of the swarm.
pub const MOVE_PERIOD_US: u64 = 2_000_000;

/// Columns of invaders in the starting formation.
pub const FORMATION_COLUMNS: usize = 18;

/// Rows of invaders in the starting formation.
pub const FORMATION_ROWS: usize = 4;

/// The glyph of an invader.
pub const INVADER_GLYPH: char = 'x';

/// One invader: the cell it occupies.
#[derive(Clone, Copy, Debug, PartialEq, Eq)]
pub struct Invader {
    /// Column of the invader.
    pub x: usize,
    /// Row of the invader; row 0 is the top of the grid.
    pub y: usize,
}

/// The way the swarm is heading.
#[derive(Clone, Copy, Debug, PartialEq, Eq, Structural)]
pub enum Direction {
    Left,
    Right,
}

impl Invader {
    /// Whether the invader is at the cell `(x, y)`.
    pub open spec fn at(self, x: int, y: int) -> bool {
        self.x == x && self.y == y
    }

    /// The invader one column further in `direction`.
    pub open spec fn shifted(self, direction: Direction) -> Invader {
        match direction {
            Direction::Left => Invader { x: (self.x - 1) as usize, y: self.y },
            Direction::Right => Invader { x: (self.x + 1) as usize, y: self.y },
        }
    }

    /// The invader one row further down.
    pub open spec fn descended(self) -> Invader {
        Invader { x: self.x, y: (self.y + 1) as usize }
    }
}

impl Direction {
    /// The opposite direction.
    pub open spec fn reversed(self) -> Direction {
        match self {
            Direction::Left => Direction::Right,
            Direction::Right => Direction::Left,
        }
    }

    /// The last column in this direction: an invader there cannot go on.
    pub open spec fn edge(self) -> int {
        match self {
            Direction::Left => 0,
            Direction::Right => NUM_COLUMNS - 1,
        }
    }
}

/// Whether one of `army` is at the cell `(x, y)`.
pub open spec fn invader_among(army: Seq<Invader>, x: int, y: int) -> bool {
    exists|i: int| 0 <= i < army.len() && (#[trigger] army[i]).at(x, y)
}

/// The index of the first of `army` at the cell `(x, y)`; the length of
/// `army` where none is there.
pub open spec fn first_at(army: Seq<Invader>, x: int, y: int) -> int
    decreases army.len(),
{
    if army.len() == 0 || army[0].at(x, y) {
        0
    } else {
        1 + first_at(army.drop_first(), x, y)
    }
}

/// `army` without the first invader at the cell `(x, y)`; `army` itself
/// where none is there.
pub open spec fn struck(army: Seq<Invader>, x: int, y: int) -> Seq<Invader> {
    if invader_among(army, x, y) {
        army.remove(first_at(army, x, y))
    } else {
        army
    }
}

/// `first_at` finds the first invader at the cell and nothing before it.
pub proof fn lemma_first_at(army: Seq<Invader>, x: int, y: int)
    ensures
        0 <= first_at(army, x, y) <= army.len(),
        first_at(army, x, y) < army.len() <==> invader_among(army, x, y),
        first_at(army, x, y) < army.len() ==> army[first_at(army, x, y)].at(x, y),
        forall|i: int| 0 <= i < first_at(army, x, y) ==> !(#[trigger] army[i]).at(x, y),
    decreases army.len(),
{
    if army.len() == 0 {
    } else if army[0].at(x, y) {
    } else {
        let rest = army.drop_first();
        lemma_first_at(rest, x, y);
        let found = first_at(rest, x, y);
        if found < rest.len() {
            assert(army[found + 1].at(x, y));
        }
        if invader_among(army, x, y) {
            let i = choose|i: int| 0 <= i < army.len() && (#[trigger] army[i]).at(x, y);
            assert(rest[i - 1].at(x, y));
        }
        assert forall|i: int| 0 <= i < first_at(army, x, y) implies !(#[trigger] army[i]).at(
            x,
            y,
        ) by {
            if i > 0 {
                assert(!rest[i - 1].at(x, y));
            }
        }
    }
}

/// An update keeps every invader inside the grid, loses none and adds none;
/// the swarm moves in lockstep.
pub proof fn lemma_update_keeps_swarm_in_grid(swarm: InvadersView, delta: u64)
    requires
        swarm.wf(),
    ensures
        swarm.updated(delta).wf(),
        swarm.updated(delta).army.len() == swarm.army.len(),
        forall|i: int|
            0 <= i < swarm.army.len() ==> in_grid(
                (#[trigger] swarm.updated(delta).army[i]).x as int,
                swarm.updated(delta).army[i].y as int,
            ),
{
    let next = swarm.updated(delta);
    if swarm.reached_bottom() || !swarm.moves(delta) {
    } else {
        assert forall|i: int| 0 <= i < next.army.len() implies in_grid(
            (#[trigger] next.army[i]).x as int,
            next.army[i].y as int,
        ) by {
            let before = swarm.army[i];
            assert(in_grid(before.x as int, before.y as int));
            assert(before.y < NUM_ROWS - 1);
            if !swarm.at_edge() {
                assert(before.x != swarm.direction.edge());
            }
        }
    }
}

/// After any number of updates every live invader is inside the grid: its
/// column is below `NUM_COLUMNS` and its row below `NUM_ROWS`.
pub proof fn lemma_updates_keep_swarm_in_grid(swarm: InvadersView, deltas: Seq<u64>)
    requires
        swarm.wf(),
    ensures
        swarm.after_updates(deltas).wf(),
        swarm.after_updates(deltas).army.len() == swarm.army.len(),
        forall|i: int|
            0 <= i < swarm.army.len() ==> in_grid(
                (#[trigger] swarm.after_updates(deltas).army[i]).x as int,
                swarm.after_updates(deltas).army[i].y as int,
            ),
    decreases deltas.len(),
{
    if deltas.len() > 0 {
        lemma_updates_keep_swarm_in_grid(swarm, deltas.drop_last());
        lemma_update_keeps_swarm_in_grid(swarm.after_updates(deltas.drop_last()), deltas.last());
    }
}

/// The swarm.
pub struct Invaders {
    army: Vec<Invader>,
    direction: Direction,
    since_move: u64,
}

/// What an [`Invaders`] is: the live invaders, the direction they head in
/// and the microseconds that have passed since they last moved.
pub struct InvadersView {
    pub army: Seq<Invader>,
    pub direction: Direction,
    pub since_move: int,
}

impl InvadersView {
    /// Every live invader is inside the grid, and the next move is not yet
    /// due.
    pub open spec fn wf(self) -> bool {
        &&& 0 <= self.since_move < MOVE_PERIOD_US
        &&& forall|i: int|
            0 <= i < self.army.len() ==> in_grid(
                (#[trigger] self.army[i]).x as int,
                self.army[i].y as int,
            )
    }

    /// The swarm at the start of a game: [`FORMATION_COLUMNS`] columns of
    /// [`FORMATION_ROWS`] invaders, every second cell from `(2, 2)` on,
    /// column by column, heading right.
    pub open spec fn formation() -> InvadersView {
        InvadersView {
            army: Seq::new(
                (FORMATION_COLUMNS * FORMATION_ROWS) as nat,
                |i: int|
                    Invader {
                        x: (2 + 2 * (i / FORMATION_ROWS as int)) as usize,
                        y: (2 + 2 * (i % FORMATION_ROWS as int)) as usize,
                    },
            ),
            direction: Direction::Right,
            since_move: 0,
        }
    }

    /// No invader is left: the player has won.
    pub open spec fn all_killed(self) -> bool {
        self.army.len() == 0
    }

    /// An invader has come down to the row of the player: the player has
    /// lost.
    pub open spec fn reached_bottom(self) -> bool {
        exists|i: int| 0 <= i < self.army.len() && (#[trigger] self.army[i]).y >= NUM_ROWS - 1
    }

    /// An invader stands in the last column in the direction of travel: one
    /// more step that way would take it out of the grid.
    pub open spec fn at_edge(self) -> bool {
        exists|i: int|
            0 <= i < self.army.len() && (#[trigger] self.army[i]).x == self.direction.edge()
    }

    /// Whether the swarm moves when `delta` more microseconds pass: the time
    /// since its last move reaches [`MOVE_PERIOD_US`], and it has not come
    /// to rest on the bottom row.
    pub open spec fn moves(self, delta: u64) -> bool {
        !self.reached_bottom() && self.since_move + delta >= MOVE_PERIOD_US
    }

    /// The swarm after `delta` more microseconds.
    ///
    /// A swarm that has reached the bottom row rests there. Otherwise the
    /// time is added up until a move is due. The move is one column in the
    /// direction of travel for every invader; but where an invader stands at
    /// the edge, the swarm turns round and every invader goes down one row
    /// instead. With a move the count of time starts again.
    pub open spec fn updated(self, delta: u64) -> InvadersView {
        if self.reached_bottom() {
            self
        } else if !self.moves(delta) {
            InvadersView { since_move: self.since_move + delta, ..self }
        } else if self.at_edge() {
            InvadersView {
                army: self.army.map_values(|invader: Invader| invader.descended()),
                direction: self.direction.reversed(),
                since_move: 0,
            }
        } else {
            InvadersView {
                army: self.army.map_values(|invader: Invader| invader.shifted(self.direction)),
                direction: self.direction,
                since_move: 0,
            }
        }
    }

    /// The swarm after one update for each of `deltas`, in order.
    pub open spec fn after_updates(self, deltas: Seq<u64>) -> InvadersView
        decreases deltas.len(),
    {
        if deltas.len() == 0 {
            self
        } else {
            self.after_updates(deltas.drop_last()).updated(deltas.last())
        }
    }

    /// The swarm after a shot at the cell `(x, y)`: the first invader there
    /// is gone.
    pub open spec fn hit_at(self, x: int, y: int) -> InvadersView {
        InvadersView { army: struck(self.army, x, y), ..self }
    }

    /// What the swarm shows at the cell `(x, y)`.
    pub open spec fn glyph_at(self, x: int, y: int) -> Option<char> {
        if invader_among(self.army, x, y) {
            Some(INVADER_GLYPH)
        } else {
            None
        }
    }
}

impl View for Invaders {
    type V = InvadersView;

    closed spec fn view(&self) -> InvadersView {
        InvadersView {
            army: self.army@,
            direction: self.direction,
            since_move: self.since_move as int,
        }
    }
}

impl Invaders {
    /// The swarm at the start of a game.
    pub fn new() -> (invaders: Invaders)
        ensures
            invaders@ == InvadersView::formation(),
            invaders@.wf(),
    {
        let mut army: Vec<Invader> = Vec::new();
        let mut i: usize = 0;
        while i < FORMATION_COLUMNS * FORMATION_ROWS
            invariant
                i <= FORMATION_COLUMNS * FORMATION_ROWS,
                army@.len() == i,
                forall|k: int| 0 <= k < i ==> #[trigger] army@[k] == InvadersView::formation().army[k],
            decreases FORMATION_COLUMNS * FORMATION_ROWS - i,
        {
            army.push(Invader { x: 2 + 2 * (i / FORMATION_ROWS), y: 2 + 2 * (i % FORMATION_ROWS) });
            i += 1;
        }
        assert(army@ =~= InvadersView::formation().army);
        Invaders { army, direction: Direction::Right, since_move: 0 }
    }

    /// A swarm of the given invaders, heading in `direction`, that has just
    /// moved. `None` where an invader is outside the grid.
    pub fn with_army(army: Vec<Invader>, direction: Direction) -> (invaders: Option<Invaders>)
        ensures
            invaders is Some <==> (InvadersView { army: army@, direction, since_move: 0 }).wf(),
            invaders matches Some(swarm) ==> swarm@ == (InvadersView {
                army: army@,
                direction,
                since_move: 0,
            }),
    {
        let mut i: usize = 0;
        while i < army.len()
            invariant
                i <= army.len(),
                forall|k: int| 0 <= k < i ==> in_grid((#[trigger] army@[k]).x as int, army@[k].y as int),
            decreases army.len() - i,
        {
            if army[i].x >= NUM_COLUMNS || army[i].y >= NUM_ROWS {
                let ghost wanted = InvadersView { army: army@, direction, since_move: 0 };
                assert(!in_grid(wanted.army[i as int].x as int, wanted.army[i as int].y as int));
                assert(!wanted.wf());
                return None;
            }
            i += 1;
        }
        Some(Invaders { army, direction, since_move: 0 })
    }

    /// The live invaders.
    pub fn army(&self) -> (army: &Vec<Invader>)
        ensures
            army@ == self@.army,
    {
        &self.army
    }

    /// The direction in which the swarm is heading.
    pub fn direction(&self) -> (direction: Direction)
        ensures
            direction == self@.direction,
    {
        self.direction
    }

    /// Whether no invader is left.
    pub fn all_killed(&self) -> (won: bool)
        ensures
            won == self@.all_killed(),
    {
        self.army.len() == 0
    }

    /// Whether an invader has come down to the row of the player.
    pub fn reached_bottom(&self) -> (lost: bool)
        ensures
            lost == self@.reached_bottom(),
    {
        let mut i: usize = 0;
        while i < self.army.len()
            invariant
                i <= self.army.len(),
                forall|k: int| 0 <= k < i ==> (#[trigger] self.army@[k]).y < NUM_ROWS - 1,
            decreases self.army.len() - i,
        {
            if self.army[i].y >= NUM_ROWS - 1 {
                assert(self@.army[i as int].y >= NUM_ROWS - 1);
                return true;
            }
            i += 1;
        }
        false
    }

    /// Whether an invader stands in the last column in the direction of
    /// travel.
    fn at_edge(&self) -> (blocked: bool)
        ensures
            blocked == self@.at_edge(),
    {
        let edge: usize = match self.direction {
            Direction::Left => 0,
            Direction::Right => NUM_COLUMNS - 1,
        };
        let mut i: usize = 0;
        while i < self.army.len()
            invariant
                i <= self.army.len(),
                edge == self.direction.edge(),
                forall|k: int| 0 <= k < i ==> (#[trigger] self.army@[k]).x != edge,
            decreases self.army.len() - i,
        {
            if self.army[i].x == edge {
                assert(self@.army[i as int].x == self@.direction.edge());
                return true;
            }
            i += 1;
        }
        false
    }

    /// Lets `delta` microseconds pass and says whether the swarm moved.
    ///
    /// The swarm moves when [`MOVE_PERIOD_US`] have passed since its last
    /// move: one column in its direction, or, where that would take an
    /// invader out of the grid, one row down with the direction reversed.
    /// A swarm that has reached the bottom row stays as it is.
    pub fn update(&mut self, delta: u64) -> (moved: bool)
        requires
            old(self)@.wf(),
        ensures
            moved == old(self)@.moves(delta),
            final(self)@ == old(self)@.updated(delta),
            final(self)@.wf(),
    {
        if self.reached_bottom() {
            return false;
        }
        if delta < MOVE_PERIOD_US - self.since_move {
            self.since_move += delta;
            return false;
        }
        let descend = self.at_edge();
        let mut i: usize = 0;
        while i < self.army.len()
            invariant
                i <= self.army.len(),
                self.army@.len() == old(self).army@.len(),
                self.direction == old(self).direction,
                old(self)@.wf(),
                !old(self)@.reached_bottom(),
                descend == old(self)@.at_edge(),
                forall|k: int|
                    0 <= k < i ==> #[trigger] self.army@[k] == (if descend {
                        old(self).army@[k].descended()
                    } else {
                        old(self).army@[k].shifted(self.direction)
                    }),
                forall|k: int| i <= k < self.army@.len() ==> self.army@[k] == old(self).army@[k],
                forall|k: int|
                    0 <= k < i ==> in_grid((#[trigger] self.army@[k]).x as int, self.army@[k].y as int),
            decreases self.army.len() - i,
        {
            let invader = self.army[i];
            assert(in_grid(old(self)@.army[i as int].x as int, old(self)@.army[i as int].y as int));
            assert(old(self)@.army[i as int].y < NUM_ROWS - 1);
            assert(!descend ==> old(self)@.army[i as int].x != self.direction.edge());
            let next = if descend {
                Invader { x: invader.x, y: invader.y + 1 }
            } else {
                match self.direction {
                    Direction::Left => Invader { x: invader.x - 1, y: invader.y },
                    Direction::Right => Invader { x: invader.x + 1, y: invader.y },
                }
            };
            self.army[i] = next;
            i += 1;
        }
        if descend {
            self.direction = match self.direction {
                Direction::Left => Direction::Right,
                Direction::Right => Direction::Left,
            };
        }
        self.since_move = 0;
        assert(self@.army =~= old(self)@.updated(delta).army);
        true
    }

    /// Removes the first invader at the cell `(x, y)` and says whether there
    /// was one.
    pub fn kill_invader_at(&mut self, x: usize, y: usize) -> (killed: bool)
        requires
            old(self)@.wf(),
        ensures
            killed == invader_among(old(self)@.army, x as int, y as int),
            final(self)@ == old(self)@.hit_at(x as int, y as int),
            final(self)@.wf(),
    {
        let mut i: usize = 0;
        while i < self.army.len()
            invariant
                i <= self.army.len(),
                *self == *old(self),
                self@.wf(),
                forall|k: int| 0 <= k < i ==> !(#[trigger] self.army@[k]).at(x as int, y as int),
            decreases self.army.len() - i,
        {
            if self.army[i].x == x && self.army[i].y == y {
                proof {
                    assert(self@.army[i as int].at(x as int, y as int));
                    lemma_first_at(self@.army, x as int, y as int);
                }
                self.army.remove(i);
                return true;
            }
            i += 1;
        }
        false
    }
}

impl Drawable for Invaders {
    open spec fn glyph_at(&self, x: int, y: int) -> Option<char> {
        self@.glyph_at(x, y)
    }

    fn draw(&self, frame: &mut Frame) {
        let ghost before = frame@;
        proof {
            frame.lemma_dimensions();
        }
        let mut i: usize = 0;
        while i < self.army.len()
            invariant
                i <= self.army.len(),
                is_frame(before),
                is_frame(frame@),
                forall|x: int, y: int|
                    in_grid(x, y) ==> #[trigger] frame@[x][y] == (if invader_among(
                        self@.army.take(i as int),
                        x,
                        y,
                    ) {
                        INVADER_GLYPH
                    } else {
                        before[x][y]
                    }),
            decreases self.army.len() - i,
        {
            let invader = self.army[i];
            frame.set(invader.x, invader.y, INVADER_GLYPH);
            proof {
                frame.lemma_dimensions();
                assert forall|x: int, y: int| in_grid(x, y) implies #[trigger] frame@[x][y] == (
                if invader_among(self@.army.take(i + 1), x, y) {
                    INVADER_GLYPH
                } else {
                    before[x][y]
                }) by {
                    lemma_invader_among_take(self@.army, i as int, x, y);
                }
            }
            i += 1;
        }
        assert(self@.army.take(i as int) == self@.army);
        assert(frame@ =~~= overlay(before, |x: int, y: int| self.glyph_at(x, y)));
    }
}

proof fn lemma_invader_among_take(army: Seq<Invader>, i: int, x: int, y: int)
    requires
        0 <= i < army.len(),
    ensures
        invader_among(army.take(i + 1), x, y) == (invader_among(army.take(i), x, y) || army[i].at(
            x,
            y,
        )),
{
    let shorter = army.take(i);
    let longer = army.take(i + 1);
    if invader_among(shorter, x, y) {
        let k = choose|k: int| 0 <= k < shorter.len() && (#[trigger] shorter[k]).at(x, y);
        assert(longer[k].at(x, y));
    }
    if army[i].at(x, y) {
        assert(longer[i].at(x, y));
    }
    if invader_among(longer, x, y) {
        let k = choose|k: int| 0 <= k < longer.len() && (#[trigger] longer[k]).at(x, y);
        if k < i {
            assert(shorter[k].at(x, y));
        }
    }
}

} // verus!
