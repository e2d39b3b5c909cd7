//! The game itself: what one tick of the loop does to the player and the
//! swarm, which sounds it sets off, and when the game is won or lost.
use vstd::prelude::*;

use crate::audio::Sound;
use crate::frame::{blank, new_frame, overlay, Drawable, Frame};
use crate::invaders::{Invaders, InvadersView};
use crate::player::{any_hit, resolve_hits, Player, PlayerView};
use crate::NUM_COLUMNS;

verus! {

/// A key of the keyboard, as far as the game tells keys apart.
#[derive(Clone, Copy, Debug, PartialEq, Eq)]
pub enum Key {
    Left,
    Right,
    Up,
    Enter,
    Esc,
    /// A key that types a character.
    Char(char),
    /// Any other key.
    Other,
}

/// What the player can ask for.
#[derive(Clone, Copy, Debug, PartialEq, Eq)]
pub enum Command {
    MoveLeft,
    MoveRight,
    Shoot,
    Quit,
}

/// Where the game stands. `Won` and `Lost` are final.
#[derive(Clone, Copy, Debug, PartialEq, Eq)]
pub enum Status {
    Running,
    Won,
    Lost,
}

/// The command that a key gives, if it gives one: left or `a` moves left,
/// right or `d` moves right; space, `w`, enter and up shoot; escape and `q`
/// quit. Every other key is ignored.
pub open spec fn key_command(key: Key) -> Option<Command> {
    match key {
        Key::Left => Some(Command::MoveLeft),
        Key::Right => Some(Command::MoveRight),
        Key::Up => Some(Command::Shoot),
        Key::Enter => Some(Command::Shoot),
        Key::Esc => Some(Command::Quit),
        Key::Char(c) => if c == 'a' {
            Some(Command::MoveLeft)
        } else if c == 'd' {
            Some(Command::MoveRight)
        } else if c == ' ' || c == 'w' {
            Some(Command::Shoot)
        } else if c == 'q' {
            Some(Command::Quit)
        } else {
            None
        },
        Key::Other => None,
    }
}

/// The command that `key` gives, if it gives one.
pub fn command_for_key(key: Key) -> (command: Option<Command>)
    ensures
        command == key_command(key),
{
    match key {
        Key::Left => Some(Command::MoveLeft),
        Key::Right => Some(Command::MoveRight),
        Key::Up | Key::Enter => Some(Command::Shoot),
        Key::Esc => Some(Command::Quit),
        Key::Char(c) => {
            if c == 'a' {
                Some(Command::MoveLeft)
            } else if c == 'd' {
                Some(Command::MoveRight)
            } else if c == ' ' || c == 'w' {
                Some(Command::Shoot)
            } else if c == 'q' {
                Some(Command::Quit)
            } else {
                None
            }
        },
        Key::Other => None,
    }
}

/// What the commands of one tick have done to the player.
pub struct Drained {
    /// The player after the commands.
    pub player: PlayerView,
    /// The sounds the commands set off, in order: one `Pew` for each shot
    /// that was fired.
    pub sounds: Seq<Sound>,
    /// Whether the player asked to quit.
    pub quit: bool,
}

/// The player after the commands of one tick, applied in the order in which
/// they came. A `Quit` ends the input of the game: what comes after it is
/// not applied.
pub open spec fn drained(player: PlayerView, commands: Seq<Command>) -> Drained
    decreases commands.len(),
{
    if commands.len() == 0 {
        Drained { player, sounds: Seq::empty(), quit: false }
    } else {
        let before = drained(player, commands.drop_last());
        if before.quit {
            before
        } else {
            match commands.last() {
                Command::MoveLeft => Drained { player: before.player.moved_left(), ..before },
                Command::MoveRight => Drained { player: before.player.moved_right(), ..before },
                Command::Shoot => Drained {
                    player: before.player.fired(),
                    sounds: if before.player.can_shoot() {
                        before.sounds.push(Sound::Pew)
                    } else {
                        before.sounds
                    },
                    ..before
                },
                Command::Quit => Drained { quit: true, ..before },
            }
        }
    }
}

/// Whatever the commands are, the ship stays inside the grid and the player
/// stays well formed.
pub proof fn lemma_commands_keep_ship_in_grid(player: PlayerView, commands: Seq<Command>)
    requires
        player.wf(),
    ensures
        drained(player, commands).player.wf(),
        0 <= drained(player, commands).player.x < NUM_COLUMNS,
    decreases commands.len(),
{
    if commands.len() > 0 {
        lemma_commands_keep_ship_in_grid(player, commands.drop_last());
    }
}

/// A game: the player, the swarm and where the game stands.
pub struct Game {
    player: Player,
    invaders: Invaders,
    status: Status,
}

/// What a [`Game`] is.
pub struct GameView {
    pub player: PlayerView,
    pub invaders: InvadersView,
    pub status: Status,
}

/// What one tick hands to the program around the game.
pub struct Tick {
    /// The frame to show.
    pub frame: Frame,
    /// The sounds to play, in order.
    pub sounds: Vec<Sound>,
}

impl GameView {
    /// Player and swarm are well formed.
    pub open spec fn wf(self) -> bool {
        self.player.wf() && self.invaders.wf()
    }

    /// A game at its start.
    pub open spec fn initial() -> GameView {
        GameView {
            player: PlayerView::initial(),
            invaders: InvadersView::formation(),
            status: Status::Running,
        }
    }

    /// The player after the commands of a tick and `delta` microseconds,
    /// before the shots meet the swarm.
    pub open spec fn player_moved(self, commands: Seq<Command>, delta: u64) -> PlayerView {
        drained(self.player, commands).player.updated(delta)
    }

    /// Whether a shot hits an invader in this tick.
    pub open spec fn hits(self, commands: Seq<Command>, delta: u64) -> bool {
        any_hit(self.player_moved(commands, delta).shots, self.invaders.updated(delta).army)
    }

    /// The game after one tick.
    ///
    /// A game that is won or lost stays as it is. In a running game the
    /// commands are applied, then player and swarm move with the time that
    /// has passed, then the shots meet the swarm. Last the outcome is
    /// decided: the game is lost where the player asked to quit, else won
    /// where no invader is left, else lost where an invader has reached the
    /// bottom row.
    pub open spec fn ticked(self, commands: Seq<Command>, delta: u64) -> GameView {
        if self.status != Status::Running {
            self
        } else {
            let moved = self.player_moved(commands, delta);
            let swarm = self.invaders.updated(delta);
            let left = resolve_hits(moved.shots, swarm.army);
            let player = PlayerView { shots: left.0, ..moved };
            let invaders = InvadersView { army: left.1, ..swarm };
            GameView {
                player,
                invaders,
                status: if drained(self.player, commands).quit {
                    Status::Lost
                } else if invaders.all_killed() {
                    Status::Won
                } else if invaders.reached_bottom() {
                    Status::Lost
                } else {
                    Status::Running
                },
            }
        }
    }

    /// The sounds of one tick, in order: a `Pew` for every shot fired, `Move`
    /// where the swarm moved, `Explode` where a shot hit, and `Win` or `Lose`
    /// where the tick ended the game.
    pub open spec fn tick_sounds(self, commands: Seq<Command>, delta: u64) -> Seq<Sound> {
        if self.status != Status::Running {
            Seq::empty()
        } else {
            drained(self.player, commands).sounds + (if self.invaders.moves(delta) {
                seq![Sound::Move]
            } else {
                Seq::empty()
            }) + (if self.hits(commands, delta) {
                seq![Sound::Explode]
            } else {
                Seq::empty()
            }) + (match self.ticked(commands, delta).status {
                Status::Running => Seq::empty(),
                Status::Won => seq![Sound::Win],
                Status::Lost => seq![Sound::Lose],
            })
        }
    }

    /// The frame that shows the game: the player drawn into an empty frame,
    /// and the swarm drawn over it.
    pub open spec fn scene(self) -> Seq<Seq<char>> {
        overlay(
            overlay(blank(), |x: int, y: int| self.player.glyph_at(x, y)),
            |x: int, y: int| self.invaders.glyph_at(x, y),
        )
    }
}

impl View for Game {
    type V = GameView;

    closed spec fn view(&self) -> GameView {
        GameView { player: self.player@, invaders: self.invaders@, status: self.status }
    }
}

impl Game {
    /// A game at its start.
    pub fn new() -> (game: Game)
        ensures
            game@ == GameView::initial(),
            game@.wf(),
    {
        Game { player: Player::new(), invaders: Invaders::new(), status: Status::Running }
    }

    /// A running game with a player at the start and the given swarm.
    pub fn with_invaders(invaders: Invaders) -> (game: Game)
        requires
            invaders@.wf(),
        ensures
            game@ == (GameView {
                player: PlayerView::initial(),
                invaders: invaders@,
                status: Status::Running,
            }),
            game@.wf(),
    {
        Game { player: Player::new(), invaders, status: Status::Running }
    }

    /// Applies the commands of one tick to the player, up to the first
    /// `Quit`. Returns whether the player asked to quit, and adds a `Pew` to
    /// `sounds` for every shot fired.
    fn drain(&mut self, commands: &Vec<Command>, sounds: &mut Vec<Sound>) -> (quit: bool)
        requires
            old(self)@.wf(),
        ensures
            final(self)@ == (GameView {
                player: drained(old(self)@.player, commands@).player,
                ..old(self)@
            }),
            final(sounds)@ == old(sounds)@ + drained(old(self)@.player, commands@).sounds,
            quit == drained(old(self)@.player, commands@).quit,
            final(self)@.wf(),
    {
        let mut quit = false;
        let mut i: usize = 0;
        assert(commands@.take(0).len() == 0);
        assert(sounds@ == old(sounds)@ + drained(old(self)@.player, commands@.take(0)).sounds);
        while i < commands.len() && !quit
            invariant
                i <= commands.len(),
                self@.wf(),
                self@.invaders == old(self)@.invaders,
                self@.status == old(self)@.status,
                self@.player == drained(old(self)@.player, commands@.take(i as int)).player,
                sounds@ == old(sounds)@ + drained(
                    old(self)@.player,
                    commands@.take(i as int),
                ).sounds,
                quit == drained(old(self)@.player, commands@.take(i as int)).quit,
            decreases commands.len() - i,
        {
            assert(commands@.take(i + 1).drop_last() == commands@.take(i as int));
            match commands[i] {
                Command::MoveLeft => self.player.move_left(),
                Command::MoveRight => self.player.move_right(),
                Command::Shoot => {
                    if self.player.shoot() {
                        sounds.push(Sound::Pew);
                    }
                },
                Command::Quit => {
                    quit = true;
                },
            }
            i += 1;
        }
        proof {
            lemma_quit_ends_input(old(self)@.player, commands@, i as int);
        }
        quit
    }

    /// One tick of the game: applies the commands that came in, lets `delta`
    /// microseconds pass for the player and the swarm, matches the shots
    /// against the swarm and decides whether the game is won or lost.
    /// Returns the frame that shows the game after the tick and the sounds
    /// the tick set off. A game that is won or lost does not change any
    /// more.
    pub fn tick(&mut self, commands: &Vec<Command>, delta: u64) -> (tick: Tick)
        requires
            old(self)@.wf(),
        ensures
            final(self)@ == old(self)@.ticked(commands@, delta),
            tick.sounds@ == old(self)@.tick_sounds(commands@, delta),
            tick.frame@ == final(self)@.scene(),
            final(self)@.wf(),
    {
        let mut sounds: Vec<Sound> = Vec::new();
        match self.status {
            Status::Running => {
                let quit = self.drain(commands, &mut sounds);
                self.player.update(delta);
                if self.invaders.update(delta) {
                    sounds.push(Sound::Move);
                }
                if self.player.detect_hits(&mut self.invaders) {
                    sounds.push(Sound::Explode);
                }
                if quit {
                    self.status = Status::Lost;
                    sounds.push(Sound::Lose);
                } else if self.invaders.all_killed() {
                    self.status = Status::Won;
                    sounds.push(Sound::Win);
                } else if self.invaders.reached_bottom() {
                    self.status = Status::Lost;
                    sounds.push(Sound::Lose);
                }
                assert(sounds@ =~= old(self)@.tick_sounds(commands@, delta));
            },
            _ => {},
        }
        let mut frame = new_frame();
        self.player.draw(&mut frame);
        self.invaders.draw(&mut frame);
        assert(frame@ =~~= self@.scene());
        Tick { frame, sounds }
    }

    /// Where the game stands.
    pub fn status(&self) -> (status: Status)
        ensures
            status == self@.status,
    {
        self.status
    }

    /// The player.
    pub fn player(&self) -> (player: &Player)
        ensures
            player@ == self@.player,
    {
        &self.player
    }

    /// The swarm.
    pub fn invaders(&self) -> (invaders: &Invaders)
        ensures
            invaders@ == self@.invaders,
    {
        &self.invaders
    }
}

/// Once the player has asked to quit, further commands change nothing.
proof fn lemma_quit_ends_input(player: PlayerView, commands: Seq<Command>, upto: int)
    requires
        0 <= upto <= commands.len(),
        upto == commands.len() || drained(player, commands.take(upto)).quit,
    ensures
        drained(player, commands) == drained(player, commands.take(upto)),
    decreases commands.len() - upto,
{
    if upto == commands.len() {
        assert(commands.take(upto) == commands);
    } else {
        assert(commands.take(upto + 1).drop_last() == commands.take(upto));
        lemma_quit_ends_input(player, commands, upto + 1);
    }
}

} // verus!
