//! The sounds of the game, by the names under which an audio player knows
//! them, and the rule that tells sound files from other files.
use vstd::prelude::*;
use vstd::string::StrSliceExecFns;

verus! {

/// The sounds of the game.
#[derive(Clone, Copy, Debug, PartialEq, Eq)]
pub enum Sound {
    /// The game starts.
    Startup,
    /// The ship fires a shot.
    Pew,
    /// The swarm moves.
    Move,
    /// A shot hits an invader.
    Explode,
    /// The game is won.
    Win,
    /// The game is lost.
    Lose,
}

impl Sound {
    /// The name under which the sound is known to the audio player.
    pub open spec fn name_of(self) -> Seq<char> {
        match self {
            Sound::Startup => "startup"@,
            Sound::Pew => "pew"@,
            Sound::Move => "move"@,
            Sound::Explode => "explode"@,
            Sound::Win => "win"@,
            Sound::Lose => "lose"@,
        }
    }

    /// The name under which the sound is known to the audio player.
    pub fn name(self) -> (name: &'static str)
        ensures
            name@ == self.name_of(),
    {
        match self {
            Sound::Startup => "startup",
            Sound::Pew => "pew",
            Sound::Move => "move",
            Sound::Explode => "explode",
            Sound::Win => "win",
            Sound::Lose => "lose",
        }
    }
}

/// Whether `extension` is that of a sound file: `wav` or `mp3`, in lower
/// case.
pub open spec fn sound_extension(extension: Seq<char>) -> bool {
    extension == seq!['w', 'a', 'v'] || extension == seq!['m', 'p', '3']
}

/// Whether a file with this extension is loaded as a sound. The extension
/// comes without its dot.
pub fn is_sound_extension(extension: &str) -> (is_sound: bool)
    ensures
        is_sound == sound_extension(extension@),
{
    if extension.unicode_len() != 3 {
        return false;
    }
    let first = extension.get_char(0);
    let second = extension.get_char(1);
    let third = extension.get_char(2);
    let is_sound = (first == 'w' && second == 'a' && third == 'v') || (first == 'm' && second
        == 'p' && third == '3');
    proof {
        if is_sound {
            assert(extension@ =~= seq![first, second, third]);
        }
    }
    is_sound
}

} // verus!
