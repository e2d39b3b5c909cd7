use rust_space_invader_game::audio::{is_sound_extension, Sound};

#[test]
fn sounds_have_their_names() {
    assert_eq!(Sound::Startup.name(), "startup");
    assert_eq!(Sound::Pew.name(), "pew");
    assert_eq!(Sound::Move.name(), "move");
    assert_eq!(Sound::Explode.name(), "explode");
    assert_eq!(Sound::Win.name(), "win");
    assert_eq!(Sound::Lose.name(), "lose");
}

#[test]
fn wav_and_mp3_are_sound_files() {
    assert!(is_sound_extension("wav"));
    assert!(is_sound_extension("mp3"));
}

#[test]
fn other_extensions_are_not_sound_files() {
    assert!(!is_sound_extension(""));
    assert!(!is_sound_extension("WAV"));
    assert!(!is_sound_extension("mp4"));
    assert!(!is_sound_extension("wave"));
    assert!(!is_sound_extension("wa"));
    assert!(!is_sound_extension("map"));
    assert!(!is_sound_extension("wp3"));
    assert!(!is_sound_extension(".wav"));
    assert!(!is_sound_extension("ogg"));
    assert!(!is_sound_extension("m\u{fc}3"));
}
