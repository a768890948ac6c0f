use videoclub_core::player::{
    play_button_icon, state_after, toggle_command, InhibitStep, InhibitorState, PlaybackCommand,
    PlaybackState,
};

#[test]
fn toggle_pauses_while_playing_and_plays_otherwise() {
    assert_eq!(toggle_command(PlaybackState::Playing), PlaybackCommand::Pause);
    assert_eq!(toggle_command(PlaybackState::Paused), PlaybackCommand::Play);
    assert_eq!(toggle_command(PlaybackState::Stopped), PlaybackCommand::Play);
}

#[test]
fn refused_command_keeps_state() {
    assert_eq!(state_after(PlaybackState::Paused, PlaybackCommand::Play, false), PlaybackState::Paused);
    assert_eq!(state_after(PlaybackState::Paused, PlaybackCommand::Play, true), PlaybackState::Playing);
    assert_eq!(state_after(PlaybackState::Playing, PlaybackCommand::Stop, true), PlaybackState::Stopped);
}

#[test]
fn toggle_twice_returns_to_paused() {
    let s = PlaybackState::Paused;
    let once = state_after(s, toggle_command(s), true);
    let twice = state_after(once, toggle_command(once), true);
    assert_eq!(once, PlaybackState::Playing);
    assert_eq!(twice, PlaybackState::Paused);
}

#[test]
fn play_icon_follows_state() {
    assert_eq!(play_button_icon(PlaybackState::Playing), "media-playback-pause-symbolic");
    assert_eq!(play_button_icon(PlaybackState::Paused), "media-playback-start-symbolic");
}

#[test]
fn inhibitor_connects_lazily_and_is_idempotent() {
    let s = InhibitorState::new();
    assert_eq!(s.inhibit_step(), InhibitStep::ConnectThenInhibit);
    let s = s.after_inhibit(true, Some(42));
    assert_eq!(s.cookie, Some(42));
    assert_eq!(s.inhibit_step(), InhibitStep::Nothing);
    assert_eq!(s.after_inhibit(true, Some(7)), s);
    assert_eq!(s.uninhibit_cookie(), Some(42));
    let r = s.after_uninhibit();
    assert_eq!(r.cookie, None);
    assert!(r.connected);
    assert_eq!(r.inhibit_step(), InhibitStep::Inhibit);
}

#[test]
fn failed_connection_inhibits_nothing() {
    let s = InhibitorState::new().after_inhibit(false, Some(3));
    assert_eq!(s.cookie, None);
    assert!(!s.connected);
    assert_eq!(s.uninhibit_cookie(), None);
}
