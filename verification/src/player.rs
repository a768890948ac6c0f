//! Playback state and the decisions of the player: what a play/pause toggle
//! asks for, and what state a command leaves behind.

use vstd::prelude::*;

verus! {

/// Possible states of the playback pipeline.
#[derive(Debug, Clone, Copy, PartialEq, Eq, Structural)]
pub enum PlaybackState {
    Stopped,
    Playing,
    Paused,
}

/// Events that the playback pipeline sends to the main loop.
#[derive(Debug, Clone)]
pub enum PlayerEvent {
    StateChanged(PlaybackState),
    /// Position in nanoseconds.
    PositionUpdated(u64),
    /// Duration in nanoseconds.
    DurationChanged(u64),
    /// Buffering percentage.
    Buffering(i32),
    Error(String),
    EndOfStream,
    SubtitleTrack(u32, String),
    AudioTrack(u32, String),
}

/// What the player asks of the media pipeline.
#[derive(Debug, Clone, Copy, PartialEq, Eq, Structural)]
pub enum PlaybackCommand {
    Play,
    Pause,
    Stop,
}

/// The state a command aims at.
pub open spec fn command_target(c: PlaybackCommand) -> PlaybackState {
    match c {
        PlaybackCommand::Play => PlaybackState::Playing,
        PlaybackCommand::Pause => PlaybackState::Paused,
        PlaybackCommand::Stop => PlaybackState::Stopped,
    }
}

/// The command of a play/pause toggle: pause while playing, play otherwise.
pub open spec fn toggle_of(state: PlaybackState) -> PlaybackCommand {
    if state == PlaybackState::Playing {
        PlaybackCommand::Pause
    } else {
        PlaybackCommand::Play
    }
}

/// The state after a command: its target when the pipeline accepted the
/// state change, the previous state when it refused it.
pub open spec fn after_command(state: PlaybackState, command: PlaybackCommand, accepted: bool) -> PlaybackState {
    if accepted {
        command_target(command)
    } else {
        state
    }
}

/// The command that a play/pause toggle gives.
pub fn toggle_command(state: PlaybackState) -> (c: PlaybackCommand)
    ensures
        c == toggle_of(state),
{
    match state {
        PlaybackState::Playing => PlaybackCommand::Pause,
        _ => PlaybackCommand::Play,
    }
}

/// The state after a command.
pub fn state_after(state: PlaybackState, command: PlaybackCommand, accepted: bool) -> (s: PlaybackState)
    ensures
        s == after_command(state, command, accepted),
{
    if accepted {
        match command {
            PlaybackCommand::Play => PlaybackState::Playing,
            PlaybackCommand::Pause => PlaybackState::Paused,
            PlaybackCommand::Stop => PlaybackState::Stopped,
        }
    } else {
        state
    }
}

/// Whether the screensaver stays inhibited after a command: only while
/// playing; pausing, stopping or closing releases it.
pub open spec fn inhibits(command: PlaybackCommand) -> bool {
    command_target(command) == PlaybackState::Playing
}

/// Whether a command asks for the screensaver to be inhibited (`true`) or
/// released (`false`).
pub fn inhibits_screensaver(command: PlaybackCommand) -> (r: bool)
    ensures
        r == inhibits(command),
{
    match command {
        PlaybackCommand::Play => true,
        PlaybackCommand::Pause => false,
        PlaybackCommand::Stop => false,
    }
}

/// Icon of the play button: pause while playing, play otherwise.
pub fn play_button_icon(state: PlaybackState) -> (r: &'static str)
    ensures
        state == PlaybackState::Playing ==> r@ == "media-playback-pause-symbolic"@,
        state != PlaybackState::Playing ==> r@ == "media-playback-start-symbolic"@,
{
    match state {
        PlaybackState::Playing => "media-playback-pause-symbolic",
        _ => "media-playback-start-symbolic",
    }
}

/// An accepted toggle plays exactly when the player was not playing, and a
/// second accepted toggle brings a playing or paused player back to where
/// it was; a refused one changes nothing.
pub proof fn law_toggle_flips_playing(state: PlaybackState, accepted: bool)
    ensures
        (after_command(state, toggle_of(state), true) == PlaybackState::Playing) == (state
            != PlaybackState::Playing),
        state != PlaybackState::Stopped ==> ({
            let once = after_command(state, toggle_of(state), true);
            after_command(once, toggle_of(once), true) == state
        }),
        after_command(state, toggle_of(state), false) == state,
{
}

/// Screensaver inhibition: whether the session bus is connected, and the
/// cookie of an active inhibition.
#[derive(Debug, Clone, Copy, PartialEq, Eq, Structural)]
pub struct InhibitorState {
    pub connected: bool,
    pub cookie: Option<u32>,
}

/// What an inhibition request needs done.
#[derive(Debug, Clone, Copy, PartialEq, Eq, Structural)]
pub enum InhibitStep {
    /// Already inhibiting: nothing to do.
    Nothing,
    /// Connect to the session bus, then call `Inhibit`.
    ConnectThenInhibit,
    /// Call `Inhibit` on the open connection.
    Inhibit,
}

/// The state after an inhibition request, given whether a connection now
/// exists and the cookie that `Inhibit` returned, if it succeeded: an active
/// inhibition is kept as it is; without a connection nothing changes; with
/// one, the reply is the new cookie.
pub open spec fn inhibited(s: InhibitorState, connected: bool, reply: Option<u32>) -> InhibitorState {
    if s.cookie is Some {
        s
    } else if s.connected || connected {
        InhibitorState { connected: true, cookie: reply }
    } else {
        InhibitorState { connected: false, cookie: None }
    }
}

/// The state after a release: the cookie is dropped, even when the call
/// fails; the connection stays.
pub open spec fn released(s: InhibitorState) -> InhibitorState {
    InhibitorState { connected: s.connected, cookie: None }
}

/// The cookie that a release hands to `UnInhibit`: the active one, when
/// there is a connection to send it on.
pub open spec fn release_cookie(s: InhibitorState) -> Option<u32> {
    if s.connected {
        s.cookie
    } else {
        None
    }
}

impl InhibitorState {
    /// A fresh inhibitor: no connection, no inhibition.
    pub fn new() -> (s: InhibitorState)
        ensures
            !s.connected,
            s.cookie is None,
    {
        InhibitorState { connected: false, cookie: None }
    }

    /// The step an inhibition request needs.
    pub fn inhibit_step(&self) -> (r: InhibitStep)
        ensures
            self.cookie is Some ==> r == InhibitStep::Nothing,
            self.cookie is None && !self.connected ==> r == InhibitStep::ConnectThenInhibit,
            self.cookie is None && self.connected ==> r == InhibitStep::Inhibit,
    {
        if self.cookie.is_some() {
            InhibitStep::Nothing
        } else if !self.connected {
            InhibitStep::ConnectThenInhibit
        } else {
            InhibitStep::Inhibit
        }
    }

    /// The state after an inhibition request.
    pub fn after_inhibit(&self, connected: bool, reply: Option<u32>) -> (s: InhibitorState)
        ensures
            s == inhibited(*self, connected, reply),
    {
        if self.cookie.is_some() {
            *self
        } else if self.connected || connected {
            InhibitorState { connected: true, cookie: reply }
        } else {
            InhibitorState { connected: false, cookie: None }
        }
    }

    /// The cookie to hand to `UnInhibit`.
    pub fn uninhibit_cookie(&self) -> (r: Option<u32>)
        ensures
            r == release_cookie(*self),
    {
        if self.connected {
            self.cookie
        } else {
            None
        }
    }

    /// The state after a release.
    pub fn after_uninhibit(&self) -> (s: InhibitorState)
        ensures
            s == released(*self),
    {
        InhibitorState { connected: self.connected, cookie: None }
    }
}

/// Releasing always ends the inhibition, keeps the connection, and
/// releasing twice is releasing once.
pub proof fn law_release_ends_inhibition(s: InhibitorState)
    ensures
        released(s).cookie is None,
        released(s).connected == s.connected,
        released(released(s)) == released(s),
        release_cookie(released(s)) is None,
{
}

/// An inhibition request while one is active changes nothing.
pub proof fn law_inhibit_idempotent(s: InhibitorState, connected: bool, reply: Option<u32>)
    requires
        s.cookie is Some,
    ensures
        inhibited(s, connected, reply) == s,
{
}

/// What an accepted inhibition returns is what the next release hands back
/// to the screensaver; after that release nothing is inhibited.
pub proof fn law_release_undoes_inhibit(s: InhibitorState, connected: bool, cookie: u32)
    requires
        s.cookie is None,
        s.connected || connected,
    ensures
        release_cookie(inhibited(s, connected, Some(cookie))) == Some(cookie),
        released(inhibited(s, connected, Some(cookie))).cookie is None,
{
}

} // verus!
