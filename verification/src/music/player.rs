//! The music player's command queue and its control step.
//!
//! The player itself — output device, decoding, the playback thread — lives
//! in the embedding application.  Here the player is modelled by the queue
//! of messages the library sends it, and by [`player_step`], the decision
//! the playback loop takes for each message it receives.

use vstd::prelude::*;

verus! {

/// A message to the music player.
#[derive(Debug)]
pub enum PlayerMsg {
    /// Resume playing.
    Play,
    /// Stop playing and drop what is queued.
    Stop,
    /// Pause playing.
    Pause,
    /// Queue a piece of music, given as its encoded bytes.
    AddMusic(Vec<u8>),
    /// Reserved for volume control.
    SetVolume(),
    /// The player is gone; stop the playback loop.
    PlayerClosed,
    /// Whether music queued from now on repeats forever.
    Loop(bool),
}

/// The mathematical value of a [`PlayerMsg`].
pub ghost enum PlayerMsgView {
    /// See [`PlayerMsg::Play`].
    Play,
    /// See [`PlayerMsg::Stop`].
    Stop,
    /// See [`PlayerMsg::Pause`].
    Pause,
    /// See [`PlayerMsg::AddMusic`].
    AddMusic(Seq<u8>),
    /// See [`PlayerMsg::SetVolume`].
    SetVolume,
    /// See [`PlayerMsg::PlayerClosed`].
    PlayerClosed,
    /// See [`PlayerMsg::Loop`].
    Loop(bool),
}

impl DeepView for PlayerMsg {
    type V = PlayerMsgView;

    open spec fn deep_view(&self) -> PlayerMsgView {
        match self {
            PlayerMsg::Play => PlayerMsgView::Play,
            PlayerMsg::Stop => PlayerMsgView::Stop,
            PlayerMsg::Pause => PlayerMsgView::Pause,
            PlayerMsg::AddMusic(buf) => PlayerMsgView::AddMusic(buf@),
            PlayerMsg::SetVolume() => PlayerMsgView::SetVolume,
            PlayerMsg::PlayerClosed => PlayerMsgView::PlayerClosed,
            PlayerMsg::Loop(l) => PlayerMsgView::Loop(*l),
        }
    }
}

/// What the playback loop does in reaction to one message.
#[derive(Debug)]
pub enum PlayerAction {
    /// Resume the audio sink.
    Play,
    /// Stop the audio sink.
    Stop,
    /// Pause the audio sink.
    Pause,
    /// Decode these bytes and append them to the sink, repeating forever
    /// when the flag is set; close the loop if decoding fails.
    Append(Vec<u8>, bool),
    /// Do nothing.
    Nothing,
    /// End the playback loop.
    Close,
}

/// The mathematical value of a [`PlayerAction`].
pub ghost enum PlayerActionView {
    /// See [`PlayerAction::Play`].
    Play,
    /// See [`PlayerAction::Stop`].
    Stop,
    /// See [`PlayerAction::Pause`].
    Pause,
    /// See [`PlayerAction::Append`].
    Append(Seq<u8>, bool),
    /// See [`PlayerAction::Nothing`].
    Nothing,
    /// See [`PlayerAction::Close`].
    Close,
}

impl DeepView for PlayerAction {
    type V = PlayerActionView;

    open spec fn deep_view(&self) -> PlayerActionView {
        match self {
            PlayerAction::Play => PlayerActionView::Play,
            PlayerAction::Stop => PlayerActionView::Stop,
            PlayerAction::Pause => PlayerActionView::Pause,
            PlayerAction::Append(buf, rep) => PlayerActionView::Append(buf@, *rep),
            PlayerAction::Nothing => PlayerActionView::Nothing,
            PlayerAction::Close => PlayerActionView::Close,
        }
    }
}

/// The playback loop's decision for one message, given whether queued
/// music currently repeats: the new repeat flag and the action to take.
pub open spec fn spec_player_step(loop_: bool, msg: PlayerMsgView) -> (bool, PlayerActionView) {
    match msg {
        PlayerMsgView::Play => (loop_, PlayerActionView::Play),
        PlayerMsgView::Stop => (loop_, PlayerActionView::Stop),
        PlayerMsgView::Pause => (loop_, PlayerActionView::Pause),
        PlayerMsgView::AddMusic(buf) => (loop_, PlayerActionView::Append(buf, loop_)),
        PlayerMsgView::SetVolume => (loop_, PlayerActionView::Nothing),
        PlayerMsgView::PlayerClosed => (loop_, PlayerActionView::Close),
        PlayerMsgView::Loop(l) => (l, PlayerActionView::Nothing),
    }
}

/// Decide what the playback loop does with one message, per
/// [`spec_player_step`].
pub fn player_step(loop_: bool, msg: PlayerMsg) -> (r: (bool, PlayerAction))
    ensures
        spec_player_step(loop_, msg.deep_view()) == (r.0, r.1.deep_view()),
{
    match msg {
        PlayerMsg::Play => (loop_, PlayerAction::Play),
        PlayerMsg::Stop => (loop_, PlayerAction::Stop),
        PlayerMsg::Pause => (loop_, PlayerAction::Pause),
        PlayerMsg::AddMusic(buf) => (loop_, PlayerAction::Append(buf, loop_)),
        PlayerMsg::SetVolume() => (loop_, PlayerAction::Nothing),
        PlayerMsg::PlayerClosed => (loop_, PlayerAction::Close),
        PlayerMsg::Loop(l) => (l, PlayerAction::Nothing),
    }
}

/// The music player, seen from the library: the messages queued for the
/// playback loop, oldest first.
pub struct Player {
    pending: Vec<PlayerMsg>,
}

impl View for Player {
    type V = Seq<PlayerMsgView>;

    closed spec fn view(&self) -> Seq<PlayerMsgView> {
        self.pending.deep_view()
    }
}

impl Player {
    /// Create a player with nothing queued.
    pub fn new() -> (r: Player)
        ensures
            r@ == Seq::<PlayerMsgView>::empty(),
    {
        let r = Player { pending: Vec::new() };
        proof {
            assert(r@ =~= Seq::<PlayerMsgView>::empty());
        }
        r
    }

    /// Queue a resume message.
    pub fn play(&mut self)
        ensures
            final(self)@ == old(self)@.push(PlayerMsgView::Play),
    {
        self.pending.push(PlayerMsg::Play);
        proof {
            assert(self@ =~= old(self)@.push(PlayerMsgView::Play));
        }
    }

    /// Queue a stop message.
    pub fn stop(&mut self)
        ensures
            final(self)@ == old(self)@.push(PlayerMsgView::Stop),
    {
        self.pending.push(PlayerMsg::Stop);
        proof {
            assert(self@ =~= old(self)@.push(PlayerMsgView::Stop));
        }
    }

    /// Queue a pause message.
    pub fn pause(&mut self)
        ensures
            final(self)@ == old(self)@.push(PlayerMsgView::Pause),
    {
        self.pending.push(PlayerMsg::Pause);
        proof {
            assert(self@ =~= old(self)@.push(PlayerMsgView::Pause));
        }
    }

    /// Queue a piece of music and a resume message, so the new piece plays
    /// at once.
    pub fn set(&mut self, buf: Vec<u8>)
        ensures
            final(self)@ == old(self)@.push(PlayerMsgView::AddMusic(buf@)).push(
                PlayerMsgView::Play,
            ),
    {
        let ghost bufv = buf@;
        self.pending.push(PlayerMsg::AddMusic(buf));
        proof {
            assert(self@ =~= old(self)@.push(PlayerMsgView::AddMusic(bufv)));
        }
        self.play();
    }

    /// Queue a message that sets whether music queued from now on repeats
    /// forever.
    pub fn set_loop(&mut self, loop_: bool)
        ensures
            final(self)@ == old(self)@.push(PlayerMsgView::Loop(loop_)),
    {
        self.pending.push(PlayerMsg::Loop(loop_));
        proof {
            assert(self@ =~= old(self)@.push(PlayerMsgView::Loop(loop_)));
        }
    }

    /// Hand out everything queued, in order, leaving the queue empty; the
    /// embedding application sends it to the playback loop.
    pub fn take_pending(&mut self) -> (r: Vec<PlayerMsg>)
        ensures
            r.deep_view() == old(self)@,
            final(self)@ == Seq::<PlayerMsgView>::empty(),
    {
        let mut out: Vec<PlayerMsg> = Vec::new();
        core::mem::swap(&mut out, &mut self.pending);
        proof {
            assert(self@ =~= Seq::<PlayerMsgView>::empty());
        }
        out
    }
}

} // verus!
