//! The music of the game: a library of named pieces and the commands sent
//! to the audio sink.
//!
//! Decoding and the audio device live in the embedding application, which
//! drains the pending commands and performs them; a decode failure is its
//! to report.

pub mod player;

pub use self::player::{Player, PlayerMsg, PlayerAction, player_step};

use vstd::prelude::*;
use crate::strmap::{StrMap, has_key, value_of, insert_entry};
use crate::error::MusicError;

verus! {

/// A command for the audio sink.
#[derive(Debug)]
pub enum SinkCmd {
    /// Decode these bytes and append them to the sink, repeating forever
    /// when the flag is set.
    Append(Vec<u8>, bool),
    /// Resume the sink.
    Play,
}

/// The mathematical value of a [`SinkCmd`].
pub ghost enum SinkCmdView {
    /// See [`SinkCmd::Append`].
    Append(Seq<u8>, bool),
    /// See [`SinkCmd::Play`].
    Play,
}

impl DeepView for SinkCmd {
    type V = SinkCmdView;

    open spec fn deep_view(&self) -> SinkCmdView {
        match self {
            SinkCmd::Append(buf, rep) => SinkCmdView::Append(buf@, *rep),
            SinkCmd::Play => SinkCmdView::Play,
        }
    }
}

/// The struct in charge of the music of the game.
pub struct Music {
    /// The encoded bytes of each named piece.
    pub library: StrMap<Vec<u8>>,
    /// Whether music set from now on loops forever.
    pub loop_: bool,
    /// The commands not yet performed by the audio sink, oldest first.
    pub pending: Vec<SinkCmd>,
}

/// The mathematical value of a [`Music`].
pub ghost struct MusicView {
    /// See [`Music::library`].
    pub library: Seq<(Seq<char>, Seq<u8>)>,
    /// See [`Music::loop_`].
    pub loop_: bool,
    /// See [`Music::pending`].
    pub pending: Seq<SinkCmdView>,
}

impl View for Music {
    type V = MusicView;

    open spec fn view(&self) -> MusicView {
        MusicView {
            library: self.library@,
            loop_: self.loop_,
            pending: self.pending.deep_view(),
        }
    }
}

/// The music state after `set_music(name)`: a known piece is queued for
/// appending (with the current repeat flag) and the sink resumed; an
/// unknown name changes nothing.
pub open spec fn spec_set_music(m: MusicView, name: Seq<char>) -> MusicView {
    if has_key(m.library, name) {
        MusicView {
            pending: m.pending.push(SinkCmdView::Append(value_of(m.library, name), m.loop_)).push(
                SinkCmdView::Play,
            ),
            ..m
        }
    } else {
        m
    }
}

impl Music {
    /// The library's names are distinct.
    pub open spec fn wf(&self) -> bool {
        self.library.wf()
    }

    /// Create a music store: empty library, looping on, nothing pending.
    pub fn new() -> (r: Music)
        ensures
            r@.library == Seq::<(Seq<char>, Seq<u8>)>::empty(),
            r@.loop_ == true,
            r@.pending == Seq::<SinkCmdView>::empty(),
            r.wf(),
    {
        let r = Music { library: StrMap::new(), loop_: true, pending: Vec::new() };
        proof {
            assert(r@.pending =~= Seq::<SinkCmdView>::empty());
        }
        r
    }

    /// Queue the named piece for playing, per [`spec_set_music`]; an
    /// unknown name is silently ignored.
    pub fn set_music(&mut self, music: &str) -> (r: Result<(), MusicError>)
        requires
            old(self).wf(),
        ensures
            final(self)@ == spec_set_music(old(self)@, music@),
            final(self).wf(),
            r is Ok,
    {
        match self.library.get(music) {
            Some(buf) => {
                proof {
                    assert(buf.deep_view() =~= buf@);
                }
                let bytes = clone_bytes(buf);
                let rep = self.loop_;
                let ghost prev = self.pending.deep_view();
                self.pending.push(SinkCmd::Append(bytes, rep));
                proof {
                    assert(self.pending.deep_view() =~= prev.push(
                        SinkCmdView::Append(value_of(old(self)@.library, music@), rep),
                    ));
                }
                let ghost prev2 = self.pending.deep_view();
                self.pending.push(SinkCmd::Play);
                proof {
                    assert(self.pending.deep_view() =~= prev2.push(SinkCmdView::Play));
                }
                Ok(())
            },
            None => Ok(()),
        }
    }

    /// Add the encoded bytes of a piece under a name, replacing any piece
    /// of that name.
    pub fn add_music(&mut self, name: String, music: Vec<u8>)
        requires
            old(self).wf(),
        ensures
            final(self)@ == (MusicView {
                library: insert_entry(old(self)@.library, name@, music@),
                ..old(self)@
            }),
            final(self).wf(),
    {
        proof {
            assert(music.deep_view() =~= music@);
        }
        self.library.insert(name, music);
    }

    /// Set whether music set from now on loops forever.
    pub fn set_loop(&mut self, loop_: bool)
        ensures
            final(self)@ == (MusicView { loop_, ..old(self)@ }),
    {
        self.loop_ = loop_;
    }

    /// Hand out the pending sink commands, in order, leaving none; the
    /// embedding application performs them.
    pub fn take_pending(&mut self) -> (r: Vec<SinkCmd>)
        ensures
            r.deep_view() == old(self)@.pending,
            final(self)@ == (MusicView { pending: Seq::empty(), ..old(self)@ }),
    {
        let mut out: Vec<SinkCmd> = Vec::new();
        core::mem::swap(&mut out, &mut self.pending);
        proof {
            assert(self.pending.deep_view() =~= Seq::<SinkCmdView>::empty());
        }
        out
    }
}

/// Copy a byte buffer, keeping its value.
pub fn clone_bytes(v: &Vec<u8>) -> (r: Vec<u8>)
    ensures
        r@ == v@,
{
    let r = v.clone();
    proof {
        assert(r@ =~= v@);
    }
    r
}

} // verus!
