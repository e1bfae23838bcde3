//! The transitions that can run on staged characters.
//!
//! The transition set is closed: each kind carries its duration, and the
//! embedding application's per-frame update performs the actual fading.

use vstd::prelude::*;
use crate::strmap::{StrMap, insert_entry};
use crate::Num;

verus! {

/// The result of updating a transition by one frame.
#[derive(Debug, Clone, Copy, PartialEq, Eq, Structural)]
pub enum TransResult {
    /// The transition goes on; call again on the next update.
    Continue,
    /// The transition has finished: remove it from whatever holds it.
    Finished,
}

/// A transition on a character's appearance, with its duration in seconds.
#[derive(Debug, Clone, Copy, PartialEq, Eq, Structural)]
pub enum TransitionKind {
    /// Fade from fully transparent to fully opaque.
    FadeIn(Num),
    /// Fade from fully opaque to fully transparent.
    FadeOut(Num),
}

impl DeepView for TransitionKind {
    type V = TransitionKind;

    open spec fn deep_view(&self) -> TransitionKind {
        *self
    }
}

/// The registry of the named transitions of the game.
pub struct Animation {
    /// The transition each name stands for.
    pub char_trans: StrMap<TransitionKind>,
}

impl View for Animation {
    type V = Seq<(Seq<char>, TransitionKind)>;

    open spec fn view(&self) -> Seq<(Seq<char>, TransitionKind)> {
        self.char_trans@
    }
}

impl Animation {
    /// The registry's names are distinct.
    pub open spec fn wf(&self) -> bool {
        self.char_trans.wf()
    }

    /// Create an empty registry.
    pub fn new() -> (r: Animation)
        ensures
            r@ == Seq::<(Seq<char>, TransitionKind)>::empty(),
            r.wf(),
    {
        Animation { char_trans: StrMap::new() }
    }

    /// Register a transition under a name, replacing any transition of
    /// that name.
    pub fn insert_char_trans(&mut self, name: String, trans: TransitionKind)
        requires
            old(self).wf(),
        ensures
            final(self)@ == insert_entry(old(self)@, name@, trans),
            final(self).wf(),
    {
        self.char_trans.insert(name, trans);
    }

    /// Take the registrations of another registry, in its order, replacing
    /// same-named ones here.
    pub fn extend(&mut self, other: Animation)
        requires
            old(self).wf(),
            other.wf(),
        ensures
            final(self)@ == spec_extend(old(self)@, other@),
            final(self).wf(),
    {
        let ghost other0 = other@;
        let mut other = other;
        loop
            invariant
                self.wf(),
                other.char_trans.wf(),
                spec_extend(self@, other.char_trans@) == spec_extend(old(self)@, other0),
            ensures
                self.wf(),
                self@ == spec_extend(old(self)@, other0),
            decreases other.char_trans@.len(),
        {
            match other.char_trans.pop_first() {
                Some((name, trans)) => {
                    self.char_trans.insert(name, trans);
                },
                None => {
                    proof {
                        assert(other.char_trans@ =~= Seq::<(Seq<char>, TransitionKind)>::empty());
                    }
                    break ;
                },
            }
        }
    }
}

/// The registry after inserting every entry of `m` into `t`, in order.
pub open spec fn spec_extend(
    t: Seq<(Seq<char>, TransitionKind)>,
    m: Seq<(Seq<char>, TransitionKind)>,
) -> Seq<(Seq<char>, TransitionKind)>
    decreases m.len(),
{
    if m.len() == 0 {
        t
    } else {
        spec_extend(insert_entry(t, m[0].0, m[0].1), m.drop_first())
    }
}

} // verus!
