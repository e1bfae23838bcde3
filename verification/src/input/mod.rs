//! Maps the application's buttons onto game events.
//!
//! Buttons are named with plain strings (the same names the input
//! configuration file uses); several buttons can trigger the same event.

mod event;

pub use self::event::GameEvent;

use vstd::prelude::*;

verus! {

/// Whether one of the buttons in `v` is `b`.
pub open spec fn contains_button(v: Seq<Seq<char>>, b: Seq<char>) -> bool {
    exists|k: int| 0 <= k < v.len() && v[k] == b
}

/// The struct in charge of turning button presses into game events.
#[derive(Debug)]
pub struct GameInput {
    /// The buttons that continue the story.
    pub continue_: Vec<String>,
}

impl View for GameInput {
    type V = Seq<Seq<char>>;

    open spec fn view(&self) -> Seq<Seq<char>> {
        self.continue_.deep_view()
    }
}

impl GameInput {
    /// Create an input map with no bindings.
    pub fn new() -> (r: GameInput)
        ensures
            r@ == Seq::<Seq<char>>::empty(),
    {
        let r = GameInput { continue_: Vec::new() };
        proof {
            assert(r@ =~= Seq::<Seq<char>>::empty());
        }
        r
    }

    /// The event a button triggers: `Continue` when the button is bound,
    /// nothing otherwise.
    pub fn handle_event(&self, button: &str) -> (r: Option<GameEvent>)
        ensures
            r == if contains_button(self@, button@) {
                Some(GameEvent::Continue)
            } else {
                None::<GameEvent>
            },
    {
        let key = button.to_owned();
        let n = self.continue_.len();
        let mut i: usize = 0;
        while i < n
            invariant
                i <= n,
                n == self@.len(),
                key@ == button@,
                forall|k: int| 0 <= k < i ==> self@[k] != button@,
            decreases n - i,
        {
            if self.continue_[i] == key {
                proof {
                    assert(self@[i as int] == button@);
                }
                return Some(GameEvent::Continue);
            }
            i += 1;
        }
        None
    }

    /// Bind one more button to the continue event.
    pub fn add_continue_event(&mut self, button: String)
        ensures
            final(self)@ == old(self)@.push(button@),
    {
        self.continue_.push(button);
        proof {
            assert(self@ =~= old(self)@.push(button@));
        }
    }

    /// Bind a list of buttons to the continue event, in order.
    pub fn add_continue_events(&mut self, buttons: Vec<String>)
        ensures
            final(self)@ == old(self)@ + buttons.deep_view(),
    {
        let ghost bs = buttons.deep_view();
        let n = buttons.len();
        let mut i: usize = 0;
        proof {
            assert(old(self)@ + bs.subrange(0, 0) =~= old(self)@);
        }
        while i < n
            invariant
                i <= n,
                n == bs.len(),
                bs == buttons.deep_view(),
                self@ == old(self)@ + bs.subrange(0, i as int),
            decreases n - i,
        {
            let b = buttons[i].clone();
            proof {
                assert(b@ == bs[i as int]);
                assert((old(self)@ + bs.subrange(0, i as int)).push(b@) =~= old(self)@
                    + bs.subrange(0, i as int + 1));
            }
            self.add_continue_event(b);
            i += 1;
        }
        proof {
            assert(bs.subrange(0, n as int) =~= bs);
        }
    }

    /// Join another input map's bindings onto this one.
    pub fn add_input(&mut self, input: GameInput)
        ensures
            final(self)@ == old(self)@ + input@,
    {
        self.add_continue_events(input.continue_);
    }
}

} // verus!
