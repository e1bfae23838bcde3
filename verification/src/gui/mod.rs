//! The user interface the story writes into: the main textbox and the
//! optional speaker box.

pub mod textbox;

pub use self::textbox::TextBox;

use vstd::prelude::*;
use self::textbox::TextBoxView;

verus! {

/// The textboxes of the game.
#[derive(Debug)]
pub struct Ui {
    /// The main textbox, which displays the dialogue text.
    pub textbox: TextBox,
    /// The textbox that displays the speaker's name; nothing is shown when
    /// it is absent.
    pub speaker_box: Option<TextBox>,
}

/// The mathematical value of a [`Ui`].
pub ghost struct UiView {
    /// See [`Ui::textbox`].
    pub textbox: TextBoxView,
    /// See [`Ui::speaker_box`].
    pub speaker_box: Option<TextBoxView>,
}

impl View for Ui {
    type V = UiView;

    open spec fn view(&self) -> UiView {
        UiView { textbox: self.textbox@, speaker_box: self.speaker_box.deep_view() }
    }
}

impl Ui {
    /// Create an interface with an empty main textbox and no speaker box.
    pub fn new() -> (r: Ui)
        ensures
            r@.textbox.text_v == Seq::<Seq<char>>::empty(),
            r@.textbox.text_changed == false,
            r@.speaker_box is None,
    {
        Ui { textbox: TextBox::new(), speaker_box: None }
    }
}

} // verus!
