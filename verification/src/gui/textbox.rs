//! The textbox model: the lines of text a box shows.
//!
//! Geometry, padding, fonts and drawing belong to the embedding
//! application; the story engine only ever sets the text.

use vstd::prelude::*;
use crate::script::parser::values::find_char;

verus! {

/// The text split at every newline: one entry per line, with an empty text
/// giving one empty line.
pub open spec fn spec_lines(t: Seq<char>) -> Seq<Seq<char>>
    decreases t.len() via spec_lines_dec
{
    let e = find_char(t, 0, t.len() as int, '\n');
    if e >= 0 {
        seq![t.subrange(0, e)] + spec_lines(t.subrange(e + 1, t.len() as int))
    } else {
        seq![t]
    }
}

#[via_fn]
proof fn spec_lines_dec(t: Seq<char>) {
    crate::script::parser::values::lemma_find_char(t, 0, t.len() as int, '\n');
}

/// A box of text on the screen.
#[derive(Debug)]
pub struct TextBox {
    /// The text that is to be displayed, one entry per line.
    pub text_v: Vec<String>,
    /// Whether the text has changed since it was last drawn.
    pub text_changed: bool,
}

/// The mathematical value of a [`TextBox`].
pub ghost struct TextBoxView {
    /// See [`TextBox::text_v`].
    pub text_v: Seq<Seq<char>>,
    /// See [`TextBox::text_changed`].
    pub text_changed: bool,
}

impl View for TextBox {
    type V = TextBoxView;

    open spec fn view(&self) -> TextBoxView {
        TextBoxView { text_v: self.text_v.deep_view(), text_changed: self.text_changed }
    }
}

impl DeepView for TextBox {
    type V = TextBoxView;

    open spec fn deep_view(&self) -> TextBoxView {
        self@
    }
}

impl TextBox {
    /// Create a textbox with no text.
    pub fn new() -> (r: TextBox)
        ensures
            r@.text_v == Seq::<Seq<char>>::empty(),
            r@.text_changed == false,
    {
        let r = TextBox { text_v: Vec::new(), text_changed: false };
        proof {
            assert(r@.text_v =~= Seq::<Seq<char>>::empty());
        }
        r
    }

    /// Set the text the box shows, split into lines at newlines, and mark
    /// the text as changed.
    pub fn set_text(&mut self, text: String)
        ensures
            final(self)@.text_v == spec_lines(text@),
            final(self)@.text_changed == true,
    {
        let s = text.as_str();
        let n = s.unicode_len();
        let mut lines: Vec<String> = Vec::new();
        let mut start: usize = 0;
        proof {
            assert(lines.deep_view() + spec_lines(s@.subrange(0, n as int)) =~= spec_lines(
                s@.subrange(0, n as int),
            ));
            assert(s@.subrange(0, n as int) =~= s@);
        }
        loop
            invariant_except_break
                spec_lines(s@) == lines.deep_view() + spec_lines(
                    s@.subrange(start as int, n as int),
                ),
            invariant
                start <= n,
                n == s@.len(),
            ensures
                spec_lines(s@) == lines.deep_view(),
            decreases n - start,
        {
            let ghost rest = s@.subrange(start as int, n as int);
            match crate::script::parser::values::find_from(s, start, n, '\n') {
                Some(e) => {
                    let ghost prev = lines.deep_view();
                    let line = s.substring_char(start, e).to_owned();
                    proof {
                        assert(find_char(rest, 0, rest.len() as int, '\n') == e - start) by {
                            crate::script::parser::values::lemma_find_char(
                                s@,
                                start as int,
                                n as int,
                                '\n',
                            );
                            crate::script::parser::values::lemma_find_char(
                                rest,
                                0,
                                rest.len() as int,
                                '\n',
                            );
                            let d = find_char(rest, 0, rest.len() as int, '\n');
                            assert(rest[e - start] == '\n');
                            if 0 <= d < e - start {
                                assert(s@[start + d] != '\n');
                            }
                            if d > e - start || d == -1 {
                                assert(rest[e - start] != '\n');
                            }
                        }
                        assert(rest.subrange(0, e - start) =~= s@.subrange(start as int, e as int));
                        assert(rest.subrange(e - start + 1, rest.len() as int) =~= s@.subrange(
                            e as int + 1,
                            n as int,
                        ));
                    }
                    lines.push(line);
                    proof {
                        assert(lines.deep_view() =~= prev.push(line@));
                        assert(prev.push(line@) + spec_lines(s@.subrange(e as int + 1, n as int))
                            =~= prev + (seq![line@] + spec_lines(
                            s@.subrange(e as int + 1, n as int),
                        )));
                    }
                    start = e + 1;
                },
                None => {
                    let ghost prev = lines.deep_view();
                    let line = s.substring_char(start, n).to_owned();
                    proof {
                        assert(find_char(rest, 0, rest.len() as int, '\n') == -1) by {
                            crate::script::parser::values::lemma_find_char(
                                rest,
                                0,
                                rest.len() as int,
                                '\n',
                            );
                            let d = find_char(rest, 0, rest.len() as int, '\n');
                            if d >= 0 {
                                assert(s@[start + d] == '\n');
                                crate::script::parser::values::lemma_find_char(
                                    s@,
                                    start as int,
                                    n as int,
                                    '\n',
                                );
                            }
                        }
                        assert(spec_lines(rest) == seq![rest]);
                        assert(rest =~= line@);
                    }
                    lines.push(line);
                    proof {
                        assert(lines.deep_view() =~= prev.push(line@));
                        assert(prev.push(line@) =~= prev + seq![line@]);
                    }
                    break ;
                },
            }
        }
        self.text_v = lines;
        self.text_changed = true;
    }
}

} // verus!
