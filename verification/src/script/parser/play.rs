//! The `PLAY` production.

use vstd::prelude::*;
use super::values::{spec_kw_quote, kw_quote, lemma_spec_kw_quote_bounds};
use super::super::{ScriptStep, StepView};

verus! {

/// `PLAY 'musicKey'`.
pub open spec fn spec_play(s: Seq<char>, i: int) -> Option<(int, StepView)> {
    match spec_kw_quote(s, i, "PLAY"@) {
        Some((j, music)) => Some((j, StepView::Play(music))),
        None => None,
    }
}

/// Bounds of a successful [`spec_play`].
pub proof fn lemma_spec_play_bounds(s: Seq<char>, i: int)
    requires
        0 <= i <= s.len(),
    ensures
        spec_play(s, i) matches Some((j, _)) ==> i < j <= s.len(),
{
    lemma_spec_kw_quote_bounds(s, i, "PLAY"@);
}

/// Parse a `PLAY` instruction, per [`spec_play`].
pub fn play(s: &str, i: usize) -> (r: Option<(usize, ScriptStep)>)
    requires
        i <= s@.len(),
    ensures
        match r {
            Some((j, st)) => spec_play(s@, i as int) == Some((j as int, st.deep_view())) && i < j
                <= s@.len(),
            None => spec_play(s@, i as int) is None,
        },
{
    match kw_quote(s, i, "PLAY") {
        Some((j, music)) => Some((j, ScriptStep::Play(music))),
        None => None,
    }
}

} // verus!
