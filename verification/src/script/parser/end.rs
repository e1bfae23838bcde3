//! The `END` production.

use vstd::prelude::*;
use super::values::{spec_ws, match_at, skip_ws, tag_at, lemma_spec_ws};
use super::super::{ScriptStep, StepView};

verus! {

/// `END`, after optional whitespace.
pub open spec fn spec_end(s: Seq<char>, i: int) -> Option<(int, StepView)> {
    let j = spec_ws(s, i);
    if match_at(s, j, "END"@) {
        Some((j + "END"@.len(), StepView::End))
    } else {
        None
    }
}

/// Bounds of a successful [`spec_end`].
pub proof fn lemma_spec_end_bounds(s: Seq<char>, i: int)
    requires
        0 <= i <= s.len(),
    ensures
        spec_end(s, i) matches Some((j, _)) ==> i < j <= s.len(),
{
    lemma_spec_ws(s, i);
    reveal_strlit("END");
}

/// Parse an `END` instruction, per [`spec_end`].
pub fn end(s: &str, i: usize) -> (r: Option<(usize, ScriptStep)>)
    requires
        i <= s@.len(),
    ensures
        match r {
            Some((j, st)) => spec_end(s@, i as int) == Some((j as int, st.deep_view())) && i < j
                <= s@.len(),
            None => spec_end(s@, i as int) is None,
        },
{
    let n = s.unicode_len();
    let j = skip_ws(s, i);
    if tag_at(s, j, "END") {
        let m = "END".unicode_len();
        proof {
            reveal_strlit("END");
            assert(j + m <= n);
        }
        Some((j + m, ScriptStep::End))
    } else {
        None
    }
}

} // verus!
