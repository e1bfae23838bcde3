//! The `STAGE` production.

use vstd::prelude::*;
use super::values::{spec_kw_quote, kw_quote, lemma_spec_kw_quote_bounds};
use super::super::{ScriptStep, StepView};

verus! {

/// `STAGE 'backgroundKey'`.
pub open spec fn spec_stage(s: Seq<char>, i: int) -> Option<(int, StepView)> {
    match spec_kw_quote(s, i, "STAGE"@) {
        Some((j, bg)) => Some((j, StepView::Stage(bg))),
        None => None,
    }
}

/// Bounds of a successful [`spec_stage`].
pub proof fn lemma_spec_stage_bounds(s: Seq<char>, i: int)
    requires
        0 <= i <= s.len(),
    ensures
        spec_stage(s, i) matches Some((j, _)) ==> i < j <= s.len(),
{
    lemma_spec_kw_quote_bounds(s, i, "STAGE"@);
}

/// Parse a `STAGE` instruction, per [`spec_stage`].
pub fn stage(s: &str, i: usize) -> (r: Option<(usize, ScriptStep)>)
    requires
        i <= s@.len(),
    ensures
        match r {
            Some((j, st)) => spec_stage(s@, i as int) == Some((j as int, st.deep_view())) && i < j
                <= s@.len(),
            None => spec_stage(s@, i as int) is None,
        },
{
    match kw_quote(s, i, "STAGE") {
        Some((j, bg)) => Some((j, ScriptStep::Stage(bg))),
        None => None,
    }
}

} // verus!
