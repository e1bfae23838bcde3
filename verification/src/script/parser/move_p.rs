//! The `MOVE` production.

use vstd::prelude::*;
use super::values::{
    spec_kw_quote, spec_pos, kw_quote, pos, lemma_spec_kw_quote_bounds, lemma_spec_pos_bounds,
};
use super::super::{ScriptStep, StepView};

verus! {

/// `MOVE 'entity' (x, y)`.
pub open spec fn spec_move(s: Seq<char>, i: int) -> Option<(int, StepView)> {
    match spec_kw_quote(s, i, "MOVE"@) {
        Some((j, entity)) => match spec_pos(s, j) {
            Some((k, p)) => Some((k, StepView::Move(entity, p))),
            None => None,
        },
        None => None,
    }
}

/// Bounds of a successful [`spec_move`].
pub proof fn lemma_spec_move_bounds(s: Seq<char>, i: int)
    requires
        0 <= i <= s.len(),
    ensures
        spec_move(s, i) matches Some((j, _)) ==> i < j <= s.len(),
{
    lemma_spec_kw_quote_bounds(s, i, "MOVE"@);
    match spec_kw_quote(s, i, "MOVE"@) {
        Some((j, _)) => {
            lemma_spec_pos_bounds(s, j);
        },
        None => {
        },
    }
}

/// Parse a `MOVE` instruction, per [`spec_move`].
pub fn move_p(s: &str, i: usize) -> (r: Option<(usize, ScriptStep)>)
    requires
        i <= s@.len(),
    ensures
        match r {
            Some((j, st)) => spec_move(s@, i as int) == Some((j as int, st.deep_view())) && i < j
                <= s@.len(),
            None => spec_move(s@, i as int) is None,
        },
{
    let (j, entity) = match kw_quote(s, i, "MOVE") {
        Some(v) => v,
        None => {
            return None;
        },
    };
    match pos(s, j) {
        Some((k, p)) => Some((k, ScriptStep::Move(entity, p))),
        None => None,
    }
}

} // verus!
