//! The `KILL` production.

use vstd::prelude::*;
use super::values::{
    spec_kw_quote, spec_opt_kw_quote, kw_quote, opt_kw_quote, lemma_spec_kw_quote_bounds,
    lemma_spec_opt_kw_quote_bounds,
};
use super::super::{ScriptStep, StepView};

verus! {

/// `KILL 'entity' ['with' 'transition']`.
pub open spec fn spec_kill(s: Seq<char>, i: int) -> Option<(int, StepView)> {
    match spec_kw_quote(s, i, "KILL"@) {
        Some((j, entity)) => {
            let (j2, trans) = spec_opt_kw_quote(s, j, "with"@);
            Some((j2, StepView::Kill(entity, trans)))
        },
        None => None,
    }
}

/// Bounds of a successful [`spec_kill`].
pub proof fn lemma_spec_kill_bounds(s: Seq<char>, i: int)
    requires
        0 <= i <= s.len(),
    ensures
        spec_kill(s, i) matches Some((j, _)) ==> i < j <= s.len(),
{
    lemma_spec_kw_quote_bounds(s, i, "KILL"@);
    match spec_kw_quote(s, i, "KILL"@) {
        Some((j, _)) => {
            lemma_spec_opt_kw_quote_bounds(s, j, "with"@);
        },
        None => {
        },
    }
}

/// Parse a `KILL` instruction, per [`spec_kill`].
pub fn kill(s: &str, i: usize) -> (r: Option<(usize, ScriptStep)>)
    requires
        i <= s@.len(),
    ensures
        match r {
            Some((j, st)) => spec_kill(s@, i as int) == Some((j as int, st.deep_view())) && i < j
                <= s@.len(),
            None => spec_kill(s@, i as int) is None,
        },
{
    let (j, entity) = match kw_quote(s, i, "KILL") {
        Some(v) => v,
        None => {
            return None;
        },
    };
    let (j2, trans) = opt_kw_quote(s, j, "with");
    Some((j2, ScriptStep::Kill(entity, trans)))
}

} // verus!
