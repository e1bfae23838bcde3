//! The `SHOW` and `HIDE` productions.

use vstd::prelude::*;
use super::values::{
    spec_kw_quote, spec_opt_kw_quote, kw_quote, opt_kw_quote, lemma_spec_kw_quote_bounds,
    lemma_spec_opt_kw_quote_bounds,
};
use super::super::{ScriptStep, StepView};

verus! {

/// `SHOW 'entity' ['~' 'state'] ['with' 'transition']`.
pub open spec fn spec_show(s: Seq<char>, i: int) -> Option<(int, StepView)> {
    match spec_kw_quote(s, i, "SHOW"@) {
        Some((j, entity)) => {
            let (j2, state) = spec_opt_kw_quote(s, j, "~"@);
            let (j3, trans) = spec_opt_kw_quote(s, j2, "with"@);
            Some((j3, StepView::Show(entity, state, trans)))
        },
        None => None,
    }
}

/// Bounds of a successful [`spec_show`].
pub proof fn lemma_spec_show_bounds(s: Seq<char>, i: int)
    requires
        0 <= i <= s.len(),
    ensures
        spec_show(s, i) matches Some((j, _)) ==> i < j <= s.len(),
{
    lemma_spec_kw_quote_bounds(s, i, "SHOW"@);
    match spec_kw_quote(s, i, "SHOW"@) {
        Some((j, _)) => {
            lemma_spec_opt_kw_quote_bounds(s, j, "~"@);
            let (j2, _) = spec_opt_kw_quote(s, j, "~"@);
            lemma_spec_opt_kw_quote_bounds(s, j2, "with"@);
        },
        None => {
        },
    }
}

/// Parse a `SHOW` instruction, per [`spec_show`].
pub fn show(s: &str, i: usize) -> (r: Option<(usize, ScriptStep)>)
    requires
        i <= s@.len(),
    ensures
        match r {
            Some((j, st)) => spec_show(s@, i as int) == Some((j as int, st.deep_view())) && i < j
                <= s@.len(),
            None => spec_show(s@, i as int) is None,
        },
{
    let (j, entity) = match kw_quote(s, i, "SHOW") {
        Some(v) => v,
        None => {
            return None;
        },
    };
    let (j2, state) = opt_kw_quote(s, j, "~");
    let (j3, trans) = opt_kw_quote(s, j2, "with");
    Some((j3, ScriptStep::Show(entity, state, trans)))
}

/// `HIDE 'entity' ['with' 'transition']`.
pub open spec fn spec_hide(s: Seq<char>, i: int) -> Option<(int, StepView)> {
    match spec_kw_quote(s, i, "HIDE"@) {
        Some((j, entity)) => {
            let (j2, trans) = spec_opt_kw_quote(s, j, "with"@);
            Some((j2, StepView::Hide(entity, trans)))
        },
        None => None,
    }
}

/// Bounds of a successful [`spec_hide`].
pub proof fn lemma_spec_hide_bounds(s: Seq<char>, i: int)
    requires
        0 <= i <= s.len(),
    ensures
        spec_hide(s, i) matches Some((j, _)) ==> i < j <= s.len(),
{
    lemma_spec_kw_quote_bounds(s, i, "HIDE"@);
    match spec_kw_quote(s, i, "HIDE"@) {
        Some((j, _)) => {
            lemma_spec_opt_kw_quote_bounds(s, j, "with"@);
        },
        None => {
        },
    }
}

/// Parse a `HIDE` instruction, per [`spec_hide`].
pub fn hide_p(s: &str, i: usize) -> (r: Option<(usize, ScriptStep)>)
    requires
        i <= s@.len(),
    ensures
        match r {
            Some((j, st)) => spec_hide(s@, i as int) == Some((j as int, st.deep_view())) && i < j
                <= s@.len(),
            None => spec_hide(s@, i as int) is None,
        },
{
    let (j, entity) = match kw_quote(s, i, "HIDE") {
        Some(v) => v,
        None => {
            return None;
        },
    };
    let (j2, trans) = opt_kw_quote(s, j, "with");
    Some((j2, ScriptStep::Hide(entity, trans)))
}

} // verus!
