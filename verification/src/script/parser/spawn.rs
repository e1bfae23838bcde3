//! The `SPAWN` production.

use vstd::prelude::*;
use super::values::{
    spec_kw_quote, spec_kw_pos, kw_quote, kw_pos, lemma_spec_kw_quote_bounds,
    lemma_spec_kw_pos_bounds,
};
use super::super::{ScriptStep, StepView};
use crate::Position;

verus! {

/// The arguments after `SPAWN 'character'`: any number of `at (x, y)`,
/// `as 'name'` and `with 'transition'` clauses, in any order, each tried in
/// that priority; a later clause of the same kind overrides an earlier one.
pub open spec fn spec_spawn_args(
    s: Seq<char>,
    i: int,
    name: Option<Seq<char>>,
    p: Option<Position>,
    trans: Option<Seq<char>>,
) -> (int, Option<Seq<char>>, Option<Position>, Option<Seq<char>>)
    decreases s.len() - i
        when 0 <= i <= s.len()
        via spec_spawn_args_dec
{
    match spec_kw_pos(s, i, "at"@) {
        Some((k, pv)) => spec_spawn_args(s, k, name, Some(pv), trans),
        None => match spec_kw_quote(s, i, "as"@) {
            Some((k, nv)) => spec_spawn_args(s, k, Some(nv), p, trans),
            None => match spec_kw_quote(s, i, "with"@) {
                Some((k, tv)) => spec_spawn_args(s, k, name, p, Some(tv)),
                None => (i, name, p, trans),
            },
        },
    }
}

#[via_fn]
proof fn spec_spawn_args_dec(
    s: Seq<char>,
    i: int,
    name: Option<Seq<char>>,
    p: Option<Position>,
    trans: Option<Seq<char>>,
) {
    lemma_spec_kw_pos_bounds(s, i, "at"@);
    lemma_spec_kw_quote_bounds(s, i, "as"@);
    lemma_spec_kw_quote_bounds(s, i, "with"@);
}

/// The argument fold never moves backwards or out of the text.
pub proof fn lemma_spec_spawn_args_bounds(
    s: Seq<char>,
    i: int,
    name: Option<Seq<char>>,
    p: Option<Position>,
    trans: Option<Seq<char>>,
)
    requires
        0 <= i <= s.len(),
    ensures
        i <= spec_spawn_args(s, i, name, p, trans).0 <= s.len(),
    decreases s.len() - i,
{
    lemma_spec_kw_pos_bounds(s, i, "at"@);
    lemma_spec_kw_quote_bounds(s, i, "as"@);
    lemma_spec_kw_quote_bounds(s, i, "with"@);
    match spec_kw_pos(s, i, "at"@) {
        Some((k, pv)) => lemma_spec_spawn_args_bounds(s, k, name, Some(pv), trans),
        None => match spec_kw_quote(s, i, "as"@) {
            Some((k, nv)) => lemma_spec_spawn_args_bounds(s, k, Some(nv), p, trans),
            None => match spec_kw_quote(s, i, "with"@) {
                Some((k, tv)) => lemma_spec_spawn_args_bounds(s, k, name, p, Some(tv)),
                None => {
                },
            },
        },
    }
}

/// `SPAWN 'character' ( at (x, y) | as 'name' | with 'transition' )*`.
pub open spec fn spec_spawn(s: Seq<char>, i: int) -> Option<(int, StepView)> {
    match spec_kw_quote(s, i, "SPAWN"@) {
        Some((j, character)) => {
            let (k, name, p, trans) = spec_spawn_args(s, j, None, None, None);
            Some((k, StepView::Spawn(character, name, p, trans)))
        },
        None => None,
    }
}

/// Bounds of a successful [`spec_spawn`].
pub proof fn lemma_spec_spawn_bounds(s: Seq<char>, i: int)
    requires
        0 <= i <= s.len(),
    ensures
        spec_spawn(s, i) matches Some((j, _)) ==> i < j <= s.len(),
{
    lemma_spec_kw_quote_bounds(s, i, "SPAWN"@);
    match spec_kw_quote(s, i, "SPAWN"@) {
        Some((j, _)) => {
            lemma_spec_spawn_args_bounds(s, j, None, None, None);
        },
        None => {
        },
    }
}

/// Parse a `SPAWN` instruction, per [`spec_spawn`].
pub fn spawn(s: &str, i: usize) -> (r: Option<(usize, ScriptStep)>)
    requires
        i <= s@.len(),
    ensures
        match r {
            Some((j, st)) => spec_spawn(s@, i as int) == Some((j as int, st.deep_view())) && i < j
                <= s@.len(),
            None => spec_spawn(s@, i as int) is None,
        },
{
    let (j, character) = match kw_quote(s, i, "SPAWN") {
        Some(v) => v,
        None => {
            return None;
        },
    };
    let mut name: Option<String> = None;
    let mut p: Option<Position> = None;
    let mut trans: Option<String> = None;
    let mut cur = j;
    loop
        invariant
            j <= cur <= s@.len(),
            spec_spawn_args(s@, j as int, None, None, None) == spec_spawn_args(
                s@,
                cur as int,
                name.deep_view(),
                p,
                trans.deep_view(),
            ),
        ensures
            spec_spawn_args(s@, j as int, None, None, None) == (
                cur as int,
                name.deep_view(),
                p,
                trans.deep_view(),
            ),
        decreases s@.len() - cur,
    {
        match kw_pos(s, cur, "at") {
            Some((k, pv)) => {
                p = Some(pv);
                cur = k;
            },
            None => {
                match kw_quote(s, cur, "as") {
                    Some((k, nv)) => {
                        name = Some(nv);
                        cur = k;
                    },
                    None => {
                        match kw_quote(s, cur, "with") {
                            Some((k, tv)) => {
                                trans = Some(tv);
                                cur = k;
                            },
                            None => {
                                break ;
                            },
                        }
                    },
                }
            },
        }
    }
    Some((cur, ScriptStep::Spawn(character, name, p, trans)))
}

} // verus!
