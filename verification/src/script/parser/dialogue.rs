//! The two dialogue productions: a speaker with text, and bare text that
//! keeps the prior speaker.

use vstd::prelude::*;
use super::values::{
    spec_speech_at, spec_ws, delimited, skip_ws, lemma_spec_ws, lemma_delimited,
};
use super::super::{ScriptStep, StepView};

verus! {

/// A dialogue line `"speaker" : "text"`: two double-quoted values around a
/// colon, with optional whitespace between the tokens.
pub open spec fn spec_dialogue(s: Seq<char>, i: int) -> Option<(int, StepView)> {
    let j = spec_ws(s, i);
    match spec_speech_at(s, j) {
        Some((j2, speaker)) => {
            let j3 = spec_ws(s, j2);
            if j3 < s.len() && s[j3] == ':' {
                let j4 = spec_ws(s, j3 + 1);
                match spec_speech_at(s, j4) {
                    Some((k, text)) => Some((k, StepView::Dialogue(speaker, text))),
                    None => None,
                }
            } else {
                None
            }
        },
        None => None,
    }
}

/// Bounds of a successful [`spec_dialogue`].
pub proof fn lemma_spec_dialogue_bounds(s: Seq<char>, i: int)
    requires
        0 <= i <= s.len(),
    ensures
        spec_dialogue(s, i) matches Some((j, _)) ==> i < j <= s.len(),
{
    lemma_spec_ws(s, i);
    let j = spec_ws(s, i);
    lemma_delimited(s, j, '"');
    match spec_speech_at(s, j) {
        Some((j2, _)) => {
            lemma_spec_ws(s, j2);
            let j3 = spec_ws(s, j2);
            if j3 < s.len() && s[j3] == ':' {
                lemma_spec_ws(s, j3 + 1);
                lemma_delimited(s, spec_ws(s, j3 + 1), '"');
            }
        },
        None => {
        },
    }
}

/// Parse a dialogue line, per [`spec_dialogue`].
pub fn dialogue(s: &str, i: usize) -> (r: Option<(usize, ScriptStep)>)
    requires
        i <= s@.len(),
    ensures
        match r {
            Some((j, st)) => spec_dialogue(s@, i as int) == Some((j as int, st.deep_view())) && i
                < j <= s@.len(),
            None => spec_dialogue(s@, i as int) is None,
        },
{
    let n = s.unicode_len();
    let j = skip_ws(s, i);
    let (j2, speaker) = match delimited(s, j, '"') {
        Some(v) => v,
        None => {
            return None;
        },
    };
    let j3 = skip_ws(s, j2);
    if j3 >= n || s.get_char(j3) != ':' {
        return None;
    }
    let j4 = skip_ws(s, j3 + 1);
    match delimited(s, j4, '"') {
        Some((k, text)) => Some((k, ScriptStep::Dialogue(speaker, text))),
        None => None,
    }
}

/// A bare double-quoted text: dialogue that keeps the prior speaker.
pub open spec fn spec_dialogue_continue(s: Seq<char>, i: int) -> Option<(int, StepView)> {
    let j = spec_ws(s, i);
    match spec_speech_at(s, j) {
        Some((k, text)) => Some((k, StepView::DialogueContinue(text))),
        None => None,
    }
}

/// Bounds of a successful [`spec_dialogue_continue`].
pub proof fn lemma_spec_dialogue_continue_bounds(s: Seq<char>, i: int)
    requires
        0 <= i <= s.len(),
    ensures
        spec_dialogue_continue(s, i) matches Some((j, _)) ==> i < j <= s.len(),
{
    lemma_spec_ws(s, i);
    lemma_delimited(s, spec_ws(s, i), '"');
}

/// Parse a bare dialogue text, per [`spec_dialogue_continue`].
pub fn dialogue_continue(s: &str, i: usize) -> (r: Option<(usize, ScriptStep)>)
    requires
        i <= s@.len(),
    ensures
        match r {
            Some((j, st)) => spec_dialogue_continue(s@, i as int) == Some(
                (j as int, st.deep_view()),
            ) && i < j <= s@.len(),
            None => spec_dialogue_continue(s@, i as int) is None,
        },
{
    let j = skip_ws(s, i);
    match delimited(s, j, '"') {
        Some((k, text)) => Some((k, ScriptStep::DialogueContinue(text))),
        None => None,
    }
}

} // verus!
