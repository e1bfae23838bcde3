//! Parses script text and turns it into [`ScriptStep`]s.
//!
//! The grammar is an ordered choice: at each position the instruction
//! alternatives are tried in a fixed priority (the dialogue forms first,
//! then the verb keywords), and the first that matches consumes the input.
//! Anchor headers `:name` split the text into named blocks; instructions
//! before the first header belong to an anchor called `main`.

pub mod values;
pub mod dialogue;
pub mod visible;
pub mod spawn;
pub mod kill;
pub mod move_p;
pub mod stage;
pub mod end;
pub mod goto;
pub mod play;

use vstd::prelude::*;
use crate::strmap::{StrMap, insert_entry, distinct_keys};
use crate::error::ScriptImportError;
use super::{ScriptStep, StepView, AnchorTable, AnchorTableView};
use self::values::{spec_ws, is_space, skip_ws, lemma_spec_ws};
use self::dialogue::{
    spec_dialogue, spec_dialogue_continue, dialogue, dialogue_continue, lemma_spec_dialogue_bounds,
    lemma_spec_dialogue_continue_bounds,
};
use self::visible::{spec_show, spec_hide, show, hide_p, lemma_spec_show_bounds,
    lemma_spec_hide_bounds};
use self::spawn::{spec_spawn, spawn, lemma_spec_spawn_bounds};
use self::kill::{spec_kill, kill, lemma_spec_kill_bounds};
use self::move_p::{spec_move, move_p, lemma_spec_move_bounds};
use self::stage::{spec_stage, stage, lemma_spec_stage_bounds};
use self::end::{spec_end, end, lemma_spec_end_bounds};
use self::goto::{spec_goto, goto, lemma_spec_goto_bounds};
use self::play::{spec_play, play, lemma_spec_play_bounds};

verus! {

/// One instruction, by ordered choice: the first alternative that matches
/// at `i` wins.
pub open spec fn spec_instruction(s: Seq<char>, i: int) -> Option<(int, StepView)> {
    if spec_dialogue(s, i) is Some {
        spec_dialogue(s, i)
    } else if spec_dialogue_continue(s, i) is Some {
        spec_dialogue_continue(s, i)
    } else if spec_show(s, i) is Some {
        spec_show(s, i)
    } else if spec_hide(s, i) is Some {
        spec_hide(s, i)
    } else if spec_spawn(s, i) is Some {
        spec_spawn(s, i)
    } else if spec_kill(s, i) is Some {
        spec_kill(s, i)
    } else if spec_move(s, i) is Some {
        spec_move(s, i)
    } else if spec_stage(s, i) is Some {
        spec_stage(s, i)
    } else if spec_end(s, i) is Some {
        spec_end(s, i)
    } else if spec_goto(s, i) is Some {
        spec_goto(s, i)
    } else {
        spec_play(s, i)
    }
}

/// Bounds of a successful [`spec_instruction`]: it consumes at least one
/// character and stays within the text.
pub proof fn lemma_spec_instruction_bounds(s: Seq<char>, i: int)
    requires
        0 <= i <= s.len(),
    ensures
        spec_instruction(s, i) matches Some((j, _)) ==> i < j <= s.len(),
{
    lemma_spec_dialogue_bounds(s, i);
    lemma_spec_dialogue_continue_bounds(s, i);
    lemma_spec_show_bounds(s, i);
    lemma_spec_hide_bounds(s, i);
    lemma_spec_spawn_bounds(s, i);
    lemma_spec_kill_bounds(s, i);
    lemma_spec_move_bounds(s, i);
    lemma_spec_stage_bounds(s, i);
    lemma_spec_end_bounds(s, i);
    lemma_spec_goto_bounds(s, i);
    lemma_spec_play_bounds(s, i);
}

/// Parse one instruction, per [`spec_instruction`].
pub fn instruction(s: &str, i: usize) -> (r: Option<(usize, ScriptStep)>)
    requires
        i <= s@.len(),
    ensures
        match r {
            Some((j, st)) => spec_instruction(s@, i as int) == Some((j as int, st.deep_view()))
                && i < j <= s@.len(),
            None => spec_instruction(s@, i as int) is None,
        },
{
    if let Some(r) = dialogue(s, i) {
        return Some(r);
    }
    if let Some(r) = dialogue_continue(s, i) {
        return Some(r);
    }
    if let Some(r) = show(s, i) {
        return Some(r);
    }
    if let Some(r) = hide_p(s, i) {
        return Some(r);
    }
    if let Some(r) = spawn(s, i) {
        return Some(r);
    }
    if let Some(r) = kill(s, i) {
        return Some(r);
    }
    if let Some(r) = move_p(s, i) {
        return Some(r);
    }
    if let Some(r) = stage(s, i) {
        return Some(r);
    }
    if let Some(r) = end(s, i) {
        return Some(r);
    }
    if let Some(r) = goto(s, i) {
        return Some(r);
    }
    play(s, i)
}

/// As many instructions as match, in order, and the position where the
/// first failure stops the run.
pub open spec fn spec_steps(s: Seq<char>, i: int) -> (int, Seq<StepView>)
    decreases s.len() - i
        when 0 <= i <= s.len()
        via spec_steps_dec
{
    match spec_instruction(s, i) {
        Some((j, st)) => {
            let (k, rest) = spec_steps(s, j);
            (k, seq![st] + rest)
        },
        None => (i, Seq::empty()),
    }
}

#[via_fn]
proof fn spec_steps_dec(s: Seq<char>, i: int) {
    lemma_spec_instruction_bounds(s, i);
}

/// The instruction run never moves backwards or out of the text.
pub proof fn lemma_spec_steps_bounds(s: Seq<char>, i: int)
    requires
        0 <= i <= s.len(),
    ensures
        i <= spec_steps(s, i).0 <= s.len(),
    decreases s.len() - i,
{
    lemma_spec_instruction_bounds(s, i);
    match spec_instruction(s, i) {
        Some((j, _)) => {
            lemma_spec_steps_bounds(s, j);
        },
        None => {
        },
    }
}

/// Parse an instruction run, per [`spec_steps`].
pub fn parse_steps(s: &str, i: usize) -> (r: (usize, Vec<ScriptStep>))
    requires
        i <= s@.len(),
    ensures
        spec_steps(s@, i as int) == (r.0 as int, r.1.deep_view()),
        i <= r.0 <= s@.len(),
{
    let mut cur = i;
    let mut steps: Vec<ScriptStep> = Vec::new();
    proof {
        assert(steps.deep_view() =~= Seq::<StepView>::empty());
    }
    loop
        invariant
            i <= cur <= s@.len(),
            spec_steps(s@, i as int).0 == spec_steps(s@, cur as int).0,
            spec_steps(s@, i as int).1 == steps.deep_view() + spec_steps(s@, cur as int).1,
        ensures
            i <= cur <= s@.len(),
            spec_steps(s@, i as int) == (cur as int, steps.deep_view()),
        decreases s@.len() - cur,
    {
        match instruction(s, cur) {
            Some((j, st)) => {
                let ghost prev = steps.deep_view();
                let ghost stv = st.deep_view();
                steps.push(st);
                proof {
                    assert(steps.deep_view() =~= prev.push(stv));
                    assert(prev.push(stv) + spec_steps(s@, j as int).1 =~= prev + (seq![stv]
                        + spec_steps(s@, j as int).1));
                }
                cur = j;
            },
            None => {
                proof {
                    assert(spec_steps(s@, cur as int) == (cur as int, Seq::<StepView>::empty()));
                    assert(steps.deep_view() + Seq::<StepView>::empty() =~= steps.deep_view());
                }
                break ;
            },
        }
    }
    (cur, steps)
}

/// Whether `c` can stand in an anchor name: anything but whitespace.
pub open spec fn is_name_char(c: char) -> bool {
    !is_space(c)
}

/// The end of the run of name characters starting at `i`.
pub open spec fn spec_name_end(s: Seq<char>, i: int) -> int
    decreases s.len() - i when 0 <= i <= s.len()
{
    if i < s.len() && is_name_char(s[i]) {
        spec_name_end(s, i + 1)
    } else {
        i
    }
}

/// The name run stays within the text.
pub proof fn lemma_spec_name_end(s: Seq<char>, i: int)
    requires
        0 <= i <= s.len(),
    ensures
        i <= spec_name_end(s, i) <= s.len(),
    decreases s.len() - i,
{
    if i < s.len() && is_name_char(s[i]) {
        lemma_spec_name_end(s, i + 1);
    }
}

/// An anchor header at the colon at `i`: the name is the run of non-space
/// characters after the colon and any whitespace; the result is the
/// position after the name.
pub open spec fn spec_header(s: Seq<char>, i: int) -> (int, Seq<char>) {
    let j = spec_ws(s, i + 1);
    let e = spec_name_end(s, j);
    (e, s.subrange(j, e))
}

/// A header starting at a colon within the text consumes at least the
/// colon.
pub proof fn lemma_spec_header_bounds(s: Seq<char>, i: int)
    requires
        0 <= i < s.len(),
    ensures
        i < spec_header(s, i).0 <= s.len(),
{
    lemma_spec_ws(s, i + 1);
    lemma_spec_name_end(s, spec_ws(s, i + 1));
}

/// Parse an anchor header, per [`spec_header`]; `i` must hold the colon.
pub fn parse_header(s: &str, i: usize) -> (r: (usize, String))
    requires
        i < s@.len(),
        s@[i as int] == ':',
    ensures
        spec_header(s@, i as int) == (r.0 as int, r.1@),
        i < r.0 <= s@.len(),
{
    proof {
        lemma_spec_header_bounds(s@, i as int);
    }
    let n = s.unicode_len();
    let j = skip_ws(s, i + 1);
    let mut e = j;
    while e < n && !is_space_exec_local(s.get_char(e))
        invariant
            j <= e <= n,
            n == s@.len(),
            spec_name_end(s@, j as int) == spec_name_end(s@, e as int),
        decreases n - e,
    {
        e += 1;
    }
    let name = s.substring_char(j, e).to_owned();
    (e, name)
}

/// Whether `c` is grammar whitespace; a local alias so the header scan can
/// name it.
fn is_space_exec_local(c: char) -> (r: bool)
    ensures
        r == is_space(c),
{
    c == ' ' || c == '\t' || c == '\r' || c == '\n'
}

/// The anchor blocks from position `i` on, folded into the table `t`:
/// each block is a `:name` header and an instruction run.  The parse ends
/// at the end of the text, or fails at the first position where neither an
/// instruction, a header nor the end of the text stands.
pub open spec fn spec_blocks(s: Seq<char>, i: int, t: AnchorTableView) -> Result<
    AnchorTableView,
    int,
>
    decreases s.len() - i
        when 0 <= i <= s.len()
        via spec_blocks_dec
{
    let j = spec_ws(s, i);
    if j >= s.len() {
        Ok(t)
    } else if s[j] == ':' {
        let (j2, name) = spec_header(s, j);
        let (k, steps) = spec_steps(s, j2);
        spec_blocks(s, k, insert_entry(t, name, steps))
    } else {
        Err(j)
    }
}

#[via_fn]
proof fn spec_blocks_dec(s: Seq<char>, i: int, t: AnchorTableView) {
    lemma_spec_ws(s, i);
    let j = spec_ws(s, i);
    if j < s.len() && s[j] == ':' {
        lemma_spec_header_bounds(s, j);
        let (j2, _) = spec_header(s, j);
        lemma_spec_steps_bounds(s, j2);
    }
}

/// The table parsed from a whole script text.
///
/// Instructions before the first `:name` header, or a text with no header
/// at all (even an empty text), form an anchor called `main`; each header
/// then opens a named anchor.  Within the table a later anchor with an
/// already-used name replaces the earlier one in place.  `Err` carries the
/// position of the first unreadable text.
pub open spec fn spec_translate(s: Seq<char>) -> Result<AnchorTableView, int> {
    let j = spec_ws(s, 0);
    if j < s.len() && s[j] == ':' {
        spec_blocks(s, 0, Seq::empty())
    } else {
        let (k, steps) = spec_steps(s, 0);
        spec_blocks(s, k, Seq::empty().push(("main"@, steps)))
    }
}

/// Translate a script text into its anchor table, per [`spec_translate`];
/// the error holds the position (in characters) of the first unreadable
/// text.
pub fn translate(text: &str) -> (r: Result<AnchorTable, ScriptImportError>)
    ensures
        match r {
            Ok(table) => spec_translate(text@) == Ok::<AnchorTableView, int>(table@)
                && distinct_keys(table@),
            Err(e) => match e {
                ScriptImportError::Syntax(p) => spec_translate(text@) == Err::<
                    AnchorTableView,
                    int,
                >(p as int),
                _ => false,
            },
        },
{
    let n = text.unicode_len();
    let j = skip_ws(text, 0);
    let mut table: AnchorTable = StrMap::new();
    let mut cur: usize = 0;
    if j >= n || text.get_char(j) != ':' {
        let (k, steps) = parse_steps(text, 0);
        table.insert(String::from_str("main"), steps);
        cur = k;
        proof {
            assert(table@ =~= Seq::<(Seq<char>, Seq<StepView>)>::empty().push(
                ("main"@, steps.deep_view()),
            ));
        }
    }
    loop
        invariant
            cur <= text@.len(),
            n == text@.len(),
            table.wf(),
            spec_blocks(text@, cur as int, table@) == spec_translate(text@),
        decreases text@.len() - cur,
    {
        let j2 = skip_ws(text, cur);
        if j2 >= n {
            return Ok(table);
        }
        if text.get_char(j2) == ':' {
            let (j3, name) = parse_header(text, j2);
            let (k, steps) = parse_steps(text, j3);
            proof {
                lemma_spec_header_bounds(text@, j2 as int);
                lemma_spec_steps_bounds(text@, j3 as int);
            }
            table.insert(name, steps);
            cur = k;
        } else {
            return Err(ScriptImportError::Syntax(j2));
        }
    }
}

/// Law: a script text without any `:` marker parses to a single anchor
/// called `main`, holding the text's instructions in source order.  The
/// parse succeeds exactly when the instruction run reaches the end of the
/// text, and fails at the stopping position otherwise.
pub proof fn lemma_no_marker_single_main(s: Seq<char>)
    requires
        forall|i: int| 0 <= i < s.len() ==> s[i] != ':',
    ensures
        ({
            let (k, steps) = spec_steps(s, 0);
            spec_translate(s) == if spec_ws(s, k) == s.len() {
                Ok::<AnchorTableView, int>(seq![("main"@, steps)])
            } else {
                Err::<AnchorTableView, int>(spec_ws(s, k))
            }
        }),
{
    lemma_spec_ws(s, 0);
    let (k, steps) = spec_steps(s, 0);
    lemma_spec_steps_bounds(s, 0);
    lemma_spec_ws(s, k);
    let t = Seq::empty().push(("main"@, steps));
    assert(t =~= seq![("main"@, steps)]);
    assert(spec_blocks(s, k, t) == if spec_ws(s, k) == s.len() {
        Ok::<AnchorTableView, int>(t)
    } else {
        Err::<AnchorTableView, int>(spec_ws(s, k))
    });
}

} // verus!
