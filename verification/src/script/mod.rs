//! The story of the visual novel: script steps, the script table and the
//! execution position.
//!
//! A script is a table of named anchors, each an ordered list of
//! [`ScriptStep`]s.  The [`Script`] struct stores every loaded script,
//! remembers which script and anchor are running, and moves between anchors
//! in the order the source text declared them.

pub mod parser;

use vstd::prelude::*;
use crate::error::ScriptImportError;
use crate::strmap::{
    StrMap, key_index, has_key, value_of, insert_entry, distinct_keys, lemma_key_index,
};
use crate::Position;
use self::parser::{translate, spec_translate};

verus! {

/// Represents an action dictated by the script.
#[derive(Debug)]
pub enum ScriptStep {
    /// A dialogue line: the name of the speaker and the text.
    Dialogue(String, String),
    /// Changes only the text in the textbox, keeping the prior speaker.
    DialogueContinue(String),
    /// Shows an entity, optionally switching its state and starting a
    /// named transition.
    Show(String, Option<String>, Option<String>),
    /// Hides an entity, optionally deferred until a transition finishes.
    Hide(String, Option<String>),
    /// Spawns a character, with an optional entity name, position and
    /// transition.
    Spawn(String, Option<String>, Option<Position>, Option<String>),
    /// Removes an entity from the stage, optionally deferred until a
    /// transition finishes.
    Kill(String, Option<String>),
    /// Moves an entity to a position.
    Move(String, Position),
    /// Sets the background.
    Stage(String),
    /// Jumps to a script and anchor; either may be omitted.
    GoTo(Option<String>, Option<String>),
    /// Plays a piece of music.
    Play(String),
    /// End of the script: repeated advances stop here forever.
    End,
}

/// The mathematical value of a [`ScriptStep`], with texts as character
/// sequences.
pub ghost enum StepView {
    /// See [`ScriptStep::Dialogue`].
    Dialogue(Seq<char>, Seq<char>),
    /// See [`ScriptStep::DialogueContinue`].
    DialogueContinue(Seq<char>),
    /// See [`ScriptStep::Show`].
    Show(Seq<char>, Option<Seq<char>>, Option<Seq<char>>),
    /// See [`ScriptStep::Hide`].
    Hide(Seq<char>, Option<Seq<char>>),
    /// See [`ScriptStep::Spawn`].
    Spawn(Seq<char>, Option<Seq<char>>, Option<Position>, Option<Seq<char>>),
    /// See [`ScriptStep::Kill`].
    Kill(Seq<char>, Option<Seq<char>>),
    /// See [`ScriptStep::Move`].
    Move(Seq<char>, Position),
    /// See [`ScriptStep::Stage`].
    Stage(Seq<char>),
    /// See [`ScriptStep::GoTo`].
    GoTo(Option<Seq<char>>, Option<Seq<char>>),
    /// See [`ScriptStep::Play`].
    Play(Seq<char>),
    /// See [`ScriptStep::End`].
    End,
}

impl DeepView for ScriptStep {
    type V = StepView;

    open spec fn deep_view(&self) -> StepView {
        match self {
            ScriptStep::Dialogue(speaker, text) => StepView::Dialogue(speaker@, text@),
            ScriptStep::DialogueContinue(text) => StepView::DialogueContinue(text@),
            ScriptStep::Show(entity, state, trans) => StepView::Show(
                entity@,
                state.deep_view(),
                trans.deep_view(),
            ),
            ScriptStep::Hide(entity, trans) => StepView::Hide(entity@, trans.deep_view()),
            ScriptStep::Spawn(character, name, pos, trans) => StepView::Spawn(
                character@,
                name.deep_view(),
                *pos,
                trans.deep_view(),
            ),
            ScriptStep::Kill(entity, trans) => StepView::Kill(entity@, trans.deep_view()),
            ScriptStep::Move(entity, pos) => StepView::Move(entity@, *pos),
            ScriptStep::Stage(bg) => StepView::Stage(bg@),
            ScriptStep::GoTo(name, anchor) => StepView::GoTo(name.deep_view(), anchor.deep_view()),
            ScriptStep::Play(music) => StepView::Play(music@),
            ScriptStep::End => StepView::End,
        }
    }
}

impl Clone for ScriptStep {
    /// A clone is equal, field by field, to the value it was made from.
    fn clone(&self) -> (r: ScriptStep)
        ensures
            r == *self,
    {
        match self {
            ScriptStep::Dialogue(speaker, text) => ScriptStep::Dialogue(
                speaker.clone(),
                text.clone(),
            ),
            ScriptStep::DialogueContinue(text) => ScriptStep::DialogueContinue(text.clone()),
            ScriptStep::Show(entity, state, trans) => ScriptStep::Show(
                entity.clone(),
                clone_opt(state),
                clone_opt(trans),
            ),
            ScriptStep::Hide(entity, trans) => ScriptStep::Hide(entity.clone(), clone_opt(trans)),
            ScriptStep::Spawn(character, name, pos, trans) => ScriptStep::Spawn(
                character.clone(),
                clone_opt(name),
                *pos,
                clone_opt(trans),
            ),
            ScriptStep::Kill(entity, trans) => ScriptStep::Kill(entity.clone(), clone_opt(trans)),
            ScriptStep::Move(entity, pos) => ScriptStep::Move(entity.clone(), *pos),
            ScriptStep::Stage(bg) => ScriptStep::Stage(bg.clone()),
            ScriptStep::GoTo(name, anchor) => ScriptStep::GoTo(clone_opt(name), clone_opt(anchor)),
            ScriptStep::Play(music) => ScriptStep::Play(music.clone()),
            ScriptStep::End => ScriptStep::End,
        }
    }
}

/// Clone an optional string, keeping its value.
fn clone_opt(o: &Option<String>) -> (r: Option<String>)
    ensures
        r == *o,
{
    match o {
        Some(s) => Some(s.clone()),
        None => None,
    }
}

/// Clone a list of steps, keeping its value.
pub fn clone_steps(steps: &Vec<ScriptStep>) -> (r: Vec<ScriptStep>)
    ensures
        r@ == steps@,
{
    let r = steps.clone();
    proof {
        assert(r@ =~= steps@);
    }
    r
}

/// One script: its anchors in declaration order, each with its steps.
pub type AnchorTable = StrMap<Vec<ScriptStep>>;

/// All loaded scripts in load order, each with its anchor table.
pub type ScriptTable = StrMap<AnchorTable>;

/// The view of an anchor table.
pub type AnchorTableView = Seq<(Seq<char>, Seq<StepView>)>;

/// The view of the table of all scripts.
pub type ScriptTableView = Seq<(Seq<char>, AnchorTableView)>;

/// The mathematical state of the story: the executed-step count, the
/// current instruction list, the script table and the position in it.
pub ghost struct ScriptView {
    /// How many steps of the current script have been executed.
    pub step: int,
    /// The instruction list currently running.
    pub script: Seq<StepView>,
    /// All loaded scripts.
    pub scripts: ScriptTableView,
    /// The position (script, anchor) in the table.
    pub index: (int, int),
}

/// Every anchor table in the script table has distinct anchor names.
pub open spec fn table_wf(t: ScriptTableView) -> bool {
    &&& distinct_keys(t)
    &&& forall|i: int| 0 <= i < t.len() ==> distinct_keys(#[trigger] t[i].1)
}

/// The state after `set_script(name, anchor)`.
///
/// The named script is looked up; within it the named anchor, or the first
/// anchor when no name is given.  A missing script or anchor leaves an empty
/// instruction list rather than failing.  The step count always restarts at
/// zero and the table itself never changes.
pub open spec fn spec_set_script(
    v: ScriptView,
    name: Seq<char>,
    anchor: Option<Seq<char>>,
) -> ScriptView {
    if has_key(v.scripts, name) {
        let si = key_index(v.scripts, name);
        let anchors = v.scripts[si].1;
        match anchor {
            Some(a) => if has_key(anchors, a) {
                ScriptView {
                    step: 0,
                    script: value_of(anchors, a),
                    index: (si, key_index(anchors, a)),
                    ..v
                }
            } else {
                ScriptView { step: 0, script: Seq::empty(), index: (si, 0), ..v }
            },
            None => if anchors.len() > 0 {
                ScriptView { step: 0, script: anchors[0].1, index: (si, 0), ..v }
            } else {
                ScriptView { step: 0, script: Seq::empty(), index: (si, 0), ..v }
            },
        }
    } else {
        ScriptView { step: 0, script: Seq::empty(), index: (0, 0), ..v }
    }
}

/// The state after `next_script()`.
///
/// Within the current script, the next anchor in declaration order starts
/// from its beginning; past the last anchor the instruction list becomes the
/// single step `End`, which stops every later advance, and the anchor index
/// rests at the anchor count.
pub open spec fn spec_next_script(v: ScriptView) -> ScriptView {
    if 0 <= v.index.0 < v.scripts.len() {
        let anchors = v.scripts[v.index.0].1;
        let next = if v.index.1 + 1 <= anchors.len() {
            v.index.1 + 1
        } else {
            anchors.len() as int
        };
        if 0 <= next < anchors.len() {
            ScriptView {
                step: 0,
                script: anchors[next].1,
                index: (v.index.0, next),
                ..v
            }
        } else {
            ScriptView {
                step: 0,
                script: seq![StepView::End],
                index: (v.index.0, next),
                ..v
            }
        }
    } else {
        v
    }
}

/// The struct in charge of the story: all loaded scripts and the current
/// position in them.
pub struct Script {
    /// The number of steps of the current script already executed.
    pub step: usize,
    /// The instruction list currently running.
    pub script: Vec<ScriptStep>,
    /// A table of all the scripts that can be used.
    pub scripts: ScriptTable,
    /// The position (script, anchor) of the current instruction list.
    pub index: (usize, usize),
}

impl View for Script {
    type V = ScriptView;

    open spec fn view(&self) -> ScriptView {
        ScriptView {
            step: self.step as int,
            script: self.script.deep_view(),
            scripts: self.scripts@,
            index: (self.index.0 as int, self.index.1 as int),
        }
    }
}

impl Script {
    /// The script table is well formed: all script and anchor names are
    /// distinct within their tables.
    pub open spec fn wf(&self) -> bool {
        table_wf(self@.scripts)
    }

    /// Create an empty story: no scripts, nothing running.
    pub fn new() -> (r: Script)
        ensures
            r@.step == 0,
            r@.script == Seq::<StepView>::empty(),
            r@.scripts == Seq::<(Seq<char>, AnchorTableView)>::empty(),
            r@.index == (0int, 0int),
            r.wf(),
    {
        let r = Script { step: 0, script: Vec::new(), scripts: StrMap::new(), index: (0, 0) };
        proof {
            assert(r@.script =~= Seq::<StepView>::empty());
        }
        r
    }

    /// Select a script by name, and an anchor within it by name or by
    /// default; see [`spec_set_script`] for the exact rule.
    pub fn set_script(&mut self, name: &str, anchor: Option<String>)
        requires
            old(self).wf(),
        ensures
            final(self)@ == spec_set_script(old(self)@, name@, anchor.deep_view()),
            final(self).wf(),
    {
        proof {
            lemma_key_index(self@.scripts, name@);
        }
        let mut index = self.index;
        self.script = match self.scripts.get_full(name) {
            Some((i, map)) => {
                index.0 = i;
                proof {
                    lemma_key_index(self@.scripts, name@);
                }
                match anchor {
                    Some(a) => {
                        proof {
                            lemma_key_index(map@, a@);
                        }
                        match map.get_full(a.as_str()) {
                            Some((j, steps)) => {
                                index.1 = j;
                                clone_steps(steps)
                            },
                            None => {
                                index.1 = 0;
                                Vec::new()
                            },
                        }
                    },
                    None => {
                        index.1 = 0;
                        match map.get_index(0) {
                            Some((_, steps)) => clone_steps(steps),
                            None => Vec::new(),
                        }
                    },
                }
            },
            None => {
                index = (0, 0);
                Vec::new()
            },
        };
        self.step = 0;
        self.index = index;
        proof {
            assert(self@.script =~= spec_set_script(old(self)@, name@, anchor.deep_view()).script);
        }
    }

    /// Move on to the next anchor of the current script, or to the sticky
    /// `End` list past the last one; see [`spec_next_script`].
    pub fn next_script(&mut self)
        requires
            old(self).wf(),
        ensures
            final(self)@ == spec_next_script(old(self)@),
            final(self).wf(),
    {
        match self.scripts.get_index(self.index.0) {
            Some((_, map)) => {
                let count = map.len();
                self.index.1 = if self.index.1 >= count {
                    count
                } else {
                    self.index.1 + 1
                };
                match map.get_index(self.index.1) {
                    Some((_, steps)) => {
                        self.script = clone_steps(steps);
                        self.step = 0;
                    },
                    None => {
                        self.script = vec![ScriptStep::End];
                        self.step = 0;
                        proof {
                            assert(self@.script =~= seq![StepView::End]);
                        }
                    },
                }
            },
            None => {
            },
        }
        proof {
            assert(self@.script =~= spec_next_script(old(self)@).script);
        }
    }

    /// Load a script into the table under `name`, replacing any script
    /// already loaded under that name and keeping the table order otherwise.
    pub fn load_script(&mut self, name: String, scripts: AnchorTable)
        requires
            old(self).wf(),
            scripts.wf(),
        ensures
            final(self)@ == (ScriptView {
                scripts: insert_entry(old(self)@.scripts, name@, scripts@),
                ..old(self)@
            }),
            final(self).wf(),
    {
        proof {
            lemma_key_index(self@.scripts, name@);
        }
        self.scripts.insert(name, scripts);
        proof {
            let t = old(self)@.scripts;
            let t2 = self@.scripts;
            assert forall|i: int| 0 <= i < t2.len() implies distinct_keys(#[trigger] t2[i].1) by {
                if t2[i] != (name@, scripts@) {
                    assert(t2[i] == t[i]);
                }
            }
        }
    }

    /// Load a whole table of scripts, in table order, each as by
    /// [`Script::load_script`].
    pub fn load_scripts(&mut self, map: ScriptTable)
        requires
            old(self).wf(),
            map.wf(),
            forall|i: int| 0 <= i < map@.len() ==> distinct_keys(#[trigger] map@[i].1),
        ensures
            final(self)@.step == old(self)@.step,
            final(self)@.script == old(self)@.script,
            final(self)@.index == old(self)@.index,
            final(self)@.scripts == spec_load_table(old(self)@.scripts, map@),
            final(self).wf(),
    {
        let ghost map0 = map@;
        let mut map = map;
        loop
            invariant
                self.wf(),
                map.wf(),
                forall|i: int| 0 <= i < map@.len() ==> distinct_keys(#[trigger] map@[i].1),
                self@.step == old(self)@.step,
                self@.script == old(self)@.script,
                self@.index == old(self)@.index,
                spec_load_table(self@.scripts, map@) == spec_load_table(
                    old(self)@.scripts,
                    map0,
                ),
            ensures
                self.wf(),
                self@.step == old(self)@.step,
                self@.script == old(self)@.script,
                self@.index == old(self)@.index,
                self@.scripts == spec_load_table(old(self)@.scripts, map0),
            decreases map@.len(),
        {
            match map.pop_first() {
                Some((name, anchors)) => {
                    self.load_script(name, anchors);
                },
                None => {
                    proof {
                        assert(map@ =~= Seq::<(Seq<char>, AnchorTableView)>::empty());
                    }
                    break ;
                },
            }
        }
    }

    /// Parse `content` and load it as the script `name`; on a syntax error
    /// nothing changes and the error carries the failing position.
    pub fn load_from_str(&mut self, name: String, content: &str) -> (r: Result<
        (),
        ScriptImportError,
    >)
        requires
            old(self).wf(),
        ensures
            final(self).wf(),
            match r {
                Ok(()) => spec_translate(content@) matches Ok(t) && final(self)@ == (ScriptView {
                    scripts: insert_entry(old(self)@.scripts, name@, t),
                    ..old(self)@
                }),
                Err(e) => final(self)@ == old(self)@ && (match e {
                    ScriptImportError::Syntax(p) => spec_translate(content@) == Err::<
                        AnchorTableView,
                        int,
                    >(p as int),
                    _ => false,
                }),
            },
    {
        match translate(content) {
            Ok(table) => {
                self.load_script(name, table);
                Ok(())
            },
            Err(e) => Err(e),
        }
    }
}

/// Law: anchors round-trip by name and by position.  Selecting an anchor
/// by its name yields exactly that anchor's instructions at its position,
/// and `next_script` from there yields the next anchor in declaration
/// order — or the synthetic `End` list after the last one.
pub proof fn lemma_anchor_roundtrip(v: ScriptView, name: Seq<char>, ai: int)
    requires
        table_wf(v.scripts),
        has_key(v.scripts, name),
        0 <= ai < value_of(v.scripts, name).len(),
    ensures
        ({
            let si = key_index(v.scripts, name);
            let anchors = value_of(v.scripts, name);
            let sel = spec_set_script(v, name, Some(anchors[ai].0));
            &&& sel.script == anchors[ai].1
            &&& sel.index == (si, ai)
            &&& sel.step == 0
            &&& sel.scripts == v.scripts
            &&& (ai + 1 < anchors.len() ==> spec_next_script(sel) == (ScriptView {
                step: 0,
                script: anchors[ai + 1].1,
                index: (si, ai + 1),
                ..sel
            }))
            &&& (ai + 1 == anchors.len() ==> spec_next_script(sel) == (ScriptView {
                step: 0,
                script: seq![StepView::End],
                index: (si, ai + 1),
                ..sel
            }))
        }),
{
    lemma_key_index(v.scripts, name);
    let si = key_index(v.scripts, name);
    let anchors = v.scripts[si].1;
    lemma_key_index(anchors, anchors[ai].0);
    crate::strmap::lemma_key_index_of_present(anchors, anchors[ai].0, ai);
}

/// The script table after loading every entry of `m` into `t` in order.
///
/// See [`Script::load_scripts`].
pub open spec fn spec_load_table(t: ScriptTableView, m: ScriptTableView) -> ScriptTableView
    decreases m.len(),
{
    if m.len() == 0 {
        t
    } else {
        spec_load_table(insert_entry(t, m[0].0, m[0].1), m.drop_first())
    }
}

} // verus!
