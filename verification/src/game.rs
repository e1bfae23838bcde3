//! The game: the stage, the interface, the story and the rules that drive
//! them.
//!
//! [`Game::next_step`] is the heart of the engine: it executes script
//! steps one after another — staging, movement, jumps — until a step that
//! awaits input (a dialogue line or the end of the script) hands control
//! back to the caller.

use vstd::prelude::*;
use crate::strmap::{StrMap, key_index, has_key, value_of, insert_entry, remove_entry,
    distinct_keys, lemma_key_index};
use crate::gui::{Ui, TextBox};
use crate::gui::textbox::{TextBoxView, spec_lines};
use crate::character::{Character, CharacterEntity, CharView, EntityView, spec_spawn_entity};
use crate::script::{Script, ScriptStep, StepView, ScriptView, spec_set_script, spec_next_script,
    AnchorTableView};
use crate::input::{GameInput, GameEvent};
use crate::music::{Music, MusicView, spec_set_music};
use crate::animation::{Animation, TransitionKind};
use crate::util::ScriptsFromFile;
use crate::Position;

verus! {

/// The game.
pub struct Game {
    /// The textboxes the story writes into.
    pub ui: Ui,
    /// The handle of the current background texture, if one is set.
    pub background: Option<String>,
    /// The texture handle of every background the stage can switch to.
    pub backgrounds: StrMap<String>,
    /// The character entities on the stage, by stage name.
    pub stage: StrMap<CharacterEntity>,
    /// The character templates that can be spawned, by key.
    pub characters: StrMap<Character>,
    /// The story: all loaded scripts and the current position.
    pub story: Script,
    /// The buttons that drive the game.
    pub input: GameInput,
    /// The music of the game, once enabled.
    pub music: Option<Music>,
    /// The named transitions that can run on entities.
    pub anims: Animation,
}

/// The mathematical state of the whole game.
pub ghost struct GameView {
    /// See [`Game::ui`].
    pub ui: crate::gui::UiView,
    /// See [`Game::background`].
    pub background: Option<Seq<char>>,
    /// See [`Game::backgrounds`].
    pub backgrounds: Seq<(Seq<char>, Seq<char>)>,
    /// See [`Game::stage`].
    pub stage: Seq<(Seq<char>, EntityView)>,
    /// See [`Game::characters`].
    pub characters: Seq<(Seq<char>, CharView)>,
    /// See [`Game::story`].
    pub story: ScriptView,
    /// See [`Game::input`].
    pub input: Seq<Seq<char>>,
    /// See [`Game::music`].
    pub music: Option<MusicView>,
    /// See [`Game::anims`].
    pub anims: Seq<(Seq<char>, TransitionKind)>,
}

impl View for Game {
    type V = GameView;

    open spec fn view(&self) -> GameView {
        GameView {
            ui: self.ui@,
            background: self.background.deep_view(),
            backgrounds: self.backgrounds@,
            stage: self.stage@,
            characters: self.characters@,
            story: self.story@,
            input: self.input@,
            music: match self.music {
                Some(m) => Some(m@),
                None => None,
            },
            anims: self.anims@,
        }
    }
}

/// All the tables of the game have distinct keys.
pub open spec fn game_wf(g: GameView) -> bool {
    &&& crate::script::table_wf(g.story.scripts)
    &&& distinct_keys(g.stage)
    &&& distinct_keys(g.characters)
    &&& distinct_keys(g.backgrounds)
    &&& distinct_keys(g.anims)
    &&& (g.music matches Some(m) ==> distinct_keys(m.library))
    &&& (forall|i: int|
        0 <= i < g.characters.len() ==> distinct_keys(#[trigger] g.characters[i].1.state_map))
}

/// The stage with the entity called `name` replaced by `f` of itself; a
/// stage without that name is unchanged.
pub open spec fn map_entity(
    stage: Seq<(Seq<char>, EntityView)>,
    name: Seq<char>,
    f: spec_fn(EntityView) -> EntityView,
) -> Seq<(Seq<char>, EntityView)> {
    if has_key(stage, name) {
        let i = key_index(stage, name);
        stage.update(i, (stage[i].0, f(stage[i].1)))
    } else {
        stage
    }
}

/// Replacing an entity keeps the stage's keys, and so their distinctness.
pub proof fn lemma_map_entity_wf(
    stage: Seq<(Seq<char>, EntityView)>,
    name: Seq<char>,
    f: spec_fn(EntityView) -> EntityView,
)
    requires
        distinct_keys(stage),
    ensures
        distinct_keys(map_entity(stage, name, f)),
        map_entity(stage, name, f).len() == stage.len(),
{
    lemma_key_index(stage, name);
    let u = map_entity(stage, name, f);
    assert(forall|j: int| 0 <= j < u.len() ==> u[j].0 == stage[j].0);
}

/// The game after `set_background(name)`: a known background key switches
/// the background to its texture handle; an unknown one changes nothing.
pub open spec fn spec_set_background(g: GameView, name: Seq<char>) -> GameView {
    if has_key(g.backgrounds, name) {
        GameView { background: Some(value_of(g.backgrounds, name)), ..g }
    } else {
        g
    }
}

/// The game after `move_character(name, pos)`: the named entity moves; an
/// unknown name changes nothing.
pub open spec fn spec_move_character(g: GameView, name: Seq<char>, pos: Position) -> GameView {
    GameView {
        stage: map_entity(g.stage, name, |e: EntityView| EntityView { pos, ..e }),
        ..g
    }
}

/// The game after `change_entity_state(name, state)`, with whether anything
/// changed: the named entity switches to its template's texture for
/// `state`; a missing entity, template or state changes nothing.
pub open spec fn spec_change_entity_state(g: GameView, name: Seq<char>, state: Seq<char>) -> (
    GameView,
    bool,
) {
    if has_key(g.stage, name) {
        let e = value_of(g.stage, name);
        if has_key(g.characters, e.name) {
            let c = value_of(g.characters, e.name);
            if has_key(c.state_map, state) {
                let t = value_of(c.state_map, state);
                (
                    GameView {
                        stage: map_entity(
                            g.stage,
                            name,
                            |e2: EntityView| EntityView { texture: t, ..e2 },
                        ),
                        ..g
                    },
                    true,
                )
            } else {
                (g, false)
            }
        } else {
            (g, false)
        }
    } else {
        (g, false)
    }
}

/// The game after `apply_character_transition(name, trans)`: a registered
/// transition starts on the named entity; a missing entity or transition
/// changes nothing.
pub open spec fn spec_apply_character_transition(
    g: GameView,
    name: Seq<char>,
    trans: Seq<char>,
) -> GameView {
    if has_key(g.stage, name) && has_key(g.anims, trans) {
        GameView {
            stage: map_entity(g.stage, name, |e: EntityView| EntityView { anim: Some(trans), ..e }),
            ..g
        }
    } else {
        g
    }
}

/// The game after `add_to_stage(name, character)`, with whether an entity
/// was spawned: a known character with a usable default state puts a fresh
/// entity on the stage under `name`.
pub open spec fn spec_add_to_stage(g: GameView, name: Seq<char>, character: Seq<char>) -> (
    GameView,
    bool,
) {
    if has_key(g.characters, character) {
        match spec_spawn_entity(value_of(g.characters, character), character) {
            Some(e) => (GameView { stage: insert_entry(g.stage, name, e), ..g }, true),
            None => (g, false),
        }
    } else {
        (g, false)
    }
}

impl Game {
    /// All the tables of the game have distinct keys.
    pub open spec fn wf(&self) -> bool {
        game_wf(self@)
    }

    /// Create a game with nothing loaded: empty stage, no background, no
    /// music, an empty story.
    pub fn new() -> (r: Game)
        ensures
            r@.ui.textbox.text_v == Seq::<Seq<char>>::empty(),
            r@.ui.speaker_box is None,
            r@.background is None,
            r@.backgrounds == Seq::<(Seq<char>, Seq<char>)>::empty(),
            r@.stage == Seq::<(Seq<char>, EntityView)>::empty(),
            r@.characters == Seq::<(Seq<char>, CharView)>::empty(),
            r@.story == (ScriptView {
                step: 0,
                script: Seq::<StepView>::empty(),
                scripts: Seq::<(Seq<char>, AnchorTableView)>::empty(),
                index: (0int, 0int),
            }),
            r@.input == Seq::<Seq<char>>::empty(),
            r@.music is None,
            r@.anims == Seq::<(Seq<char>, TransitionKind)>::empty(),
            r.wf(),
    {
        Game {
            ui: Ui::new(),
            background: None,
            backgrounds: StrMap::new(),
            stage: StrMap::new(),
            characters: StrMap::new(),
            story: Script::new(),
            input: GameInput::new(),
            music: None,
            anims: Animation::new(),
        }
    }

    /// Add a character template under a key, replacing any of that key.
    pub fn add_character(&mut self, name: String, character: Character)
        requires
            old(self).wf(),
            character.wf(),
        ensures
            final(self)@ == (GameView {
                characters: insert_entry(old(self)@.characters, name@, character@),
                ..old(self)@
            }),
            final(self).wf(),
    {
        let ghost cv = character@;
        self.characters.insert(name, character);
        proof {
            let t = old(self)@.characters;
            let t2 = self@.characters;
            lemma_key_index(t, name@);
            assert forall|i: int| 0 <= i < t2.len() implies distinct_keys(
                #[trigger] t2[i].1.state_map,
            ) by {
                if has_key(t, name@) && i == key_index(t, name@) {
                    assert(t2[i].1 == cv);
                } else if i < t.len() {
                    assert(t2[i] == t[i]);
                } else {
                    assert(t2[i].1 == cv);
                }
            }
        }
    }

    /// Add a background's texture handle under a key, replacing any of
    /// that key.
    pub fn add_background(&mut self, name: String, background: String)
        requires
            old(self).wf(),
        ensures
            final(self)@ == (GameView {
                backgrounds: insert_entry(old(self)@.backgrounds, name@, background@),
                ..old(self)@
            }),
            final(self).wf(),
    {
        self.backgrounds.insert(name, background);
    }

    /// Spawn the character under key `character` onto the stage as an
    /// entity named `name`, per [`spec_add_to_stage`]; true when an entity
    /// was spawned.
    pub fn add_to_stage(&mut self, name: String, character: String) -> (r: bool)
        requires
            old(self).wf(),
        ensures
            (final(self)@, r) == spec_add_to_stage(old(self)@, name@, character@),
            final(self).wf(),
    {
        match self.characters.get(character.as_str()) {
            Some(chara) => {
                match chara.spawn(character) {
                    Some(c) => {
                        self.stage.insert(name, c);
                        true
                    },
                    None => false,
                }
            },
            None => false,
        }
    }

    /// Switch the background to the texture of a known key, per
    /// [`spec_set_background`]; an unknown key is silently ignored.
    pub fn set_background(&mut self, name: &str)
        requires
            old(self).wf(),
        ensures
            final(self)@ == spec_set_background(old(self)@, name@),
            final(self).wf(),
    {
        match self.backgrounds.get(name) {
            Some(bg) => {
                self.background = Some(bg.clone());
            },
            None => {
            },
        }
    }

    /// Switch a staged entity to one of its template's states, per
    /// [`spec_change_entity_state`]; true when the entity changed.
    pub fn change_entity_state(&mut self, name: &str, state: &str) -> (r: bool)
        requires
            old(self).wf(),
        ensures
            (final(self)@, r) == spec_change_entity_state(old(self)@, name@, state@),
            final(self).wf(),
    {
        proof {
            lemma_map_entity_wf(
                old(self)@.stage,
                name@,
                |e2: EntityView| EntityView {
                    texture: value_of(
                        value_of(old(self)@.characters, value_of(old(self)@.stage, name@).name).state_map,
                        state@,
                    ),
                    ..e2
                },
            );
        }
        let (i, ename) = match self.stage.get_full(name) {
            Some((i, e)) => (i, e.name.clone()),
            None => {
                return false;
            },
        };
        let texture = match self.characters.get(ename.as_str()) {
            Some(chara) => match chara.state_map.get(state) {
                Some(t) => t.clone(),
                None => {
                    return false;
                },
            },
            None => {
                return false;
            },
        };
        proof {
            lemma_key_index(self@.stage, name@);
        }
        let entity = self.stage.value_at_mut(i);
        entity.set_texture(texture);
        true
    }

    /// Move a staged entity, per [`spec_move_character`]; an unknown name
    /// is silently ignored.
    pub fn move_character(&mut self, name: &str, pos: Position)
        requires
            old(self).wf(),
        ensures
            final(self)@ == spec_move_character(old(self)@, name@, pos),
            final(self).wf(),
    {
        proof {
            lemma_map_entity_wf(
                old(self)@.stage,
                name@,
                |e: EntityView| EntityView { pos, ..e },
            );
            lemma_key_index(self@.stage, name@);
        }
        match self.stage.get_full(name) {
            Some((i, _)) => {
                let entity = self.stage.value_at_mut(i);
                entity.set_pos(pos);
            },
            None => {
            },
        }
    }

    /// Start a registered transition on a staged entity, per
    /// [`spec_apply_character_transition`]; a missing entity or transition
    /// is silently ignored.
    pub fn apply_character_transition(&mut self, character_name: &str, transition_name: &str)
        requires
            old(self).wf(),
        ensures
            final(self)@ == spec_apply_character_transition(
                old(self)@,
                character_name@,
                transition_name@,
            ),
            final(self).wf(),
    {
        proof {
            lemma_map_entity_wf(
                old(self)@.stage,
                character_name@,
                |e: EntityView| EntityView { anim: Some(transition_name@), ..e },
            );
            lemma_key_index(self@.stage, character_name@);
        }
        if !self.anims.char_trans.contains_key(transition_name) {
            return ;
        }
        match self.stage.get_full(character_name) {
            Some((i, _)) => {
                let entity = self.stage.value_at_mut(i);
                entity.apply_trans(transition_name.to_owned());
            },
            None => {
            },
        }
    }

    /// Set the main textbox.
    pub fn set_textbox(&mut self, text_box: TextBox)
        ensures
            final(self)@ == (GameView {
                ui: crate::gui::UiView { textbox: text_box@, ..old(self)@.ui },
                ..old(self)@
            }),
    {
        self.ui.textbox = text_box;
    }

    /// Set the speaker box, which shows the current speaker's name; none
    /// is shown until this is called.
    pub fn set_speaker_box(&mut self, speaker_box: TextBox)
        ensures
            final(self)@ == (GameView {
                ui: crate::gui::UiView { speaker_box: Some(speaker_box@), ..old(self)@.ui },
                ..old(self)@
            }),
    {
        self.ui.speaker_box = Some(speaker_box);
    }

    /// Enable music: give the game an empty music library with looping on.
    pub fn enable_music(&mut self)
        requires
            old(self).wf(),
        ensures
            final(self)@ == (GameView {
                music: Some(
                    MusicView {
                        library: Seq::<(Seq<char>, Seq<u8>)>::empty(),
                        loop_: true,
                        pending: Seq::<crate::music::SinkCmdView>::empty(),
                    },
                ),
                ..old(self)@
            }),
            final(self).wf(),
    {
        self.music = Some(Music::new());
    }

    /// Load a table of scripts into the story, then select the default
    /// script when the table names one.
    pub fn load_scripts(&mut self, file: ScriptsFromFile)
        requires
            old(self).wf(),
            file.map.wf(),
            forall|i: int|
                0 <= i < file.map@.len() ==> distinct_keys(#[trigger] file.map@[i].1),
        ensures
            final(self).wf(),
            final(self)@ == (GameView {
                story: final(self)@.story,
                ..old(self)@
            }),
            final(self)@.story.scripts == crate::script::spec_load_table(
                old(self)@.story.scripts,
                file.map@,
            ),
            match file.default {
                Some(name) => final(self)@.story == spec_set_script(
                    ScriptView {
                        scripts: crate::script::spec_load_table(
                            old(self)@.story.scripts,
                            file.map@,
                        ),
                        ..old(self)@.story
                    },
                    name@,
                    None,
                ),
                None => final(self)@.story == (ScriptView {
                    scripts: crate::script::spec_load_table(old(self)@.story.scripts, file.map@),
                    ..old(self)@.story
                }),
            },
    {
        self.story.load_scripts(file.map);
        match file.default {
            Some(name) => {
                self.story.set_script(name.as_str(), None);
            },
            None => {
            },
        }
    }
}

/// One script step's effect on the whole game, with whether the engine
/// auto-continues (`true`) or stops awaiting input (`false`).
///
/// Every lookup by name is best-effort: an unknown entity, character,
/// background, transition, music or script name makes that part of the step
/// a silent no-op, never a failure.
pub open spec fn spec_execute_step(g: GameView, step: StepView) -> (GameView, bool) {
    match step {
        StepView::Dialogue(speaker, content) => (
            GameView {
                ui: crate::gui::UiView {
                    textbox: TextBoxView { text_v: spec_lines(content), text_changed: true },
                    speaker_box: match g.ui.speaker_box {
                        Some(_) => Some(
                            TextBoxView { text_v: spec_lines(speaker), text_changed: true },
                        ),
                        None => None,
                    },
                },
                ..g
            },
            false,
        ),
        StepView::DialogueContinue(content) => (
            GameView {
                ui: crate::gui::UiView {
                    textbox: TextBoxView { text_v: spec_lines(content), text_changed: true },
                    ..g.ui
                },
                ..g
            },
            false,
        ),
        StepView::Show(image, state, trans) => {
            let g1 = GameView {
                stage: map_entity(g.stage, image, |e: EntityView| EntityView { visible: true, ..e }),
                ..g
            };
            let g2 = match state {
                Some(st) => spec_change_entity_state(g1, image, st).0,
                None => g1,
            };
            let g3 = match trans {
                Some(t) => spec_apply_character_transition(g2, image, t),
                None => g2,
            };
            (g3, true)
        },
        StepView::Hide(image, trans) => {
            match trans {
                Some(t) => {
                    let g1 = spec_apply_character_transition(g, image, t);
                    let g2 = GameView {
                        stage: map_entity(
                            g1.stage,
                            image,
                            |e: EntityView| EntityView { to_be_hidden: true, ..e },
                        ),
                        ..g1
                    };
                    let g3 = GameView {
                        stage: map_entity(
                            g2.stage,
                            image,
                            |e: EntityView| EntityView { visible: true, ..e },
                        ),
                        ..g2
                    };
                    (g3, true)
                },
                None => (
                    GameView {
                        stage: map_entity(
                            g.stage,
                            image,
                            |e: EntityView| EntityView { visible: false, ..e },
                        ),
                        ..g
                    },
                    true,
                ),
            }
        },
        StepView::Spawn(character, entity, maybe_pos, maybe_trans) => {
            let name = match entity {
                Some(n) => n,
                None => character,
            };
            let g1 = spec_add_to_stage(g, name, character).0;
            let g2 = match maybe_pos {
                Some(p) => spec_move_character(g1, name, p),
                None => g1,
            };
            let g3 = match maybe_trans {
                Some(t) => spec_apply_character_transition(g2, name, t),
                None => g2,
            };
            (g3, true)
        },
        StepView::Kill(name, trans) => {
            match trans {
                Some(t) => {
                    let g1 = spec_apply_character_transition(g, name, t);
                    let g2 = GameView {
                        stage: map_entity(
                            g1.stage,
                            name,
                            |e: EntityView| EntityView { to_be_killed: true, ..e },
                        ),
                        ..g1
                    };
                    (g2, true)
                },
                None => (GameView { stage: remove_entry(g.stage, name), ..g }, true),
            }
        },
        StepView::Move(name, pos) => (spec_move_character(g, name, pos), true),
        StepView::Stage(bg) => (spec_set_background(g, bg), true),
        StepView::GoTo(name, anchor) => {
            let nm = match name {
                Some(n) => n,
                None => if 0 <= g.story.index.0 < g.story.scripts.len() {
                    g.story.scripts[g.story.index.0].0
                } else {
                    Seq::empty()
                },
            };
            (GameView { story: spec_set_script(g.story, nm, anchor), ..g }, true)
        },
        StepView::Play(name) => (
            GameView {
                music: match g.music {
                    Some(m) => Some(spec_set_music(m, name)),
                    None => None,
                },
                ..g
            },
            true,
        ),
        StepView::End => (
            GameView { story: ScriptView { step: g.story.step - 1, ..g.story }, ..g },
            false,
        ),
    }
}

/// The most script steps one advance executes before giving up: a safety
/// valve against scripts that jump in a circle without ever blocking.
pub const MAX_ADVANCE: usize = 1000000;

/// The engine between two blocking steps: still running, or stopped and
/// awaiting input.
pub ghost enum RunState {
    /// The engine would go on executing from this state.
    Running(GameView),
    /// The engine stopped in this state, awaiting the next advance signal.
    Stopped(GameView),
}

/// One iteration of the advance loop: execute the step under the cursor,
/// or move to the next anchor when the script has run out.
pub open spec fn spec_advance_once(g: GameView) -> RunState {
    if g.story.step < g.story.script.len() {
        let st = g.story.script[g.story.step];
        let g1 = GameView { story: ScriptView { step: g.story.step + 1, ..g.story }, ..g };
        let (g2, cont) = spec_execute_step(g1, st);
        if cont {
            RunState::Running(g2)
        } else {
            RunState::Stopped(g2)
        }
    } else {
        RunState::Running(GameView { story: spec_next_script(g.story), ..g })
    }
}

/// `n` iterations of the advance loop, stopping early at a blocking step.
pub open spec fn spec_advance(g: GameView, n: nat) -> RunState
    decreases n,
{
    if n == 0 {
        RunState::Running(g)
    } else {
        match spec_advance(g, (n - 1) as nat) {
            RunState::Running(x) => spec_advance_once(x),
            RunState::Stopped(x) => RunState::Stopped(x),
        }
    }
}

impl Game {
    /// Set whether a staged entity is visible; an unknown name is silently
    /// ignored.
    fn set_entity_visible(&mut self, name: &str, visible: bool)
        requires
            old(self).wf(),
        ensures
            final(self)@ == (GameView {
                stage: map_entity(
                    old(self)@.stage,
                    name@,
                    |e: EntityView| EntityView { visible, ..e },
                ),
                ..old(self)@
            }),
            final(self).wf(),
    {
        proof {
            lemma_map_entity_wf(
                old(self)@.stage,
                name@,
                |e: EntityView| EntityView { visible, ..e },
            );
            lemma_key_index(self@.stage, name@);
        }
        match self.stage.get_full(name) {
            Some((i, _)) => {
                let entity = self.stage.value_at_mut(i);
                entity.set_visible(visible);
            },
            None => {
            },
        }
    }

    /// Mark a staged entity as awaiting removal from view once its
    /// transition finishes; an unknown name is silently ignored.
    fn mark_to_be_hidden(&mut self, name: &str)
        requires
            old(self).wf(),
        ensures
            final(self)@ == (GameView {
                stage: map_entity(
                    old(self)@.stage,
                    name@,
                    |e: EntityView| EntityView { to_be_hidden: true, ..e },
                ),
                ..old(self)@
            }),
            final(self).wf(),
    {
        proof {
            lemma_map_entity_wf(
                old(self)@.stage,
                name@,
                |e: EntityView| EntityView { to_be_hidden: true, ..e },
            );
            lemma_key_index(self@.stage, name@);
        }
        match self.stage.get_full(name) {
            Some((i, _)) => {
                let entity = self.stage.value_at_mut(i);
                entity.to_be_hidden = true;
            },
            None => {
            },
        }
    }

    /// Mark a staged entity as awaiting removal from the stage once its
    /// transition finishes; an unknown name is silently ignored.
    fn mark_to_be_killed(&mut self, name: &str)
        requires
            old(self).wf(),
        ensures
            final(self)@ == (GameView {
                stage: map_entity(
                    old(self)@.stage,
                    name@,
                    |e: EntityView| EntityView { to_be_killed: true, ..e },
                ),
                ..old(self)@
            }),
            final(self).wf(),
    {
        proof {
            lemma_map_entity_wf(
                old(self)@.stage,
                name@,
                |e: EntityView| EntityView { to_be_killed: true, ..e },
            );
            lemma_key_index(self@.stage, name@);
        }
        match self.stage.get_full(name) {
            Some((i, _)) => {
                let entity = self.stage.value_at_mut(i);
                entity.to_be_killed = true;
            },
            None => {
            },
        }
    }

    /// Execute one step against the game, per [`spec_execute_step`]; true
    /// means the engine continues to the next step in the same advance.
    #[verifier::rlimit(100)]
    fn execute_step(&mut self, step: ScriptStep) -> (r: bool)
        requires
            old(self).wf(),
            step matches ScriptStep::End ==> old(self).story.step >= 1,
        ensures
            (final(self)@, r) == spec_execute_step(old(self)@, step.deep_view()),
            final(self).wf(),
    {
        match step {
            ScriptStep::Dialogue(speaker, content) => {
                self.ui.textbox.set_text(content);
                match &mut self.ui.speaker_box {
                    Some(e) => {
                        e.set_text(speaker);
                    },
                    None => {
                    },
                }
                false
            },
            ScriptStep::DialogueContinue(content) => {
                self.ui.textbox.set_text(content);
                false
            },
            ScriptStep::Show(image, possible_state, trans) => {
                self.set_entity_visible(image.as_str(), true);
                match possible_state {
                    Some(state) => {
                        self.change_entity_state(image.as_str(), state.as_str());
                    },
                    None => {
                    },
                }
                match trans {
                    Some(t) => {
                        self.apply_character_transition(image.as_str(), t.as_str());
                    },
                    None => {
                    },
                }
                true
            },
            ScriptStep::Hide(image, trans) => {
                match trans {
                    Some(t) => {
                        self.apply_character_transition(image.as_str(), t.as_str());
                        self.mark_to_be_hidden(image.as_str());
                        self.set_entity_visible(image.as_str(), true);
                    },
                    None => {
                        self.set_entity_visible(image.as_str(), false);
                    },
                }
                true
            },
            ScriptStep::Spawn(character, entity, maybe_pos, maybe_trans) => {
                let name = match entity {
                    Some(n) => n,
                    None => character.clone(),
                };
                self.add_to_stage(name.clone(), character);
                match maybe_pos {
                    Some(pos) => {
                        self.move_character(name.as_str(), pos);
                    },
                    None => {
                    },
                }
                match maybe_trans {
                    Some(trans) => {
                        self.apply_character_transition(name.as_str(), trans.as_str());
                    },
                    None => {
                    },
                }
                true
            },
            ScriptStep::Kill(name, trans) => {
                match trans {
                    Some(t) => {
                        self.apply_character_transition(name.as_str(), t.as_str());
                        self.mark_to_be_killed(name.as_str());
                    },
                    None => {
                        self.stage.remove(name.as_str());
                    },
                }
                true
            },
            ScriptStep::Move(name, pos) => {
                self.move_character(name.as_str(), pos);
                true
            },
            ScriptStep::Stage(bg) => {
                self.set_background(bg.as_str());
                true
            },
            ScriptStep::GoTo(name, anchor) => {
                let nm: String = match name {
                    Some(n) => n,
                    None => match self.story.scripts.get_index(self.story.index.0) {
                        Some((k, _)) => k.clone(),
                        None => String::new(),
                    },
                };
                self.story.set_script(nm.as_str(), anchor);
                true
            },
            ScriptStep::Play(name) => {
                match &mut self.music {
                    Some(m) => {
                        let _ = m.set_music(name.as_str());
                    },
                    None => {
                    },
                }
                true
            },
            ScriptStep::End => {
                self.story.step = self.story.step - 1;
                false
            },
        }
    }

    /// Execute script steps from the cursor on, through staging, jumps and
    /// whole-anchor boundaries, until a step awaits input: a dialogue line
    /// stops the advance, and so does the (possibly synthetic) `End` of the
    /// story.
    ///
    /// The result is exactly a run of the advance loop: some number of
    /// iterations of [`spec_advance_once`] ending in a stop.  A script that
    /// jumps in a circle without ever blocking is cut off after
    /// [`MAX_ADVANCE`] steps, still mid-run.
    pub fn next_step(&mut self)
        requires
            old(self).wf(),
        ensures
            final(self).wf(),
            (exists|n: nat| spec_advance(old(self)@, n) == RunState::Stopped(final(self)@))
                || spec_advance(old(self)@, MAX_ADVANCE as nat) == RunState::Running(
                final(self)@,
            ),
    {
        let ghost g0 = old(self)@;
        let mut iter: usize = 0;
        loop
            invariant
                self.wf(),
                g0 == old(self)@,
                iter <= MAX_ADVANCE,
                spec_advance(g0, iter as nat) == RunState::Running(self@),
            decreases MAX_ADVANCE - iter,
        {
            if iter == MAX_ADVANCE {
                return ;
            }
            let len = self.story.script.len();
            if self.story.step < len {
                self.story.step += 1;
                let st = self.story.script[self.story.step - 1].clone();
                let cont = self.execute_step(st);
                proof {
                    assert(spec_advance(g0, iter as nat + 1) == if cont {
                        RunState::Running(self@)
                    } else {
                        RunState::Stopped(self@)
                    });
                }
                iter += 1;
                if !cont {
                    proof {
                        assert(spec_advance(old(self)@, iter as nat) == RunState::Stopped(self@));
                    }
                    return ;
                }
            } else {
                self.story.next_script();
                iter += 1;
            }
        }
    }

    /// React to a game event: on a continue signal, finish every running
    /// transition and advance the story, per [`Game::next_step`].
    pub fn handle_game_event(&mut self, event: GameEvent)
        requires
            old(self).wf(),
        ensures
            final(self).wf(),
            (exists|n: nat|
                spec_advance(after_finish(old(self)@), n) == RunState::Stopped(final(self)@))
                || spec_advance(after_finish(old(self)@), MAX_ADVANCE as nat)
                == RunState::Running(final(self)@),
    {
        match event {
            GameEvent::Continue => {
                self.finish_transitions();
                self.next_step();
            },
        }
    }

    /// Finish the running transition of every staged entity.
    fn finish_transitions(&mut self)
        requires
            old(self).wf(),
        ensures
            final(self)@ == (GameView { stage: finish_all(old(self)@.stage), ..old(self)@ }),
            final(self).wf(),
    {
        let ghost st0 = self@.stage;
        let n = self.stage.len();
        let mut i: usize = 0;
        proof {
            assert(finish_upto(st0, 0) =~= st0);
        }
        while i < n
            invariant
                i <= n,
                n == st0.len(),
                st0 == old(self)@.stage,
                distinct_keys(st0),
                self@ == (GameView { stage: finish_upto(st0, i as int), ..old(self)@ }),
                self.wf(),
            decreases n - i,
        {
            proof {
                lemma_finish_upto_keys(st0, i as int);
            }
            let entity = self.stage.value_at_mut(i);
            entity.finish();
            proof {
                assert(self@.stage =~= finish_upto(st0, i as int + 1));
            }
            i += 1;
        }
        proof {
            assert(finish_upto(st0, n as int) =~= finish_all(st0));
        }
    }
}

/// The game with every staged entity's transition finished.
pub open spec fn after_finish(g: GameView) -> GameView {
    GameView { stage: finish_all(g.stage), ..g }
}

/// The stage with every entity's transition finished.
pub open spec fn finish_all(stage: Seq<(Seq<char>, EntityView)>) -> Seq<(Seq<char>, EntityView)> {
    stage.map_values(|e: (Seq<char>, EntityView)| (e.0, EntityView { anim: None, ..e.1 }))
}

/// The stage with the first `i` entities' transitions finished.
pub open spec fn finish_upto(stage: Seq<(Seq<char>, EntityView)>, i: int) -> Seq<
    (Seq<char>, EntityView),
> {
    Seq::new(
        stage.len(),
        |j: int|
            if j < i {
                (stage[j].0, EntityView { anim: None, ..stage[j].1 })
            } else {
                stage[j]
            },
    )
}

/// Finishing keeps the stage's keys.
pub proof fn lemma_finish_upto_keys(stage: Seq<(Seq<char>, EntityView)>, i: int)
    requires
        distinct_keys(stage),
    ensures
        distinct_keys(finish_upto(stage, i)),
        finish_upto(stage, i).len() == stage.len(),
{
    let u = finish_upto(stage, i);
    assert(forall|j: int| 0 <= j < u.len() ==> u[j].0 == stage[j].0);
}

/// Law: the `End` step is sticky.  On a game whose story holds the single
/// instruction `End` with nothing yet executed, any number of advance
/// iterations leaves the game exactly as it was: the engine reports a stop
/// at `End` forever and never runs out of bounds.
pub proof fn lemma_sticky_end(g: GameView, n: nat)
    requires
        g.story.script == seq![StepView::End],
        g.story.step == 0,
    ensures
        spec_advance(g, n) == RunState::Running(g) || spec_advance(g, n) == RunState::Stopped(g),
    decreases n,
{
    if n > 0 {
        lemma_sticky_end(g, (n - 1) as nat);
        assert(g.story.script[0] == StepView::End);
        assert(spec_advance_once(g) == RunState::Stopped(g)) by {
            let g1 = GameView { story: ScriptView { step: 1, ..g.story }, ..g };
            let (g2, cont) = spec_execute_step(g1, StepView::End);
            assert(g2.story == g.story);
            assert(g2 == g);
        }
    }
}

/// Law, continued: whatever state an advance on such a game stops in — or
/// is cut off in — that state is the game unchanged.
pub proof fn lemma_sticky_end_stops(g: GameView, h: GameView, n: nat)
    requires
        g.story.script == seq![StepView::End],
        g.story.step == 0,
        spec_advance(g, n) == RunState::Stopped(h) || spec_advance(g, n) == RunState::Running(h),
    ensures
        h == g,
{
    lemma_sticky_end(g, n);
}

/// Law: a `Show` of an entity that is not on the stage is a silent no-op:
/// the game is unchanged, whatever state or transition the step names, and
/// the engine auto-continues.
pub proof fn lemma_show_unknown_key(
    g: GameView,
    name: Seq<char>,
    state: Option<Seq<char>>,
    trans: Option<Seq<char>>,
)
    requires
        !has_key(g.stage, name),
    ensures
        spec_execute_step(g, StepView::Show(name, state, trans)) == (g, true),
{
    assert(GameView { stage: g.stage, ..g } == g);
}

/// Law: a jump with no script name stays in the current script.  With an
/// anchor name it selects that anchor of the current script; with no
/// anchor either it restarts the current script at its first anchor.
pub proof fn lemma_goto_defaults(g: GameView, anchor: Option<Seq<char>>)
    requires
        crate::script::table_wf(g.story.scripts),
        0 <= g.story.index.0 < g.story.scripts.len(),
    ensures
        ({
            let anchors = g.story.scripts[g.story.index.0].1;
            let (g2, cont) = spec_execute_step(g, StepView::GoTo(None, anchor));
            &&& cont == true
            &&& g2 == (GameView {
                story: spec_set_script(
                    g.story,
                    g.story.scripts[g.story.index.0].0,
                    anchor,
                ),
                ..g
            })
            &&& g2.story.index.0 == g.story.index.0
            &&& g2.story.step == 0
            &&& (match anchor {
                None => anchors.len() > 0 ==> g2.story.script == anchors[0].1 && g2.story.index
                    == (g.story.index.0, 0int),
                Some(a) => has_key(anchors, a) ==> g2.story.script == value_of(anchors, a)
                    && g2.story.index.1 == key_index(anchors, a),
            })
        }),
{
    let nm = g.story.scripts[g.story.index.0].0;
    crate::strmap::lemma_key_index_of_present(g.story.scripts, nm, g.story.index.0);
    let anchors = g.story.scripts[g.story.index.0].1;
    match anchor {
        Some(a) => {
            lemma_key_index(anchors, a);
        },
        None => {
        },
    }
}

} // verus!
