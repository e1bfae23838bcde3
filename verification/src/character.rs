//! Characters and the entities spawned from them.
//!
//! A [`Character`] is a template: a default state and a table from state
//! names to texture handles.  A [`CharacterEntity`] is one staged instance:
//! it knows which texture it shows, where it stands, whether it is visible,
//! and which transition is running on it.  Textures themselves are opaque
//! handles here; the embedding application maps a handle to an image.

use vstd::prelude::*;
use crate::strmap::{StrMap, has_key, value_of};
use crate::Position;

verus! {

/// The entity of a character that has been spawned onto the stage.
pub struct CharacterEntity {
    /// The handle of the texture currently shown.
    pub texture: String,
    /// Whether the character is visible on screen.
    pub visible: bool,
    /// The key of the character template this entity came from.
    pub name: String,
    /// The position of the entity, in grid coordinates.
    pub pos: Position,
    /// Set when a transition must finish before the entity is hidden; the
    /// per-frame update loop performs the hiding.
    pub to_be_hidden: bool,
    /// Set when a transition must finish before the entity is removed; the
    /// per-frame update loop performs the removal.
    pub to_be_killed: bool,
    /// The name of the transition running on the entity, if any.
    pub anim: Option<String>,
}

/// The mathematical value of a [`CharacterEntity`].
pub ghost struct EntityView {
    /// See [`CharacterEntity::texture`].
    pub texture: Seq<char>,
    /// See [`CharacterEntity::visible`].
    pub visible: bool,
    /// See [`CharacterEntity::name`].
    pub name: Seq<char>,
    /// See [`CharacterEntity::pos`].
    pub pos: Position,
    /// See [`CharacterEntity::to_be_hidden`].
    pub to_be_hidden: bool,
    /// See [`CharacterEntity::to_be_killed`].
    pub to_be_killed: bool,
    /// See [`CharacterEntity::anim`].
    pub anim: Option<Seq<char>>,
}

impl View for CharacterEntity {
    type V = EntityView;

    open spec fn view(&self) -> EntityView {
        EntityView {
            texture: self.texture@,
            visible: self.visible,
            name: self.name@,
            pos: self.pos,
            to_be_hidden: self.to_be_hidden,
            to_be_killed: self.to_be_killed,
            anim: self.anim.deep_view(),
        }
    }
}

impl DeepView for CharacterEntity {
    type V = EntityView;

    open spec fn deep_view(&self) -> EntityView {
        self@
    }
}

impl CharacterEntity {
    /// Set whether the entity is drawn.
    pub fn set_visible(&mut self, visible: bool)
        ensures
            final(self)@ == (EntityView { visible, ..old(self)@ }),
    {
        self.visible = visible;
    }

    /// Switch the texture the entity shows.
    pub fn set_texture(&mut self, texture: String)
        ensures
            final(self)@ == (EntityView { texture: texture@, ..old(self)@ }),
    {
        self.texture = texture;
    }

    /// Move the entity, in grid coordinates.
    pub fn set_pos(&mut self, pos: Position)
        ensures
            final(self)@ == (EntityView { pos, ..old(self)@ }),
    {
        self.pos = pos;
    }

    /// Start the named transition on the entity, ending any transition
    /// already running.
    pub fn apply_trans(&mut self, trans: String)
        ensures
            final(self)@ == (EntityView { anim: Some(trans@), ..old(self)@ }),
    {
        self.finish();
        self.anim = Some(trans);
    }

    /// End the running transition, if any; the embedding application moves
    /// the image to the transition's final look.
    pub fn finish(&mut self)
        ensures
            final(self)@ == (EntityView { anim: None, ..old(self)@ }),
    {
        self.anim = None;
    }
}

/// A character template, used to spawn entities onto the stage.
pub struct Character {
    /// The state an entity starts in when spawned.
    pub default: String,
    /// The texture handle of each state.
    pub state_map: StrMap<String>,
}

/// The mathematical value of a [`Character`].
pub ghost struct CharView {
    /// See [`Character::default`].
    pub default: Seq<char>,
    /// See [`Character::state_map`].
    pub state_map: Seq<(Seq<char>, Seq<char>)>,
}

impl View for Character {
    type V = CharView;

    open spec fn view(&self) -> CharView {
        CharView { default: self.default@, state_map: self.state_map@ }
    }
}

impl DeepView for Character {
    type V = CharView;

    open spec fn deep_view(&self) -> CharView {
        self@
    }
}

/// The entity a character spawns: default texture, visible, unmoved, with
/// no transition and no pending removal.
pub open spec fn spec_spawn_entity(c: CharView, name: Seq<char>) -> Option<EntityView> {
    if has_key(c.state_map, c.default) {
        Some(
            EntityView {
                texture: value_of(c.state_map, c.default),
                visible: true,
                name,
                pos: Position {
                    x: crate::Num { neg: false, mantissa: 0, exp: 0 },
                    y: crate::Num { neg: false, mantissa: 0, exp: 0 },
                },
                to_be_hidden: false,
                to_be_killed: false,
                anim: None,
            },
        )
    } else {
        None
    }
}

impl Character {
    /// The state table has distinct state names.
    pub open spec fn wf(&self) -> bool {
        self.state_map.wf()
    }

    /// Create a character whose only state is `default`, shown with
    /// `texture`.
    pub fn new(default: String, texture: String) -> (r: Character)
        ensures
            r@.default == default@,
            r@.state_map == Seq::<(Seq<char>, Seq<char>)>::empty().push((default@, texture@)),
            r.wf(),
    {
        let mut state_map: StrMap<String> = StrMap::new();
        let d = default.clone();
        state_map.insert(default, texture);
        proof {
            assert(state_map@ =~= Seq::<(Seq<char>, Seq<char>)>::empty().push((d@, texture@)));
        }
        Character { default: d, state_map }
    }

    /// Spawn an entity named `name`, per [`spec_spawn_entity`]; `None` when
    /// the default state has no texture.
    pub fn spawn(&self, name: String) -> (r: Option<CharacterEntity>)
        ensures
            match r {
                Some(e) => spec_spawn_entity(self@, name@) == Some(e@),
                None => spec_spawn_entity(self@, name@) is None,
            },
    {
        let texture = match self.state_map.get(self.default.as_str()) {
            Some(t) => t.clone(),
            None => {
                return None;
            },
        };
        Some(
            CharacterEntity {
                texture,
                visible: true,
                name,
                pos: Position { x: crate::Num::zero(), y: crate::Num::zero() },
                to_be_hidden: false,
                to_be_killed: false,
                anim: None,
            },
        )
    }

    /// Add a state (such as a mood) with its texture, replacing the
    /// texture when the state already exists.
    pub fn add_state(&mut self, name: String, texture: String)
        requires
            old(self).wf(),
        ensures
            final(self)@.default == old(self)@.default,
            final(self)@.state_map == crate::strmap::insert_entry(
                old(self)@.state_map,
                name@,
                texture@,
            ),
            final(self).wf(),
    {
        self.state_map.insert(name, texture);
    }
}

} // verus!
