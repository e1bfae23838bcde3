//! Tests of the supporting models: the ordered table, the textboxes, the
//! input map, the music player and the error conversions.

use gobu::strmap::StrMap;
use gobu::gui::{TextBox, Ui};
use gobu::input::{GameInput, GameEvent};
use gobu::music::{Music, Player, PlayerMsg, PlayerAction, player_step};
use gobu::character::Character;
use gobu::animation::{Animation, TransitionKind, TransResult};
use gobu::error::{ScriptImportError, ConfigImportError, ScriptConfigImportError, GameBuildError};
use gobu::Num;

#[test]
fn strmap_keeps_insertion_order() {
    let mut m: StrMap<u32> = StrMap::new();
    m.insert("b".to_string(), 1);
    m.insert("a".to_string(), 2);
    m.insert("c".to_string(), 3);
    assert_eq!(m.len(), 3);
    assert_eq!(m.get_index(0).unwrap().0.as_str(), "b");
    assert_eq!(m.get_index(1).unwrap().0.as_str(), "a");
    assert_eq!(m.get_index(2).unwrap().0.as_str(), "c");
    assert_eq!(*m.get("a").unwrap(), 2);
    assert_eq!(m.get_full("c").unwrap(), (2, &3));
    assert!(m.get("d").is_none());
}

#[test]
fn strmap_insert_replaces_in_place() {
    let mut m: StrMap<u32> = StrMap::new();
    m.insert("a".to_string(), 1);
    m.insert("b".to_string(), 2);
    m.insert("a".to_string(), 9);
    assert_eq!(m.len(), 2);
    assert_eq!(m.get_index(0).unwrap().0.as_str(), "a");
    assert_eq!(*m.get("a").unwrap(), 9);
    assert_eq!(m.get_index(1).unwrap().0.as_str(), "b");
}

#[test]
fn strmap_remove_and_pop() {
    let mut m: StrMap<u32> = StrMap::new();
    m.insert("a".to_string(), 1);
    m.insert("b".to_string(), 2);
    m.insert("c".to_string(), 3);
    m.remove("b");
    assert_eq!(m.len(), 2);
    assert!(!m.contains_key("b"));
    assert_eq!(m.get_index(1).unwrap().0.as_str(), "c");
    let (k, v) = m.pop_first().unwrap();
    assert_eq!((k.as_str(), v), ("a", 1));
    m.remove("ghost");
    assert_eq!(m.len(), 1);
}

#[test]
fn textbox_splits_lines() {
    let mut b = TextBox::new();
    assert!(b.text_v.is_empty());
    assert!(!b.text_changed);
    b.set_text("one\ntwo\nthree".to_string());
    assert_eq!(b.text_v, vec!["one", "two", "three"]);
    assert!(b.text_changed);
    b.set_text("plain".to_string());
    assert_eq!(b.text_v, vec!["plain"]);
    b.set_text(String::new());
    assert_eq!(b.text_v, vec![""]);
}

#[test]
fn ui_starts_empty() {
    let ui = Ui::new();
    assert!(ui.textbox.text_v.is_empty());
    assert!(ui.speaker_box.is_none());
}

#[test]
fn input_maps_buttons_to_events() {
    let mut input = GameInput::new();
    assert!(input.handle_event("Space").is_none());
    input.add_continue_event("Space".to_string());
    input.add_continue_events(vec!["Left".to_string(), "Return".to_string()]);
    assert!(matches!(input.handle_event("Space"), Some(GameEvent::Continue)));
    assert!(matches!(input.handle_event("Left"), Some(GameEvent::Continue)));
    assert!(input.handle_event("Escape").is_none());

    let mut other = GameInput::new();
    other.add_continue_event("MouseLeft".to_string());
    input.add_input(other);
    assert!(matches!(input.handle_event("MouseLeft"), Some(GameEvent::Continue)));
}

#[test]
fn player_queues_messages() {
    let mut player = Player::new();
    player.set_loop(false);
    player.set(vec![9, 8]);
    player.pause();
    player.play();
    player.stop();
    let msgs = player.take_pending();
    assert_eq!(msgs.len(), 6);
    assert!(matches!(msgs[0], PlayerMsg::Loop(false)));
    assert!(matches!(msgs[1], PlayerMsg::AddMusic(ref b) if b == &vec![9u8, 8]));
    assert!(matches!(msgs[2], PlayerMsg::Play));
    assert!(matches!(msgs[3], PlayerMsg::Pause));
    assert!(matches!(msgs[4], PlayerMsg::Play));
    assert!(matches!(msgs[5], PlayerMsg::Stop));
    assert!(player.take_pending().is_empty());
}

#[test]
fn player_step_decides() {
    let (l, a) = player_step(true, PlayerMsg::AddMusic(vec![7]));
    assert!(l);
    assert!(matches!(a, PlayerAction::Append(ref b, true) if b == &vec![7u8]));

    let (l, a) = player_step(true, PlayerMsg::Loop(false));
    assert!(!l);
    assert!(matches!(a, PlayerAction::Nothing));

    let (l, a) = player_step(false, PlayerMsg::AddMusic(vec![7]));
    assert!(!l);
    assert!(matches!(a, PlayerAction::Append(_, false)));

    assert!(matches!(player_step(false, PlayerMsg::Play).1, PlayerAction::Play));
    assert!(matches!(player_step(false, PlayerMsg::Stop).1, PlayerAction::Stop));
    assert!(matches!(player_step(false, PlayerMsg::Pause).1, PlayerAction::Pause));
    assert!(matches!(player_step(false, PlayerMsg::PlayerClosed).1, PlayerAction::Close));
    assert!(matches!(player_step(false, PlayerMsg::SetVolume()).1, PlayerAction::Nothing));
}

#[test]
fn music_set_music_respects_loop_flag() {
    let mut music = Music::new();
    assert!(music.loop_);
    music.add_music("a".to_string(), vec![1]);
    assert!(music.set_music("a").is_ok());
    let cmds = music.take_pending();
    assert!(matches!(cmds[0], gobu::music::SinkCmd::Append(_, true)));
    music.set_loop(false);
    music.set_music("a").unwrap();
    let cmds = music.take_pending();
    assert!(matches!(cmds[0], gobu::music::SinkCmd::Append(_, false)));
}

#[test]
fn character_spawns_default_state() {
    let mut chara = Character::new("happy".to_string(), "girl_happy".to_string());
    chara.add_state("sad".to_string(), "girl_sad".to_string());
    let entity = chara.spawn("girl".to_string()).unwrap();
    assert_eq!(entity.texture.as_str(), "girl_happy");
    assert_eq!(entity.name.as_str(), "girl");
    assert!(entity.visible);
    assert!(!entity.to_be_hidden);
    assert!(!entity.to_be_killed);
    assert!(entity.anim.is_none());
    assert_eq!(entity.pos.x, Num { neg: false, mantissa: 0, exp: 0 });
}

#[test]
fn animation_registry_extends() {
    let fade_in = TransitionKind::FadeIn(Num { neg: false, mantissa: 1, exp: 0 });
    let fade_out = TransitionKind::FadeOut(Num { neg: false, mantissa: 2, exp: 0 });
    let mut anims = Animation::new();
    anims.insert_char_trans("fade".to_string(), fade_in);
    let mut other = Animation::new();
    other.insert_char_trans("fade".to_string(), fade_out);
    other.insert_char_trans("pop".to_string(), fade_in);
    anims.extend(other);
    assert_eq!(anims.char_trans.len(), 2);
    assert_eq!(*anims.char_trans.get("fade").unwrap(), fade_out);
    assert_eq!(*anims.char_trans.get("pop").unwrap(), fade_in);
    assert_eq!(TransResult::Continue, TransResult::Continue);
    assert_ne!(TransResult::Continue, TransResult::Finished);
}

#[test]
fn error_conversions_keep_the_kind() {
    let e: ScriptConfigImportError = ScriptImportError::Syntax(7).into();
    assert_eq!(e, ScriptConfigImportError::Syntax(7));
    let e: ScriptConfigImportError = ConfigImportError::Io.into();
    assert_eq!(e, ScriptConfigImportError::Io);
    let e: ScriptConfigImportError = ConfigImportError::Toml.into();
    assert_eq!(e, ScriptConfigImportError::Toml);
    let e: GameBuildError = ScriptConfigImportError::Syntax(3).into();
    assert_eq!(e, GameBuildError::Story(ScriptConfigImportError::Syntax(3)));
}

#[test]
fn num_zero_is_the_fallback() {
    assert_eq!(Num::zero(), Num { neg: false, mantissa: 0, exp: 0 });
}
