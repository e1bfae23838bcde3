//! Tests of the story engine: anchor selection, advancing, staging and the
//! silent-no-op policy.

use gobu::game::Game;
use gobu::input::GameEvent;
use gobu::script::{Script, ScriptStep};
use gobu::character::Character;
use gobu::gui::TextBox;
use gobu::animation::{Animation, TransitionKind};
use gobu::music::SinkCmd;
use gobu::util::ScriptsFromFile;
use gobu::strmap::StrMap;
use gobu::{Num, Position};

fn textbox_text(b: &TextBox) -> String {
    b.text_v.join("\n")
}

fn game_with_script(name: &str, text: &str) -> Game {
    let mut game = Game::new();
    game.story
        .load_from_str(name.to_string(), text)
        .expect("the script should parse");
    game.story.set_script(name, None);
    game
}

// Round-trip anchors: selecting an anchor by name lands on exactly its
// instructions, and next_script walks the rest in source order, ending in
// the synthetic End.
#[test]
fn roundtrip_anchors() {
    let mut game = game_with_script("s", ":a\n\"first\"\n:b\n\"second\"\n:c\n\"third\"\n");
    game.story.set_script("s", Some("b".to_string()));
    assert_eq!(game.story.index, (0, 1));
    assert_eq!(game.story.script.len(), 1);
    assert!(matches!(game.story.script[0], ScriptStep::DialogueContinue(ref t) if t == "second"));

    game.story.set_script("s", Some("a".to_string()));
    assert_eq!(game.story.index, (0, 0));
    game.story.next_script();
    assert_eq!(game.story.index, (0, 1));
    assert!(matches!(game.story.script[0], ScriptStep::DialogueContinue(ref t) if t == "second"));
    game.story.next_script();
    assert_eq!(game.story.index, (0, 2));
    assert!(matches!(game.story.script[0], ScriptStep::DialogueContinue(ref t) if t == "third"));
    game.story.next_script();
    assert_eq!(game.story.script.len(), 1);
    assert!(matches!(game.story.script[0], ScriptStep::End));
    game.story.next_script();
    assert!(matches!(game.story.script[0], ScriptStep::End));
}

// Selecting a missing script or anchor leaves an empty instruction list
// rather than failing.
#[test]
fn set_script_missing_is_empty() {
    let mut game = game_with_script("s", "\"hello\"");
    game.story.set_script("nope", None);
    assert!(game.story.script.is_empty());
    assert_eq!(game.story.index, (0, 0));
    game.story.set_script("s", Some("ghost".to_string()));
    assert!(game.story.script.is_empty());
}

// Dialogue blocks: the first advance stops at the dialogue, the second at
// the continuation, with the speaker unchanged.
#[test]
fn dialogue_blocks() {
    let mut game = game_with_script("s", "\"A\" : \"hello\"\n\"continue text\"\n");
    game.set_speaker_box(TextBox::new());

    game.next_step();
    assert_eq!(textbox_text(&game.ui.textbox), "hello");
    assert_eq!(textbox_text(game.ui.speaker_box.as_ref().unwrap()), "A");

    game.next_step();
    assert_eq!(textbox_text(&game.ui.textbox), "continue text");
    assert_eq!(textbox_text(game.ui.speaker_box.as_ref().unwrap()), "A");
}

// Auto-continue chaining: Show and Move do not block, so one advance runs
// through them and stops at the dialogue.
#[test]
fn auto_continue_chaining() {
    let mut game = game_with_script("s", "SHOW 'x' MOVE 'x' (1,2) \"A\":\"hi\"");
    let chara = Character::new("normal".to_string(), "x_normal".to_string());
    game.add_character("x".to_string(), chara);
    game.add_to_stage("x".to_string(), "x".to_string());

    game.next_step();
    assert_eq!(textbox_text(&game.ui.textbox), "hi");
    let entity = game.stage.get("x").unwrap();
    assert!(entity.visible);
    assert_eq!(entity.pos, Position {
        x: Num { neg: false, mantissa: 1, exp: 0 },
        y: Num { neg: false, mantissa: 2, exp: 0 },
    });
}

// Sticky End: a one-instruction script [End]; every advance reports the
// same stop, with nothing out of bounds and nothing changed.
#[test]
fn sticky_end() {
    let mut game = game_with_script("s", "END");
    for _ in 0..5 {
        game.next_step();
        assert_eq!(game.story.step, 0);
        assert_eq!(game.story.script.len(), 1);
        assert!(matches!(game.story.script[0], ScriptStep::End));
    }
}

// Running off the end of the last anchor lands in a synthetic End that
// stays put over repeated advances.
#[test]
fn overrun_becomes_sticky_end() {
    let mut game = game_with_script("s", "\"only\"");
    game.next_step();
    assert_eq!(textbox_text(&game.ui.textbox), "only");
    for _ in 0..3 {
        game.next_step();
        assert!(matches!(game.story.script[0], ScriptStep::End));
    }
}

// Unknown-key resilience: a Show of an entity that is not on the stage
// performs no mutation and does not error.
#[test]
fn unknown_key_show_is_noop() {
    let mut game = game_with_script("s", "SHOW 'nonexistent'\n\"d\":\"t\"");
    game.next_step();
    assert_eq!(game.stage.len(), 0);
    assert_eq!(textbox_text(&game.ui.textbox), "t");
}

// The same policy for the other staging verbs: nothing is there to change,
// so nothing changes and nothing fails.
#[test]
fn unknown_keys_everywhere_are_noops() {
    let mut game = game_with_script(
        "s",
        "HIDE 'ghost' MOVE 'ghost' (1,1) KILL 'ghost' STAGE 'void' PLAY 'quiet' SPAWN 'ghost' END",
    );
    game.next_step();
    assert_eq!(game.stage.len(), 0);
    assert!(game.background.is_none());
    assert!(matches!(game.story.script[game.story.step], ScriptStep::End));
}

// GoTo default target: a jump with no script name stays in the current
// script; with no anchor either it restarts at the first anchor.
#[test]
fn goto_default_target() {
    let mut game = game_with_script("s", ":a\n-> :anchor2\n:anchor2\n\"there\"\n");
    game.next_step();
    assert_eq!(textbox_text(&game.ui.textbox), "there");
    assert_eq!(game.story.index, (0, 1));
}

#[test]
fn goto_no_anchor_restarts_first() {
    // The jump stands in the second anchor; with neither name it must go
    // back to the first anchor of the same script.
    let mut game = game_with_script("s", ":a\n\"top\"\n:b\n-> :\n");
    game.story.set_script("s", Some("b".to_string()));
    game.next_step();
    assert_eq!(textbox_text(&game.ui.textbox), "top");
    assert_eq!(game.story.index, (0, 0));
}

#[test]
fn goto_other_script() {
    let mut game = game_with_script("one", "-> two:greet\n");
    game.story
        .load_from_str("two".to_string(), ":greet\n\"hi from two\"\n")
        .unwrap();
    game.story.set_script("one", None);
    game.next_step();
    assert_eq!(textbox_text(&game.ui.textbox), "hi from two");
    assert_eq!(game.story.index, (1, 0));
}

// Merge/override: loading a script name twice keeps the later table, with
// no duplicate entry and the table order kept.
#[test]
fn merge_override_scripts() {
    let mut story = Script::new();
    story.load_from_str("s".to_string(), ":a\n\"old a\"\n:b\n\"old b\"\n").unwrap();
    story.load_from_str("t".to_string(), "\"other\"").unwrap();
    story.load_from_str("s".to_string(), ":a\n\"new a\"\n:c\n\"new c\"\n").unwrap();

    assert_eq!(story.scripts.len(), 2);
    let (name0, anchors) = story.scripts.get_index(0).unwrap();
    assert_eq!(name0.as_str(), "s");
    assert_eq!(anchors.len(), 2);
    let (a0, steps_a) = anchors.get_index(0).unwrap();
    assert_eq!(a0.as_str(), "a");
    assert!(matches!(steps_a[0], ScriptStep::DialogueContinue(ref t) if t == "new a"));
    let (a1, _) = anchors.get_index(1).unwrap();
    assert_eq!(a1.as_str(), "c");
    let (name1, _) = story.scripts.get_index(1).unwrap();
    assert_eq!(name1.as_str(), "t");
}

// Spawning through the script: the entity appears under its stage name,
// positioned and with its transition started.
#[test]
fn spawn_through_script() {
    let mut game = game_with_script("s", "SPAWN 'cat' as 'left cat' at (2, 3) with 'fade'\nEND");
    let mut chara = Character::new("normal".to_string(), "cat_normal".to_string());
    chara.add_state("sad".to_string(), "cat_sad".to_string());
    game.add_character("cat".to_string(), chara);
    game.anims.insert_char_trans("fade".to_string(), TransitionKind::FadeIn(Num {
        neg: false,
        mantissa: 5,
        exp: -1,
    }));

    game.next_step();
    let entity = game.stage.get("left cat").unwrap();
    assert_eq!(entity.name.as_str(), "cat");
    assert_eq!(entity.texture.as_str(), "cat_normal");
    assert!(entity.visible);
    assert_eq!(entity.pos.x, Num { neg: false, mantissa: 2, exp: 0 });
    assert_eq!(entity.anim.as_ref().unwrap().as_str(), "fade");
}

// Show with a state switches the texture; Hide with a transition defers
// the hiding; Kill without one removes the entity at once.
#[test]
fn show_hide_kill_effects() {
    let mut game = game_with_script(
        "s",
        ":one\nSHOW 'cat'~'sad'\nEND\n:two\nHIDE 'cat' with 'fade'\nEND\n:three\nKILL 'cat'\nEND\n",
    );
    let mut chara = Character::new("normal".to_string(), "cat_normal".to_string());
    chara.add_state("sad".to_string(), "cat_sad".to_string());
    game.add_character("cat".to_string(), chara);
    game.add_to_stage("cat".to_string(), "cat".to_string());
    game.anims.insert_char_trans("fade".to_string(), TransitionKind::FadeOut(Num {
        neg: false,
        mantissa: 1,
        exp: 0,
    }));

    game.story.set_script("s", Some("one".to_string()));
    game.next_step();
    assert_eq!(game.stage.get("cat").unwrap().texture.as_str(), "cat_sad");

    game.story.set_script("s", Some("two".to_string()));
    game.next_step();
    let entity = game.stage.get("cat").unwrap();
    assert!(entity.to_be_hidden);
    assert!(entity.visible);
    assert_eq!(entity.anim.as_ref().unwrap().as_str(), "fade");

    game.story.set_script("s", Some("three".to_string()));
    game.next_step();
    assert!(game.stage.get("cat").is_none());
}

// Hide without a transition hides at once.
#[test]
fn hide_without_transition() {
    let mut game = game_with_script("s", "HIDE 'cat'\nEND");
    game.add_character(
        "cat".to_string(),
        Character::new("normal".to_string(), "cat_normal".to_string()),
    );
    game.add_to_stage("cat".to_string(), "cat".to_string());
    game.next_step();
    let entity = game.stage.get("cat").unwrap();
    assert!(!entity.visible);
    assert!(!entity.to_be_hidden);
}

// Kill with a transition defers the removal to the update loop.
#[test]
fn kill_with_transition_defers() {
    let mut game = game_with_script("s", "KILL 'cat' with 'fade'\nEND");
    game.add_character(
        "cat".to_string(),
        Character::new("normal".to_string(), "cat_normal".to_string()),
    );
    game.add_to_stage("cat".to_string(), "cat".to_string());
    game.anims.insert_char_trans("fade".to_string(), TransitionKind::FadeOut(Num {
        neg: false,
        mantissa: 1,
        exp: 0,
    }));
    game.next_step();
    let entity = game.stage.get("cat").unwrap();
    assert!(entity.to_be_killed);
    assert_eq!(entity.anim.as_ref().unwrap().as_str(), "fade");
}

// The Stage verb switches the background to the key's texture handle.
#[test]
fn stage_sets_background() {
    let mut game = game_with_script("s", "STAGE 'street'\nEND");
    game.add_background("street".to_string(), "street_day".to_string());
    game.next_step();
    assert_eq!(game.background.as_ref().unwrap().as_str(), "street_day");
}

// The Play verb queues the named piece and a resume for the audio sink.
#[test]
fn play_queues_music() {
    let mut game = game_with_script("s", "PLAY 'theme'\nEND");
    game.enable_music();
    let music = game.music.as_mut().unwrap();
    music.add_music("theme".to_string(), vec![1, 2, 3]);
    music.set_loop(false);

    game.next_step();
    let cmds = game.music.as_mut().unwrap().take_pending();
    assert_eq!(cmds.len(), 2);
    assert!(matches!(cmds[0], SinkCmd::Append(ref b, false) if b == &vec![1u8, 2, 3]));
    assert!(matches!(cmds[1], SinkCmd::Play));
    assert!(game.music.as_mut().unwrap().take_pending().is_empty());
}

// An unknown piece leaves the queue untouched.
#[test]
fn play_unknown_music_is_noop() {
    let mut game = game_with_script("s", "PLAY 'nothing'\nEND");
    game.enable_music();
    game.next_step();
    assert!(game.music.as_mut().unwrap().take_pending().is_empty());
}

// Loading a table of scripts selects the default script when one is named.
#[test]
fn load_scripts_with_default() {
    let mut map: StrMap<StrMap<Vec<ScriptStep>>> = StrMap::new();
    let table = gobu::script::parser::translate("\"from second\"").unwrap();
    map.insert(
        "first".to_string(),
        gobu::script::parser::translate("\"from first\"").unwrap(),
    );
    map.insert("second".to_string(), table);
    let mut game = Game::new();
    game.load_scripts(ScriptsFromFile { default: Some("second".to_string()), map });
    game.next_step();
    assert_eq!(textbox_text(&game.ui.textbox), "from second");
}

// A continue signal first finishes every running transition, then
// advances the story.
#[test]
fn continue_signal_finishes_transitions() {
    let mut game = game_with_script("s", "SHOW 'cat' with 'fade'\n\"A\":\"one\"\n\"B\":\"two\"\n");
    game.add_character(
        "cat".to_string(),
        Character::new("normal".to_string(), "cat_normal".to_string()),
    );
    game.add_to_stage("cat".to_string(), "cat".to_string());
    game.anims.insert_char_trans("fade".to_string(), TransitionKind::FadeIn(Num {
        neg: false,
        mantissa: 1,
        exp: 0,
    }));

    game.next_step();
    assert_eq!(game.stage.get("cat").unwrap().anim.as_ref().unwrap().as_str(), "fade");
    assert_eq!(textbox_text(&game.ui.textbox), "one");

    game.handle_game_event(GameEvent::Continue);
    assert!(game.stage.get("cat").unwrap().anim.is_none());
    assert_eq!(textbox_text(&game.ui.textbox), "two");
}
