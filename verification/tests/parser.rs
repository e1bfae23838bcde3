//! Tests of the script parser: each production alone, and whole texts.

use gobu::script::parser::dialogue::{dialogue, dialogue_continue};
use gobu::script::parser::goto::goto;
use gobu::script::parser::kill::kill;
use gobu::script::parser::move_p::move_p;
use gobu::script::parser::spawn::spawn;
use gobu::script::parser::stage::stage;
use gobu::script::parser::end::end;
use gobu::script::parser::visible::{show, hide_p};
use gobu::script::parser::values::pos;
use gobu::script::parser::translate;
use gobu::script::ScriptStep;
use gobu::error::ScriptImportError;
use gobu::{Num, Position};

fn num(neg: bool, mantissa: u64, exp: i32) -> Num {
    Num { neg, mantissa, exp }
}

#[test]
fn test_dialogue() {
    let (j, step) = dialogue_continue("\"hi there\"", 0).unwrap();
    assert_eq!(j, 10);
    assert!(matches!(step, ScriptStep::DialogueContinue(ref t) if t == "hi there"));

    let (_, step) = dialogue(r#""Main Character" : "Hi there""#, 0).unwrap();
    assert!(
        matches!(step, ScriptStep::Dialogue(ref s, ref t) if s == "Main Character" && t == "Hi there")
    );
}

#[test]
fn test_parser_goto() {
    let (_, step) = goto(r#"-> name:anchor"#, 0).unwrap();
    assert!(
        matches!(step, ScriptStep::GoTo(Some(ref n), Some(ref a)) if n == "name" && a == "anchor")
    );
    let (_, step) = goto(r#"-> name:"#, 0).unwrap();
    assert!(matches!(step, ScriptStep::GoTo(Some(ref n), None) if n == "name"));
    let (_, step) = goto(r#"-> :anchor"#, 0).unwrap();
    assert!(matches!(step, ScriptStep::GoTo(None, Some(ref a)) if a == "anchor"));
}

#[test]
fn parser_kill() {
    let (_, step) = kill("KILL 'character'", 0).unwrap();
    assert!(matches!(step, ScriptStep::Kill(ref e, None) if e == "character"));
}

#[test]
pub fn try_translate() {
    let table = translate(
        r#"
        "wow"
        "Much wow indeed"
        :anchor2
        "That's a different anchor"
        "I'm impressed"
    "#,
    )
    .unwrap();
    assert_eq!(table.len(), 2);
    let (name0, main) = table.get_index(0).unwrap();
    assert_eq!(name0.as_str(), "main");
    assert_eq!(main.len(), 2);
    assert!(matches!(main[0], ScriptStep::DialogueContinue(ref t) if t == "wow"));
    assert!(matches!(main[1], ScriptStep::DialogueContinue(ref t) if t == "Much wow indeed"));
    let (name1, second) = table.get_index(1).unwrap();
    assert_eq!(name1.as_str(), "anchor2");
    assert_eq!(second.len(), 2);
    assert!(
        matches!(second[0], ScriptStep::DialogueContinue(ref t) if t == "That's a different anchor")
    );
    assert!(matches!(second[1], ScriptStep::DialogueContinue(ref t) if t == "I'm impressed"));
}

#[test]
fn parser_move() {
    let (_, step) = move_p("MOVE 'character' ( 5. , 3. )", 0).unwrap();
    let expected = Position { x: num(false, 5, 0), y: num(false, 3, 0) };
    assert!(matches!(step, ScriptStep::Move(ref e, p) if e == "character" && p == expected));
}

#[test]
fn parser_spawn() {
    // A later `at` clause overrides the earlier one.
    let (_, step) = spawn("SPAWN 'Entity' as 'Death' at (4.0, 6.0) at (1., .2)", 0).unwrap();
    let expected = Position { x: num(false, 1, 0), y: num(false, 2, -1) };
    match step {
        ScriptStep::Spawn(character, name, p, trans) => {
            assert_eq!(character, "Entity");
            assert_eq!(name.unwrap(), "Death");
            assert_eq!(p.unwrap(), expected);
            assert!(trans.is_none());
        },
        other => panic!("not a spawn: {:?}", other),
    }
}

#[test]
fn test_parser_stage() {
    let (_, step) = stage(r#"STAGE 'background2'"#, 0).unwrap();
    assert!(matches!(step, ScriptStep::Stage(ref bg) if bg == "background2"));
}

#[test]
fn parser_value_pos() {
    let (j, p) = pos("( 5 , 2 )", 0).unwrap();
    assert_eq!(j, 9);
    assert_eq!(p, Position { x: num(false, 5, 0), y: num(false, 2, 0) });
}

#[test]
pub fn test_parser_visible() {
    let (_, step) = show("SHOW 'cat girl'", 0).unwrap();
    assert!(matches!(step, ScriptStep::Show(ref e, None, None) if e == "cat girl"));

    let (_, step) = show("SHOW 'cat girl'~'second'", 0).unwrap();
    assert!(
        matches!(step, ScriptStep::Show(ref e, Some(ref st), None) if e == "cat girl" && st == "second")
    );

    let (_, step) = hide_p("HIDE 'cat girl'", 0).unwrap();
    assert!(matches!(step, ScriptStep::Hide(ref e, None) if e == "cat girl"));
}

#[test]
fn parser_show_with_transition() {
    let (_, step) = show("SHOW 'cat girl' ~ 'sad' with 'fade'", 0).unwrap();
    assert!(
        matches!(step, ScriptStep::Show(ref e, Some(ref st), Some(ref tr))
            if e == "cat girl" && st == "sad" && tr == "fade")
    );
}

#[test]
fn parser_hide_kill_with_transition() {
    let (_, step) = hide_p("HIDE 'x' with 'fade'", 0).unwrap();
    assert!(matches!(step, ScriptStep::Hide(ref e, Some(ref tr)) if e == "x" && tr == "fade"));
    let (_, step) = kill("KILL 'x' with 'fade'", 0).unwrap();
    assert!(matches!(step, ScriptStep::Kill(ref e, Some(ref tr)) if e == "x" && tr == "fade"));
}

#[test]
fn parser_end_and_play() {
    let (j, step) = end("  END", 0).unwrap();
    assert_eq!(j, 5);
    assert!(matches!(step, ScriptStep::End));
    let (_, step) = gobu::script::parser::play::play("PLAY 'theme'", 0).unwrap();
    assert!(matches!(step, ScriptStep::Play(ref m) if m == "theme"));
}

// The tolerant-parsing policy: unreadable coordinate text becomes zero
// rather than failing the parse.
#[test]
fn parser_move_bad_coordinate() {
    let (_, step) = move_p("MOVE 'x' (bad, 3.0)", 0).unwrap();
    let expected = Position { x: num(false, 0, 0), y: num(false, 30, -1) };
    assert!(matches!(step, ScriptStep::Move(ref e, p) if e == "x" && p == expected));
}

#[test]
fn parser_number_forms() {
    let (_, p) = pos("(+4.25, -7)", 0).unwrap();
    assert_eq!(p.x, num(false, 425, -2));
    assert_eq!(p.y, num(true, 7, 0));
    // Out of the grammar: exponent notation and overlong digit runs fall
    // back to zero, like any other unreadable coordinate.
    let (_, p) = pos("(1e3, 12345678901234567890)", 0).unwrap();
    assert_eq!(p.x, Num { neg: false, mantissa: 0, exp: 0 });
    assert_eq!(p.y, Num { neg: false, mantissa: 0, exp: 0 });
    let (_, p) = pos("(.5, 19.)", 0).unwrap();
    assert_eq!(p.x, num(false, 5, -1));
    assert_eq!(p.y, num(false, 19, 0));
}

// A text with no anchor marker parses to the single anchor `main`.
#[test]
fn translate_default_anchor() {
    let table = translate("SHOW 'a'\n\"B\" : \"hello\"").unwrap();
    assert_eq!(table.len(), 1);
    let (name, steps) = table.get_index(0).unwrap();
    assert_eq!(name.as_str(), "main");
    assert_eq!(steps.len(), 2);
    assert!(matches!(steps[0], ScriptStep::Show(ref e, None, None) if e == "a"));
    assert!(matches!(steps[1], ScriptStep::Dialogue(ref s, ref t) if s == "B" && t == "hello"));
}

#[test]
fn translate_empty_text_is_main() {
    let table = translate("").unwrap();
    assert_eq!(table.len(), 1);
    let (name, steps) = table.get_index(0).unwrap();
    assert_eq!(name.as_str(), "main");
    assert!(steps.is_empty());

    let table = translate("   \n\t  ").unwrap();
    assert_eq!(table.len(), 1);
    assert!(table.get("main").unwrap().is_empty());
}

#[test]
fn translate_reports_error_position() {
    match translate("JUNK") {
        Err(ScriptImportError::Syntax(p)) => assert_eq!(p, 0),
        other => panic!("expected a syntax error: {:?}", other),
    }
    match translate("  \n!?") {
        Err(ScriptImportError::Syntax(p)) => assert_eq!(p, 3),
        other => panic!("expected a syntax error: {:?}", other),
    }
    // An instruction that starts well but breaks off fails at its start.
    match translate("\"A\" : \"ok\" SHOW x") {
        Err(ScriptImportError::Syntax(p)) => assert_eq!(p, 11),
        other => panic!("expected a syntax error: {:?}", other),
    }
}

#[test]
fn translate_duplicate_anchor_overrides() {
    let table = translate(":a\n\"one\"\n:b\n\"two\"\n:a\n\"three\"\n").unwrap();
    assert_eq!(table.len(), 2);
    let (name0, steps0) = table.get_index(0).unwrap();
    assert_eq!(name0.as_str(), "a");
    assert_eq!(steps0.len(), 1);
    assert!(matches!(steps0[0], ScriptStep::DialogueContinue(ref t) if t == "three"));
    let (name1, _) = table.get_index(1).unwrap();
    assert_eq!(name1.as_str(), "b");
}
