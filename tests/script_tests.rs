use shadowhand::dispatch::{prepare_run, schedule, Command, Step, STEP_DELAY_MS};
use shadowhand::keys::{key_from_folded, named_key_of, resolve_key, Key};
use shadowhand::number::parse_i32;
use shadowhand::script::{
    parse_line, parse_lines, parse_script, resolve_keys, Instruction, ScriptError, Verb,
};
use shadowhand::text::{chars_of, lines_of, trim_range, word_spans};

fn parse_one(line: &str) -> Instruction {
    match parse_line(line) {
        Some(Ok(i)) => i,
        other => panic!("unexpected outcome for {:?}: {:?}", line, other),
    }
}

fn resolved_key(line: &str) -> Key {
    let parsed = parse_script(line).unwrap();
    let resolved = resolve_keys(&parsed).unwrap();
    match &resolved[0] {
        Instruction::KeyClick { key: Some(k), .. } => *k,
        Instruction::KeyDown { key: Some(k), .. } => *k,
        Instruction::KeyUp { key: Some(k), .. } => *k,
        other => panic!("not a resolved key instruction: {:?}", other),
    }
}

fn int_of(s: &str) -> Option<i32> {
    let cs = chars_of(s);
    parse_i32(&cs, 0, cs.len())
}

#[test]
fn mouse_move_to_two_integers() {
    assert!(matches!(parse_one("mouse_move_to 10 20"), Instruction::MouseMoveTo { x: 10, y: 20 }));
}

#[test]
fn mouse_move_to_missing_argument_is_arity_error() {
    match parse_line("mouse_move_to 10") {
        Some(Err(ScriptError::Arity { verb, line })) => {
            assert_eq!(verb, Verb::MouseMoveTo);
            assert_eq!(line, "mouse_move_to 10");
        }
        other => panic!("{:?}", other),
    }
}

#[test]
fn mouse_move_to_non_integer_is_integer_error() {
    match parse_line("mouse_move_to abc 20") {
        Some(Err(ScriptError::Integer { verb, line })) => {
            assert_eq!(verb, Verb::MouseMoveTo);
            assert_eq!(line, "mouse_move_to abc 20");
        }
        other => panic!("{:?}", other),
    }
}

#[test]
fn mouse_move_relative_negative_values() {
    assert!(matches!(
        parse_one("  mouse_move_relative -5 +7  "),
        Instruction::MouseMoveRelative { x: -5, y: 7 }
    ));
}

#[test]
fn mouse_buttons_take_no_arguments() {
    assert!(matches!(parse_one("mouse_click"), Instruction::MouseClick));
    assert!(matches!(parse_one("mouse_down"), Instruction::MouseDown));
    assert!(matches!(parse_one("mouse_up"), Instruction::MouseUp));
    assert!(matches!(
        parse_line("mouse_click left"),
        Some(Err(ScriptError::Arity { verb: Verb::MouseClick, .. }))
    ));
}

#[test]
fn key_click_return_symbol() {
    assert_eq!(resolved_key("key_click {return}"), Key::Return);
}

#[test]
fn key_click_symbol_is_case_insensitive() {
    assert_eq!(resolved_key("key_click {Return}"), Key::Return);
    assert_eq!(resolved_key("key_click {RETURN}"), Key::Return);
    assert_eq!(resolved_key("key_down {Shift}"), Key::Shift);
}

#[test]
fn key_click_layout_character() {
    assert_eq!(resolved_key("key_click a"), Key::Layout('a'));
}

#[test]
fn key_click_multi_character_uses_first() {
    assert_eq!(resolved_key("key_click ab"), Key::Layout('a'));
    assert_eq!(resolved_key("key_up Xyz"), Key::Layout('X'));
}

#[test]
fn key_aliases() {
    assert_eq!(resolved_key("key_click {command}"), Key::Meta);
    assert_eq!(resolved_key("key_click {meta}"), Key::Meta);
    assert_eq!(resolved_key("key_click {super}"), Key::Meta);
    assert_eq!(resolved_key("key_click {windows}"), Key::Meta);
    assert_eq!(resolved_key("key_click {option}"), Key::AltOption);
    assert_eq!(resolved_key("key_click {alt}"), Key::Alt);
    assert_eq!(resolved_key("key_click {f12}"), Key::F12);
    assert_eq!(resolved_key("key_click {F1}"), Key::F1);
}

#[test]
fn unknown_brace_name_falls_back_to_brace() {
    assert_eq!(resolved_key("key_click {nothing}"), Key::Layout('{'));
}

#[test]
fn key_click_arity() {
    assert!(matches!(
        parse_line("key_click"),
        Some(Err(ScriptError::Arity { verb: Verb::KeyClick, .. }))
    ));
    assert!(matches!(
        parse_line("key_down a b"),
        Some(Err(ScriptError::Arity { verb: Verb::KeyDown, .. }))
    ));
}

#[test]
fn key_sequence_keeps_inner_space() {
    match parse_one("key_sequence hello world") {
        Instruction::KeySequence { text } => assert_eq!(text, "hello world"),
        other => panic!("{:?}", other),
    }
    match parse_one("  key_sequence   a  b  ") {
        Instruction::KeySequence { text } => assert_eq!(text, "a  b"),
        other => panic!("{:?}", other),
    }
}

#[test]
fn key_sequence_alone_is_empty_text() {
    match parse_one("key_sequence") {
        Instruction::KeySequence { text } => assert_eq!(text, ""),
        other => panic!("{:?}", other),
    }
}

#[test]
fn unknown_verb_is_refused_before_any_call() {
    match parse_line("foo_bar") {
        Some(Err(ScriptError::UnrecognizedVerb { line })) => assert_eq!(line, "foo_bar"),
        other => panic!("{:?}", other),
    }
    let r = prepare_run("mouse_click\nfoo_bar\nmouse_up\n", STEP_DELAY_MS);
    assert!(matches!(r, Err(ScriptError::UnrecognizedVerb { .. })));
}

#[test]
fn first_error_wins() {
    let r = parse_script("mouse_move_to 1\nfoo\n");
    assert!(matches!(r, Err(ScriptError::Arity { verb: Verb::MouseMoveTo, .. })));
}

#[test]
fn empty_key_argument_does_not_resolve() {
    assert_eq!(resolve_key(""), None);
    let instrs = vec![Instruction::KeyClick { name: String::new(), key: None }];
    match resolve_keys(&instrs) {
        Err(ScriptError::KeyResolution { verb, argument }) => {
            assert_eq!(verb, Verb::KeyClick);
            assert_eq!(argument, "");
        }
        other => panic!("{:?}", other),
    }
}

#[test]
fn unresolved_key_cannot_be_scheduled() {
    let instrs = vec![Instruction::KeyUp { name: String::from("q"), key: None }];
    assert!(matches!(
        schedule(&instrs, 5),
        Err(ScriptError::KeyResolution { verb: Verb::KeyUp, .. })
    ));
}

#[test]
fn blank_lines_give_nothing() {
    assert!(parse_line("").is_none());
    assert!(parse_line("   \t  ").is_none());
    assert!(parse_line("\u{a0}\u{3000}").is_none());
    let r = parse_script("\n  \nmouse_click\n\t\n\nmouse_up\n   ").unwrap();
    assert_eq!(r.len(), 2);
}

#[test]
fn count_equals_non_blank_lines() {
    let text = "mouse_move_to 1 2\n\nkey_click a\nkey_sequence x y\r\n  \nmouse_down\n";
    assert_eq!(parse_script(text).unwrap().len(), 4);
    let lines: Vec<String> = vec!["mouse_up".to_string(), "".to_string(), "key_up {tab}".to_string()];
    assert_eq!(parse_lines(&lines).unwrap().len(), 2);
}

#[test]
fn parsing_twice_gives_the_same() {
    let text = "mouse_move_to 3 4\nkey_click {Tab}\nkey_sequence hi there\n";
    let a = format!("{:?}", parse_script(text));
    let b = format!("{:?}", parse_script(text));
    assert_eq!(a, b);
}

#[test]
fn run_plan_waits_before_each_call() {
    let text = "mouse_move_to 10 20\n\nkey_click {enter}\nkey_sequence hello world\nmouse_click\n";
    let steps = prepare_run(text, STEP_DELAY_MS).unwrap();
    assert_eq!(steps.len(), 9);
    for k in 0..5 {
        assert!(matches!(steps[2 * k], Step::Wait { millis: 1000 }));
    }
    assert!(matches!(steps[1], Step::Call(Command::MoveMouseTo { x: 10, y: 20 })));
    assert!(matches!(steps[3], Step::Call(Command::TapKey(Key::Layout('{')))));
    match &steps[5] {
        Step::Call(Command::TypeText(t)) => assert_eq!(t, "hello world"),
        other => panic!("{:?}", other),
    }
    assert!(matches!(steps[7], Step::Call(Command::ClickMouse)));
}

#[test]
fn empty_script_is_one_wait() {
    let steps = prepare_run("", 250).unwrap();
    assert_eq!(steps.len(), 1);
    assert!(matches!(steps[0], Step::Wait { millis: 250 }));
}

#[test]
fn commands_for_each_action() {
    let text = "mouse_move_relative -1 2\nmouse_down\nmouse_up\nkey_down {shift}\nkey_up {SHIFT}\n";
    let steps = prepare_run(text, 0).unwrap();
    assert!(matches!(steps[1], Step::Call(Command::MoveMouseBy { dx: -1, dy: 2 })));
    assert!(matches!(steps[3], Step::Call(Command::PressMouse)));
    assert!(matches!(steps[5], Step::Call(Command::ReleaseMouse)));
    assert!(matches!(steps[7], Step::Call(Command::PressKey(Key::Shift))));
    assert!(matches!(steps[9], Step::Call(Command::ReleaseKey(Key::Shift))));
}

#[test]
fn integer_bounds() {
    assert_eq!(int_of("2147483647"), Some(2147483647));
    assert_eq!(int_of("-2147483648"), Some(-2147483648));
    assert_eq!(int_of("2147483648"), None);
    assert_eq!(int_of("-2147483649"), None);
    assert_eq!(int_of("99999999999999999999"), None);
    assert_eq!(int_of("+0"), Some(0));
    assert_eq!(int_of("-"), None);
    assert_eq!(int_of("+"), None);
    assert_eq!(int_of(""), None);
    assert_eq!(int_of("12a"), None);
    assert_eq!(int_of("007"), Some(7));
}

#[test]
fn folded_lookup_is_exact() {
    assert_eq!(key_from_folded("{return}", "{RETURN}"), Some(Key::Return));
    assert_eq!(key_from_folded("{RETURN}", "{RETURN}"), Some(Key::Layout('{')));
    assert_eq!(key_from_folded("", ""), None);
    assert_eq!(named_key_of("{pagedown}"), Some(Key::PageDown));
    assert_eq!(named_key_of("pagedown"), None);
}

#[test]
fn text_helpers() {
    assert_eq!(lines_of("a\nb\n"), vec!["a".to_string(), "b".to_string(), "".to_string()]);
    assert_eq!(lines_of(""), vec!["".to_string()]);
    let cs = chars_of("  ab  cd ");
    assert_eq!(trim_range(&cs, 0, cs.len()), (2, 8));
    assert_eq!(word_spans(&cs, 0, cs.len()), vec![(2, 4), (6, 8)]);
}
