use qwy3::controls::{
    lines, parse_control_bindings, words, Action, Control, ControlsError, ControlsWarning, Key,
    MouseButton,
};

fn chars(s: &str) -> Vec<char> {
    s.chars().collect()
}

fn strings(v: Vec<Vec<char>>) -> Vec<String> {
    v.into_iter().map(|w| w.into_iter().collect()).collect()
}

#[test]
fn lines_as_str_lines_gives_them() {
    for text in ["", "a", "a\n", "a\nb", "a\r\nb\r\n", "\n\nx", "a\rb\n", "end\r"] {
        let expected: Vec<String> = text.lines().map(|l| l.to_string()).collect();
        assert_eq!(strings(lines(&chars(text))), expected, "text {text:?}");
    }
}

#[test]
fn words_as_split_whitespace_gives_them() {
    for line in ["", "  ", "bind_control key:w walk_forward", " a\tb  c ", "x\u{00a0}y"] {
        let expected: Vec<String> = line.split_whitespace().map(|w| w.to_string()).collect();
        assert_eq!(strings(words(&chars(line))), expected, "line {line:?}");
    }
}

#[test]
fn control_bindings_file() {
    let text = "bind_control key:W walk_forward\n\
                \n\
                bind_control key:space jump\n\
                bind_control key:F11 toggle_fullscreen\n\
                bind_control mouse_button:left remove_block_at_target\n\
                bind_control mouse_button:8 throw_block\n\
                bind_control key:left_shift toggle_physics\n\
                bind_control key:t toggle_third_person_view\n\
                frobnicate everything\n\
                bind_control key:w walk_backward\n";
    let parsed = parse_control_bindings(text);
    assert!(parsed.error.is_none());
    assert_eq!(
        parsed.bindings,
        vec![
            (Control::KeyboardKey(Key::Character("w".to_string())), Action::WalkBackward),
            (Control::KeyboardKey(Key::Space), Action::Jump),
            (Control::KeyboardKey(Key::F(11)), Action::ToggleFullscreen),
            (Control::MouseButton(MouseButton::Left), Action::RemoveBlockAtTarget),
            (Control::MouseButton(MouseButton::Other(8)), Action::ThrowBlock),
            (Control::KeyboardKey(Key::Shift), Action::TogglePhysics),
            (Control::KeyboardKey(Key::Character("t".to_string())), Action::CycleFirstAndThirdPersonViews),
        ]
    );
    assert_eq!(parsed.warnings.len(), 3);
    assert!(matches!(parsed.warnings[0], ControlsWarning::ShiftKeysNotDistinguished { line_number: 7 }));
    assert!(matches!(parsed.warnings[1], ControlsWarning::DeprecatedActionName { line_number: 8 }));
    assert!(matches!(
        &parsed.warnings[2],
        ControlsWarning::UnknownCommandName { line_number: 9, command_name } if command_name == "frobnicate"
    ));
}

#[test]
fn control_bindings_errors_stop_the_parsing() {
    let parsed = parse_control_bindings("bind_control key:up jump\nbind_control key:nope jump\nbind_control key:a jump");
    assert!(matches!(&parsed.error, Some(ControlsError::UnknownKeyName(name)) if name == "nope"));
    assert_eq!(parsed.bindings.len(), 1);

    let cases: Vec<(&str, fn(&ControlsError) -> bool)> = vec![
        ("bind_control", |e| matches!(e, ControlsError::ExpectedControlName)),
        ("bind_control key:a", |e| matches!(e, ControlsError::ExpectedActionName)),
        ("bind_control key:- jump", |e| matches!(e, ControlsError::UnknownSingleCharacterKeyName('-'))),
        ("bind_control mouse_button:fourth jump", |e| matches!(e, ControlsError::UnknownMouseButtonName(n) if n == "fourth")),
        ("bind_control joystick:1 jump", |e| matches!(e, ControlsError::UnknownControl(n) if n == "joystick:1")),
        ("bind_control key:a fly", |e| matches!(e, ControlsError::UnknownActionName(n) if n == "fly")),
        ("bind_control key:F13 jump", |e| matches!(e, ControlsError::UnknownKeyName(n) if n == "F13")),
    ];
    for (text, is_expected) in cases {
        let parsed = parse_control_bindings(text);
        assert!(is_expected(parsed.error.as_ref().unwrap()), "text {text:?}");
    }
}

#[test]
fn control_names_in_detail() {
    let parsed = parse_control_bindings(
        "bind_control key:f3 print_coords\nbind_control key:7 open_command_line\nbind_control key:return toggle_fog\nbind_control mouse_button:+2 jump",
    );
    assert!(parsed.error.is_none());
    assert_eq!(parsed.bindings[0].0, Control::KeyboardKey(Key::F(3)));
    assert_eq!(parsed.bindings[1].0, Control::KeyboardKey(Key::Character("7".to_string())));
    assert_eq!(parsed.bindings[2].0, Control::KeyboardKey(Key::Enter));
    assert_eq!(parsed.bindings[3].0, Control::MouseButton(MouseButton::Other(2)));
}
