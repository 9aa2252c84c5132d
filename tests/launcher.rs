use r_menu::keys::Keycode;
use r_menu::launcher::{Action, Launcher};

fn width_ten(s: &String) -> Result<u32, ()> {
    Ok(s.chars().count() as u32 * 10)
}

fn launcher() -> Launcher {
    let names = ["cat", "cp", "curl", "ls", "ping"];
    let mut l = Launcher::new(names.iter().map(|s| s.to_string()).collect());
    l.place_pager(
        r_menu::vector::Vector2::new(0, 0),
        r_menu::vector::Vector2::new(250, 20),
    );
    l.refresh(&width_ten).unwrap();
    l
}

fn press(l: &mut Launcher, keys: &[Keycode]) -> Action {
    let mut last = Action::Continue;
    for k in keys {
        last = l.key_down(*k, &width_ten).unwrap();
    }
    last
}

fn selected_name(l: &Launcher) -> Option<String> {
    l.pager()
        .get_selected_entry()
        .map(|c| c.item().get_text().to_string())
}

fn launched(a: Action) -> Option<(String, Vec<String>)> {
    match a {
        Action::Launch { program, args } => Some((program, args)),
        _ => None,
    }
}

#[test]
fn right_moves_caret_before_the_end() {
    let mut l = launcher();
    press(&mut l, &[Keycode::C, Keycode::U, Keycode::Left]);
    assert_eq!(l.input().caret_position(), 1);
    press(&mut l, &[Keycode::Right]);
    assert_eq!(l.input().caret_position(), 2);
    assert_eq!(l.pager().caret_position(), 0);
}

#[test]
fn right_moves_selection_at_the_end() {
    let mut l = launcher();
    press(&mut l, &[Keycode::C, Keycode::Right]);
    assert_eq!(l.input().caret_position(), 1);
    assert_eq!(l.pager().caret_position(), 1);
    assert_eq!(selected_name(&l), Some("cp".to_string()));
}

#[test]
fn left_moves_selection_while_past_the_first() {
    let mut l = launcher();
    press(&mut l, &[Keycode::C, Keycode::Right, Keycode::Right, Keycode::Left]);
    assert_eq!(l.pager().caret_position(), 1);
    assert_eq!(l.input().caret_position(), 1);
}

#[test]
fn left_moves_caret_at_the_first_match() {
    let mut l = launcher();
    press(&mut l, &[Keycode::C, Keycode::Left]);
    assert_eq!(l.pager().caret_position(), 0);
    assert_eq!(l.input().caret_position(), 0);
}

#[test]
fn launch_with_selection() {
    let mut l = launcher();
    press(&mut l, &[Keycode::C, Keycode::Right, Keycode::Right]);
    assert_eq!(l.input().text(), "c");
    assert_eq!(selected_name(&l), Some("curl".to_string()));
    let a = press(&mut l, &[Keycode::Return]);
    assert_eq!(launched(a), Some(("curl".to_string(), Vec::new())));
}

#[test]
fn launch_with_explicit_args() {
    let mut l = launcher();
    let keys = [
        Keycode::P, Keycode::I, Keycode::N, Keycode::G, Keycode::Space, Keycode::Minus,
        Keycode::C, Keycode::Space, Keycode::Num1, Keycode::Space, Keycode::H, Keycode::O,
        Keycode::S, Keycode::T,
    ];
    press(&mut l, &keys);
    assert_eq!(l.input().text(), "ping -c 1 host");
    assert!(l.in_args());
    let a = press(&mut l, &[Keycode::Return]);
    assert_eq!(
        launched(a),
        Some((
            "ping".to_string(),
            vec!["-c".to_string(), "1".to_string(), "host".to_string()]
        ))
    );
}

#[test]
fn launch_typed_program_without_match() {
    let mut l = launcher();
    press(&mut l, &[Keycode::X, Keycode::Y]);
    assert_eq!(selected_name(&l), None);
    let a = press(&mut l, &[Keycode::Return]);
    assert_eq!(launched(a), Some(("xy".to_string(), Vec::new())));
}

#[test]
fn trailing_space_still_launches_selection() {
    let mut l = launcher();
    press(&mut l, &[Keycode::L, Keycode::Space]);
    assert_eq!(selected_name(&l), Some("ls".to_string()));
    let a = press(&mut l, &[Keycode::Return]);
    assert_eq!(launched(a), Some(("ls".to_string(), Vec::new())));
}

#[test]
fn tab_pastes_selection() {
    let mut l = launcher();
    press(&mut l, &[Keycode::C, Keycode::U]);
    assert_eq!(selected_name(&l), Some("curl".to_string()));
    assert!(!l.in_args());
    press(&mut l, &[Keycode::Tab]);
    assert_eq!(l.input().text(), "curl");
    assert_eq!(l.input().caret_position(), 4);
}

#[test]
fn tab_does_nothing_with_several_tokens() {
    let mut l = launcher();
    press(&mut l, &[Keycode::C, Keycode::Space, Keycode::A]);
    assert!(l.in_args());
    press(&mut l, &[Keycode::Tab]);
    assert_eq!(l.input().text(), "c a");
}

#[test]
fn escape_quits() {
    let mut l = launcher();
    assert!(matches!(press(&mut l, &[Keycode::Escape]), Action::Quit));
}

#[test]
fn shift_changes_typed_characters_until_released() {
    let mut l = launcher();
    press(&mut l, &[Keycode::LShift, Keycode::A]);
    l.key_up(Keycode::LShift);
    press(&mut l, &[Keycode::B]);
    assert_eq!(l.input().text(), "Ab");
}

#[test]
fn backspace_edits_and_requeries() {
    let mut l = launcher();
    press(&mut l, &[Keycode::C, Keycode::U, Keycode::Backspace]);
    assert_eq!(l.input().text(), "c");
    assert_eq!(l.pager().computed_entries().iter().map(|p| p.len()).sum::<usize>(), 3);
}
