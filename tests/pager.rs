use std::cell::Cell;

use r_menu::keys::Keycode;
use r_menu::pager::{Pager, PagerItem};
use r_menu::vector::Vector2;

fn width_ten(s: &String) -> Result<u32, ()> {
    Ok(s.chars().count() as u32 * 10)
}

fn pager(names: &[&str], width: u32) -> Pager {
    let mut p = Pager::new(names.iter().map(|s| s.to_string()).collect());
    p.set_size(Vector2::new(width, 20));
    p
}

fn page_texts(p: &Pager) -> Vec<Vec<String>> {
    p.computed_entries()
        .iter()
        .map(|page| page.iter().map(|it: &PagerItem| it.get_text().to_string()).collect())
        .collect()
}

fn selected(p: &Pager) -> Option<(usize, String)> {
    p.get_selected_entry()
        .map(|c| (c.page_index(), c.item().get_text().to_string()))
}

#[test]
fn basic_completion_scenario() {
    let mut p = pager(&["ls", "curl", "cp", "cat"], 250);
    p.compute_text("c", &width_ten).unwrap();
    assert_eq!(
        page_texts(&p),
        vec![vec!["cat".to_string(), "cp".to_string()], vec!["curl".to_string()]]
    );
    assert_eq!(selected(&p), Some((0, "cat".to_string())));
    p.advance_caret();
    p.advance_caret();
    p.advance_caret();
    assert_eq!(selected(&p), Some((1, "curl".to_string())));
    p.advance_caret();
    assert_eq!(selected(&p), Some((1, "curl".to_string())));
    assert_eq!(p.caret_position(), 2);
}

#[test]
fn offsets_and_widths_follow_the_packing() {
    let mut p = pager(&["cat", "cp", "curl"], 250);
    p.compute_text("c", &width_ten).unwrap();
    let pages = p.computed_entries();
    assert_eq!(pages[0][0].x_offset, 0);
    assert_eq!(pages[0][1].x_offset, 50);
    assert_eq!(pages[1][0].x_offset, 0);
    assert_eq!(pages[0][1].get_size(), 20);
    assert_eq!(pages[1][0].index, 2);
}

#[test]
fn recompute_with_same_query_measures_nothing() {
    let calls = Cell::new(0u32);
    let counting = |s: &String| -> Result<u32, ()> {
        calls.set(calls.get() + 1);
        Ok(s.chars().count() as u32 * 10)
    };
    let mut p = pager(&["cat", "cp", "curl", "ls"], 250);
    p.compute_text("c", &counting).unwrap();
    assert_eq!(calls.get(), 3);
    p.advance_caret();
    let first = page_texts(&p);
    p.compute_text("c", &counting).unwrap();
    assert_eq!(calls.get(), 3);
    assert_eq!(page_texts(&p), first);
    assert_eq!(p.caret_position(), 1);
}

#[test]
fn new_query_resets_selection() {
    let mut p = pager(&["cat", "cp", "curl", "ls"], 250);
    p.compute_text("c", &width_ten).unwrap();
    p.advance_caret();
    p.compute_text("cu", &width_ten).unwrap();
    assert_eq!(p.caret_position(), 0);
    assert_eq!(page_texts(&p), vec![vec!["curl".to_string()]]);
}

#[test]
fn prefix_match_is_case_sensitive() {
    let mut p = pager(&["Cat", "cp"], 1000);
    p.compute_text("c", &width_ten).unwrap();
    assert_eq!(page_texts(&p), vec![vec!["cp".to_string()]]);
}

#[test]
fn no_match_gives_no_pages_and_no_selection() {
    let mut p = pager(&["cat", "ls"], 250);
    p.compute_text("zz", &width_ten).unwrap();
    assert_eq!(p.page_count(), 0);
    assert!(selected(&p).is_none());
    p.advance_caret();
    assert_eq!(p.caret_position(), 0);
    assert!(p.is_caret_at_start());
    assert!(selected(&p).is_none());
}

#[test]
fn item_wider_than_the_page_sits_alone() {
    let mut p = pager(&["aaaaaaaaaaaaaaaaaaaaaaaaaaaaaa", "ab", "ac"], 200);
    p.compute_text("a", &width_ten).unwrap();
    assert_eq!(
        page_texts(&p),
        vec![
            vec!["aaaaaaaaaaaaaaaaaaaaaaaaaaaaaa".to_string()],
            vec!["ab".to_string()],
            vec!["ac".to_string()],
        ]
    );
}

#[test]
fn candidates_are_sorted_case_insensitively() {
    let p = pager(&["b", "Zed", "a", "C"], 250);
    assert_eq!(
        p.provided_entries().clone(),
        vec!["a".to_string(), "b".to_string(), "C".to_string(), "Zed".to_string()]
    );
}

#[test]
fn failed_measurement_is_returned_and_changes_nothing() {
    let mut p = pager(&["cat", "cp"], 250);
    let failing = |_: &String| -> Result<u32, String> { Err("no font".to_string()) };
    assert_eq!(p.compute_text("c", &failing), Err("no font".to_string()));
    assert_eq!(p.page_count(), 0);
    p.compute_text("c", &width_ten).unwrap();
    assert_eq!(p.page_count(), 1);
}

#[test]
fn retreat_stops_at_first_match() {
    let mut p = pager(&["cat", "cp", "curl"], 250);
    p.compute_text("c", &width_ten).unwrap();
    p.advance_caret();
    assert!(!p.is_caret_at_start());
    p.retreat_caret();
    p.retreat_caret();
    assert!(p.is_caret_at_start());
    assert_eq!(selected(&p), Some((0, "cat".to_string())));
}

#[test]
fn selection_stays_in_bounds_over_moves() {
    let mut p = pager(&["cat", "cp", "curl"], 250);
    p.compute_text("c", &width_ten).unwrap();
    for step in 0..10 {
        if step % 3 == 2 {
            p.retreat_caret();
        } else {
            p.advance_caret();
        }
        assert!(p.caret_position() < 3);
    }
}

#[test]
fn position_and_size_are_kept() {
    let mut p = pager(&["cat"], 250);
    p.set_position(Vector2::new(7, -3));
    assert_eq!(p.position().x(), 7);
    assert_eq!(p.position().y(), -3);
    assert_eq!(p.size().x(), 250);
}

#[test]
fn arrow_keys_move_the_selection() {
    let mut p = pager(&["cat", "cp", "curl"], 250);
    p.compute_text("c", &width_ten).unwrap();
    p.keycode_interaction(Keycode::Right);
    p.keycode_interaction(Keycode::Right);
    assert_eq!(p.caret_position(), 2);
    p.keycode_interaction(Keycode::Left);
    p.keycode_interaction(Keycode::A);
    assert_eq!(p.caret_position(), 1);
}

#[test]
fn query_without_matches_succeeds_without_measuring() {
    let mut p = pager(&["cat", "cp"], 250);
    let failing = |_: &String| -> Result<u32, String> { Err("no font".to_string()) };
    assert_eq!(p.compute_text("zz", &failing), Ok(()));
    assert_eq!(p.page_count(), 0);
}

#[test]
fn failure_only_on_a_matching_candidate() {
    let mut p = pager(&["cat", "ls"], 250);
    let picky = |s: &String| -> Result<u32, String> {
        if s == "ls" { Err("ls".to_string()) } else { Ok(10) }
    };
    assert_eq!(p.compute_text("c", &picky), Ok(()));
    assert_eq!(p.compute_text("l", &picky), Err("ls".to_string()));
}
