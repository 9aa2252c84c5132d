use r_menu::candidates::{sort_by_folded, sort_candidates};

fn pair(key: &str, name: &str) -> (String, String) {
    (key.to_string(), name.to_string())
}

#[test]
fn sort_by_given_keys() {
    let sorted = sort_by_folded(vec![pair("b", "B"), pair("a", "zz"), pair("c", "A")]);
    assert_eq!(sorted, vec![pair("a", "zz"), pair("b", "B"), pair("c", "A")]);
}

#[test]
fn sort_by_keys_compares_code_points() {
    let sorted = sort_by_folded(vec![pair("ab", "1"), pair("a", "2"), pair("B", "3")]);
    assert_eq!(sorted, vec![pair("B", "3"), pair("a", "2"), pair("ab", "1")]);
}

#[test]
fn sort_by_keys_of_nothing() {
    assert!(sort_by_folded(Vec::new()).is_empty());
}

#[test]
fn candidates_sort_ignores_case() {
    let names = ["curl", "Cat", "bash", "Zsh"].iter().map(|s| s.to_string()).collect();
    assert_eq!(sort_candidates(names), vec!["bash", "Cat", "curl", "Zsh"]);
}
