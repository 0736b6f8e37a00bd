use fasb::filter::{select, usable};

fn strings(xs: &[&str]) -> Vec<String> {
    xs.iter().map(|x| x.to_string()).collect()
}

#[test]
fn pattern_picks_the_matching_items_in_order() {
    let items = strings(&["q(1,1)", "p", "q(2,1)", "r(q)"]);
    assert_eq!(select(&items, &Some("^q".to_string())), strings(&["q(1,1)", "q(2,1)"]));
    assert_eq!(select(&items, &Some("q".to_string())), strings(&["q(1,1)", "q(2,1)", "r(q)"]));
    assert_eq!(select(&items, &Some("1\\)$".to_string())), strings(&["q(1,1)", "q(2,1)"]));
    assert!(select(&items, &Some("^z".to_string())).is_empty());
}

#[test]
fn no_pattern_picks_everything() {
    let items = strings(&["a", "b"]);
    assert_eq!(select(&items, &None), items);
    assert_eq!(select(&items, &Some(String::new())), items);
}

#[test]
fn broken_pattern_picks_everything() {
    let items = strings(&["a", "b", "(c"]);
    assert_eq!(select(&items, &Some("(".to_string())), items);
    assert_eq!(select(&items, &Some("[a".to_string())), items);
}

#[test]
fn usable_patterns() {
    assert!(usable(&Some("^q".to_string())));
    assert!(usable(&Some(String::new())));
    assert!(!usable(&Some("(".to_string())));
    assert!(!usable(&None));
}
