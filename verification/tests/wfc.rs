use fasb::wfc::{
    needs_cautious, parse_weighted_facets_from_file, weighted_facet_count, weighted_facet_from,
    WeightedFacet,
};

fn strings(xs: &[&str]) -> Vec<String> {
    xs.iter().map(|x| x.to_string()).collect()
}

fn entry(facet: &str, inclusive: bool, weight: isize) -> WeightedFacet {
    WeightedFacet { facet: facet.to_string(), inclusive, weight }
}

#[test]
fn score_rewards_certain_and_impossible_literals() {
    let table = vec![
        entry("a", true, 3),
        entry("d", false, 5),
        entry("b", false, 7),
        entry("c", true, 2),
        entry("e", false, -4),
    ];
    let brave = Some(strings(&["a", "b", "c"]));
    let cautious = Some(strings(&["a"]));
    assert_eq!(weighted_facet_count(brave, cautious, &table), Some(3 + 5 - 4));
}

#[test]
fn score_of_an_unsatisfiable_route_is_zero() {
    let table = vec![entry("a", true, 3), entry("d", false, 5)];
    assert_eq!(weighted_facet_count(Some(vec![]), None, &table), Some(0));
    assert_eq!(weighted_facet_count(Some(vec![]), Some(strings(&["a"])), &table), Some(0));
    assert!(!needs_cautious(&Some(vec![])));
    assert!(!needs_cautious(&None));
    assert!(needs_cautious(&Some(strings(&["a"]))));
}

#[test]
fn score_needs_the_consequences() {
    let table = vec![entry("a", true, 3)];
    assert_eq!(weighted_facet_count(None, Some(strings(&["a"])), &table), None);
    assert_eq!(weighted_facet_count(Some(strings(&["a"])), None, &table), None);
}

#[test]
fn score_has_no_reward_for_cautious_atoms_missing_from_brave() {
    let brave = Some(strings(&["a"]));
    let cautious = Some(strings(&["a", "z"]));
    assert_eq!(weighted_facet_count(brave, cautious, &vec![]), Some(0));
}

#[test]
fn score_that_does_not_fit() {
    let table = vec![entry("x", false, isize::MAX), entry("y", false, isize::MAX)];
    assert_eq!(weighted_facet_count(Some(strings(&["a"])), Some(vec![]), &table), None);
    let table = vec![
        entry("x", false, isize::MAX),
        entry("y", false, isize::MAX),
        entry("z", false, isize::MIN),
    ];
    assert_eq!(
        weighted_facet_count(Some(strings(&["a"])), Some(vec![]), &table),
        Some(isize::MAX - 1)
    );
}

#[test]
fn weight_table_is_read_line_by_line() {
    let table = parse_weighted_facets_from_file("a 1 3\nq(1,2)   0  -5\r\nb yes +7\n").unwrap();
    assert_eq!(table.len(), 3);
    assert_eq!(table[0].facet, "a");
    assert!(table[0].inclusive);
    assert_eq!(table[0].weight, 3);
    assert_eq!(table[1].facet, "q(1,2)");
    assert!(!table[1].inclusive);
    assert_eq!(table[1].weight, -5);
    assert!(table[2].inclusive);
    assert_eq!(table[2].weight, 7);
    assert_eq!(parse_weighted_facets_from_file("").unwrap().len(), 0);
}

#[test]
fn weight_table_with_a_bad_line_is_no_table() {
    assert!(parse_weighted_facets_from_file("a 1 3\nb 0\n").is_none());
    assert!(parse_weighted_facets_from_file("a 1 x\n").is_none());
    assert!(parse_weighted_facets_from_file("a 1 3\n\nb 0 1\n").is_none());
    assert!(parse_weighted_facets_from_file("a 1 99999999999999999999999999\n").is_none());
    assert!(weighted_facet_from(&strings(&["a", "1"])).is_none());
    let w = weighted_facet_from(&strings(&["a", "0", "12", "more"])).unwrap();
    assert_eq!((w.facet.as_str(), w.inclusive, w.weight), ("a", false, 12));
}
