use fasb::reencode::Selection;

fn strings(xs: &[&str]) -> Vec<String> {
    xs.iter().map(|x| x.to_string()).collect()
}

#[test]
fn empty_selection_has_no_rules() {
    assert!(Selection::new().select().is_empty());
    assert!(Selection::default().select().is_empty());
}

#[test]
fn cnf_clauses_become_constraints() {
    let mut s = Selection::new();
    s.add_to_cnf(strings(&["a", "~b"]));
    s.add_to_cnf(strings(&["~c"]));
    assert_eq!(s.select(), strings(&[":- not a,b.", ":- c."]));
}

#[test]
fn dnf_conjunctions_get_markers() {
    let mut s = Selection::new();
    s.add_to_dnf(strings(&["a", "~b"]));
    assert_eq!(s.select(), strings(&["t0 :- a,not b.", ":- not t0."]));
    s.add_to_dnf(strings(&["c"]));
    assert_eq!(
        s.select(),
        strings(&["t0 :- a,not b.", "t1 :- c.", ":- not t0,not t1."])
    );
}

#[test]
fn markers_are_numbered_in_decimal() {
    let mut s = Selection::new();
    for _ in 0..11 {
        s.add_to_dnf(strings(&["x"]));
    }
    let rules = s.select();
    assert_eq!(rules.len(), 12);
    assert_eq!(rules[9], "t9 :- x.");
    assert_eq!(rules[10], "t10 :- x.");
    assert_eq!(
        rules[11],
        ":- not t0,not t1,not t2,not t3,not t4,not t5,not t6,not t7,not t8,not t9,not t10."
    );
}

#[test]
fn constraints_come_before_marker_rules() {
    let mut s = Selection::new();
    s.add_to_dnf(strings(&["~a", "b"]));
    s.add_to_cnf(strings(&["a", "b"]));
    assert_eq!(
        s.select(),
        strings(&[":- not a,not b.", "t0 :- not a,b.", ":- not t0."])
    );
}

#[test]
fn empty_clauses() {
    let mut s = Selection::new();
    s.add_to_cnf(vec![]);
    s.add_to_dnf(vec![]);
    assert_eq!(s.select(), strings(&[":- .", "t0 :- .", ":- not t0."]));
}
