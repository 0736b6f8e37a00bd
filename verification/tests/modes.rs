use fasb::modes::{Mode, Search, Step, Weight};

/// A reasoner over a program whose answer sets are written out.
struct Reasoner {
    answer_sets: Vec<Vec<String>>,
    probes: usize,
}

impl Reasoner {
    fn over(answer_sets: &[&[&str]]) -> Self {
        Reasoner {
            answer_sets: answer_sets
                .iter()
                .map(|s| s.iter().map(|a| a.to_string()).collect())
                .collect(),
            probes: 0,
        }
    }

    /// The answer sets of `a;b. c;d :- b. e.`
    fn tiny() -> Self {
        Reasoner::over(&[&["a", "e"], &["b", "c", "e"], &["b", "d", "e"]])
    }

    /// The answer sets of `a :- b. b :- a. a :- c. c :- not d. d :- not c.`:
    /// its stable models, or its supported models.
    fn nontight(supported: bool) -> Self {
        if supported {
            Reasoner::over(&[&["d"], &["a", "b", "c"], &["a", "b", "d"]])
        } else {
            Reasoner::over(&[&["d"], &["a", "b", "c"]])
        }
    }

    /// The placements of eight queens, one atom `q(row,column)` per queen.
    fn queens() -> Self {
        let mut found: Vec<Vec<usize>> = vec![];
        let mut columns: Vec<usize> = vec![];
        place(&mut columns, &mut found);
        Reasoner {
            answer_sets: found
                .iter()
                .map(|cs| {
                    cs.iter()
                        .enumerate()
                        .map(|(row, column)| format!("q({},{})", row + 1, column + 1))
                        .collect()
                })
                .collect(),
            probes: 0,
        }
    }

    fn under(&self, route: &[String]) -> Vec<&Vec<String>> {
        self.answer_sets
            .iter()
            .filter(|s| {
                route.iter().all(|l| match l.strip_prefix('~') {
                    Some(atom) => !s.iter().any(|a| a == atom),
                    None => s.contains(l),
                })
            })
            .collect()
    }

    fn brave_consequences(&self, route: &[String]) -> Vec<String> {
        let mut atoms: Vec<String> = vec![];
        for s in self.under(route) {
            for a in s {
                if !atoms.contains(a) {
                    atoms.push(a.clone());
                }
            }
        }
        atoms.sort();
        atoms
    }

    fn cautious_consequences(&self, route: &[String]) -> Vec<String> {
        let sets = self.under(route);
        self.brave_consequences(route)
            .into_iter()
            .filter(|a| sets.iter().all(|s| s.contains(a)))
            .collect()
    }

    fn facet_inducing_atoms(&self, route: &[String]) -> Vec<String> {
        let cautious = self.cautious_consequences(route);
        self.brave_consequences(route)
            .into_iter()
            .filter(|a| !cautious.contains(a))
            .collect()
    }

    fn answer_set_count(&self, route: &[String]) -> usize {
        self.under(route).len()
    }

    fn count(&mut self, weight: Weight, route: &[String]) -> Option<usize> {
        self.probes += 1;
        match weight {
            Weight::AnswerSetCounting => Some(self.answer_set_count(route)),
            Weight::FacetCounting => Some(2 * self.facet_inducing_atoms(route).len()),
        }
    }
}

fn place(columns: &mut Vec<usize>, found: &mut Vec<Vec<usize>>) {
    if columns.len() == 8 {
        found.push(columns.clone());
        return;
    }
    for c in 0..8usize {
        let row = columns.len();
        let free = columns
            .iter()
            .enumerate()
            .all(|(r, &k)| k != c && (row - r) != c.abs_diff(k));
        if free {
            columns.push(c);
            place(columns, found);
            columns.pop();
        }
    }
}

/// Runs a search of `mode` among the facets `among`, measuring each literal
/// that the search names against the route `active`.
fn propose_facet(
    mode: Mode<Option<usize>>,
    nav: &mut Reasoner,
    active: &mut Vec<String>,
    among: &[String],
) -> Option<(String, Option<usize>)> {
    let mut search = mode.propose_facet(among.to_vec());
    while let Some((literal, weight)) = search.next_probe() {
        active.push(literal);
        let counted = nav.count(weight, active);
        active.pop();
        search.answer(counted);
    }
    search.outcome()
}

#[test]
fn tiny_max_fc() {
    let mut nav = Reasoner::tiny();
    for _ in 0..9 {
        let mut active: Vec<String> = vec![];
        let among = nav.facet_inducing_atoms(&active);
        let count = Some(among.len());
        if let Some((f, c)) =
            propose_facet(Mode::MaxWeightedFacetCounting(count), &mut nav, &mut active, &among)
        {
            assert_eq!(c, Some(0));
            assert!(vec!["a", "c", "d", "~b"].contains(&f.as_str()));
        } else {
            panic!()
        }
    }
    for _ in 0..9 {
        let mut active = vec!["b".to_string()];
        let among = nav.facet_inducing_atoms(&active);
        let count = Some(among.len());
        if let Some((f, c)) =
            propose_facet(Mode::MaxWeightedFacetCounting(count), &mut nav, &mut active, &among)
        {
            assert_eq!(c, Some(0));
            assert!(vec!["c", "d", "~c", "~d"].contains(&f.as_str()));
        } else {
            panic!()
        }
    }
    for _ in 0..9 {
        let mut active = vec!["a".to_string()];
        let among = nav.facet_inducing_atoms(&active);
        let count = Some(among.len());
        assert_eq!(
            propose_facet(Mode::MaxWeightedFacetCounting(count), &mut nav, &mut active, &among),
            None
        );
    }
}

#[test]
fn nontight_max_fc() {
    let mut nav = Reasoner::nontight(true);
    for _ in 0..1 {
        let mut active: Vec<String> = vec![];
        let among = nav.facet_inducing_atoms(&active);
        let count = Some(among.len());
        if let Some((f, c)) =
            propose_facet(Mode::MaxWeightedFacetCounting(count), &mut nav, &mut active, &among)
        {
            assert_eq!(c, Some(0));
            assert!(vec!["c", "~d", "~a", "~b"].contains(&f.as_str()));
        } else {
            panic!()
        }
    }
    let mut nav = Reasoner::nontight(false);
    for _ in 0..4 {
        let mut active: Vec<String> = vec![];
        let among = nav.facet_inducing_atoms(&active);
        let count = Some(among.len());
        if let Some((f, c)) =
            propose_facet(Mode::MaxWeightedFacetCounting(count), &mut nav, &mut active, &among)
        {
            assert_eq!(c, Some(0));
            assert!(vec!["a", "b", "c", "d", "~a", "~b", "~c", "~d"].contains(&f.as_str()));
        } else {
            panic!()
        }
    }
}

#[test]
fn q8_max_fc() {
    let mut nav = Reasoner::queens();
    for _ in 0..9 {
        let mut active: Vec<String> = vec![];
        let among = nav.facet_inducing_atoms(&active);
        let count = Some(among.len());
        if let Some((f, c)) =
            propose_facet(Mode::MaxWeightedFacetCounting(count), &mut nav, &mut active, &among)
        {
            assert_eq!(c, Some(40));
            assert!(vec!["q(3,3)", "q(6,6)", "q(3,6)", "q(6,3)"].contains(&f.as_str()));
        } else {
            panic!()
        }
    }
    for _ in 0..24 {
        let mut active = vec!["q(6,6)".to_string()];
        let among = nav.facet_inducing_atoms(&active);
        let count = Some(among.len());
        if let Some((f, c)) =
            propose_facet(Mode::MaxWeightedFacetCounting(count), &mut nav, &mut active, &among)
        {
            assert_eq!(c, Some(0));
            assert!(vec![
                "q(4,1)", "q(3,5)", "q(8,5)", "q(4,7)", "q(5,3)", "q(7,8)", "q(1,3)", "q(1,4)",
                "q(8,7)", "q(5,8)", "q(3,1)", "q(7,4)"
            ]
            .contains(&f.as_str()));
        } else {
            panic!()
        }
    }
    for _ in 0..30 {
        let mut active = vec!["q(2,8)".to_string()];
        let among = nav.facet_inducing_atoms(&active);
        let count = Some(among.len());
        if let Some((f, c)) =
            propose_facet(Mode::MaxWeightedFacetCounting(count), &mut nav, &mut active, &among)
        {
            assert_eq!(c, Some(0));
            assert!(vec![
                "q(4,7)", "q(1,2)", "q(6,5)", "q(8,4)", "q(3,5)", "q(4,5)", "q(8,7)", "q(1,6)",
                "q(1,3)", "q(5,6)", "q(8,6)", "q(3,6)", "q(3,2)", "q(4,4)", "q(7,5)"
            ]
            .contains(&f.as_str()));
        } else {
            panic!()
        }
    }
}

#[test]
fn tiny_min_fc() {
    let mut nav = Reasoner::tiny();
    for _ in 0..9 {
        let mut active: Vec<String> = vec![];
        let among = nav.facet_inducing_atoms(&active);
        let count = Some(among.len());
        if let Some((f, c)) =
            propose_facet(Mode::MinWeightedFacetCounting(count), &mut nav, &mut active, &among)
        {
            assert_eq!(c, Some(6));
            assert!(vec!["~c", "~d"].contains(&f.as_str()));
        } else {
            panic!()
        }
    }
    for _ in 0..9 {
        let mut active = vec!["b".to_string()];
        let among = nav.facet_inducing_atoms(&active);
        let count = Some(among.len());
        if let Some((f, c)) =
            propose_facet(Mode::MinWeightedFacetCounting(count), &mut nav, &mut active, &among)
        {
            assert_eq!(c, Some(0));
            assert!(vec!["c", "d", "~c", "~d"].contains(&f.as_str()));
        } else {
            panic!()
        }
    }
    for _ in 0..9 {
        let mut active = vec!["a".to_string()];
        let among = nav.facet_inducing_atoms(&active);
        let count = Some(among.len());
        assert_eq!(
            propose_facet(Mode::MinWeightedFacetCounting(count), &mut nav, &mut active, &among),
            None
        );
    }
}

#[test]
fn nontight_min_fc() {
    let mut nav = Reasoner::nontight(true);
    for _ in 0..4 {
        let mut active: Vec<String> = vec![];
        let among = nav.facet_inducing_atoms(&active);
        let count = Some(among.len());
        if let Some((f, c)) =
            propose_facet(Mode::MinWeightedFacetCounting(count), &mut nav, &mut active, &among)
        {
            assert_eq!(c, Some(4));
            assert!(vec!["a", "b", "~c", "d"].contains(&f.as_str()));
        } else {
            panic!()
        }
    }
    let mut nav = Reasoner::nontight(false);
    for _ in 0..16 {
        let mut active: Vec<String> = vec![];
        let among = nav.facet_inducing_atoms(&active);
        let count = Some(among.len());
        if let Some((f, c)) =
            propose_facet(Mode::MinWeightedFacetCounting(count), &mut nav, &mut active, &among)
        {
            assert_eq!(c, Some(0));
            assert!(vec!["a", "b", "c", "d", "~a", "~b", "~c", "~d"].contains(&f.as_str()));
        } else {
            panic!()
        }
    }
}

#[test]
fn q8_min_fc() {
    let mut nav = Reasoner::queens();
    for _ in 0..70 {
        let mut active: Vec<String> = vec![];
        let among = nav.facet_inducing_atoms(&active);
        let count = Some(among.len());
        if let Some((f, c)) =
            propose_facet(Mode::MinWeightedFacetCounting(count), &mut nav, &mut active, &among)
        {
            assert_eq!(c, Some(126));
            assert!(vec![
                "~q(3,1)", "~q(8,6)", "~q(4,8)", "~q(5,7)", "~q(3,2)", "~q(5,6)", "~q(2,2)",
                "~q(2,4)", "~q(3,4)", "~q(4,3)", "~q(1,2)", "~q(7,1)", "~q(5,8)", "~q(7,4)",
                "~q(4,1)", "~q(2,5)", "~q(4,6)", "~q(2,7)", "~q(7,2)", "~q(6,1)", "~q(5,2)",
                "~q(6,4)", "~q(7,5)", "~q(3,8)", "~q(1,8)", "~q(4,7)", "~q(6,5)", "~q(7,7)",
                "~q(3,3)", "~q(6,3)", "~q(3,6)", "~q(1,3)", "~q(1,6)", "~q(7,6)", "~q(2,8)",
                "~q(1,5)", "~q(8,5)", "~q(1,1)", "~q(8,2)", "~q(4,4)", "~q(6,7)", "~q(7,3)",
                "~q(2,6)", "~q(4,5)", "~q(6,6)", "~q(5,4)", "~q(2,1)", "~q(8,7)", "~q(2,3)",
                "~q(3,5)", "~q(1,7)", "~q(8,8)", "~q(8,4)", "~q(5,5)", "~q(6,8)", "~q(8,1)",
                "~q(8,3)", "~q(4,2)", "~q(1,4)", "~q(5,1)", "~q(3,7)", "~q(5,3)", "~q(6,2)",
                "~q(7,8)"
            ]
            .contains(&f.as_str()));
        } else {
            panic!()
        }
    }
    for _ in 0..22 {
        let mut active = vec!["q(6,6)".to_string()];
        let among = nav.facet_inducing_atoms(&active);
        let count = Some(among.len());
        if let Some((f, c)) =
            propose_facet(Mode::MinWeightedFacetCounting(count), &mut nav, &mut active, &among)
        {
            assert_eq!(c, Some(34));
            assert!(vec![
                "~q(8,7)", "~q(3,5)", "~q(4,1)", "~q(1,4)", "~q(1,3)", "~q(5,8)", "~q(3,1)",
                "~q(8,5)", "~q(4,7)", "~q(7,4)", "~q(5,3)", "~q(7,8)",
            ]
            .contains(&f.as_str()));
        } else {
            panic!()
        }
    }
    for _ in 0..6 {
        let mut active = vec!["q(2,8)".to_string()];
        let among = nav.facet_inducing_atoms(&active);
        let count = Some(among.len());
        if let Some((f, c)) =
            propose_facet(Mode::MinWeightedFacetCounting(count), &mut nav, &mut active, &among)
        {
            assert_eq!(c, Some(62));
            assert!(vec!["~q(4,5)", "~q(8,7)", "~q(5,6)",].contains(&f.as_str()));
        } else {
            panic!()
        }
    }
}

#[test]
fn tiny_max_as() {
    let mut nav = Reasoner::tiny();
    for _ in 0..9 {
        let mut active: Vec<String> = vec![];
        let among = nav.facet_inducing_atoms(&active);
        let count = Some(nav.answer_set_count(&active));
        if let Some((f, c)) = propose_facet(Mode::MaxWeightedAnswerSetCounting(count), &mut nav, &mut active, &among) {
            assert_eq!(c, Some(1));
            assert!(vec!["a", "c", "d", "~b"].contains(&f.as_str()));
        } else {
            panic!()
        }
    }
    for _ in 0..9 {
        let mut active = vec!["b".to_string()];
        let among = nav.facet_inducing_atoms(&active);
        let count = Some(nav.answer_set_count(&active));
        if let Some((f, c)) = propose_facet(Mode::MaxWeightedAnswerSetCounting(count), &mut nav, &mut active, &among) {
            assert_eq!(c, Some(1));
            assert!(vec!["c", "d", "~c", "~d"].contains(&f.as_str()));
        } else {
            panic!()
        }
    }
    for _ in 0..9 {
        let mut active = vec!["a".to_string()];
        let among = nav.facet_inducing_atoms(&active);
        let count = Some(nav.answer_set_count(&active));
        assert_eq!(
            propose_facet(Mode::MaxWeightedAnswerSetCounting(count), &mut nav, &mut active, &among),
            None
        );
    }
}

#[test]
fn nontight_max_as() {
    let mut nav = Reasoner::nontight(true);
    for _ in 0..4 {
        let mut active: Vec<String> = vec![];
        let among = nav.facet_inducing_atoms(&active);
        let count = Some(nav.answer_set_count(&active));
        if let Some((f, c)) = propose_facet(Mode::MaxWeightedAnswerSetCounting(count), &mut nav, &mut active, &among) {
            assert_eq!(c, Some(1));
            assert!(vec!["c", "~d", "~a", "~b"].contains(&f.as_str()));
        } else {
            panic!()
        }
    }
    let mut nav = Reasoner::nontight(false);
    for _ in 0..16 {
        let mut active: Vec<String> = vec![];
        let among = nav.facet_inducing_atoms(&active);
        let count = Some(nav.answer_set_count(&active));
        if let Some((f, c)) = propose_facet(Mode::MaxWeightedAnswerSetCounting(count), &mut nav, &mut active, &among) {
            assert_eq!(c, Some(1));
            assert!(vec!["a", "b", "c", "d", "~a", "~b", "~c", "~d"].contains(&f.as_str()));
        } else {
            panic!()
        }
    }
}

#[test]
fn q8_max_as() {
    let mut nav = Reasoner::queens();
    for _ in 0..16 {
        let mut active: Vec<String> = vec![];
        let among = nav.facet_inducing_atoms(&active);
        let count = Some(nav.answer_set_count(&active));
        if let Some((f, c)) = propose_facet(Mode::MaxWeightedAnswerSetCounting(count), &mut nav, &mut active, &among) {
            assert_eq!(c, Some(4));
            assert!(vec![
                "q(3,3)", "q(6,6)", "q(3,6)", "q(6,3)", "q(1,1)", "q(1,8)", "q(8,1)", "q(8,8)"
            ]
            .contains(&f.as_str()));
        } else {
            panic!()
        }
    }
    for _ in 0..24 {
        let mut active = vec!["q(6,6)".to_string()];
        let among = nav.facet_inducing_atoms(&active);
        let count = Some(nav.answer_set_count(&active));
        if let Some((f, c)) = propose_facet(Mode::MaxWeightedAnswerSetCounting(count), &mut nav, &mut active, &among) {
            assert_eq!(c, Some(1));
            assert!(vec![
                "q(3,1)", "q(1,3)", "q(4,1)", "q(1,4)", "q(4,7)", "q(7,4)", "q(8,5)", "q(5,8)",
                "q(3,5)", "q(5,3)", "q(7,8)", "q(8,7)"
            ]
            .contains(&f.as_str()));
        } else {
            panic!()
        }
    }
    for _ in 0..30 {
        let mut active = vec!["q(2,8)".to_string()];
        let among = nav.facet_inducing_atoms(&active);
        let count = Some(nav.answer_set_count(&active));
        if let Some((f, c)) = propose_facet(Mode::MaxWeightedAnswerSetCounting(count), &mut nav, &mut active, &among) {
            assert_eq!(c, Some(1));
            assert!(vec![
                "q(4,7)", "q(1,2)", "q(6,5)", "q(8,4)", "q(3,5)", "q(4,5)", "q(8,7)", "q(1,6)",
                "q(1,3)", "q(5,6)", "q(8,6)", "q(3,6)", "q(3,2)", "q(4,4)", "q(7,5)"
            ]
            .contains(&f.as_str()));
        } else {
            panic!()
        }
    }
}

#[test]
fn tiny_min_as() {
    let mut nav = Reasoner::tiny();
    for _ in 0..9 {
        let mut active: Vec<String> = vec![];
        let among = nav.facet_inducing_atoms(&active);
        let count = Some(nav.answer_set_count(&active));
        if let Some((f, c)) = propose_facet(Mode::MinWeightedAnswerSetCounting(count), &mut nav, &mut active, &among) {
            assert_eq!(c, Some(2));
            assert!(vec!["~a", "~c", "~d", "b"].contains(&f.as_str()));
        } else {
            panic!()
        }
    }
    for _ in 0..9 {
        let mut active = vec!["b".to_string()];
        let among = nav.facet_inducing_atoms(&active);
        let count = Some(nav.answer_set_count(&active));
        if let Some((f, c)) = propose_facet(Mode::MinWeightedAnswerSetCounting(count), &mut nav, &mut active, &among) {
            assert_eq!(c, Some(1));
            assert!(vec!["c", "d", "~c", "~d"].contains(&f.as_str()));
        } else {
            panic!()
        }
    }
    for _ in 0..9 {
        let mut active = vec!["a".to_string()];
        let among = nav.facet_inducing_atoms(&active);
        let count = Some(nav.answer_set_count(&active));
        assert_eq!(
            propose_facet(Mode::MinWeightedAnswerSetCounting(count), &mut nav, &mut active, &among),
            None
        );
    }
}

#[test]
fn nontight_min_as() {
    let mut nav = Reasoner::nontight(true);
    for _ in 0..4 {
        let mut active: Vec<String> = vec![];
        let among = nav.facet_inducing_atoms(&active);
        let count = Some(nav.answer_set_count(&active));
        if let Some((f, c)) = propose_facet(Mode::MinWeightedAnswerSetCounting(count), &mut nav, &mut active, &among) {
            assert_eq!(c, Some(2));
            assert!(vec!["~c", "d", "a", "b"].contains(&f.as_str()));
        } else {
            panic!()
        }
    }
    let mut nav = Reasoner::nontight(false);
    for _ in 0..16 {
        let mut active: Vec<String> = vec![];
        let among = nav.facet_inducing_atoms(&active);
        let count = Some(nav.answer_set_count(&active));
        if let Some((f, c)) = propose_facet(Mode::MinWeightedAnswerSetCounting(count), &mut nav, &mut active, &among) {
            assert_eq!(c, Some(1));
            assert!(vec!["a", "b", "c", "d", "~a", "~b", "~c", "~d"].contains(&f.as_str()));
        } else {
            panic!()
        }
    }
}

#[test]
fn q8_min_as() {
    let mut nav = Reasoner::queens();
    for _ in 0..16 {
        let mut active: Vec<String> = vec![];
        let among = nav.facet_inducing_atoms(&active);
        let count = Some(nav.answer_set_count(&active));
        if let Some((f, c)) = propose_facet(Mode::MinWeightedAnswerSetCounting(count), &mut nav, &mut active, &among) {
            assert_eq!(c, Some(88));
            assert!(vec![
                "q(3,3)", "q(6,6)", "q(3,6)", "q(6,3)", "q(1,1)", "q(1,8)", "q(8,1)", "q(8,8)"
            ]
            .iter()
            .map(|f| format!("~{f}"))
            .collect::<Vec<_>>()
            .contains(&f));
        } else {
            panic!()
        }
    }
    for _ in 0..24 {
        let mut active = vec!["q(6,6)".to_string()];
        let among = nav.facet_inducing_atoms(&active);
        let count = Some(nav.answer_set_count(&active));
        if let Some((f, c)) = propose_facet(Mode::MinWeightedAnswerSetCounting(count), &mut nav, &mut active, &among) {
            assert_eq!(c, Some(3));
            assert!(vec![
                "q(3,1)", "q(1,3)", "q(4,1)", "q(1,4)", "q(4,7)", "q(7,4)", "q(8,5)", "q(5,8)",
                "q(3,5)", "q(5,3)", "q(7,8)", "q(8,7)"
            ]
            .iter()
            .map(|f| format!("~{f}"))
            .collect::<Vec<_>>()
            .contains(&f));
        } else {
            panic!()
        }
    }
    for _ in 0..30 {
        let mut active = vec!["q(2,8)".to_string()];
        let among = nav.facet_inducing_atoms(&active);
        let count = Some(nav.answer_set_count(&active));
        if let Some((f, c)) = propose_facet(Mode::MinWeightedAnswerSetCounting(count), &mut nav, &mut active, &among) {
            assert_eq!(c, Some(7));
            assert!(vec![
                "q(4,7)", "q(1,2)", "q(6,5)", "q(8,4)", "q(3,5)", "q(4,5)", "q(8,7)", "q(1,6)",
                "q(1,3)", "q(5,6)", "q(8,6)", "q(3,6)", "q(3,2)", "q(4,4)", "q(7,5)"
            ]
            .iter()
            .map(|f| format!("~{f}"))
            .collect::<Vec<_>>()
            .contains(&f));
        }
    }
}

fn strings(xs: &[&str]) -> Vec<String> {
    xs.iter().map(|x| x.to_string()).collect()
}

/// Runs a search over a list of counts, one for each probe, and tells how
/// many of them were asked for.
fn replay(
    mode: Mode<Option<usize>>,
    among: &[&str],
    counts: &[Option<usize>],
) -> (Option<(String, Option<usize>)>, Vec<String>) {
    let mut search = Search::start(mode, strings(among));
    let mut asked = vec![];
    while let Some((literal, _)) = search.next_probe() {
        let counted = counts[asked.len()];
        asked.push(literal);
        search.answer(counted);
    }
    (search.outcome(), asked)
}

#[test]
fn goal_oriented_takes_the_first_candidate_unmeasured() {
    let (choice, asked) = replay(Mode::GoalOriented(None), &["x", "y"], &[]);
    assert_eq!(choice, Some(("x".to_string(), None)));
    assert!(asked.is_empty());
}

#[test]
fn no_candidates_no_proposal() {
    for mode in [
        Mode::GoalOriented(None),
        Mode::MaxWeightedFacetCounting(Some(4)),
        Mode::MinWeightedFacetCounting(None),
        Mode::MaxWeightedAnswerSetCounting(Some(3)),
        Mode::MinWeightedAnswerSetCounting(None),
    ] {
        let (choice, asked) = replay(mode, &[], &[]);
        assert_eq!(choice, None);
        assert!(asked.is_empty());
    }
}

#[test]
fn max_facet_count_stops_at_the_first_zero() {
    let counts = [Some(4), Some(0), Some(0), Some(2)];
    let (choice, asked) = replay(Mode::MaxWeightedFacetCounting(None), &["x", "y"], &counts);
    assert_eq!(choice, Some(("~x".to_string(), Some(0))));
    assert_eq!(asked, strings(&["x", "~x"]));
}

#[test]
fn max_facet_count_returns_the_least_count_and_the_latest_of_equals() {
    let counts = [Some(6), Some(2), Some(4), Some(2), Some(8), Some(10)];
    let (choice, asked) =
        replay(Mode::MaxWeightedFacetCounting(None), &["x", "y", "z"], &counts);
    assert_eq!(choice, Some(("~y".to_string(), Some(2))));
    assert_eq!(asked, strings(&["x", "~x", "y", "~y", "z", "~z"]));
}

#[test]
fn max_facet_count_stays_under_the_running_bound() {
    // after a step that measured 4, only counts up to 3 are taken up
    let counts = [Some(4), Some(6)];
    let (choice, _) = replay(Mode::MaxWeightedFacetCounting(Some(4)), &["x"], &counts);
    assert_eq!(choice, None);
    let counts = [Some(3), Some(6)];
    let (choice, _) = replay(Mode::MaxWeightedFacetCounting(Some(4)), &["x"], &counts);
    assert_eq!(choice, Some(("x".to_string(), Some(3))));
}

#[test]
fn min_facet_count_tries_the_negation_first_and_prefers_large_counts() {
    let counts = [Some(2), Some(6), Some(6), Some(4)];
    let (choice, asked) = replay(Mode::MinWeightedFacetCounting(None), &["x", "y"], &counts);
    assert_eq!(asked, strings(&["~x", "x", "~y", "y"]));
    assert_eq!(choice, Some(("~y".to_string(), Some(6))));
}

#[test]
fn min_facet_count_stops_at_one_below_the_running_bound() {
    let counts = [Some(2), Some(7), Some(9), Some(9)];
    let (choice, asked) = replay(Mode::MinWeightedFacetCounting(Some(8)), &["x", "y"], &counts);
    assert_eq!(choice, Some(("x".to_string(), Some(7))));
    assert_eq!(asked, strings(&["~x", "x"]));
}

#[test]
fn answer_set_modes_measure_each_candidate_once() {
    // three answer sets in all, two of them with b: one is left for ~b
    let (choice, asked) =
        replay(Mode::MaxWeightedAnswerSetCounting(Some(3)), &["b", "c"], &[Some(2), Some(1)]);
    assert_eq!(choice, Some(("~b".to_string(), Some(1))));
    assert_eq!(asked, strings(&["b"]));

    let (choice, asked) =
        replay(Mode::MinWeightedAnswerSetCounting(Some(5)), &["b", "c"], &[Some(2), Some(2)]);
    assert_eq!(asked, strings(&["~b", "~c"]));
    assert_eq!(choice, Some(("c".to_string(), Some(3))));
}

#[test]
fn answer_set_modes_derive_nothing_without_a_total() {
    let (choice, _) =
        replay(Mode::MaxWeightedAnswerSetCounting(None), &["b", "c"], &[Some(2), Some(3)]);
    assert_eq!(choice, Some(("b".to_string(), Some(2))));
    // a count above the total leaves nothing to derive
    let (choice, _) = replay(Mode::MinWeightedAnswerSetCounting(Some(2)), &["b"], &[Some(3)]);
    assert_eq!(choice, Some(("~b".to_string(), Some(3))));
}

#[test]
fn unknown_counts_give_no_proposal() {
    let counts = [None, None, None, None];
    for mode in [
        Mode::MaxWeightedFacetCounting(None),
        Mode::MinWeightedFacetCounting(None),
    ] {
        let (choice, asked) = replay(mode, &["x", "y"], &counts);
        assert_eq!(choice, None);
        assert_eq!(asked.len(), 4);
    }
    let (choice, asked) =
        replay(Mode::MaxWeightedAnswerSetCounting(Some(3)), &["x", "y"], &counts);
    assert_eq!(choice, None);
    assert_eq!(asked.len(), 2);
}

#[test]
fn complement_counts_add_up_to_the_total() {
    let nav = Reasoner::tiny();
    let total = nav.answer_set_count(&[]);
    for atom in ["a", "b", "c", "d", "e"] {
        let with = nav.answer_set_count(&strings(&[atom]));
        let without = nav.answer_set_count(&[format!("~{atom}")]);
        assert_eq!(with + without, total);
        assert_eq!(fasb::modes::complement(Some(total), Some(with)), Some(without));
    }
    assert_eq!(fasb::modes::complement(Some(3), Some(4)), None);
    assert_eq!(fasb::modes::complement(None, Some(4)), None);
    assert_eq!(fasb::modes::complement(Some(3), None), None);
}

#[test]
fn threshold_is_one_below_the_previous_count() {
    assert_eq!(fasb::modes::threshold(Some(5)), 4);
    assert_eq!(fasb::modes::threshold(Some(1)), 0);
    assert_eq!(fasb::modes::threshold(Some(0)), usize::MAX);
    assert_eq!(fasb::modes::threshold(None), usize::MAX);
}

#[test]
fn update_keeps_the_strategy() {
    let mut mode = Mode::MinWeightedAnswerSetCounting(None);
    mode.update(Some(7));
    assert_eq!(mode, Mode::MinWeightedAnswerSetCounting(Some(7)));
    let mut mode = Mode::GoalOriented(Some(1));
    mode.update(None);
    assert_eq!(mode, Mode::GoalOriented(None));
    let mut mode = Mode::MaxWeightedFacetCounting(Some(1));
    mode.update(Some(0));
    assert_eq!(mode, Mode::MaxWeightedFacetCounting(Some(0)));
}

#[test]
fn modes_describe_themselves() {
    assert_eq!(Mode::GoalOriented(None).description(), "goal oriented (go)");
    assert_eq!(
        Mode::MaxWeightedFacetCounting(None).description(),
        "strictly goal oriented mode counting facets (max#f)"
    );
    assert_eq!(
        Mode::MinWeightedFacetCounting(None).description(),
        "explore mode counting facets (min#f)"
    );
    assert_eq!(
        Mode::MaxWeightedAnswerSetCounting(None).description(),
        "strictly goal oriented mode counting answer sets (max#as)"
    );
    assert_eq!(
        Mode::MinWeightedAnswerSetCounting(None).description(),
        "explore mode counting answer sets (min#as)"
    );
}

#[test]
fn perform_appends_the_proposed_literal() {
    let mut nav = Reasoner::tiny();
    let mut active = strings(&["b"]);
    let among = nav.facet_inducing_atoms(&active);
    let mut search = Search::start(Mode::MaxWeightedFacetCounting(None), among);
    while let Some((literal, weight)) = search.next_probe() {
        active.push(literal);
        let counted = nav.count(weight, &active);
        active.pop();
        search.answer(counted);
    }
    let proposed = fasb::modes::propose_next_step(&search);
    assert_eq!(active, strings(&["b"]));
    let performed = fasb::modes::perform_next_step(&search, &mut active);
    assert_eq!(proposed, performed);
    assert_eq!(performed, Some(("c".to_string(), Some(0))));
    assert_eq!(active, strings(&["b", "c"]));
    assert_eq!(nav.probes, 1);
}
