//! A selection of answer sets, given as clauses, and the rules that impose
//! it on a program.

use vstd::prelude::*;
use vstd::string::StringExecFns;
use crate::text::{constraint_literal, decimal, digits, join, joined, spell, spelled, texts,
    to_constraint_literal};

verus! {

/// Clauses in conjunctive and in disjunctive normal form.
#[derive(Debug, Clone)]
pub struct Selection {
    cnf: Vec<Vec<String>>,
    dnf: Vec<Vec<String>>,
}

/// The texts of a list of clauses.
pub open spec fn clause_texts(clauses: Seq<Vec<String>>) -> Seq<Seq<Seq<char>>> {
    Seq::new(clauses.len(), |i: int| texts(clauses[i]@))
}

/// The constraint that rules out every answer set in which no literal of
/// `clause` holds.
pub open spec fn cnf_rule(clause: Seq<Seq<char>>) -> Seq<char> {
    ":- "@ + joined(clause.map_values(|l: Seq<char>| constraint_literal(l)), ","@) + "."@
}

/// The rule that derives the marker of the `i`-th conjunction from its
/// literals.
pub open spec fn dnf_rule(i: nat, clause: Seq<Seq<char>>) -> Seq<char> {
    "t"@ + digits(i) + " :- "@ + joined(clause.map_values(|l: Seq<char>| spelled(l)), ","@)
        + "."@
}

/// The constraint that asks for one of the first `n` markers.
pub open spec fn closing_rule(n: nat) -> Seq<char> {
    ":- "@ + joined(Seq::new(n, |i: int| "not t"@ + digits(i as nat)), ","@) + "."@
}

/// The rules of a selection: one constraint for each clause of the
/// conjunctive form, then one rule for each conjunction of the disjunctive
/// form and, where there is any, the constraint that asks for one of them.
pub open spec fn selection_rules(cnf: Seq<Seq<Seq<char>>>, dnf: Seq<Seq<Seq<char>>>) -> Seq<
    Seq<char>,
> {
    Seq::new(cnf.len(), |i: int| cnf_rule(cnf[i])) + Seq::new(
        dnf.len(),
        |i: int| dnf_rule(i as nat, dnf[i]),
    ) + (if dnf.len() > 0 {
        seq![closing_rule(dnf.len())]
    } else {
        Seq::<Seq<char>>::empty()
    })
}

fn cnf_rule_of(clause: &Vec<String>) -> (rule: String)
    ensures
        rule@ == cnf_rule(texts(clause@)),
{
    let mut parts: Vec<String> = Vec::new();
    let mut i: usize = 0;
    while i < clause.len()
        invariant
            i <= clause.len(),
            parts@.len() == i,
            forall|j: int| 0 <= j < i ==> (#[trigger] parts@[j])@ == constraint_literal(clause@[j]@),
        decreases clause.len() - i,
    {
        parts.push(to_constraint_literal(clause[i].as_str()));
        i += 1;
    }
    assert(texts(parts@) =~= texts(clause@).map_values(|l: Seq<char>| constraint_literal(l)));
    let mut rule = ":- ".to_owned();
    rule.append(join(&parts, ",").as_str());
    rule.append(".");
    rule
}

fn dnf_rule_of(i: usize, clause: &Vec<String>) -> (rule: String)
    ensures
        rule@ == dnf_rule(i as nat, texts(clause@)),
{
    let mut parts: Vec<String> = Vec::new();
    let mut k: usize = 0;
    while k < clause.len()
        invariant
            k <= clause.len(),
            parts@.len() == k,
            forall|j: int| 0 <= j < k ==> (#[trigger] parts@[j])@ == spelled(clause@[j]@),
        decreases clause.len() - k,
    {
        parts.push(spell(clause[k].as_str()));
        k += 1;
    }
    assert(texts(parts@) =~= texts(clause@).map_values(|l: Seq<char>| spelled(l)));
    let mut rule = "t".to_owned();
    rule.append(decimal(i as u128).as_str());
    rule.append(" :- ");
    rule.append(join(&parts, ",").as_str());
    rule.append(".");
    rule
}

fn closing_rule_of(n: usize) -> (rule: String)
    ensures
        rule@ == closing_rule(n as nat),
{
    let mut parts: Vec<String> = Vec::new();
    let mut i: usize = 0;
    while i < n
        invariant
            i <= n,
            parts@.len() == i,
            forall|j: int| 0 <= j < i ==> (#[trigger] parts@[j])@ == "not t"@ + digits(j as nat),
        decreases n - i,
    {
        let mut part = "not t".to_owned();
        part.append(decimal(i as u128).as_str());
        parts.push(part);
        i += 1;
    }
    assert(texts(parts@) =~= Seq::new(n as nat, |i: int| "not t"@ + digits(i as nat)));
    let mut rule = ":- ".to_owned();
    rule.append(join(&parts, ",").as_str());
    rule.append(".");
    rule
}

impl Selection {
    /// The clauses of the conjunctive normal form.
    pub closed spec fn cnf_view(&self) -> Seq<Seq<Seq<char>>> {
        clause_texts(self.cnf@)
    }

    /// The conjunctions of the disjunctive normal form.
    pub closed spec fn dnf_view(&self) -> Seq<Seq<Seq<char>>> {
        clause_texts(self.dnf@)
    }

    /// The selection that selects everything.
    pub fn new() -> (selection: Self)
        ensures
            selection.cnf_view() == Seq::<Seq<Seq<char>>>::empty(),
            selection.dnf_view() == Seq::<Seq<Seq<char>>>::empty(),
    {
        let selection = Selection { cnf: Vec::new(), dnf: Vec::new() };
        assert(selection.cnf_view() =~= Seq::<Seq<Seq<char>>>::empty());
        assert(selection.dnf_view() =~= Seq::<Seq<Seq<char>>>::empty());
        selection
    }

    /// The rules that impose the selection on a program, in the order in
    /// which they are to be added.
    pub fn select(&self) -> (rules: Vec<String>)
        ensures
            texts(rules@) == selection_rules(self.cnf_view(), self.dnf_view()),
    {
        let mut rules: Vec<String> = Vec::new();
        let mut i: usize = 0;
        while i < self.cnf.len()
            invariant
                i <= self.cnf.len(),
                rules@.len() == i,
                forall|j: int| 0 <= j < i ==> (#[trigger] rules@[j])@ == cnf_rule(texts(self.cnf@[j]@)),
            decreases self.cnf.len() - i,
        {
            rules.push(cnf_rule_of(&self.cnf[i]));
            i += 1;
        }
        let n = self.cnf.len();
        let mut k: usize = 0;
        while k < self.dnf.len()
            invariant
                k <= self.dnf.len(),
                n == self.cnf.len(),
                rules@.len() == n + k,
                forall|j: int| 0 <= j < n ==> (#[trigger] rules@[j])@ == cnf_rule(texts(self.cnf@[j]@)),
                forall|j: int|
                    0 <= j < k ==> (#[trigger] rules@[n + j])@ == dnf_rule(
                        j as nat,
                        texts(self.dnf@[j]@),
                    ),
            decreases self.dnf.len() - k,
        {
            let ghost before = rules@;
            rules.push(dnf_rule_of(k, &self.dnf[k]));
            assert forall|j: int| 0 <= j < k + 1 implies (#[trigger] rules@[n + j])@ == dnf_rule(
                j as nat,
                texts(self.dnf@[j]@),
            ) by {
                if j < k {
                    assert(rules@[n + j] == before[n + j]);
                }
            }
            k += 1;
        }
        let ghost listed = rules@;
        if self.dnf.len() > 0 {
            rules.push(closing_rule_of(self.dnf.len()));
        }
        proof {
            let m = self.dnf@.len() as int;
            let expected = selection_rules(self.cnf_view(), self.dnf_view());
            assert(expected.len() == texts(rules@).len());
            assert forall|j: int| 0 <= j < expected.len() implies texts(rules@)[j] == expected[j] by {
                if j < n {
                    assert(rules@[j] == listed[j]);
                } else if j < n + m {
                    assert(rules@[n + (j - n)] == listed[n + (j - n)]);
                }
            }
            assert(texts(rules@) =~= expected);
        }
        rules
    }

    /// Adds a clause to the conjunctive normal form.
    pub fn add_to_cnf(&mut self, clause: Vec<String>)
        ensures
            final(self).cnf_view() == old(self).cnf_view().push(texts(clause@)),
            final(self).dnf_view() == old(self).dnf_view(),
    {
        self.cnf.push(clause);
        assert(self.cnf_view() =~= old(self).cnf_view().push(texts(clause@)));
    }

    /// Adds a conjunction to the disjunctive normal form.
    pub fn add_to_dnf(&mut self, clause: Vec<String>)
        ensures
            final(self).dnf_view() == old(self).dnf_view().push(texts(clause@)),
            final(self).cnf_view() == old(self).cnf_view(),
    {
        self.dnf.push(clause);
        assert(self.dnf_view() =~= old(self).dnf_view().push(texts(clause@)));
    }
}

impl Default for Selection {
    fn default() -> (selection: Self)
        ensures
            selection.cnf_view() == Seq::<Seq<Seq<char>>>::empty(),
            selection.dnf_view() == Seq::<Seq<Seq<char>>>::empty(),
    {
        Selection::new()
    }
}

} // verus!
