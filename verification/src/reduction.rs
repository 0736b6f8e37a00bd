//! Finding the facets among many atoms with few questions: each answer set
//! that proves one atom a facet is searched for others that it proves too.
//!
//! The program in question holds its own shadow copy. An answer set in which
//! an atom holds and its shadow does not, or the other way round, shows that
//! the atom is a facet.

use vstd::prelude::*;
use crate::is_facet::{copied_atom, copy_atom, shadow, unmarked};
use crate::text::{contains, texts};

verus! {

/// The state of a reduction, as texts.
pub struct State {
    /// The atoms still to be asked about, in the order in which they are
    /// tried.
    pub targets: Seq<Seq<char>>,
    /// The atoms found to be facets.
    pub facets: Seq<Seq<char>>,
    /// The atoms that are settled, or being asked about.
    pub seen: Seq<Seq<char>>,
    /// The atoms that an answer set brought up and did not settle.
    pub rest: Seq<Seq<char>>,
    /// How many atoms are to be settled at most.
    pub limit: nat,
    /// How many atoms are settled.
    pub done: nat,
}

/// A reduction in progress.
pub struct Reduction {
    pub targets: Vec<String>,
    pub facets: Vec<String>,
    pub seen: Vec<String>,
    pub limit: u64,
    pub done: u64,
}

/// Whether a name belongs to the shadow vocabulary.
pub open spec fn is_shadow(name: Seq<char>) -> bool {
    name.len() > 0 && name[0] == '_'
}

/// What one atom `beta` of the answer set `answer` adds to a state, `alpha`
/// being the atom that was asked about. Nothing, once the limit is reached,
/// and nothing for an atom that is settled. An atom that holds without its
/// counterpart in the other vocabulary settles its atom as a facet; one that
/// holds together with its counterpart is kept to be asked about.
pub open spec fn taken_in(
    s: State,
    alpha: Seq<char>,
    answer: Seq<Seq<char>>,
    beta: Seq<char>,
) -> State {
    let atom = unmarked(beta);
    if s.done >= s.limit {
        s
    } else if beta == alpha || s.seen.contains(beta) || s.seen.contains(atom) {
        s
    } else if is_shadow(beta) {
        if !answer.contains(atom) {
            State { seen: s.seen.push(atom), facets: s.facets.push(atom), done: s.done + 1, ..s }
        } else {
            State { rest: s.rest.push(atom), ..s }
        }
    } else {
        if !answer.contains(shadow(beta)) {
            State { seen: s.seen.push(beta), facets: s.facets.push(beta), done: s.done + 1, ..s }
        } else {
            State { rest: s.rest.push(atom), ..s }
        }
    }
}

/// The state after the first `upto` atoms of the answer set were taken in.
pub open spec fn taken_in_upto(
    s: State,
    alpha: Seq<char>,
    answer: Seq<Seq<char>>,
    upto: nat,
) -> State
    decreases upto,
{
    if upto == 0 {
        s
    } else {
        taken_in(
            taken_in_upto(s, alpha, answer, (upto - 1) as nat),
            alpha,
            answer,
            answer[upto - 1],
        )
    }
}

/// The texts of `targets` that are not in `seen`, in their order.
pub open spec fn unseen(targets: Seq<Seq<char>>, seen: Seq<Seq<char>>) -> Seq<Seq<char>>
    decreases targets.len(),
{
    if targets.len() == 0 {
        Seq::<Seq<char>>::empty()
    } else if seen.contains(targets.last()) {
        unseen(targets.drop_last(), seen)
    } else {
        unseen(targets.drop_last(), seen).push(targets.last())
    }
}

/// The texts of `all`, each at the place where it first stands.
pub open spec fn without_repeats(all: Seq<Seq<char>>) -> Seq<Seq<char>>
    decreases all.len(),
{
    if all.len() == 0 {
        Seq::<Seq<char>>::empty()
    } else {
        let front = without_repeats(all.drop_last());
        if front.contains(all.last()) {
            front
        } else {
            front.push(all.last())
        }
    }
}

/// The state after the answer to the question about `alpha` was taken in.
/// The atom counts as settled either way. Without an answer set it is no
/// facet, and the first target leaves the list. With one it is a facet, the
/// answer set is searched, and what it brought up is asked about before the
/// targets that are left; where the limit is reached nothing more is asked.
pub open spec fn digested(s: State, alpha: Seq<char>, answer: Option<Seq<Seq<char>>>) -> State {
    let marked = State { seen: s.seen.push(alpha), done: s.done + 1, ..s };
    match answer {
        None => State {
            targets: if s.targets.len() > 0 {
                s.targets.skip(1)
            } else {
                s.targets
            },
            ..marked
        },
        Some(a) => {
            let found = State { facets: s.facets.push(alpha), ..marked };
            let t = taken_in_upto(found, alpha, a, a.len());
            if t.done >= t.limit {
                State { rest: Seq::<Seq<char>>::empty(), ..t }
            } else {
                State {
                    targets: without_repeats(t.rest + unseen(t.targets, t.seen)),
                    rest: Seq::<Seq<char>>::empty(),
                    ..t
                }
            }
        },
    }
}

fn begins_marked(name: &str) -> (b: bool)
    ensures
        b == is_shadow(name@),
{
    name.unicode_len() > 0 && name.get_char(0) == '_'
}

fn keep_unseen(targets: &Vec<String>, seen: &Vec<String>, onto: &mut Vec<String>)
    ensures
        texts(final(onto)@) == texts(old(onto)@) + unseen(texts(targets@), texts(seen@)),
{
    let ghost start = texts(onto@);
    let mut i: usize = 0;
    assert(start + unseen(texts(targets@).take(0), texts(seen@)) =~= start);
    while i < targets.len()
        invariant
            i <= targets.len(),
            texts(onto@) == start + unseen(texts(targets@).take(i as int), texts(seen@)),
        decreases targets.len() - i,
    {
        proof {
            let all = texts(targets@);
            assert(all.take(i + 1).drop_last() == all.take(i as int));
            assert(all.take(i + 1).last() == targets@[i as int]@);
        }
        if !contains(seen, &targets[i]) {
            let ghost before = texts(onto@);
            onto.push(targets[i].clone());
            assert(texts(onto@) =~= before.push(targets@[i as int]@));
            assert(texts(onto@) =~= start + unseen(
                texts(targets@).take(i + 1),
                texts(seen@),
            ));
        }
        i += 1;
    }
    proof {
        assert(texts(targets@).take(targets@.len() as int) == texts(targets@));
    }
}

fn drop_repeats(all: &Vec<String>) -> (firsts: Vec<String>)
    ensures
        texts(firsts@) == without_repeats(texts(all@)),
{
    let mut firsts: Vec<String> = Vec::new();
    let mut i: usize = 0;
    assert(texts(firsts@) =~= without_repeats(texts(all@).take(0)));
    while i < all.len()
        invariant
            i <= all.len(),
            texts(firsts@) == without_repeats(texts(all@).take(i as int)),
        decreases all.len() - i,
    {
        proof {
            let texts_all = texts(all@);
            assert(texts_all.take(i + 1).drop_last() == texts_all.take(i as int));
            assert(texts_all.take(i + 1).last() == all@[i as int]@);
        }
        if !contains(&firsts, &all[i]) {
            let ghost before = texts(firsts@);
            firsts.push(all[i].clone());
            assert(texts(firsts@) =~= before.push(all@[i as int]@));
        }
        i += 1;
    }
    proof {
        assert(texts(all@).take(all@.len() as int) == texts(all@));
    }
    firsts
}

impl Reduction {
    /// The state as texts.
    pub open spec fn state(&self) -> State {
        State {
            targets: texts(self.targets@),
            facets: texts(self.facets@),
            seen: texts(self.seen@),
            rest: Seq::<Seq<char>>::empty(),
            limit: self.limit as nat,
            done: self.done as nat,
        }
    }

    /// The atom to ask about next: the first target that is not settled.
    /// `None` where the limit is reached or no such target is left; the
    /// facets found are then final.
    pub fn next_atom(&self) -> (atom: Option<String>)
        ensures
            match atom {
                Some(a) => self.done < self.limit && exists|i: int|
                    {
                        &&& 0 <= i < self.targets@.len()
                        &&& #[trigger] texts(self.targets@)[i] == a@
                        &&& !texts(self.seen@).contains(a@)
                        &&& forall|j: int|
                            0 <= j < i ==> texts(self.seen@).contains(
                                #[trigger] texts(self.targets@)[j],
                            )
                    },
                None => self.done >= self.limit || forall|j: int|
                    0 <= j < self.targets@.len() ==> texts(self.seen@).contains(
                        #[trigger] texts(self.targets@)[j],
                    ),
            },
    {
        if self.done >= self.limit {
            return None;
        }
        let mut i: usize = 0;
        while i < self.targets.len()
            invariant
                i <= self.targets@.len(),
                self.done < self.limit,
                forall|j: int|
                    0 <= j < i ==> texts(self.seen@).contains(#[trigger] texts(self.targets@)[j]),
            decreases self.targets.len() - i,
        {
            if !contains(&self.seen, &self.targets[i]) {
                let a = self.targets[i].clone();
                assert(texts(self.targets@)[i as int] == a@);
                return Some(a);
            }
            i += 1;
        }
        None
    }

    /// Takes in the answer to the question about `alpha`: the answer set
    /// that was found for the atom together with the negation of its shadow,
    /// or `None` where there is none.
    pub fn digest(&mut self, alpha: String, answer: Option<Vec<String>>)
        requires
            old(self).done < old(self).limit,
        ensures
            final(self).state() == digested(
                old(self).state(),
                alpha@,
                match answer {
                    Some(a) => Some(texts(a@)),
                    None => None,
                },
            ),
            final(self).done <= final(self).limit,
            final(self).done > old(self).done,
    {
        let ghost s0 = self.state();
        let ghost before_seen = texts(self.seen@);
        self.seen.push(alpha.clone());
        assert(texts(self.seen@) =~= before_seen.push(alpha@));
        self.done = self.done + 1;
        match answer {
            None => {
                if self.targets.len() > 0 {
                    let ghost before = texts(self.targets@);
                    self.targets.remove(0);
                    assert(texts(self.targets@) =~= before.skip(1));
                }
            },
            Some(answer_set) => {
                let ghost before_facets = texts(self.facets@);
                self.facets.push(alpha.clone());
                assert(texts(self.facets@) =~= before_facets.push(alpha@));
                let ghost found = State {
                    facets: s0.facets.push(alpha@),
                    seen: s0.seen.push(alpha@),
                    done: s0.done + 1,
                    ..s0
                };
                let ghost a = texts(answer_set@);
                let mut rest: Vec<String> = Vec::new();
                let mut i: usize = 0;
                assert(texts(rest@) =~= Seq::<Seq<char>>::empty());
                while i < answer_set.len()
                    invariant
                        i <= answer_set.len(),
                        a == texts(answer_set@),
                        old(self).done < self.done <= self.limit,
                        self.limit == old(self).limit,
                        self.targets == old(self).targets,
                        (State {
                            targets: texts(self.targets@),
                            facets: texts(self.facets@),
                            seen: texts(self.seen@),
                            rest: texts(rest@),
                            limit: self.limit as nat,
                            done: self.done as nat,
                        }) == taken_in_upto(found, alpha@, a, i as nat),
                    decreases answer_set.len() - i,
                {
                    let beta = &answer_set[i];
                    assert(a[i as int] == beta@);
                    let ghost now = taken_in_upto(found, alpha@, a, i as nat);
                    assert(taken_in_upto(found, alpha@, a, (i + 1) as nat) == taken_in(
                        now,
                        alpha@,
                        a,
                        beta@,
                    ));
                    if self.done < self.limit {
                        let atom = copied_atom(beta.as_str());
                        if !(*beta == alpha) && !contains(&self.seen, beta) && !contains(
                            &self.seen,
                            &atom,
                        ) {
                            let settles = if begins_marked(beta.as_str()) {
                                if !contains(&answer_set, &atom) {
                                    Some(atom.clone())
                                } else {
                                    None
                                }
                            } else {
                                let c = copy_atom(beta.as_str());
                                if !contains(&answer_set, &c) {
                                    Some(beta.clone())
                                } else {
                                    None
                                }
                            };
                            match settles {
                                Some(facet) => {
                                    let ghost seen_before = texts(self.seen@);
                                    let ghost facets_before = texts(self.facets@);
                                    self.seen.push(facet.clone());
                                    self.facets.push(facet);
                                    self.done = self.done + 1;
                                    assert(texts(self.seen@) =~= seen_before.push(facet@));
                                    assert(texts(self.facets@) =~= facets_before.push(facet@));
                                },
                                None => {
                                    let ghost rest_before = texts(rest@);
                                    rest.push(atom);
                                    assert(texts(rest@) =~= rest_before.push(atom@));
                                },
                            }
                        }
                    }
                    i += 1;
                }
                if self.done < self.limit {
                    keep_unseen(&self.targets, &self.seen, &mut rest);
                    self.targets = drop_repeats(&rest);
                }
            },
        }
    }
}

} // verus!
