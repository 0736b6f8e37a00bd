//! Navigation modes and the greedy search for the next step.
//!
//! A mode never talks to the reasoner. A [`Search`] says which literal is to
//! be measured next, takes the measured count, and in the end names the
//! literal it settled on. Whoever owns the reasoner measures each literal
//! against the unchanged route.

use vstd::prelude::*;
use crate::text::{negate, negation, texts};

verus! {

/// What a measurement counts under a route.
#[derive(Clone, Copy, Debug, PartialEq, Eq)]
pub enum Weight {
    AnswerSetCounting,
    FacetCounting,
}

/// A navigation mode together with its running bound: the count measured at
/// the previous step, if there was one.
#[derive(Clone, Copy, Debug, PartialEq, Eq)]
pub enum Mode<T> {
    GoalOriented(T),
    MinWeightedFacetCounting(T),
    MaxWeightedFacetCounting(T),
    MinWeightedAnswerSetCounting(T),
    MaxWeightedAnswerSetCounting(T),
}

/// The count that a search has to stay within after a step that measured
/// `prev`: one less. There is no limit where nothing was measured yet, nor
/// where the count was zero and nothing is below it.
pub open spec fn spec_threshold(prev: Option<usize>) -> usize {
    match prev {
        Some(c) => if c > 0 { (c - 1) as usize } else { usize::MAX },
        None => usize::MAX,
    }
}

#[verifier::when_used_as_spec(spec_threshold)]
pub fn threshold(prev: Option<usize>) -> (t: usize)
    ensures
        t == spec_threshold(prev),
{
    match prev {
        Some(c) => if c > 0 { c - 1 } else { usize::MAX },
        None => usize::MAX,
    }
}

/// The count left for the complement of a literal: what remains of `total`
/// once the `counted` answer sets that hold the literal are taken away.
/// There is none where either count is missing or `counted` exceeds `total`.
pub open spec fn spec_complement(total: Option<usize>, counted: Option<usize>) -> Option<usize> {
    match (total, counted) {
        (Some(t), Some(c)) => if c <= t { Some((t - c) as usize) } else { None },
        _ => None,
    }
}

#[verifier::when_used_as_spec(spec_complement)]
pub fn complement(total: Option<usize>, counted: Option<usize>) -> (rest: Option<usize>)
    ensures
        rest == spec_complement(total, counted),
        rest is Some ==> total is Some && counted is Some && counted.unwrap() + rest.unwrap()
            == total.unwrap(),
        total is Some && counted is Some && counted.unwrap() <= total.unwrap() ==> rest is Some,
{
    match (total, counted) {
        (Some(t), Some(c)) => if c <= t { Some(t - c) } else { None },
        _ => None,
    }
}

impl Mode<Option<usize>> {
    /// The running bound.
    pub open spec fn spec_bound(self) -> Option<usize> {
        match self {
            Mode::GoalOriented(b) => b,
            Mode::MinWeightedFacetCounting(b) => b,
            Mode::MaxWeightedFacetCounting(b) => b,
            Mode::MinWeightedAnswerSetCounting(b) => b,
            Mode::MaxWeightedAnswerSetCounting(b) => b,
        }
    }

    /// Whether two modes follow the same strategy, whatever their bounds.
    pub open spec fn same_strategy(self, other: Self) -> bool {
        match (self, other) {
            (Mode::GoalOriented(_), Mode::GoalOriented(_)) => true,
            (Mode::MinWeightedFacetCounting(_), Mode::MinWeightedFacetCounting(_)) => true,
            (Mode::MaxWeightedFacetCounting(_), Mode::MaxWeightedFacetCounting(_)) => true,
            (Mode::MinWeightedAnswerSetCounting(_), Mode::MinWeightedAnswerSetCounting(_)) => true,
            (Mode::MaxWeightedAnswerSetCounting(_), Mode::MaxWeightedAnswerSetCounting(_)) => true,
            _ => false,
        }
    }

    /// Whether the mode measures its candidates at all.
    pub open spec fn spec_measures(self) -> bool {
        !(self is GoalOriented)
    }

    /// Whether the mode looks for the smallest count (the strictly goal
    /// oriented modes) rather than the largest (the exploring modes).
    pub open spec fn spec_prefers_smallest(self) -> bool {
        self is MaxWeightedFacetCounting || self is MaxWeightedAnswerSetCounting
    }

    /// Whether the mode counts answer sets rather than facets.
    pub open spec fn spec_counts_answer_sets(self) -> bool {
        self is MinWeightedAnswerSetCounting || self is MaxWeightedAnswerSetCounting
    }

    /// The count at which the search stops at once.
    pub open spec fn spec_target(self) -> usize {
        match self {
            Mode::MaxWeightedFacetCounting(_) => 0,
            Mode::MaxWeightedAnswerSetCounting(_) => 1,
            _ => spec_threshold(self.spec_bound()),
        }
    }

    /// The count that a candidate has to reach to be taken up at all.
    pub open spec fn spec_start_value(self) -> usize {
        match self {
            Mode::MinWeightedFacetCounting(_) => 0,
            Mode::MinWeightedAnswerSetCounting(_) => 1,
            _ => spec_threshold(self.spec_bound()),
        }
    }

    /// Whether a candidate that measured `x` replaces one that measured
    /// `curr`. Equal counts replace: the later candidate wins.
    pub open spec fn spec_adopts(self, x: usize, curr: usize) -> bool {
        if self.spec_prefers_smallest() {
            x <= curr
        } else {
            x >= curr
        }
    }

    /// What the mode has counted for it.
    pub open spec fn spec_weight(self) -> Weight {
        if self.spec_counts_answer_sets() {
            Weight::AnswerSetCounting
        } else {
            Weight::FacetCounting
        }
    }

    #[verifier::when_used_as_spec(spec_bound)]
    pub fn bound(self) -> (b: Option<usize>)
        ensures
            b == self.spec_bound(),
    {
        match self {
            Mode::GoalOriented(b) => b,
            Mode::MinWeightedFacetCounting(b) => b,
            Mode::MaxWeightedFacetCounting(b) => b,
            Mode::MinWeightedAnswerSetCounting(b) => b,
            Mode::MaxWeightedAnswerSetCounting(b) => b,
        }
    }

    #[verifier::when_used_as_spec(spec_measures)]
    pub fn measures(self) -> (b: bool)
        ensures
            b == self.spec_measures(),
    {
        match self {
            Mode::GoalOriented(_) => false,
            _ => true,
        }
    }

    #[verifier::when_used_as_spec(spec_prefers_smallest)]
    pub fn prefers_smallest(self) -> (b: bool)
        ensures
            b == self.spec_prefers_smallest(),
    {
        match self {
            Mode::MaxWeightedFacetCounting(_) => true,
            Mode::MaxWeightedAnswerSetCounting(_) => true,
            _ => false,
        }
    }

    #[verifier::when_used_as_spec(spec_counts_answer_sets)]
    pub fn counts_answer_sets(self) -> (b: bool)
        ensures
            b == self.spec_counts_answer_sets(),
    {
        match self {
            Mode::MinWeightedAnswerSetCounting(_) => true,
            Mode::MaxWeightedAnswerSetCounting(_) => true,
            _ => false,
        }
    }

    #[verifier::when_used_as_spec(spec_target)]
    pub fn target(self) -> (t: usize)
        ensures
            t == self.spec_target(),
    {
        match self {
            Mode::MaxWeightedFacetCounting(_) => 0,
            Mode::MaxWeightedAnswerSetCounting(_) => 1,
            _ => threshold(self.bound()),
        }
    }

    #[verifier::when_used_as_spec(spec_start_value)]
    pub fn start_value(self) -> (t: usize)
        ensures
            t == self.spec_start_value(),
    {
        match self {
            Mode::MinWeightedFacetCounting(_) => 0,
            Mode::MinWeightedAnswerSetCounting(_) => 1,
            _ => threshold(self.bound()),
        }
    }

    #[verifier::when_used_as_spec(spec_adopts)]
    pub fn adopts(self, x: usize, curr: usize) -> (b: bool)
        ensures
            b == self.spec_adopts(x, curr),
    {
        if self.prefers_smallest() {
            x <= curr
        } else {
            x >= curr
        }
    }

    /// What the mode asks the reasoner to count.
    #[verifier::when_used_as_spec(spec_weight)]
    pub fn weight(self) -> (w: Weight)
        ensures
            w == self.spec_weight(),
    {
        if self.counts_answer_sets() {
            Weight::AnswerSetCounting
        } else {
            Weight::FacetCounting
        }
    }

    /// Replaces the running bound and keeps the strategy.
    pub fn update(&mut self, with: Option<usize>)
        ensures
            final(self).same_strategy(*old(self)),
            final(self).spec_bound() == with,
    {
        match self {
            Mode::GoalOriented(_) => *self = Mode::GoalOriented(with),
            Mode::MaxWeightedFacetCounting(_) => *self = Mode::MaxWeightedFacetCounting(with),
            Mode::MinWeightedFacetCounting(_) => *self = Mode::MinWeightedFacetCounting(with),
            Mode::MaxWeightedAnswerSetCounting(_) => {
                *self = Mode::MaxWeightedAnswerSetCounting(with)
            },
            Mode::MinWeightedAnswerSetCounting(_) => {
                *self = Mode::MinWeightedAnswerSetCounting(with)
            },
        }
    }

    /// The mode in words, with its short name in brackets.
    pub open spec fn described(self) -> Seq<char> {
        match self {
            Mode::GoalOriented(_) => "goal oriented (go)"@,
            Mode::MaxWeightedFacetCounting(_) =>
                "strictly goal oriented mode counting facets (max#f)"@,
            Mode::MinWeightedFacetCounting(_) => "explore mode counting facets (min#f)"@,
            Mode::MaxWeightedAnswerSetCounting(_) =>
                "strictly goal oriented mode counting answer sets (max#as)"@,
            Mode::MinWeightedAnswerSetCounting(_) => "explore mode counting answer sets (min#as)"@,
        }
    }

    /// The mode in words.
    pub fn description(&self) -> (text: String)
        ensures
            text@ == self.described(),
    {
        match self {
            Mode::GoalOriented(_) => "goal oriented (go)".to_owned(),
            Mode::MaxWeightedFacetCounting(_) =>
                "strictly goal oriented mode counting facets (max#f)".to_owned(),
            Mode::MinWeightedFacetCounting(_) => "explore mode counting facets (min#f)".to_owned(),
            Mode::MaxWeightedAnswerSetCounting(_) =>
                "strictly goal oriented mode counting answer sets (max#as)".to_owned(),
            Mode::MinWeightedAnswerSetCounting(_) =>
                "explore mode counting answer sets (min#as)".to_owned(),
        }
    }
}

impl Mode<Option<usize>> {
    /// The literal of the `k`-th evaluation over the candidates `among`. Each
    /// candidate is evaluated twice, one polarity after the other: a mode
    /// that prefers small counts takes the atom first and then its negation,
    /// a mode that prefers large counts the negation first.
    pub open spec fn literal(self, among: Seq<Seq<char>>, k: int) -> Seq<char> {
        if (k % 2 == 0) == self.spec_prefers_smallest() {
            among[k / 2]
        } else {
            negation(among[k / 2])
        }
    }

    /// The evaluations that one measured count adds. A count that meets the
    /// target ends the search by itself. Otherwise a mode that counts facets
    /// takes the count as it is, and a mode that counts answer sets derives
    /// the count of the other polarity from the running bound, with no
    /// second measurement.
    pub open spec fn evaluations_of(self, counted: Option<usize>) -> Seq<Option<usize>> {
        if counted == Some(self.spec_target()) || !self.spec_counts_answer_sets() {
            seq![counted]
        } else {
            seq![counted, spec_complement(self.spec_bound(), counted)]
        }
    }

    /// No evaluation met the target.
    pub open spec fn no_hit(self, evals: Seq<Option<usize>>) -> bool {
        forall|j: int| 0 <= j < evals.len() ==> #[trigger] evals[j] != Some(self.spec_target())
    }

    /// Evaluation `k` is the first to meet the target.
    pub open spec fn first_hit(self, evals: Seq<Option<usize>>, k: int) -> bool {
        &&& 0 <= k < evals.len()
        &&& evals[k] == Some(self.spec_target())
        &&& self.no_hit(evals.take(k))
    }

    /// No evaluation gave a count that the mode would take up.
    pub open spec fn nothing_within(self, evals: Seq<Option<usize>>) -> bool {
        forall|j: int|
            0 <= j < evals.len() && (#[trigger] evals[j]) is Some ==> !self.spec_adopts(
                evals[j].unwrap(),
                self.spec_start_value(),
            )
    }

    /// Evaluation `k` gave the best count of all: within the starting value,
    /// at least as good as every other count, and the last to give it.
    pub open spec fn optimal_at(self, evals: Seq<Option<usize>>, k: int) -> bool {
        &&& 0 <= k < evals.len()
        &&& evals[k] is Some
        &&& self.spec_adopts(evals[k].unwrap(), self.spec_start_value())
        &&& forall|j: int|
            0 <= j < evals.len() && (#[trigger] evals[j]) is Some ==> self.spec_adopts(
                evals[k].unwrap(),
                evals[j].unwrap(),
            )
        &&& forall|j: int| k < j < evals.len() ==> #[trigger] evals[j] != evals[k]
    }

    /// Whether `choice` is what the mode proposes over the candidates `among`
    /// after the evaluations `evals`.
    pub open spec fn proposes(
        self,
        among: Seq<Seq<char>>,
        evals: Seq<Option<usize>>,
        choice: Option<(Seq<char>, Option<usize>)>,
    ) -> bool {
        if !self.spec_measures() {
            choice == (if among.len() == 0 {
                None
            } else {
                Some((among[0], None::<usize>))
            })
        } else {
            match choice {
                None => self.no_hit(evals) && self.nothing_within(evals),
                Some((literal, value)) => exists|k: int|
                    {
                        &&& 0 <= k < evals.len()
                        &&& literal == self.literal(among, k)
                        &&& value == #[trigger] evals[k]
                        &&& (self.first_hit(evals, k) || (self.no_hit(evals) && self.optimal_at(
                            evals,
                            k,
                        )))
                    },
            }
        }
    }
}

/// A search for the next step, part of the way through its candidates.
pub struct Search {
    mode: Mode<Option<usize>>,
    among: Vec<String>,
    /// The candidate whose turn it is.
    pos: usize,
    /// Whether its first polarity has been evaluated already.
    second: bool,
    /// The best count so far.
    curr: usize,
    /// The evaluation that gave it: candidate and polarity.
    best: Option<(usize, bool)>,
    /// Whether the last evaluation met the target.
    hit: bool,
    evals: Ghost<Seq<Option<usize>>>,
    asked: Ghost<nat>,
}

impl Search {
    /// The mode that searches.
    pub closed spec fn mode(&self) -> Mode<Option<usize>> {
        self.mode
    }

    /// The candidates, in the order in which they are tried.
    pub closed spec fn candidates(&self) -> Seq<Seq<char>> {
        texts(self.among@)
    }

    /// The evaluations made so far.
    pub closed spec fn evaluations(&self) -> Seq<Option<usize>> {
        self.evals@
    }

    /// The number of counts that were measured for the search.
    pub closed spec fn probes(&self) -> nat {
        self.asked@
    }

    /// The evaluations that took part in the choice of the best: all of
    /// them, but for one that met the target.
    spec fn considered(&self) -> Seq<Option<usize>> {
        if self.hit {
            self.evals@.drop_last()
        } else {
            self.evals@
        }
    }

    spec fn inv(&self) -> bool {
        let e = self.evals@;
        let c = self.considered();
        &&& self.pos <= self.among@.len()
        &&& self.pos == self.among@.len() ==> !self.second
        &&& e.len() == 2 * self.pos + (if self.second { 1int } else { 0int })
        &&& !self.mode.spec_measures() ==> e.len() == 0
        &&& self.hit ==> e.len() > 0 && e.last() == Some(self.mode.spec_target())
        &&& self.mode.no_hit(c)
        &&& match self.best {
            None => self.curr == self.mode.spec_start_value() && self.mode.nothing_within(c),
            Some((i, s)) => {
                let k = 2 * i + (if s { 1int } else { 0int });
                &&& c[k] == Some(self.curr)
                &&& self.mode.optimal_at(c, k)
            },
        }
    }

    /// The search is consistent, and between two measurements.
    pub closed spec fn wf(&self) -> bool {
        &&& self.inv()
        &&& self.mode.spec_counts_answer_sets() && !self.hit ==> !self.second
        &&& if self.mode.spec_counts_answer_sets() {
            2 * self.asked@ == self.evals@.len() + (if self.second { 1int } else { 0int })
        } else {
            self.asked@ == self.evals@.len()
        }
    }

    /// Nothing is left to measure: the mode measures nothing, an evaluation
    /// met the target, or every candidate was evaluated in both polarities.
    pub open spec fn spec_settled(&self) -> bool {
        let e = self.evaluations();
        ||| !self.mode().spec_measures()
        ||| e.len() == 2 * self.candidates().len()
        ||| (e.len() > 0 && e.last() == Some(self.mode().spec_target()))
    }

    /// A search of `mode` over the candidates `among`, with nothing
    /// evaluated yet.
    pub fn start(mode: Mode<Option<usize>>, among: Vec<String>) -> (search: Search)
        ensures
            search.wf(),
            search.mode() == mode,
            search.candidates() == texts(among@),
            search.evaluations() == Seq::<Option<usize>>::empty(),
            search.probes() == 0,
    {
        Search {
            mode,
            among,
            pos: 0,
            second: false,
            curr: mode.start_value(),
            best: None,
            hit: false,
            evals: Ghost(Seq::empty()),
            asked: Ghost(0),
        }
    }

    #[verifier::when_used_as_spec(spec_settled)]
    pub fn settled(&self) -> (done: bool)
        requires
            self.wf(),
        ensures
            done == self.spec_settled(),
    {
        !self.mode.measures() || self.hit || self.pos == self.among.len()
    }

    /// The literal to measure next, and what to count: the count of the
    /// route extended by that literal alone.
    pub fn next_probe(&self) -> (probe: Option<(String, Weight)>)
        requires
            self.wf(),
        ensures
            probe is None <==> self.spec_settled(),
            probe is Some ==> {
                &&& probe.unwrap().0@ == self.mode().literal(
                    self.candidates(),
                    self.evaluations().len() as int,
                )
                &&& probe.unwrap().1 == self.mode().weight()
            },
    {
        if self.settled() {
            None
        } else {
            Some((self.literal_of(self.pos, self.second), self.mode.weight()))
        }
    }

    fn literal_of(&self, i: usize, second: bool) -> (literal: String)
        requires
            i < self.among@.len(),
        ensures
            literal@ == self.mode.literal(
                texts(self.among@),
                2 * i + (if second { 1int } else { 0int }),
            ),
    {
        if second != self.mode.prefers_smallest() {
            self.among[i].clone()
        } else {
            negate(self.among[i].as_str())
        }
    }

    /// Takes one evaluation in. Says whether it met the target.
    fn consider(&mut self, value: Option<usize>) -> (hit: bool)
        requires
            old(self).inv(),
            !old(self).hit,
            old(self).mode.spec_measures(),
            old(self).pos < old(self).among@.len(),
        ensures
            final(self).inv(),
            final(self).mode == old(self).mode,
            final(self).among == old(self).among,
            final(self).evals@ == old(self).evals@.push(value),
            final(self).asked == old(self).asked,
            final(self).second == !old(self).second,
            hit == final(self).hit,
            hit == (value == Some(old(self).mode.spec_target())),
    {
        let ghost before = self.evals@;
        let ghost after = before.push(value);
        proof {
            assert(after.drop_last() == before);
        }
        let here = (self.pos, self.second);
        let n = self.among.len();
        self.evals = Ghost(after);
        if self.second {
            assert(self.pos < n);
            self.pos = self.pos + 1;
            self.second = false;
        } else {
            self.second = true;
        }
        match value {
            Some(x) => {
                if x == self.mode.target() {
                    self.hit = true;
                } else if self.mode.adopts(x, self.curr) {
                    self.curr = x;
                    self.best = Some(here);
                }
            },
            None => {},
        }
        self.hit
    }

    /// Takes in the count measured for the literal that `next_probe` named;
    /// `None` where the reasoner could not tell.
    pub fn answer(&mut self, counted: Option<usize>)
        requires
            old(self).wf(),
            !old(self).spec_settled(),
        ensures
            final(self).wf(),
            final(self).mode() == old(self).mode(),
            final(self).candidates() == old(self).candidates(),
            final(self).evaluations() == old(self).evaluations() + old(self).mode().evaluations_of(
                counted,
            ),
            counted == Some(old(self).mode().spec_target()) ==> final(self).spec_settled(),
            final(self).probes() == old(self).probes() + 1,
    {
        self.asked = Ghost(self.asked@ + 1);
        let hit = self.consider(counted);
        if !hit && self.mode.counts_answer_sets() {
            let derived = complement(self.mode.bound(), counted);
            self.consider(derived);
        }
    }

    /// What the search settled on: the literal and its count, or `None`
    /// where no candidate was taken up.
    pub fn outcome(&self) -> (choice: Option<(String, Option<usize>)>)
        requires
            self.wf(),
            self.spec_settled(),
        ensures
            self.mode().proposes(
                self.candidates(),
                self.evaluations(),
                match choice {
                    Some((literal, value)) => Some((literal@, value)),
                    None => None,
                },
            ),
    {
        if !self.mode.measures() {
            if self.among.len() == 0 {
                None
            } else {
                Some((self.among[0].clone(), None))
            }
        } else if self.hit {
            // the evaluation just made
            let (i, s) = if self.second {
                (self.pos, false)
            } else {
                (self.pos - 1, true)
            };
            Some((self.literal_of(i, s), Some(self.mode.target())))
        } else {
            match self.best {
                Some((i, s)) => Some((self.literal_of(i, s), Some(self.curr))),
                None => None,
            }
        }
    }
}

/// A strategy for the next step: something that can search among candidate
/// facets, measuring them by counts of type `T`.
pub trait Step<T> where T: Clone + Eq + PartialEq {
    /// A search among the candidates `among`, with nothing evaluated yet.
    fn propose_facet(&self, among: Vec<String>) -> (search: Search)
        ensures
            search.wf(),
            search.candidates() == texts(among@),
            search.evaluations() == Seq::<Option<usize>>::empty(),
            search.probes() == 0,
    ;
}

impl Step<Option<usize>> for Mode<Option<usize>> {
    fn propose_facet(&self, among: Vec<String>) -> (search: Search)
        ensures
            search.mode() == *self,
    {
        Search::start(*self, among)
    }
}

/// A search measures each candidate at most twice, and at most once where
/// it counts answer sets: the count of the other polarity is derived.
pub proof fn probes_are_bounded(search: Search)
    requires
        search.wf(),
    ensures
        search.probes() <= 2 * search.candidates().len(),
        search.mode().spec_counts_answer_sets() ==> search.probes() <= search.candidates().len(),
        search.probes() <= search.evaluations().len() <= 2 * search.candidates().len(),
{
}

/// The choice of a search, as texts.
pub open spec fn choice_view(choice: Option<(String, Option<usize>)>) -> Option<
    (Seq<char>, Option<usize>),
> {
    match choice {
        Some((literal, value)) => Some((literal@, value)),
        None => None,
    }
}

/// The step that a settled search proposes. The route is left as it is.
pub fn propose_next_step(search: &Search) -> (choice: Option<(String, Option<usize>)>)
    requires
        search.wf(),
        search.spec_settled(),
    ensures
        search.mode().proposes(search.candidates(), search.evaluations(), choice_view(choice)),
{
    search.outcome()
}

/// Takes the step that a settled search proposes: the chosen literal is
/// appended to the route `active`. Where nothing is proposed the route stays
/// as it is.
pub fn perform_next_step(search: &Search, active: &mut Vec<String>) -> (choice: Option<
    (String, Option<usize>),
>)
    requires
        search.wf(),
        search.spec_settled(),
    ensures
        search.mode().proposes(search.candidates(), search.evaluations(), choice_view(choice)),
        texts(final(active)@) == (match choice {
            Some((literal, _)) => texts(old(active)@).push(literal@),
            None => texts(old(active)@),
        }),
{
    let choice = search.outcome();
    match &choice {
        Some((literal, _)) => {
            active.push(literal.clone());
            assert(texts(active@) =~= texts(old(active)@).push(literal@));
        },
        None => {},
    }
    choice
}

/// What a mode proposes is determined by the candidates and the evaluations:
/// two choices that both meet `proposes` are the same choice.
pub proof fn proposal_is_determined(
    mode: Mode<Option<usize>>,
    among: Seq<Seq<char>>,
    evals: Seq<Option<usize>>,
    first: Option<(Seq<char>, Option<usize>)>,
    second: Option<(Seq<char>, Option<usize>)>,
)
    requires
        mode.proposes(among, evals, first),
        mode.proposes(among, evals, second),
    ensures
        first == second,
{
    if mode.spec_measures() {
        match (first, second) {
            (Some((l1, v1)), Some((l2, v2))) => {
                let k1 = choose|k: int|
                    {
                        &&& 0 <= k < evals.len()
                        &&& l1 == mode.literal(among, k)
                        &&& v1 == #[trigger] evals[k]
                        &&& (mode.first_hit(evals, k) || (mode.no_hit(evals) && mode.optimal_at(
                            evals,
                            k,
                        )))
                    };
                let k2 = choose|k: int|
                    {
                        &&& 0 <= k < evals.len()
                        &&& l2 == mode.literal(among, k)
                        &&& v2 == #[trigger] evals[k]
                        &&& (mode.first_hit(evals, k) || (mode.no_hit(evals) && mode.optimal_at(
                            evals,
                            k,
                        )))
                    };
                if mode.first_hit(evals, k1) {
                    if k2 < k1 {
                        assert(evals.take(k1)[k2] == evals[k2]);
                    }
                    if k1 < k2 {
                        assert(evals.take(k2)[k1] == evals[k1]);
                    }
                } else {
                    if mode.first_hit(evals, k2) {
                    } else {
                        // both are the last to give the best count
                        assert(mode.spec_adopts(evals[k1].unwrap(), evals[k2].unwrap()));
                        assert(mode.spec_adopts(evals[k2].unwrap(), evals[k1].unwrap()));
                    }
                }
                assert(k1 == k2);
            },
            (Some((l1, v1)), None) => {
                let k1 = choose|k: int|
                    {
                        &&& 0 <= k < evals.len()
                        &&& l1 == mode.literal(among, k)
                        &&& v1 == #[trigger] evals[k]
                        &&& (mode.first_hit(evals, k) || (mode.no_hit(evals) && mode.optimal_at(
                            evals,
                            k,
                        )))
                    };
                assert(false);
            },
            (None, Some((l2, v2))) => {
                let k2 = choose|k: int|
                    {
                        &&& 0 <= k < evals.len()
                        &&& l2 == mode.literal(among, k)
                        &&& v2 == #[trigger] evals[k]
                        &&& (mode.first_hit(evals, k) || (mode.no_hit(evals) && mode.optimal_at(
                            evals,
                            k,
                        )))
                    };
                assert(false);
            },
            (None, None) => {},
        }
    }
}

/// Counting facets towards the goal, the proposed count is the smallest of
/// all counts that were measured, and it is zero as soon as any measured
/// count is zero.
pub proof fn max_facet_count_is_least(
    prev: Option<usize>,
    among: Seq<Seq<char>>,
    evals: Seq<Option<usize>>,
    literal: Seq<char>,
    value: Option<usize>,
)
    requires
        Mode::MaxWeightedFacetCounting(prev).proposes(among, evals, Some((literal, value))),
    ensures
        value is Some,
        forall|j: int|
            0 <= j < evals.len() && (#[trigger] evals[j]) is Some ==> value.unwrap()
                <= evals[j].unwrap(),
        (exists|j: int| 0 <= j < evals.len() && #[trigger] evals[j] == Some(0usize)) ==> value
            == Some(0usize),
{
    let mode = Mode::MaxWeightedFacetCounting(prev);
    let k = choose|k: int|
        {
            &&& 0 <= k < evals.len()
            &&& literal == mode.literal(among, k)
            &&& value == #[trigger] evals[k]
            &&& (mode.first_hit(evals, k) || (mode.no_hit(evals) && mode.optimal_at(evals, k)))
        };
    assert(mode.spec_target() == 0);
}

/// Without candidates nothing is proposed, whatever the mode.
pub proof fn no_candidates_no_proposal(
    mode: Mode<Option<usize>>,
    choice: Option<(Seq<char>, Option<usize>)>,
)
    requires
        mode.proposes(Seq::<Seq<char>>::empty(), Seq::<Option<usize>>::empty(), choice),
    ensures
        choice is None,
{
}

/// The counts of a literal and of its complement add up to the total.
pub proof fn complement_adds_up(total: usize, counted: usize)
    requires
        counted <= total,
    ensures
        spec_complement(Some(total), Some(counted)) is Some,
        counted + spec_complement(Some(total), Some(counted)).unwrap() == total,
        spec_complement(Some(total), spec_complement(Some(total), Some(counted))) == Some(
            counted,
        ),
{
}

} // verus!
