//! The state of a session: the route, the facets under it, the declared
//! context and the mode. The facets are never worked out here: after each
//! change of route or context they are asked of the reasoner and set anew.

use vstd::prelude::*;
use vstd::string::StringExecFns;
use crate::filter::{pattern_view, select, selected};
use crate::interpreter::{Command, Condition};
use crate::modes::{choice_view, perform_next_step, Mode, Search};
use crate::text::{constraint_literal, decimal, digits, join, joined, space_out, spaced, split,
    split_by, texts, to_constraint_literal};

verus! {

/// The state of a session.
pub struct Session {
    /// The literals decided so far, in the order of their decision.
    pub route: Vec<String>,
    /// The facets under the route, as the reasoner last gave them.
    pub facets: Vec<String>,
    /// The declared context: first the declaration as it was typed, then
    /// the constraints that were added to the program for it.
    pub context: Vec<String>,
    /// The mode, with its running bound.
    pub mode: Mode<Option<usize>>,
}

/// What is to be done to the program when a new context takes the place of
/// the present one.
pub struct ContextChange {
    /// The constraints to take out, in this order.
    pub retract: Vec<String>,
    /// The constraints to add, in this order.
    pub add: Vec<String>,
}

/// What a command leaves to be done once the session has taken it in.
pub enum Request {
    /// Nothing.
    Nothing,
    /// The facets under the route are to be asked for and set.
    Refresh,
    /// These constraints are to be taken out and added, and then the facets
    /// asked for and set.
    Rules(ContextChange),
    /// This line is to be shown.
    Say(String),
    /// This line is to be shown as a complaint.
    Complain(String),
    /// The command is not for the session to answer: a question for the
    /// reasoner, the manual, a loop, the end of the session. The session has
    /// not changed.
    Outside,
}

impl Request {
    /// Whether the request is to show `line`.
    pub open spec fn says(self, line: Seq<char>) -> bool {
        self matches Request::Say(text) && text@ == line
    }

    /// Whether the request is to show `line` as a complaint.
    pub open spec fn complains(self, line: Seq<char>) -> bool {
        self matches Request::Complain(text) && text@ == line
    }
}

/// The line that shows the route of a session: under a context the
/// declaration on a line of its own first.
pub open spec fn route_line(s: Session) -> Seq<char> {
    if s.context@.len() > 0 {
        s.context@[0]@ + "\n"@ + spaced(texts(s.route@))
    } else {
        spaced(texts(s.route@))
    }
}

/// Whether a session that was `before` has taken the command `c` in as it
/// should, being `after` now and leaving `request` to be done.
pub open spec fn carried_out(before: Session, c: Command, after: Session, request: Request) -> bool {
    match c {
        Command::Activate(literals) => {
            &&& texts(after.route@) == texts(before.route@) + texts(literals@)
            &&& literals@.len() == 0 ==> after == before
            &&& after.facets == before.facets
            &&& after.context == before.context
            &&& after.mode == before.mode
            &&& if literals@.len() == 0 {
                request is Nothing
            } else {
                request is Refresh
            }
        },
        Command::DeleteLast => {
            &&& after.route@ == (if before.route@.len() > 0 {
                before.route@.drop_last()
            } else {
                before.route@
            })
            &&& after.facets == before.facets
            &&& after.context == before.context
            &&& after.mode == before.mode
            &&& request is Refresh
        },
        Command::ClearRoute => {
            &&& after.route@.len() == 0
            &&& after.facets == before.facets
            &&& after.context == before.context
            &&& after.mode == before.mode
            &&& request is Refresh
        },
        Command::ChangeMode(Some(mode)) => {
            &&& after.mode == mode
            &&& after.route == before.route
            &&& after.facets == before.facets
            &&& after.context == before.context
            &&& request is Nothing
        },
        Command::ChangeMode(None) => after == before && request.says(
            "error: specify mode among {{min,max}#{f,a,s}, go}"@,
        ),
        Command::Context(cnf) => {
            &&& request matches Request::Rules(change) && texts(change.retract@) == retracted(
                texts(before.context@),
            ) && texts(change.add@) == declared_rules(pattern_view(cnf))
            &&& texts(after.context@) == recorded_context(pattern_view(cnf))
            &&& after.route == before.route
            &&& after.facets == before.facets
            &&& after.mode == before.mode
        },
        Command::DisplayMode => after == before && request.says(before.mode.described()),
        Command::FacetCount => after == before && request.says(
            digits(2 * before.facets@.len()),
        ),
        Command::ShowFacets(pattern) => after == before && request.says(
            spaced(selected(texts(before.facets@), pattern_view(pattern))),
        ),
        Command::ShowRoute => after == before && request.says(route_line(before)),
        Command::Comment => after == before && request is Nothing,
        Command::Unknown => after == before && request.says("noop [unknown command]"@),
        Command::Empty => after == before && request.complains("unknown error"@),
        _ => after == before && request is Outside,
    }
}

/// The constraint that stands for one clause of a context: no answer set in
/// which none of the literals between the bars holds.
pub open spec fn context_rule(clause: Seq<char>) -> Seq<char> {
    ":- "@ + joined(
        split_by(clause, "|"@).map_values(|l: Seq<char>| constraint_literal(l)),
        ","@,
    ) + ". "@
}

/// The constraints of a context: one for each clause between the
/// ampersands.
pub open spec fn context_rules(cnf: Seq<char>) -> Seq<Seq<char>> {
    split_by(cnf, "&"@).map_values(|clause: Seq<char>| context_rule(clause))
}

/// The constraints that an optional declaration asks for.
pub open spec fn declared_rules(cnf: Option<Seq<char>>) -> Seq<Seq<char>> {
    match cnf {
        Some(text) => context_rules(text),
        None => Seq::<Seq<char>>::empty(),
    }
}

/// The context as it is recorded for a declaration.
pub open spec fn recorded_context(cnf: Option<Seq<char>>) -> Seq<Seq<char>> {
    match cnf {
        Some(text) => seq![text] + context_rules(text),
        None => Seq::<Seq<char>>::empty(),
    }
}

/// The constraints of a recorded context in the order in which they are
/// taken back: the last one added first. The declaration itself, which
/// stands first, is no constraint.
pub open spec fn retracted(context: Seq<Seq<char>>) -> Seq<Seq<char>> {
    if context.len() == 0 {
        Seq::<Seq<char>>::empty()
    } else {
        context.skip(1).reverse()
    }
}

fn context_rule_of(clause: &str) -> (rule: String)
    ensures
        rule@ == context_rule(clause@),
{
    proof {
        reveal_strlit("|");
    }
    let literals = split(clause, "|");
    let mut parts: Vec<String> = Vec::new();
    let mut i: usize = 0;
    while i < literals.len()
        invariant
            i <= literals.len(),
            parts@.len() == i,
            forall|j: int|
                0 <= j < i ==> (#[trigger] parts@[j])@ == constraint_literal(literals@[j]@),
        decreases literals.len() - i,
    {
        parts.push(to_constraint_literal(literals[i].as_str()));
        i += 1;
    }
    assert(texts(parts@) =~= texts(literals@).map_values(|l: Seq<char>| constraint_literal(l)));
    let mut rule = ":- ".to_owned();
    rule.append(join(&parts, ",").as_str());
    rule.append(". ");
    rule
}

impl Session {
    /// A session at its start: nothing decided, no facets known yet, no
    /// context, and the goal oriented mode without a bound.
    pub fn new() -> (session: Session)
        ensures
            session.route@.len() == 0,
            session.facets@.len() == 0,
            session.context@.len() == 0,
            session.mode == Mode::GoalOriented(None::<usize>),
    {
        Session {
            route: Vec::new(),
            facets: Vec::new(),
            context: Vec::new(),
            mode: Mode::GoalOriented(None),
        }
    }

    /// Extends the route by `literals`. Says whether the facets have to be
    /// asked for anew: they have, unless no literal was given, and then
    /// nothing has changed at all.
    pub fn activate(&mut self, literals: Vec<String>) -> (refresh: bool)
        ensures
            texts(final(self).route@) == texts(old(self).route@) + texts(literals@),
            final(self).facets == old(self).facets,
            final(self).context == old(self).context,
            final(self).mode == old(self).mode,
            refresh == (literals@.len() > 0),
            literals@.len() == 0 ==> final(self).route == old(self).route,
    {
        let mut i: usize = 0;
        while i < literals.len()
            invariant
                i <= literals.len(),
                self.facets == old(self).facets,
                self.context == old(self).context,
                self.mode == old(self).mode,
                i == 0 ==> self.route == old(self).route,
                texts(self.route@) == texts(old(self).route@) + texts(literals@).take(i as int),
            decreases literals.len() - i,
        {
            let ghost before = texts(self.route@);
            self.route.push(literals[i].clone());
            assert(texts(self.route@) =~= before.push(literals@[i as int]@));
            assert(texts(self.route@) =~= texts(old(self).route@) + texts(literals@).take(
                i + 1,
            ));
            i += 1;
        }
        proof {
            assert(texts(literals@).take(literals@.len() as int) =~= texts(literals@));
            assert(texts(old(self).route@) + texts(literals@).take(0) =~= texts(
                old(self).route@,
            ));
        }
        literals.len() > 0
    }

    /// Takes the last literal off the route, if there is one. The facets
    /// have to be asked for anew.
    pub fn delete_last(&mut self)
        ensures
            final(self).route@ == (if old(self).route@.len() > 0 {
                old(self).route@.drop_last()
            } else {
                old(self).route@
            }),
            final(self).facets == old(self).facets,
            final(self).context == old(self).context,
            final(self).mode == old(self).mode,
    {
        self.route.pop();
    }

    /// Empties the route. The facets have to be asked for anew.
    pub fn clear_route(&mut self)
        ensures
            final(self).route@.len() == 0,
            final(self).facets == old(self).facets,
            final(self).context == old(self).context,
            final(self).mode == old(self).mode,
    {
        self.route.clear();
    }

    /// Sets the facets to what the reasoner gave for the route.
    pub fn set_facets(&mut self, facets: Vec<String>)
        ensures
            final(self).facets == facets,
            final(self).route == old(self).route,
            final(self).context == old(self).context,
            final(self).mode == old(self).mode,
    {
        self.facets = facets;
    }

    /// Replaces the mode, bound and all.
    pub fn change_mode(&mut self, mode: Mode<Option<usize>>)
        ensures
            final(self).mode == mode,
            final(self).route == old(self).route,
            final(self).facets == old(self).facets,
            final(self).context == old(self).context,
    {
        self.mode = mode;
    }

    /// The facet count: every facet counts twice, once for each polarity.
    pub fn facet_count(&self) -> (count: usize)
        requires
            2 * self.facets@.len() <= usize::MAX,
        ensures
            count == 2 * self.facets@.len(),
    {
        2 * self.facets.len()
    }

    /// The facets that pass `pattern`, in their order.
    pub fn chosen_facets(&self, pattern: &Option<String>) -> (chosen: Vec<String>)
        ensures
            texts(chosen@) == selected(texts(self.facets@), pattern_view(*pattern)),
    {
        select(&self.facets, pattern)
    }

    /// Whether a loop with this condition goes round once more.
    pub fn loop_continues(&self, condition: Condition) -> (again: bool)
        ensures
            again == condition.spec_continues(self.facets@.len(), self.route@.len()),
            self.facets@.len() == 0 ==> !again,
    {
        condition.continues(self.facets.len(), self.route.len())
    }

    /// The facet count that the counts under single facets are set against:
    /// the running bound of a mode that counts facets, else the facet count.
    pub fn facet_reference(&self) -> (count: usize)
        requires
            2 * self.facets@.len() <= usize::MAX,
        ensures
            count == (match self.mode {
                Mode::MaxWeightedFacetCounting(Some(c)) => c,
                Mode::MinWeightedFacetCounting(Some(c)) => c,
                _ => (2 * self.facets@.len()) as usize,
            }),
    {
        match self.mode {
            Mode::MaxWeightedFacetCounting(Some(c)) => c,
            Mode::MinWeightedFacetCounting(Some(c)) => c,
            _ => 2 * self.facets.len(),
        }
    }

    /// The number of answer sets that the counts under single facets are
    /// set against: the running bound of a mode that counts answer sets.
    /// `None` where it has to be asked of the reasoner.
    pub fn answer_set_reference(&self) -> (count: Option<usize>)
        ensures
            count == (match self.mode {
                Mode::MaxWeightedAnswerSetCounting(Some(c)) => Some(c),
                Mode::MinWeightedAnswerSetCounting(Some(c)) => Some(c),
                _ => None::<usize>,
            }),
    {
        match self.mode {
            Mode::MaxWeightedAnswerSetCounting(Some(c)) => Some(c),
            Mode::MinWeightedAnswerSetCounting(Some(c)) => Some(c),
            _ => None,
        }
    }

    /// The count that the count of a step is set against: the running bound
    /// where there is one; else the facet count for a mode that counts
    /// facets, zero for the goal oriented mode, and `None` for a mode that
    /// counts answer sets, which has to ask the reasoner.
    pub fn step_reference(&self) -> (count: Option<usize>)
        requires
            2 * self.facets@.len() <= usize::MAX,
        ensures
            count == (if !self.mode.spec_measures() {
                Some(0usize)
            } else if self.mode.spec_bound() is Some {
                self.mode.spec_bound()
            } else if self.mode.spec_counts_answer_sets() {
                None::<usize>
            } else {
                Some((2 * self.facets@.len()) as usize)
            }),
    {
        if !self.mode.measures() {
            Some(0)
        } else {
            match self.mode.bound() {
                Some(c) => Some(c),
                None => if self.mode.counts_answer_sets() {
                    None
                } else {
                    Some(2 * self.facets.len())
                },
            }
        }
    }

    /// A search for the next step in the present mode, among the facets
    /// that pass `pattern`.
    pub fn begin_step(&self, pattern: &Option<String>) -> (search: Search)
        ensures
            search.wf(),
            search.mode() == self.mode,
            search.candidates() == selected(texts(self.facets@), pattern_view(*pattern)),
            search.evaluations() == Seq::<Option<usize>>::empty(),
    {
        Search::start(self.mode, select(&self.facets, pattern))
    }

    /// Takes the step that a settled search proposes: the literal goes onto
    /// the route, and its count, where it has one, becomes the running bound
    /// of the mode. Without a proposal nothing changes. After a step the
    /// facets have to be asked for anew.
    pub fn take_step(&mut self, search: &Search) -> (choice: Option<(String, Option<usize>)>)
        requires
            search.wf(),
            search.spec_settled(),
        ensures
            search.mode().proposes(search.candidates(), search.evaluations(), choice_view(choice)),
            texts(final(self).route@) == (match choice {
                Some((literal, _)) => texts(old(self).route@).push(literal@),
                None => texts(old(self).route@),
            }),
            match choice {
                Some((_, Some(c))) => {
                    &&& final(self).mode.same_strategy(old(self).mode)
                    &&& final(self).mode.spec_bound() == Some(c)
                },
                _ => final(self).mode == old(self).mode,
            },
            final(self).facets == old(self).facets,
            final(self).context == old(self).context,
    {
        let choice = perform_next_step(search, &mut self.route);
        match &choice {
            Some((_, Some(c))) => {
                self.mode.update(Some(*c));
            },
            _ => {},
        }
        choice
    }

    /// Puts a new context in the place of the present one, or of none.
    /// Gives the constraints to take out of the program, last added first,
    /// and those to add. The facets have to be asked for anew.
    pub fn declare_context(&mut self, cnf: Option<String>) -> (change: ContextChange)
        ensures
            texts(change.retract@) == retracted(texts(old(self).context@)),
            texts(change.add@) == declared_rules(pattern_view(cnf)),
            texts(final(self).context@) == recorded_context(pattern_view(cnf)),
            final(self).route == old(self).route,
            final(self).facets == old(self).facets,
            final(self).mode == old(self).mode,
    {
        let mut retract: Vec<String> = Vec::new();
        let n = self.context.len();
        let mut i: usize = n;
        while i > 1
            invariant
                n == self.context@.len(),
                i <= n,
                n > 0 ==> i >= 1,
                self.context == old(self).context,
                n > 0 ==> retract@.len() == n - i,
                n == 0 ==> retract@.len() == 0,
                forall|j: int|
                    0 <= j < retract@.len() ==> (#[trigger] retract@[j])@ == self.context@[n - 1
                        - j]@,
            decreases i,
        {
            i -= 1;
            retract.push(self.context[i].clone());
        }
        proof {
            let old_texts = texts(old(self).context@);
            if n > 0 {
                assert(retract@.len() == n - 1);
                assert forall|j: int| 0 <= j < retract@.len() implies texts(retract@)[j]
                    == old_texts.skip(1).reverse()[j] by {
                    assert(retract@[j]@ == self.context@[n - 1 - j]@);
                }
            }
            assert(texts(retract@) =~= retracted(old_texts));
        }
        let mut context: Vec<String> = Vec::new();
        let mut add: Vec<String> = Vec::new();
        match &cnf {
            Some(text) => {
                context.push(text.clone());
                proof {
                    reveal_strlit("&");
                }
                let clauses = split(text.as_str(), "&");
                let mut k: usize = 0;
                while k < clauses.len()
                    invariant
                        k <= clauses.len(),
                        add@.len() == k,
                        context@.len() == k + 1,
                        context@[0]@ == text@,
                        forall|j: int|
                            0 <= j < k ==> (#[trigger] add@[j])@ == context_rule(clauses@[j]@),
                        forall|j: int|
                            0 <= j < k ==> (#[trigger] context@[j + 1])@ == context_rule(
                                clauses@[j]@,
                            ),
                    decreases clauses.len() - k,
                {
                    let rule = context_rule_of(clauses[k].as_str());
                    let ghost before = context@;
                    context.push(rule.clone());
                    add.push(rule);
                    assert forall|j: int| 0 <= j < k + 1 implies (#[trigger] context@[j + 1])@
                        == context_rule(clauses@[j]@) by {
                        if j < k {
                            assert(context@[j + 1] == before[j + 1]);
                        }
                    }
                    k += 1;
                }
                proof {
                    let expected = context_rules(text@);
                    assert(texts(clauses@) == split_by(text@, "&"@));
                    assert(texts(add@) =~= expected);
                    assert forall|j: int| 0 <= j < context@.len() implies texts(context@)[j] == (
                    seq![text@] + expected)[j] by {
                        if j > 0 {
                            assert(context@[(j - 1) + 1]@ == context_rule(clauses@[j - 1]@));
                        }
                    }
                    assert(texts(context@) =~= seq![text@] + expected);
                }
            },
            None => {
                assert(texts(add@) =~= declared_rules(pattern_view(cnf)));
                assert(texts(context@) =~= recorded_context(pattern_view(cnf)));
            },
        }
        self.context = context;
        ContextChange { retract, add }
    }
}

/// Something that takes the commands of a session in, its counts being of
/// type `T`.
pub trait Evaluate<T> where T: Clone + PartialEq + Eq {
    /// Takes a command in. What changes the state alone is done; the rest
    /// is left to the caller, as the request says.
    fn command(&mut self, c: Command) -> (request: Request);
}

impl Evaluate<Option<usize>> for Session {
    fn command(&mut self, c: Command) -> (request: Request)
        ensures
            carried_out(*old(self), c, *final(self), request),
    {
        match c {
            Command::Activate(literals) => {
                if self.activate(literals) {
                    Request::Refresh
                } else {
                    Request::Nothing
                }
            },
            Command::DeleteLast => {
                self.delete_last();
                Request::Refresh
            },
            Command::ClearRoute => {
                self.clear_route();
                Request::Refresh
            },
            Command::ChangeMode(Some(mode)) => {
                self.change_mode(mode);
                Request::Nothing
            },
            Command::ChangeMode(None) => Request::Say(
                "error: specify mode among {{min,max}#{f,a,s}, go}".to_owned(),
            ),
            Command::Context(cnf) => Request::Rules(self.declare_context(cnf)),
            Command::DisplayMode => Request::Say(self.mode.description()),
            Command::FacetCount => Request::Say(decimal(2 * (self.facets.len() as u128))),
            Command::ShowFacets(pattern) => Request::Say(space_out(&select(&self.facets, &pattern))),
            Command::ShowRoute => {
                let route = space_out(&self.route);
                if self.context.len() > 0 {
                    let mut line = self.context[0].clone();
                    line.append("\n");
                    line.append(route.as_str());
                    Request::Say(line)
                } else {
                    Request::Say(route)
                }
            },
            Command::Comment => Request::Nothing,
            Command::Unknown => Request::Say("noop [unknown command]".to_owned()),
            Command::Empty => Request::Complain("unknown error".to_owned()),
            _ => Request::Outside,
        }
    }
}

} // verus!
