//! The command language: what a line of input asks for.

use vstd::prelude::*;
use crate::config::{
    ACTIVATE_FACETS, ANSWER_SET_COUNT, ANSWER_SET_COUNTS, CHANGE_MODE, CLEAR_ROUTE, CONTEXT,
    DEL_LAST, DISPLAY_MODE, ENUMERATE_PROJECTED_SOLUTIONS, ENUMERATE_SOLUTIONS, FACET_COUNT,
    FACET_COUNTS, IS_ATOM, LOOP, MANUAL, PROJECTED_SOE, PROPOSE_STEP, QUIT, SHOW_ATOMS,
    SHOW_FACETS, SHOW_PROGRAM, SHOW_ROUTE, SIGNIFICANCE, SOE, TAKE_STEP,
};
use crate::filter::pattern_view;
use crate::modes::Mode;
use crate::text::{is, parse_usize, parsed_usize, replace, replaced, split, split_by,
    split_whitespace, texts, trim, trimmed, whitespace_tokens};

verus! {

/// What a line asks for. A pattern is a regular expression that picks the
/// facets or atoms to work on; a count limits how many answer sets are
/// looked for.
#[derive(Debug, Clone, PartialEq, Eq)]
pub enum Command {
    /// Extend the route by these literals.
    Activate(Vec<String>),
    ShowFacets(Option<String>),
    FacetCount,
    FacetCounts(Option<String>),
    /// Count the answer sets under the route and these further literals.
    AnswerSetCount(Option<usize>, Vec<String>),
    AnswerSetCounts(Option<String>),
    Enumerate(Option<usize>, Vec<String>),
    EnumerateProjected(Option<usize>, Vec<String>),
    ShowRoute,
    ClearRoute,
    DeleteLast,
    /// Change to this mode; `None` where the line names no mode.
    ChangeMode(Option<Mode<Option<usize>>>),
    DisplayMode,
    ProposeStep(Option<String>),
    TakeStep(Option<String>),
    ShowProgram,
    ShowAtoms,
    IsAtom(Option<String>),
    Soe(Option<String>),
    ProjectedSoe(Option<String>),
    /// Declare this context; `None` takes the present one back.
    Context(Option<String>),
    /// The significance of the facets that pass the pattern, for a query
    /// literal.
    Significance(Option<String>, Option<String>),
    Quit,
    Manual,
    /// A conditional loop; the line itself holds condition and body.
    Loop,
    /// A line that is a comment.
    Comment,
    /// A line whose first word is no command.
    Unknown,
    /// A line without a word.
    Empty,
}

/// The token at place `i`, if there is one.
pub open spec fn nth(tokens: Seq<Seq<char>>, i: int) -> Option<Seq<char>> {
    if 0 <= i < tokens.len() {
        Some(tokens[i])
    } else {
        None
    }
}

/// The number at place `i`, if a number stands there.
pub open spec fn number_at(tokens: Seq<Seq<char>>, i: int) -> Option<usize> {
    match nth(tokens, i) {
        Some(t) => parsed_usize(t),
        None => None,
    }
}

/// The tokens from place `from` on.
pub open spec fn tail(tokens: Seq<Seq<char>>, from: int) -> Seq<Seq<char>> {
    if 0 <= from <= tokens.len() {
        tokens.skip(from)
    } else {
        Seq::<Seq<char>>::empty()
    }
}

/// Whether a word begins a comment.
pub open spec fn is_comment(word: Seq<char>) -> bool {
    word.len() >= 2 && word[0] == '/' && word[1] == '/'
}

/// Whether a word is one of the commands.
pub open spec fn is_keyword(word: Seq<char>) -> bool {
    ||| word == ACTIVATE_FACETS@
    ||| word == SHOW_FACETS@
    ||| word == FACET_COUNT@
    ||| word == FACET_COUNTS@
    ||| word == ANSWER_SET_COUNT@
    ||| word == ANSWER_SET_COUNTS@
    ||| word == ENUMERATE_SOLUTIONS@
    ||| word == ENUMERATE_PROJECTED_SOLUTIONS@
    ||| word == SHOW_ROUTE@
    ||| word == CLEAR_ROUTE@
    ||| word == DEL_LAST@
    ||| word == CHANGE_MODE@
    ||| word == DISPLAY_MODE@
    ||| word == PROPOSE_STEP@
    ||| word == TAKE_STEP@
    ||| word == SHOW_PROGRAM@
    ||| word == SHOW_ATOMS@
    ||| word == IS_ATOM@
    ||| word == SOE@
    ||| word == PROJECTED_SOE@
    ||| word == CONTEXT@
    ||| word == SIGNIFICANCE@
    ||| word == QUIT@
    ||| word == MANUAL@
    ||| word == LOOP@
}

/// The mode that the words after the mode command name: the name of the
/// strategy, and after it the running bound to start from, if any.
pub open spec fn mode_named(tokens: Seq<Seq<char>>) -> Option<Mode<Option<usize>>> {
    let bound = number_at(tokens, 2);
    match nth(tokens, 1) {
        Some(name) => if name == "min#f"@ {
            Some(Mode::MinWeightedFacetCounting(bound))
        } else if name == "max#f"@ {
            Some(Mode::MaxWeightedFacetCounting(bound))
        } else if name == "min#a"@ {
            Some(Mode::MinWeightedAnswerSetCounting(bound))
        } else if name == "max#a"@ {
            Some(Mode::MaxWeightedAnswerSetCounting(bound))
        } else if name == "go"@ {
            Some(Mode::GoalOriented(bound))
        } else {
            None
        },
        None => None,
    }
}

/// Whether `c` is the command that the tokens of a line stand for. The first
/// token selects the command, the others are its arguments.
pub open spec fn parses_to(tokens: Seq<Seq<char>>, c: Command) -> bool {
    if tokens.len() == 0 {
        c is Empty
    } else {
        let head = tokens[0];
        match c {
            Command::Activate(literals) => head == ACTIVATE_FACETS@ && texts(literals@) == tail(tokens, 1),
            Command::ShowFacets(p) => head == SHOW_FACETS@ && pattern_view(p) == nth(tokens, 1),
            Command::FacetCount => head == FACET_COUNT@,
            Command::FacetCounts(p) => head == FACET_COUNTS@ && pattern_view(p) == nth(tokens, 1),
            Command::AnswerSetCount(n, literals) => head == ANSWER_SET_COUNT@ && n == number_at(tokens, 1)
                && texts(literals@) == tail(tokens, 2),
            Command::AnswerSetCounts(p) => head == ANSWER_SET_COUNTS@ && pattern_view(p) == nth(tokens, 1),
            Command::Enumerate(n, literals) => head == ENUMERATE_SOLUTIONS@ && n == number_at(tokens, 1) && texts(
                literals@,
            ) == tail(tokens, 2),
            Command::EnumerateProjected(n, literals) => head == ENUMERATE_PROJECTED_SOLUTIONS@ && n == number_at(tokens, 1)
                && texts(literals@) == tail(tokens, 2),
            Command::ShowRoute => head == SHOW_ROUTE@,
            Command::ClearRoute => head == CLEAR_ROUTE@,
            Command::DeleteLast => head == DEL_LAST@,
            Command::ChangeMode(m) => head == CHANGE_MODE@ && m == mode_named(tokens),
            Command::DisplayMode => head == DISPLAY_MODE@,
            Command::ProposeStep(p) => head == PROPOSE_STEP@ && pattern_view(p) == nth(tokens, 1),
            Command::TakeStep(p) => head == TAKE_STEP@ && pattern_view(p) == nth(tokens, 1),
            Command::ShowProgram => head == SHOW_PROGRAM@,
            Command::ShowAtoms => head == SHOW_ATOMS@,
            Command::IsAtom(a) => head == IS_ATOM@ && pattern_view(a) == nth(tokens, 1),
            Command::Soe(p) => head == SOE@ && pattern_view(p) == nth(tokens, 1),
            Command::ProjectedSoe(p) => head == PROJECTED_SOE@ && pattern_view(p) == nth(
                tokens,
                1,
            ),
            Command::Context(cnf) => head == CONTEXT@ && pattern_view(cnf) == nth(tokens, 1),
            Command::Significance(y, p) => head == SIGNIFICANCE@ && pattern_view(y) == nth(tokens, 1)
                && pattern_view(p) == nth(tokens, 2),
            Command::Quit => head == QUIT@,
            Command::Manual => head == MANUAL@,
            Command::Loop => head == LOOP@,
            Command::Comment => !is_keyword(head) && is_comment(head),
            Command::Unknown => !is_keyword(head) && !is_comment(head),
            Command::Empty => false,
        }
    }
}

fn token_at(tokens: &Vec<String>, i: usize) -> (token: Option<String>)
    ensures
        pattern_view(token) == nth(texts(tokens@), i as int),
{
    if i < tokens.len() {
        Some(tokens[i].clone())
    } else {
        None
    }
}

fn count_at(tokens: &Vec<String>, i: usize) -> (number: Option<usize>)
    ensures
        number == number_at(texts(tokens@), i as int),
{
    if i < tokens.len() {
        parse_usize(tokens[i].as_str())
    } else {
        None
    }
}

fn tokens_from(tokens: &Vec<String>, from: usize) -> (rest: Vec<String>)
    ensures
        texts(rest@) == tail(texts(tokens@), from as int),
{
    let mut rest: Vec<String> = Vec::new();
    if from > tokens.len() {
        assert(texts(rest@) =~= tail(texts(tokens@), from as int));
        return rest;
    }
    let mut i: usize = from;
    while i < tokens.len()
        invariant
            from <= i <= tokens.len(),
            rest@.len() == i - from,
            forall|j: int| 0 <= j < i - from ==> (#[trigger] rest@[j])@ == tokens@[from + j]@,
        decreases tokens.len() - i,
    {
        rest.push(tokens[i].clone());
        i += 1;
    }
    assert forall|j: int| 0 <= j < rest@.len() implies texts(rest@)[j] == texts(tokens@).skip(
        from as int,
    )[j] by {
        assert(rest@[j]@ == tokens@[from + j]@);
    }
    assert(texts(rest@) =~= tail(texts(tokens@), from as int));
    rest
}

fn begins_comment(word: &str) -> (b: bool)
    ensures
        b == is_comment(word@),
{
    word.unicode_len() >= 2 && word.get_char(0) == '/' && word.get_char(1) == '/'
}

fn mode_from(tokens: &Vec<String>) -> (mode: Option<Mode<Option<usize>>>)
    ensures
        mode == mode_named(texts(tokens@)),
{
    if tokens.len() < 2 {
        return None;
    }
    let bound = count_at(tokens, 2);
    let name = &tokens[1];
    if is(name, "min#f") {
        Some(Mode::MinWeightedFacetCounting(bound))
    } else if is(name, "max#f") {
        Some(Mode::MaxWeightedFacetCounting(bound))
    } else if is(name, "min#a") {
        Some(Mode::MinWeightedAnswerSetCounting(bound))
    } else if is(name, "max#a") {
        Some(Mode::MaxWeightedAnswerSetCounting(bound))
    } else if is(name, "go") {
        Some(Mode::GoalOriented(bound))
    } else {
        None
    }
}

/// The command that the tokens of a line stand for.
pub fn command_from(tokens: &Vec<String>) -> (c: Command)
    ensures
        parses_to(texts(tokens@), c),
{
    if tokens.len() == 0 {
        return Command::Empty;
    }
    let head = &tokens[0];
    if is(head, ACTIVATE_FACETS) {
        Command::Activate(tokens_from(tokens, 1))
    } else if is(head, SHOW_FACETS) {
        Command::ShowFacets(token_at(tokens, 1))
    } else if is(head, FACET_COUNT) {
        Command::FacetCount
    } else if is(head, FACET_COUNTS) {
        Command::FacetCounts(token_at(tokens, 1))
    } else if is(head, ANSWER_SET_COUNT) {
        Command::AnswerSetCount(count_at(tokens, 1), tokens_from(tokens, 2))
    } else if is(head, ANSWER_SET_COUNTS) {
        Command::AnswerSetCounts(token_at(tokens, 1))
    } else if is(head, ENUMERATE_SOLUTIONS) {
        Command::Enumerate(count_at(tokens, 1), tokens_from(tokens, 2))
    } else if is(head, ENUMERATE_PROJECTED_SOLUTIONS) {
        Command::EnumerateProjected(count_at(tokens, 1), tokens_from(tokens, 2))
    } else if is(head, SHOW_ROUTE) {
        Command::ShowRoute
    } else if is(head, CLEAR_ROUTE) {
        Command::ClearRoute
    } else if is(head, DEL_LAST) {
        Command::DeleteLast
    } else if is(head, CHANGE_MODE) {
        Command::ChangeMode(mode_from(tokens))
    } else if is(head, DISPLAY_MODE) {
        Command::DisplayMode
    } else if is(head, PROPOSE_STEP) {
        Command::ProposeStep(token_at(tokens, 1))
    } else if is(head, TAKE_STEP) {
        Command::TakeStep(token_at(tokens, 1))
    } else if is(head, SHOW_PROGRAM) {
        Command::ShowProgram
    } else if is(head, SHOW_ATOMS) {
        Command::ShowAtoms
    } else if is(head, IS_ATOM) {
        Command::IsAtom(token_at(tokens, 1))
    } else if is(head, SOE) {
        Command::Soe(token_at(tokens, 1))
    } else if is(head, PROJECTED_SOE) {
        Command::ProjectedSoe(token_at(tokens, 1))
    } else if is(head, CONTEXT) {
        Command::Context(token_at(tokens, 1))
    } else if is(head, SIGNIFICANCE) {
        Command::Significance(token_at(tokens, 1), token_at(tokens, 2))
    } else if is(head, QUIT) {
        Command::Quit
    } else if is(head, MANUAL) {
        Command::Manual
    } else if is(head, LOOP) {
        Command::Loop
    } else if begins_comment(head.as_str()) {
        Command::Comment
    } else {
        Command::Unknown
    }
}

/// The command that a line stands for.
pub fn parse_command(line: &str) -> (c: Command)
    ensures
        parses_to(whitespace_tokens(line@), c),
{
    let tokens = split_whitespace(line);
    command_from(&tokens)
}

/// How a loop condition relates the measured value to its bound.
#[derive(Clone, Copy, Debug, PartialEq, Eq)]
pub enum Operator {
    NotEqual,
    Greater,
    GreaterEqual,
    Less,
    LessEqual,
}

/// What a loop condition measures.
#[derive(Clone, Copy, Debug, PartialEq, Eq)]
pub enum Metric {
    /// The facet count: twice the number of facets.
    FacetCount,
    /// The length of the route.
    RouteLength,
}

/// The condition of a loop.
#[derive(Clone, Copy, Debug, PartialEq, Eq)]
pub struct Condition {
    pub operator: Operator,
    pub metric: Metric,
    pub bound: usize,
}

/// Why a line is no loop.
#[derive(Clone, Copy, Debug, PartialEq, Eq)]
pub enum LoopError {
    /// Nothing stands where the condition should.
    NoCondition,
    /// The line has a condition and no instructions after it.
    NoInstructions,
    /// The condition begins with no known operator.
    UnknownOperator,
    /// The condition measures nothing known.
    UnknownMetric,
    /// The bound of the condition is no number.
    UnknownBound,
}

/// A loop: as long as there are facets and the condition holds, the
/// instructions are run one after the other.
#[derive(Debug, Clone, PartialEq, Eq)]
pub struct Loop {
    pub condition: Condition,
    pub body: Vec<String>,
}

impl Condition {
    /// The value that the condition looks at, in a session with `facets`
    /// facets and a route of length `route`.
    pub open spec fn measured(self, facets: nat, route: nat) -> nat {
        match self.metric {
            Metric::FacetCount => 2 * facets,
            Metric::RouteLength => route,
        }
    }

    /// Whether the condition holds there.
    pub open spec fn spec_holds(self, facets: nat, route: nat) -> bool {
        let value = self.measured(facets, route);
        match self.operator {
            Operator::NotEqual => value != self.bound,
            Operator::Greater => value > self.bound,
            Operator::GreaterEqual => value >= self.bound,
            Operator::Less => value < self.bound,
            Operator::LessEqual => value <= self.bound,
        }
    }

    /// Whether a loop goes round once more: only with facets left, and with
    /// the condition holding.
    pub open spec fn spec_continues(self, facets: nat, route: nat) -> bool {
        facets > 0 && self.spec_holds(facets, route)
    }

    pub fn holds(self, facets: usize, route: usize) -> (b: bool)
        ensures
            b == self.spec_holds(facets as nat, route as nat),
    {
        let value: u128 = match self.metric {
            Metric::FacetCount => 2 * (facets as u128),
            Metric::RouteLength => route as u128,
        };
        let bound: u128 = self.bound as u128;
        match self.operator {
            Operator::NotEqual => value != bound,
            Operator::Greater => value > bound,
            Operator::GreaterEqual => value >= bound,
            Operator::Less => value < bound,
            Operator::LessEqual => value <= bound,
        }
    }

    pub fn continues(self, facets: usize, route: usize) -> (b: bool)
        ensures
            b == self.spec_continues(facets as nat, route as nat),
    {
        facets > 0 && self.holds(facets, route)
    }
}

/// The operator that a word names.
pub open spec fn operator_named(word: Seq<char>) -> Option<Operator> {
    if word == "!="@ {
        Some(Operator::NotEqual)
    } else if word == ">"@ {
        Some(Operator::Greater)
    } else if word == ">="@ {
        Some(Operator::GreaterEqual)
    } else if word == "<"@ {
        Some(Operator::Less)
    } else if word == "<="@ {
        Some(Operator::LessEqual)
    } else {
        None
    }
}

/// The metric that a word names.
pub open spec fn metric_named(word: Seq<char>) -> Option<Metric> {
    if word == "#f"@ {
        Some(Metric::FacetCount)
    } else if word == "#r"@ {
        Some(Metric::RouteLength)
    } else {
        None
    }
}

/// The condition that three words stand for: operator, metric, bound. The
/// operator is looked at first, then the metric, then the bound.
pub open spec fn condition_of(words: Seq<Seq<char>>) -> Result<Condition, LoopError> {
    match nth(words, 0) {
        None => Err(LoopError::UnknownOperator),
        Some(first) => match operator_named(first) {
            None => Err(LoopError::UnknownOperator),
            Some(operator) => match nth(words, 1) {
                None => Err(LoopError::UnknownMetric),
                Some(second) => match metric_named(second) {
                    None => Err(LoopError::UnknownMetric),
                    Some(metric) => match number_at(words, 2) {
                        None => Err(LoopError::UnknownBound),
                        Some(bound) => Ok(Condition { operator, metric, bound }),
                    },
                },
            },
        },
    }
}

fn operator_from(word: &String) -> (operator: Option<Operator>)
    ensures
        operator == operator_named(word@),
{
    if is(word, "!=") {
        Some(Operator::NotEqual)
    } else if is(word, ">") {
        Some(Operator::Greater)
    } else if is(word, ">=") {
        Some(Operator::GreaterEqual)
    } else if is(word, "<") {
        Some(Operator::Less)
    } else if is(word, "<=") {
        Some(Operator::LessEqual)
    } else {
        None
    }
}

fn metric_from(word: &String) -> (metric: Option<Metric>)
    ensures
        metric == metric_named(word@),
{
    if is(word, "#f") {
        Some(Metric::FacetCount)
    } else if is(word, "#r") {
        Some(Metric::RouteLength)
    } else {
        None
    }
}

/// The condition that the words stand for.
pub fn condition_from(words: &Vec<String>) -> (condition: Result<Condition, LoopError>)
    ensures
        condition == condition_of(texts(words@)),
{
    if words.len() < 1 {
        return Err(LoopError::UnknownOperator);
    }
    let operator = match operator_from(&words[0]) {
        Some(operator) => operator,
        None => return Err(LoopError::UnknownOperator),
    };
    if words.len() < 2 {
        return Err(LoopError::UnknownMetric);
    }
    let metric = match metric_from(&words[1]) {
        Some(metric) => metric,
        None => return Err(LoopError::UnknownMetric),
    };
    match count_at(words, 2) {
        Some(bound) => Ok(Condition { operator, metric, bound }),
        None => Err(LoopError::UnknownBound),
    }
}

/// The instructions of a loop body: the pieces between the dots, each
/// without the white space at its ends.
pub open spec fn instructions_of(body: Seq<char>) -> Seq<Seq<char>> {
    split_by(body, "."@).map_values(|piece: Seq<char>| trimmed(piece))
}

/// What the two sides of a loop line stand for. `pieces` holds the condition
/// and, after it, the instructions. Missing instructions are reported before
/// anything that is wrong with the condition.
pub open spec fn loop_matches(pieces: Seq<Seq<char>>, parsed: Result<Loop, LoopError>) -> bool {
    if pieces.len() == 0 {
        parsed == Err::<Loop, LoopError>(LoopError::NoCondition)
    } else if pieces.len() == 1 {
        parsed == Err::<Loop, LoopError>(LoopError::NoInstructions)
    } else {
        match condition_of(split_by(pieces[0], " "@)) {
            Err(e) => parsed == Err::<Loop, LoopError>(e),
            Ok(condition) => parsed is Ok && parsed.unwrap().condition == condition && texts(
                parsed.unwrap().body@,
            ) == instructions_of(pieces[1]),
        }
    }
}

/// The loop that the two sides of a loop line stand for.
pub fn loop_from(pieces: &Vec<String>) -> (parsed: Result<Loop, LoopError>)
    ensures
        loop_matches(texts(pieces@), parsed),
{
    if pieces.len() == 0 {
        return Err(LoopError::NoCondition);
    }
    if pieces.len() == 1 {
        return Err(LoopError::NoInstructions);
    }
    proof {
        reveal_strlit(" ");
        reveal_strlit(".");
    }
    let words = split(pieces[0].as_str(), " ");
    let condition = match condition_from(&words) {
        Ok(condition) => condition,
        Err(e) => return Err(e),
    };
    let raw = split(pieces[1].as_str(), ".");
    let mut body: Vec<String> = Vec::new();
    let mut i: usize = 0;
    while i < raw.len()
        invariant
            i <= raw.len(),
            body@.len() == i,
            forall|j: int| 0 <= j < i ==> (#[trigger] body@[j])@ == trimmed(raw@[j]@),
        decreases raw.len() - i,
    {
        body.push(trim(raw[i].as_str()));
        i += 1;
    }
    assert(texts(body@) =~= instructions_of(pieces@[1]@));
    Ok(Loop { condition, body })
}

/// The two sides of a loop line: the line without its backslashes and
/// without the white space at its ends, cut at each ` | `.
pub open spec fn loop_pieces(line: Seq<char>) -> Seq<Seq<char>> {
    split_by(trimmed(replaced(line, "\\"@, ""@)), " | "@)
}

/// The loop that a line stands for.
pub fn parse_loop(line: &str) -> (parsed: Result<Loop, LoopError>)
    ensures
        loop_matches(loop_pieces(line@), parsed),
{
    proof {
        reveal_strlit("\\");
        reveal_strlit(" | ");
    }
    let bare = replace(line, "\\", "");
    let inner = trim(bare.as_str());
    let pieces = split(inner.as_str(), " | ");
    loop_from(&pieces)
}

/// Without facets no loop goes round, whatever its condition.
pub proof fn loop_needs_facets(condition: Condition, route: nat)
    ensures
        !condition.spec_continues(0, route),
{
}

/// A loop that waits for the facet count to be zero goes round exactly as
/// long as there are facets.
pub proof fn loop_until_no_facets(facets: nat, route: nat)
    ensures
        (Condition {
            operator: Operator::NotEqual,
            metric: Metric::FacetCount,
            bound: 0,
        }).spec_continues(facets, route) <==> facets > 0,
{
}

} // verus!
