//! Facet classification: the naive two-probe test, and the robust test that
//! works on a shadow copy of the program under a disjoint vocabulary.

use vstd::prelude::*;
use crate::text::{negate, negation, replace, replaced, texts};

verus! {

/// Whether `c` counts as a numeric character.
pub uninterp spec fn numeric(c: char) -> bool;

/// `char::is_numeric`: whether the character is numeric, as a function of
/// the character alone.
pub assume_specification[ char::is_numeric ](c: char) -> (b: bool)
    ensures
        b == numeric(c),
;

/// Separators and operators of the program text: copied as they are.
pub open spec fn is_operator(c: char) -> bool {
    c == ' ' || c == ',' || c == '.' || c == ';' || c == '(' || c == ')' || c == ':' || c == '-'
        || c == '+' || c == '\\' || c == '/' || c == '{' || c == '}' || c == '\n' || c == '\t'
        || c == '"' || c == '>' || c == '<' || c == '=' || c == '#' || c == '%'
}

/// What one character of a symbol becomes in the shadow vocabulary: operators
/// and numeric characters stay, every other character gets `_` in front.
pub open spec fn shadow_char(c: char) -> Seq<char> {
    if is_operator(c) || numeric(c) {
        seq![c]
    } else {
        seq!['_', c]
    }
}

/// The shadow of a text: the shadows of its characters, in order.
pub open spec fn shadow(s: Seq<char>) -> Seq<char>
    decreases s.len(),
{
    if s.len() == 0 {
        Seq::<char>::empty()
    } else {
        shadow(s.drop_last()) + shadow_char(s.last())
    }
}

/// A text without its underscores.
pub open spec fn unmarked(s: Seq<char>) -> Seq<char>
    decreases s.len(),
{
    if s.len() == 0 {
        Seq::<char>::empty()
    } else if s.last() == '_' {
        unmarked(s.drop_last())
    } else {
        unmarked(s.drop_last()).push(s.last())
    }
}

/// The shadow of a program, with the directive keywords given back their
/// spelling so that the copy is still a program.
pub open spec fn shadow_program(lp: Seq<char>) -> Seq<char> {
    let s0 = shadow(lp);
    let s1 = replaced(s0, "_n_o_t"@, "not"@);
    let s2 = replaced(s1, "#_c_o_n_s_t"@, "#const"@);
    let s3 = replaced(s2, "#_s_h_o_w"@, "#show"@);
    let s4 = replaced(s3, "#_p_r_o_j_e_c_t"@, "#project"@);
    let s5 = replaced(s4, "#_c_o_u_n_t"@, "#count"@);
    replaced(s5, "#_s_u_m"@, "#sum"@)
}

fn is_operator_char(c: char) -> (b: bool)
    ensures
        b == is_operator(c),
{
    c == ' ' || c == ',' || c == '.' || c == ';' || c == '(' || c == ')' || c == ':' || c == '-'
        || c == '+' || c == '\\' || c == '/' || c == '{' || c == '}' || c == '\n' || c == '\t'
        || c == '"' || c == '>' || c == '<' || c == '=' || c == '#' || c == '%'
}

/// The name of `atom` in the shadow vocabulary.
pub fn copy_atom(atom: &str) -> (copy: String)
    ensures
        copy@ == shadow(atom@),
{
    let mut xs = String::new();
    for x in it: atom.chars()
        invariant
            it.seq() == atom@,
            xs@ == shadow(it.seq().take(it.index() as int)),
    {
        proof {
            let k = it.index() as int;
            assert(atom@.take(k + 1).drop_last() == atom@.take(k));
        }
        if is_operator_char(x) || x.is_numeric() {
            xs.push(x);
        } else {
            xs.push('_');
            xs.push(x);
        }
    }
    proof {
        assert(atom@.take(atom@.len() as int) == atom@);
    }
    xs
}

/// The atom that a shadow name stands for: the name without its underscores.
pub fn copied_atom(atom: &str) -> (name: String)
    ensures
        name@ == unmarked(atom@),
{
    let mut xs = String::new();
    for x in it: atom.chars()
        invariant
            it.seq() == atom@,
            xs@ == unmarked(it.seq().take(it.index() as int)),
    {
        proof {
            let k = it.index() as int;
            assert(atom@.take(k + 1).drop_last() == atom@.take(k));
        }
        if x != '_' {
            xs.push(x);
        }
    }
    proof {
        assert(atom@.take(atom@.len() as int) == atom@);
    }
    xs
}

/// The shadow copy of the program `lp`: every symbol renamed into the shadow
/// vocabulary, the directive keywords left as they were.
pub fn copy_program(lp: String) -> (copy: String)
    ensures
        copy@ == shadow_program(lp@),
{
    proof {
        reveal_strlit("_n_o_t");
        reveal_strlit("#_c_o_n_s_t");
        reveal_strlit("#_s_h_o_w");
        reveal_strlit("#_p_r_o_j_e_c_t");
        reveal_strlit("#_c_o_u_n_t");
        reveal_strlit("#_s_u_m");
    }
    let s0 = copy_atom(lp.as_str());
    let s1 = replace(s0.as_str(), "_n_o_t", "not");
    let s2 = replace(s1.as_str(), "#_c_o_n_s_t", "#const");
    let s3 = replace(s2.as_str(), "#_s_h_o_w", "#show");
    let s4 = replace(s3.as_str(), "#_p_r_o_j_e_c_t", "#project");
    let s5 = replace(s4.as_str(), "#_c_o_u_n_t", "#count");
    replace(s5.as_str(), "#_s_u_m", "#sum")
}

/// What is known of an atom once both polarities were probed.
#[derive(Clone, Copy, Debug, PartialEq, Eq)]
pub enum Truth {
    /// The atom holds in every answer set.
    True,
    /// The atom holds in no answer set, or there is none.
    False,
    /// The atom holds in some answer sets and not in others: a facet.
    Uncertain,
}

/// The outcome of a probe that asked for one answer set: whether it found
/// one.
pub open spec fn satisfiable(found: Option<usize>) -> bool {
    found == Some(1usize)
}

/// The verdict on an atom from the probe with the atom and the probe with
/// its negation.
pub open spec fn spec_classify(with_atom: Option<usize>, with_negation: Option<usize>) -> Truth {
    if satisfiable(with_atom) {
        if satisfiable(with_negation) {
            Truth::Uncertain
        } else {
            Truth::True
        }
    } else {
        Truth::False
    }
}

#[verifier::when_used_as_spec(spec_classify)]
pub fn classify(with_atom: Option<usize>, with_negation: Option<usize>) -> (verdict: Truth)
    ensures
        verdict == spec_classify(with_atom, with_negation),
{
    match with_atom {
        Some(1) => match with_negation {
            Some(1) => Truth::Uncertain,
            _ => Truth::True,
        },
        _ => Truth::False,
    }
}

/// The two probes of the naive test: the atom, and its negation.
pub fn facet_probes(atom: &str) -> (probes: (String, String))
    ensures
        probes.0@ == atom@,
        probes.1@ == negation(atom@),
{
    (atom.to_owned(), negate(atom))
}

/// The naive test: an atom is a facet where both the atom and its negation
/// were found satisfiable.
pub fn is_facet(with_atom: Option<usize>, with_negation: Option<usize>) -> (facet: bool)
    ensures
        facet == (spec_classify(with_atom, with_negation) == Truth::Uncertain),
        facet == (satisfiable(with_atom) && satisfiable(with_negation)),
{
    match classify(with_atom, with_negation) {
        Truth::Uncertain => true,
        _ => false,
    }
}

/// The probe of the robust test, to be put to a program that holds its own
/// shadow copy: the atom together with the negation of its shadow.
pub fn robust_probe(atom: &str) -> (probe: Vec<String>)
    ensures
        texts(probe@) == seq![atom@, negation(shadow(atom@))],
{
    let c = copy_atom(atom);
    let mut probe: Vec<String> = Vec::new();
    probe.push(atom.to_owned());
    probe.push(negate(c.as_str()));
    assert(texts(probe@) =~= seq![atom@, negation(shadow(atom@))]);
    probe
}

/// The robust test: an atom is a facet where the atom and the negation of
/// its shadow were found satisfiable together.
pub fn is_facet_r(found: Option<usize>) -> (facet: bool)
    ensures
        facet == satisfiable(found),
{
    match found {
        Some(1) => true,
        _ => false,
    }
}

/// Taking the underscores out of two texts in a row is taking them out of
/// each.
pub proof fn unmarked_in_a_row(a: Seq<char>, b: Seq<char>)
    ensures
        unmarked(a + b) == unmarked(a) + unmarked(b),
    decreases b.len(),
{
    if b.len() == 0 {
        assert(a + b =~= a);
        assert(unmarked(a) + unmarked(b) =~= unmarked(a));
    } else {
        unmarked_in_a_row(a, b.drop_last());
        assert((a + b).drop_last() =~= a + b.drop_last());
        assert((a + b).last() == b.last());
        if b.last() != '_' {
            assert(unmarked(a + b) =~= unmarked(a) + unmarked(b));
        }
    }
}

/// A shadow name without its underscores is the atom without its
/// underscores.
pub proof fn unmarked_shadow(atom: Seq<char>)
    ensures
        unmarked(shadow(atom)) == unmarked(atom),
    decreases atom.len(),
{
    if atom.len() > 0 {
        unmarked_shadow(atom.drop_last());
        let front = shadow(atom.drop_last());
        let c = atom.last();
        unmarked_in_a_row(front, shadow_char(c));
        let none = Seq::<char>::empty();
        assert(unmarked(none) == none);
        let one = seq![c];
        assert(one.drop_last() =~= none);
        assert(one.last() == c);
        let mark = seq!['_'];
        assert(mark.drop_last() =~= none);
        assert(mark.last() == '_');
        assert(unmarked(mark) == none);
        let two = seq!['_', c];
        assert(two.drop_last() =~= mark);
        assert(two.last() == c);
        if c == '_' {
            assert(unmarked(one) =~= Seq::<char>::empty());
            assert(unmarked(two) =~= Seq::<char>::empty());
            assert(unmarked(shadow(atom)) =~= unmarked(atom));
        } else {
            assert(unmarked(one) =~= seq![c]);
            assert(unmarked(two) =~= seq![c]);
            assert(unmarked(shadow(atom)) =~= unmarked(atom));
        }
    }
}

/// Taking the underscores out of a text that has none changes nothing.
pub proof fn unmarked_of_unmarked(text: Seq<char>)
    requires
        !text.contains('_'),
    ensures
        unmarked(text) == text,
    decreases text.len(),
{
    if text.len() > 0 {
        let front = text.drop_last();
        assert forall|i: int| 0 <= i < front.len() implies front[i] != '_' by {
            assert(front[i] == text[i]);
            assert(text.contains(text[i]));
        }
        assert(!front.contains('_'));
        unmarked_of_unmarked(front);
        assert(text.contains(text.last()));
        assert(front.push(text.last()) =~= text);
    } else {
        assert(unmarked(text) =~= text);
    }
}

/// An atom without underscores is found again behind its shadow name.
pub proof fn shadow_is_undone(atom: Seq<char>)
    requires
        !atom.contains('_'),
    ensures
        unmarked(shadow(atom)) == atom,
{
    unmarked_shadow(atom);
    unmarked_of_unmarked(atom);
}

/// The robust test and the naive test give the same verdict whenever the
/// joint probe finds an answer set exactly where both single probes do.
pub proof fn robust_agrees_with_naive(
    joint: Option<usize>,
    with_atom: Option<usize>,
    with_negation: Option<usize>,
)
    requires
        satisfiable(joint) <==> (satisfiable(with_atom) && satisfiable(with_negation)),
    ensures
        satisfiable(joint) == (spec_classify(with_atom, with_negation) == Truth::Uncertain),
{
}

} // verus!
