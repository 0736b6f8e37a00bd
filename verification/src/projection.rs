//! Projection onto chosen atoms: the rules that restrict what the reasoner
//! shows while a projected question is asked.

use vstd::prelude::*;
use vstd::string::StringExecFns;
use crate::text::{decimal, digits, join, joined, starts_with, texts};

verus! {

/// The constraint that asks for at least one of `atoms` to hold.
pub open spec fn some_atom_rule(atoms: Seq<Seq<char>>) -> Seq<char> {
    if atoms.len() == 0 {
        ":."@
    } else {
        ":-"@ + joined(atoms.map_values(|a: Seq<char>| " not "@ + a), ","@) + "."@
    }
}

/// Whether one of `atoms` begins with `name`.
pub open spec fn names_some(name: Seq<char>, atoms: Seq<Seq<char>>) -> bool {
    exists|i: int| 0 <= i < atoms.len() && name.is_prefix_of(#[trigger] atoms[i])
}

/// The directive that shows the atoms of a predicate.
pub open spec fn show_line(name: Seq<char>, arity: nat) -> Seq<char> {
    "#show "@ + name + "/"@ + digits(arity) + "."@
}

/// The show directives for the predicates that some atom of `atoms` begins
/// with the name of, in the order of `symbols`.
pub open spec fn show_lines(symbols: Seq<(Seq<char>, usize)>, atoms: Seq<Seq<char>>) -> Seq<
    Seq<char>,
>
    decreases symbols.len(),
{
    if symbols.len() == 0 {
        Seq::<Seq<char>>::empty()
    } else if names_some(symbols.last().0, atoms) {
        show_lines(symbols.drop_last(), atoms).push(
            show_line(symbols.last().0, symbols.last().1 as nat),
        )
    } else {
        show_lines(symbols.drop_last(), atoms)
    }
}

/// The predicates as texts.
pub open spec fn symbol_texts(symbols: Seq<(String, usize)>) -> Seq<(Seq<char>, usize)> {
    Seq::new(symbols.len(), |i: int| (symbols[i].0@, symbols[i].1))
}

/// The show directives for `atoms`, one to a line.
pub open spec fn shown(symbols: Seq<(Seq<char>, usize)>, atoms: Seq<Seq<char>>) -> Seq<char> {
    joined(show_lines(symbols, atoms), "\n"@)
}

/// The rules that restrict a projected question to `atoms`: the show
/// directives, one to a line, and on a last line the constraint that asks
/// for one of the atoms.
pub open spec fn observability(symbols: Seq<(Seq<char>, usize)>, atoms: Seq<Seq<char>>) -> Seq<
    char,
> {
    shown(symbols, atoms) + "\n"@ + some_atom_rule(atoms)
}

fn begins_some(name: &str, atoms: &Vec<String>) -> (found: bool)
    ensures
        found == names_some(name@, texts(atoms@)),
{
    let mut i: usize = 0;
    while i < atoms.len()
        invariant
            i <= atoms.len(),
            forall|j: int| 0 <= j < i ==> !name@.is_prefix_of(#[trigger] texts(atoms@)[j]),
        decreases atoms.len() - i,
    {
        if starts_with(atoms[i].as_str(), name) {
            assert(name@.is_prefix_of(texts(atoms@)[i as int]));
            return true;
        }
        i += 1;
    }
    false
}

/// The constraint that asks for at least one of `atoms` to hold.
pub fn some_atom(atoms: &Vec<String>) -> (rule: String)
    ensures
        rule@ == some_atom_rule(texts(atoms@)),
{
    if atoms.len() == 0 {
        return ":.".to_owned();
    }
    let mut parts: Vec<String> = Vec::new();
    let mut i: usize = 0;
    while i < atoms.len()
        invariant
            i <= atoms.len(),
            parts@.len() == i,
            forall|j: int| 0 <= j < i ==> (#[trigger] parts@[j])@ == " not "@ + atoms@[j]@,
        decreases atoms.len() - i,
    {
        let mut part = " not ".to_owned();
        part.append(atoms[i].as_str());
        parts.push(part);
        i += 1;
    }
    assert(texts(parts@) =~= texts(atoms@).map_values(|a: Seq<char>| " not "@ + a));
    let mut rule = ":-".to_owned();
    rule.append(join(&parts, ",").as_str());
    rule.append(".");
    rule
}

/// The rules that restrict a projected question to `atoms`, for a program
/// with the predicates `symbols`, each a name with its arity.
pub fn observability_rule(symbols: &Vec<(String, usize)>, atoms: &Vec<String>) -> (rule: String)
    ensures
        rule@ == observability(symbol_texts(symbols@), texts(atoms@)),
{
    let mut rule = show_rule(symbols, atoms);
    rule.append("\n");
    rule.append(some_atom(atoms).as_str());
    rule
}

/// The show directives for `atoms`, one to a line, for a program with the
/// predicates `symbols`.
pub fn show_rule(symbols: &Vec<(String, usize)>, atoms: &Vec<String>) -> (rule: String)
    ensures
        rule@ == shown(symbol_texts(symbols@), texts(atoms@)),
{
    let mut shows: Vec<String> = Vec::new();
    let mut i: usize = 0;
    while i < symbols.len()
        invariant
            i <= symbols.len(),
            texts(shows@) == show_lines(symbol_texts(symbols@).take(i as int), texts(atoms@)),
        decreases symbols.len() - i,
    {
        proof {
            let all = symbol_texts(symbols@);
            assert(all.take(i + 1).drop_last() == all.take(i as int));
            assert(all.take(i + 1).last() == (symbols@[i as int].0@, symbols@[i as int].1));
        }
        if begins_some(symbols[i].0.as_str(), atoms) {
            let mut line = "#show ".to_owned();
            line.append(symbols[i].0.as_str());
            line.append("/");
            line.append(decimal(symbols[i].1 as u128).as_str());
            line.append(".");
            let ghost before = texts(shows@);
            shows.push(line);
            assert(texts(shows@) =~= before.push(
                show_line(symbols@[i as int].0@, symbols@[i as int].1 as nat),
            ));
        }
        i += 1;
    }
    proof {
        let all = symbol_texts(symbols@);
        assert(all.take(symbols@.len() as int) == all);
    }
    join(&shows, "\n")
}

} // verus!
