//! Scoring a route against a table of weighted facets.

use vstd::prelude::*;
use crate::text::{contains, lines, parse_isize, parsed_isize, split_whitespace, text_lines, texts,
    whitespace_tokens};

verus! {

/// A literal with a weight. An inclusive entry scores where the literal is
/// certain, an exclusive one where it is impossible.
#[derive(Debug, Clone)]
pub struct WeightedFacet {
    pub facet: String,
    pub inclusive: bool,
    pub weight: isize,
}

/// What one entry adds to the score, given the brave and the cautious
/// consequences of the route.
pub open spec fn reward(w: WeightedFacet, brave: Seq<Seq<char>>, cautious: Seq<Seq<char>>) -> int {
    if w.inclusive {
        if cautious.contains(w.facet@) {
            w.weight as int
        } else {
            0
        }
    } else {
        if brave.contains(w.facet@) {
            0
        } else {
            w.weight as int
        }
    }
}

/// The sum of the rewards of all entries.
pub open spec fn total_reward(
    ws: Seq<WeightedFacet>,
    brave: Seq<Seq<char>>,
    cautious: Seq<Seq<char>>,
) -> int
    decreases ws.len(),
{
    if ws.len() == 0 {
        0
    } else {
        total_reward(ws.drop_last(), brave, cautious) + reward(ws.last(), brave, cautious)
    }
}

/// The score of a route whose consequences are `brave` and `cautious`.
/// `None` where the reasoner gave no brave consequences, or, the route being
/// satisfiable, no cautious ones. A route without brave consequences has no
/// answer set and scores zero.
pub open spec fn score(
    ws: Seq<WeightedFacet>,
    brave: Option<Seq<Seq<char>>>,
    cautious: Option<Seq<Seq<char>>>,
) -> Option<int> {
    match brave {
        None => None,
        Some(bc) => if bc.len() == 0 {
            Some(0int)
        } else {
            match cautious {
                None => None,
                Some(cc) => Some(total_reward(ws, bc, cc)),
            }
        },
    }
}

/// The texts of an optional list of strings.
pub open spec fn texts_of(xs: Option<Vec<String>>) -> Option<Seq<Seq<char>>> {
    match xs {
        Some(v) => Some(texts(v@)),
        None => None,
    }
}

/// Whether the cautious consequences are needed to score a route with these
/// brave consequences: only where there are some.
pub fn needs_cautious(brave: &Option<Vec<String>>) -> (needed: bool)
    ensures
        needed == (brave is Some && brave.unwrap()@.len() > 0),
{
    match brave {
        Some(bc) => bc.len() > 0,
        None => false,
    }
}

/// The score of a route: the weights of the exclusive entries whose literal
/// is in no answer set, plus the weights of the inclusive entries whose
/// literal is in every answer set. `None` where `score` is, and where the
/// sum does not fit.
pub fn weighted_facet_count(
    brave: Option<Vec<String>>,
    cautious: Option<Vec<String>>,
    weighted_fs: &Vec<WeightedFacet>,
) -> (result: Option<isize>)
    ensures
        result == (match score(weighted_fs@, texts_of(brave), texts_of(cautious)) {
            Some(s) => if isize::MIN <= s <= isize::MAX {
                Some(s as isize)
            } else {
                None
            },
            None => None,
        }),
{
    let bc = match brave {
        Some(bc) => bc,
        None => return None,
    };
    if bc.len() == 0 {
        return Some(0);
    }
    let cc = match cautious {
        Some(cc) => cc,
        None => return None,
    };
    let mut sum: i128 = 0;
    let mut i: usize = 0;
    while i < weighted_fs.len()
        invariant
            i <= weighted_fs.len(),
            sum == total_reward(weighted_fs@.take(i as int), texts(bc@), texts(cc@)),
            -(i as int) * 0x8000_0000_0000_0000 <= sum <= (i as int) * 0x8000_0000_0000_0000,
        decreases weighted_fs.len() - i,
    {
        let w = &weighted_fs[i];
        proof {
            assert(weighted_fs@.take(i + 1).drop_last() == weighted_fs@.take(i as int));
        }
        if w.inclusive {
            if contains(&cc, &w.facet) {
                sum = sum + w.weight as i128;
            }
        } else {
            if !contains(&bc, &w.facet) {
                sum = sum + w.weight as i128;
            }
        }
        i += 1;
    }
    proof {
        assert(weighted_fs@.take(weighted_fs@.len() as int) == weighted_fs@);
    }
    if sum < isize::MIN as i128 || sum > isize::MAX as i128 {
        None
    } else {
        Some(sum as isize)
    }
}

/// The entry that the tokens of one line of a weight table stand for: a
/// literal, `0` for exclusive and anything else for inclusive, and a weight.
/// `None` where a token is missing or the third is no number.
pub open spec fn entry_of(tokens: Seq<Seq<char>>) -> Option<(Seq<char>, bool, isize)> {
    if tokens.len() < 3 {
        None
    } else {
        match parsed_isize(tokens[2]) {
            Some(weight) => Some((tokens[0], tokens[1] != "0"@, weight)),
            None => None,
        }
    }
}

/// An entry as plain values.
pub open spec fn entry_view(w: WeightedFacet) -> (Seq<char>, bool, isize) {
    (w.facet@, w.inclusive, w.weight)
}

/// The entry that the tokens of one line stand for.
pub fn weighted_facet_from(tokens: &Vec<String>) -> (entry: Option<WeightedFacet>)
    ensures
        entry is Some <==> entry_of(texts(tokens@)) is Some,
        entry is Some ==> entry_view(entry.unwrap()) == entry_of(texts(tokens@)).unwrap(),
{
    if tokens.len() < 3 {
        return None;
    }
    let zero = "0".to_owned();
    let inclusive = !(tokens[1] == zero);
    match parse_isize(tokens[2].as_str()) {
        Some(weight) => Some(WeightedFacet { facet: tokens[0].clone(), inclusive, weight }),
        None => None,
    }
}

/// Reads the text of a weight table file: one entry per line. `None` as
/// soon as one line is no entry.
pub fn parse_weighted_facets_from_file(table: &str) -> (entries: Option<Vec<WeightedFacet>>)
    ensures
        entries is Some <==> (forall|i: int|
            0 <= i < text_lines(table@).len() ==> entry_of(
                whitespace_tokens(#[trigger] text_lines(table@)[i]),
            ) is Some),
        entries is Some ==> {
            &&& entries.unwrap()@.len() == text_lines(table@).len()
            &&& forall|i: int|
                0 <= i < text_lines(table@).len() ==> entry_view(#[trigger] entries.unwrap()@[i])
                    == entry_of(whitespace_tokens(text_lines(table@)[i])).unwrap()
        },
{
    let all = lines(table);
    let mut wfcs: Vec<WeightedFacet> = Vec::new();
    let mut i: usize = 0;
    while i < all.len()
        invariant
            i <= all.len(),
            texts(all@) == text_lines(table@),
            wfcs@.len() == i,
            forall|j: int|
                0 <= j < i ==> entry_of(whitespace_tokens(#[trigger] text_lines(table@)[j]))
                    is Some,
            forall|j: int|
                0 <= j < i ==> entry_view(#[trigger] wfcs@[j]) == entry_of(
                    whitespace_tokens(text_lines(table@)[j]),
                ).unwrap(),
        decreases all.len() - i,
    {
        let tokens = split_whitespace(all[i].as_str());
        assert(texts(all@)[i as int] == all@[i as int]@);
        match weighted_facet_from(&tokens) {
            Some(w) => wfcs.push(w),
            None => return None,
        }
        i += 1;
    }
    Some(wfcs)
}

} // verus!
