//! The significance of facets for a query literal: how much of the facets
//! that the query leaves is gone once a further facet is decided.

use vstd::prelude::*;
use crate::text::{copy_all, texts};

verus! {

/// What the facet count under route and query says before any facet is
/// looked at.
#[derive(Clone, Copy, Debug, PartialEq, Eq)]
pub enum Baseline {
    /// No facets and no answer set: the query contradicts the route.
    NoAnswerSet,
    /// No facets, and one answer set is left.
    UniqueAnswerSet,
    /// This many facets are left to relate the candidates to.
    Facets(usize),
}

/// The route under which significance is measured: the route, then the
/// query literal.
pub fn query_route(route: &Vec<String>, query: &str) -> (extended: Vec<String>)
    ensures
        texts(extended@) == texts(route@).push(query@),
{
    let mut extended = copy_all(route);
    extended.push(query.to_owned());
    assert(texts(extended@) =~= texts(route@).push(query@));
    extended
}

/// Whether an answer set has to be looked for to tell the baseline: only
/// where no facets are left.
pub fn needs_witness(facet_count: usize) -> (needed: bool)
    ensures
        needed == (facet_count == 0),
{
    facet_count == 0
}

/// The baseline for a facet count under route and query. Where the count is
/// zero, `found` is what a search for one answer set gave: only a search that
/// went through and found none says that there is no answer set.
pub open spec fn spec_baseline(facet_count: usize, found: Option<usize>) -> Baseline {
    if facet_count == 0 {
        if found is Some && found.unwrap() < 1 {
            Baseline::NoAnswerSet
        } else {
            Baseline::UniqueAnswerSet
        }
    } else {
        Baseline::Facets(facet_count)
    }
}

#[verifier::when_used_as_spec(spec_baseline)]
pub fn baseline(facet_count: usize, found: Option<usize>) -> (verdict: Baseline)
    ensures
        verdict == spec_baseline(facet_count, found),
{
    if facet_count == 0 {
        match found {
            Some(n) => if n < 1 {
                Baseline::NoAnswerSet
            } else {
                Baseline::UniqueAnswerSet
            },
            None => Baseline::UniqueAnswerSet,
        }
    } else {
        Baseline::Facets(facet_count)
    }
}

/// How many of the `base` facets are gone once `count` are left, out of
/// `base`: the numerator of the significance ratio. It is negative where
/// more facets are counted than the baseline had.
pub fn eliminated(base: usize, count: usize) -> (gone: i128)
    ensures
        gone == base as int - count as int,
{
    base as i128 - count as i128
}

} // verus!
