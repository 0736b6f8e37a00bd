//! Filters: regular expressions by which facets and atoms are picked before
//! they are shown or worked on.

use vstd::prelude::*;
use crate::text::texts;

verus! {

/// `regex::Regex`, a compiled regular expression. Nothing is said of what
/// is inside it.
#[verifier::external_type_specification]
#[verifier::external_body]
pub struct ExRegex(regex::Regex);

/// Whether `pattern` is a regular expression that compiles.
pub uninterp spec fn pattern_valid(pattern: Seq<char>) -> bool;

/// Whether the regular expression `pattern` matches somewhere in `text`.
pub uninterp spec fn pattern_matches(pattern: Seq<char>, text: Seq<char>) -> bool;

/// A compiled regular expression, together with the pattern it came from.
pub struct Filter {
    source: String,
    compiled: regex::Regex,
}

impl Filter {
    /// The pattern of the filter.
    pub closed spec fn pattern(&self) -> Seq<char> {
        self.source@
    }

    /// `regex::Regex::new`: a filter comes back exactly for the patterns
    /// that compile, and it keeps its pattern.
    #[verifier::external_body]
    pub(crate) fn compile(pattern: &str) -> (filter: Option<Filter>)
        ensures
            filter is Some <==> pattern_valid(pattern@),
            filter is Some ==> filter.unwrap().pattern() == pattern@,
    {
        match regex::Regex::new(pattern) {
            Ok(compiled) => Some(Filter { source: pattern.to_owned(), compiled }),
            Err(_) => None,
        }
    }

    /// `regex::Regex::is_match`: whether the expression matches somewhere in
    /// the text, as a function of pattern and text.
    #[verifier::external_body]
    pub(crate) fn is_match(&self, text: &str) -> (matched: bool)
        ensures
            matched == pattern_matches(self.pattern(), text@),
    {
        self.compiled.is_match(text)
    }
}

/// Whether a text passes an optional pattern. Without a pattern everything
/// passes, and so it does with a pattern that does not compile.
pub open spec fn passes(pattern: Option<Seq<char>>, text: Seq<char>) -> bool {
    match pattern {
        Some(p) => pattern_valid(p) ==> pattern_matches(p, text),
        None => true,
    }
}

/// The texts of `items` that pass `pattern`, in their order.
pub open spec fn selected(items: Seq<Seq<char>>, pattern: Option<Seq<char>>) -> Seq<Seq<char>>
    decreases items.len(),
{
    if items.len() == 0 {
        Seq::<Seq<char>>::empty()
    } else if passes(pattern, items.last()) {
        selected(items.drop_last(), pattern).push(items.last())
    } else {
        selected(items.drop_last(), pattern)
    }
}

/// The pattern as a text.
pub open spec fn pattern_view(pattern: Option<String>) -> Option<Seq<char>> {
    match pattern {
        Some(p) => Some(p@),
        None => None,
    }
}

/// Whether there is a pattern, and one that compiles.
pub fn usable(pattern: &Option<String>) -> (b: bool)
    ensures
        b == (pattern is Some && pattern_valid(pattern.unwrap()@)),
{
    match pattern {
        Some(p) => Filter::compile(p.as_str()).is_some(),
        None => false,
    }
}

/// The items that pass `pattern`, in their order.
pub fn select(items: &Vec<String>, pattern: &Option<String>) -> (chosen: Vec<String>)
    ensures
        texts(chosen@) == selected(texts(items@), pattern_view(*pattern)),
{
    let filter = match pattern {
        Some(p) => Filter::compile(p.as_str()),
        None => None,
    };
    let ghost view = pattern_view(*pattern);
    let mut chosen: Vec<String> = Vec::new();
    let mut i: usize = 0;
    while i < items.len()
        invariant
            i <= items.len(),
            view == pattern_view(*pattern),
            filter is Some ==> view is Some && pattern_valid(view.unwrap()) && filter.unwrap().pattern()
                == view.unwrap(),
            filter is None ==> view is None || !pattern_valid(view.unwrap()),
            texts(chosen@) == selected(texts(items@).take(i as int), view),
        decreases items.len() - i,
    {
        proof {
            assert(texts(items@).take(i + 1).drop_last() == texts(items@).take(i as int));
            assert(texts(items@).take(i + 1).last() == items@[i as int]@);
        }
        let keep = match &filter {
            Some(f) => f.is_match(items[i].as_str()),
            None => true,
        };
        if keep {
            let ghost before = texts(chosen@);
            chosen.push(items[i].clone());
            assert(texts(chosen@) =~= before.push(items@[i as int]@));
        }
        i += 1;
    }
    proof {
        assert(texts(items@).take(items@.len() as int) == texts(items@));
    }
    chosen
}

} // verus!
