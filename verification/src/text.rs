//! Character-level helpers on which the rest of the library builds its
//! strings.

use vstd::prelude::*;
use vstd::string::StringExecFns;

verus! {

/// `String::push` appends one character.
pub assume_specification[ String::push ](s: &mut String, c: char)
    ensures
        final(s)@ == old(s)@.push(c),
;

/// The texts that a list of strings holds.
pub open spec fn texts(v: Seq<String>) -> Seq<Seq<char>> {
    Seq::new(v.len(), |i: int| v[i]@)
}

/// The negation of a literal: `~` in front of it.
pub open spec fn negation(literal: Seq<char>) -> Seq<char> {
    seq!['~'] + literal
}

/// The literal `~atom`.
pub fn negate(atom: &str) -> (literal: String)
    ensures
        literal@ == negation(atom@),
{
    let mut literal = String::new();
    literal.push('~');
    literal.append(atom);
    literal
}

/// `text` with every occurrence of `from` exchanged for `to`. The
/// occurrences are taken from the left, and none overlaps the one before.
pub open spec fn replaced(text: Seq<char>, from: Seq<char>, to: Seq<char>) -> Seq<char>
    decreases text.len(),
{
    if from.len() == 0 || text.len() < from.len() {
        text
    } else if from.is_prefix_of(text) {
        to + replaced(text.skip(from.len() as int), from, to)
    } else {
        seq![text[0]] + replaced(text.skip(1), from, to)
    }
}

/// `str::replace` with a string as pattern: every match of the pattern,
/// found from the left without overlap, is exchanged for `to`.
#[verifier::external_body]
pub(crate) fn replace(text: &str, from: &str, to: &str) -> (r: String)
    requires
        from@.len() > 0,
    ensures
        r@ == replaced(text@, from@, to@),
{
    text.replace(from, to)
}

/// The maximal runs of `text` that hold no white space, in order.
pub uninterp spec fn whitespace_tokens(text: Seq<char>) -> Seq<Seq<char>>;

/// `str::split_whitespace`: the tokens are determined by the text.
#[verifier::external_body]
pub(crate) fn split_whitespace(text: &str) -> (tokens: Vec<String>)
    ensures
        texts(tokens@) == whitespace_tokens(text@),
{
    text.split_whitespace().map(|t| t.to_owned()).collect()
}

/// The lines of `text`, without their line ends.
pub uninterp spec fn text_lines(text: Seq<char>) -> Seq<Seq<char>>;

/// `str::lines`: the lines are determined by the text.
#[verifier::external_body]
pub(crate) fn lines(text: &str) -> (all: Vec<String>)
    ensures
        texts(all@) == text_lines(text@),
{
    text.lines().map(|l| l.to_owned()).collect()
}

/// The pieces of `piece + text` between the occurrences of `separator` in
/// `text`.
pub open spec fn split_after(piece: Seq<char>, text: Seq<char>, separator: Seq<char>) -> Seq<
    Seq<char>,
>
    decreases text.len(),
{
    if separator.len() == 0 || text.len() < separator.len() {
        seq![piece + text]
    } else if separator.is_prefix_of(text) {
        seq![piece] + split_after(
            Seq::<char>::empty(),
            text.skip(separator.len() as int),
            separator,
        )
    } else {
        split_after(piece.push(text[0]), text.skip(1), separator)
    }
}

/// The pieces of `text` between the occurrences of `separator`, which are
/// taken from the left, none overlapping the one before. Two occurrences in
/// a row, or one at an end, give an empty piece.
pub open spec fn split_by(text: Seq<char>, separator: Seq<char>) -> Seq<Seq<char>> {
    split_after(Seq::<char>::empty(), text, separator)
}

/// `str::split` with a string as separator: the substrings between the
/// matches of the separator, empty ones too.
#[verifier::external_body]
pub(crate) fn split(text: &str, separator: &str) -> (pieces: Vec<String>)
    requires
        separator@.len() > 0,
    ensures
        texts(pieces@) == split_by(text@, separator@),
{
    text.split(separator).map(|p| p.to_owned()).collect()
}

/// `text` without the white space at its two ends.
pub uninterp spec fn trimmed(text: Seq<char>) -> Seq<char>;

/// `str::trim`: the result is determined by the text.
#[verifier::external_body]
pub(crate) fn trim(text: &str) -> (inner: String)
    ensures
        inner@ == trimmed(text@),
{
    text.trim().to_owned()
}

/// The number that `text` is the decimal notation of, if it is one and the
/// number fits.
pub uninterp spec fn parsed_usize(text: Seq<char>) -> Option<usize>;

/// `str::parse` for `usize`: the result is determined by the text.
#[verifier::external_body]
pub(crate) fn parse_usize(text: &str) -> (number: Option<usize>)
    ensures
        number == parsed_usize(text@),
{
    text.parse::<usize>().ok()
}

/// The signed number that `text` is the decimal notation of, if it is one
/// and the number fits.
pub uninterp spec fn parsed_isize(text: Seq<char>) -> Option<isize>;

/// `str::parse` for `isize`: the result is determined by the text.
#[verifier::external_body]
pub(crate) fn parse_isize(text: &str) -> (number: Option<isize>)
    ensures
        number == parsed_isize(text@),
{
    text.parse::<isize>().ok()
}

/// `str::starts_with` with a string as pattern: whether the text begins
/// with the prefix.
#[verifier::external_body]
pub(crate) fn starts_with(text: &str, prefix: &str) -> (b: bool)
    ensures
        b == prefix@.is_prefix_of(text@),
{
    text.starts_with(prefix)
}

/// Whether `s` reads `word`.
pub fn is(s: &String, word: &str) -> (same: bool)
    ensures
        same == (s@ == word@),
{
    let other = word.to_owned();
    *s == other
}

/// Whether `x` is one of `xs`.
pub fn contains(xs: &Vec<String>, x: &String) -> (found: bool)
    ensures
        found == texts(xs@).contains(x@),
{
    let mut i: usize = 0;
    while i < xs.len()
        invariant
            i <= xs.len(),
            forall|j: int| 0 <= j < i ==> texts(xs@)[j] != x@,
        decreases xs.len() - i,
    {
        if xs[i] == *x {
            assert(texts(xs@)[i as int] == x@);
            return true;
        }
        i += 1;
    }
    false
}

/// A copy of each string of `xs`.
pub fn copy_all(xs: &Vec<String>) -> (ys: Vec<String>)
    ensures
        texts(ys@) == texts(xs@),
{
    let mut ys: Vec<String> = Vec::new();
    let mut i: usize = 0;
    while i < xs.len()
        invariant
            i <= xs.len(),
            ys@.len() == i,
            forall|j: int| 0 <= j < i ==> (#[trigger] ys@[j])@ == xs@[j]@,
        decreases xs.len() - i,
    {
        ys.push(xs[i].clone());
        i += 1;
    }
    assert(texts(ys@) =~= texts(xs@));
    ys
}

/// The texts `items` in a row, a blank after each.
pub open spec fn spaced(items: Seq<Seq<char>>) -> Seq<char>
    decreases items.len(),
{
    if items.len() == 0 {
        Seq::<char>::empty()
    } else {
        spaced(items.drop_last()) + items.last() + " "@
    }
}

/// The strings of `items` in a row, a blank after each.
pub fn space_out(items: &Vec<String>) -> (all: String)
    ensures
        all@ == spaced(texts(items@)),
{
    let mut all = String::new();
    let mut i: usize = 0;
    while i < items.len()
        invariant
            i <= items.len(),
            all@ == spaced(texts(items@).take(i as int)),
        decreases items.len() - i,
    {
        proof {
            assert(texts(items@).take(i + 1).drop_last() == texts(items@).take(i as int));
            assert(texts(items@).take(i + 1).last() == items@[i as int]@);
        }
        all.append(items[i].as_str());
        all.append(" ");
        i += 1;
    }
    proof {
        assert(texts(items@).take(items@.len() as int) == texts(items@));
    }
    all
}

/// The texts `parts` in a row, with `separator` between each two.
pub open spec fn joined(parts: Seq<Seq<char>>, separator: Seq<char>) -> Seq<char>
    decreases parts.len(),
{
    if parts.len() == 0 {
        Seq::<char>::empty()
    } else if parts.len() == 1 {
        parts[0]
    } else {
        joined(parts.drop_last(), separator) + separator + parts.last()
    }
}

/// The strings of `parts` in a row, with `separator` between each two.
pub fn join(parts: &Vec<String>, separator: &str) -> (all: String)
    ensures
        all@ == joined(texts(parts@), separator@),
{
    let mut all = String::new();
    let mut i: usize = 0;
    while i < parts.len()
        invariant
            i <= parts.len(),
            all@ == joined(texts(parts@).take(i as int), separator@),
        decreases parts.len() - i,
    {
        proof {
            assert(texts(parts@).take(i + 1).drop_last() == texts(parts@).take(i as int));
            assert(texts(parts@).take(i + 1).last() == parts@[i as int]@);
        }
        if i > 0 {
            all.append(separator);
        }
        all.append(parts[i].as_str());
        proof {
            if i == 0 {
                assert(all@ =~= parts@[0]@);
            }
        }
        i += 1;
    }
    proof {
        assert(texts(parts@).take(parts@.len() as int) == texts(parts@));
    }
    all
}

/// The character of a decimal digit.
pub open spec fn digit_char(d: nat) -> char {
    if d == 0 {
        '0'
    } else if d == 1 {
        '1'
    } else if d == 2 {
        '2'
    } else if d == 3 {
        '3'
    } else if d == 4 {
        '4'
    } else if d == 5 {
        '5'
    } else if d == 6 {
        '6'
    } else if d == 7 {
        '7'
    } else if d == 8 {
        '8'
    } else {
        '9'
    }
}

/// The decimal notation of `n`, without leading zeros.
pub open spec fn digits(n: nat) -> Seq<char>
    decreases n,
{
    if n < 10 {
        seq![digit_char(n)]
    } else {
        digits(n / 10).push(digit_char(n % 10))
    }
}

fn digit(d: u128) -> (c: char)
    requires
        d < 10,
    ensures
        c == digit_char(d as nat),
{
    if d == 0 {
        '0'
    } else if d == 1 {
        '1'
    } else if d == 2 {
        '2'
    } else if d == 3 {
        '3'
    } else if d == 4 {
        '4'
    } else if d == 5 {
        '5'
    } else if d == 6 {
        '6'
    } else if d == 7 {
        '7'
    } else if d == 8 {
        '8'
    } else {
        '9'
    }
}

/// The decimal notation of `n`.
pub fn decimal(n: u128) -> (text: String)
    ensures
        text@ == digits(n as nat),
    decreases n,
{
    if n < 10 {
        let mut text = String::new();
        text.push(digit(n));
        assert(text@ =~= seq![digit_char(n as nat)]);
        text
    } else {
        let mut text = decimal(n / 10);
        text.push(digit(n % 10));
        text
    }
}

/// A literal as it stands in the body of a constraint that forbids its
/// complement: `~a` becomes `a`, and `a` becomes `not a`.
pub open spec fn constraint_literal(literal: Seq<char>) -> Seq<char> {
    if literal.len() > 0 && literal[0] == '~' {
        literal.subrange(1, literal.len() as int)
    } else {
        "not "@ + literal
    }
}

/// The literal as a constraint that forbids its complement holds it.
pub fn to_constraint_literal(literal: &str) -> (text: String)
    ensures
        text@ == constraint_literal(literal@),
{
    let n = literal.unicode_len();
    if n > 0 && literal.get_char(0) == '~' {
        literal.substring_char(1, n).to_owned()
    } else {
        let mut text = "not ".to_owned();
        text.append(literal);
        text
    }
}

/// A text with every `~` spelled out as `not `.
pub open spec fn spelled(literal: Seq<char>) -> Seq<char>
    decreases literal.len(),
{
    if literal.len() == 0 {
        Seq::<char>::empty()
    } else if literal.last() == '~' {
        spelled(literal.drop_last()) + "not "@
    } else {
        spelled(literal.drop_last()).push(literal.last())
    }
}

/// The text with every `~` spelled out as `not `.
pub fn spell(literal: &str) -> (text: String)
    ensures
        text@ == spelled(literal@),
{
    let mut text = String::new();
    for x in it: literal.chars()
        invariant
            it.seq() == literal@,
            text@ == spelled(it.seq().take(it.index() as int)),
    {
        proof {
            let k = it.index() as int;
            assert(literal@.take(k + 1).drop_last() == literal@.take(k));
        }
        if x == '~' {
            text.append("not ");
        } else {
            text.push(x);
        }
    }
    proof {
        assert(literal@.take(literal@.len() as int) == literal@);
    }
    text
}

} // verus!
