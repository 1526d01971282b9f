//! Text operations of the standard library that the settings use, with
//! what they are taken to do.

use vstd::prelude::*;

verus! {

/// `s` with every occurrence of `from` replaced by `to`, found from the
/// left and not overlapping.
pub open spec fn replaced(s: Seq<char>, from: Seq<char>, to: Seq<char>) -> Seq<char>
    decreases s.len(),
{
    if from.len() == 0 || s.len() < from.len() {
        s
    } else if s.take(from.len() as int) == from {
        to + replaced(s.skip(from.len() as int), from, to)
    } else {
        seq![s[0]] + replaced(s.skip(1), from, to)
    }
}

/// The pieces of `s` between occurrences of `separator`: one piece more
/// than there are separators, so that a text without any is one piece.
pub open spec fn split(s: Seq<char>, separator: char) -> Seq<Seq<char>>
    decreases s.len(),
{
    if s.len() == 0 {
        seq![Seq::empty()]
    } else {
        let rest = split(s.drop_first(), separator);
        if s[0] == separator {
            seq![Seq::empty()] + rest
        } else {
            rest.update(0, seq![s[0]] + rest[0])
        }
    }
}

/// The views of a list of texts, in order.
pub open spec fn texts_view(texts: Seq<String>) -> Seq<Seq<char>> {
    texts.map_values(|t: String| t@)
}

/// `str::replace` with a text pattern. Trusted: every match of the
/// pattern, taken from the left without overlap, gives way to `to`.
#[verifier::external_body]
pub(crate) fn replace_all(s: &str, from: &str, to: &str) -> (out: String)
    requires
        from@.len() > 0,
    ensures
        out@ == replaced(s@, from@, to@),
{
    s.replace(from, to)
}

/// `str::contains` with a character pattern. Trusted: whether the
/// character occurs in the text.
#[verifier::external_body]
pub(crate) fn contains_char(s: &str, c: char) -> (found: bool)
    ensures
        found == s@.contains(c),
{
    s.contains(c)
}

/// `str::split` with a character pattern, each piece copied. Trusted: the
/// pieces between the separators, in order.
#[verifier::external_body]
pub(crate) fn split_on(s: &str, separator: char) -> (pieces: Vec<String>)
    ensures
        texts_view(pieces@) == split(s@, separator),
{
    s.split(separator).map(|piece| piece.to_string()).collect()
}

} // verus!
