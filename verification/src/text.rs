//! The order of texts, and how a text grows.

use vstd::prelude::*;
use vstd::relations::{sorted_by, total_ordering};
use vstd::seq_lib::lemma_sorted_unique;

verus! {

/// `a` comes no later than `b` in the order of `str`: position by position,
/// by code point, a proper prefix first.
pub open spec fn text_le(a: Seq<char>, b: Seq<char>) -> bool
    decreases a.len(),
{
    if a.len() == 0 {
        true
    } else if b.len() == 0 {
        false
    } else if a[0] == b[0] {
        text_le(a.drop_first(), b.drop_first())
    } else {
        (a[0] as int) < (b[0] as int)
    }
}

/// No text stands before one that orders below it.
pub open spec fn ascending(texts: Seq<Seq<char>>) -> bool {
    forall|i: int, j: int| 0 <= i <= j < texts.len() ==> text_le(#[trigger] texts[i], #[trigger] texts[j])
}

/// `sorted` holds the texts of `given`, each as often as there, in ascending
/// order.
pub open spec fn is_sorted_copy(sorted: Seq<Seq<char>>, given: Seq<Seq<char>>) -> bool {
    &&& ascending(sorted)
    &&& sorted.to_multiset() == given.to_multiset()
}

/// Trusted: `<[String]>::sort_unstable`. std documents that it puts the slice
/// in ascending order of `Ord`, keeping every element, and that `String`
/// orders as `str` does: lexicographically by bytes, which is by code point.
#[verifier::external_body]
pub(crate) fn sort_unstable(texts: &mut Vec<String>)
    ensures
        is_sorted_copy(final(texts).deep_view(), old(texts).deep_view()),
{
    texts.sort_unstable();
}

/// A copy of `texts` in ascending order.
pub fn sorted(texts: &Vec<String>) -> (out: Vec<String>)
    ensures
        is_sorted_copy(out.deep_view(), texts.deep_view()),
{
    let mut out = texts.clone();
    assert(out.deep_view() =~= texts.deep_view());
    sort_unstable(&mut out);
    out
}

proof fn lemma_le_reflexive(a: Seq<char>)
    ensures
        text_le(a, a),
    decreases a.len(),
{
    if a.len() > 0 {
        lemma_le_reflexive(a.drop_first());
    }
}

proof fn lemma_le_antisymmetric(a: Seq<char>, b: Seq<char>)
    requires
        text_le(a, b),
        text_le(b, a),
    ensures
        a == b,
    decreases a.len(),
{
    if a.len() == 0 || b.len() == 0 {
        assert(a =~= b);
    } else {
        lemma_le_antisymmetric(a.drop_first(), b.drop_first());
        assert(a =~= seq![a[0]] + a.drop_first());
        assert(b =~= seq![b[0]] + b.drop_first());
    }
}

proof fn lemma_le_transitive(a: Seq<char>, b: Seq<char>, c: Seq<char>)
    requires
        text_le(a, b),
        text_le(b, c),
    ensures
        text_le(a, c),
    decreases a.len(),
{
    if a.len() > 0 && a[0] == b[0] && b[0] == c[0] {
        lemma_le_transitive(a.drop_first(), b.drop_first(), c.drop_first());
    }
}

proof fn lemma_le_connected(a: Seq<char>, b: Seq<char>)
    ensures
        text_le(a, b) || text_le(b, a),
    decreases a.len(),
{
    if a.len() > 0 && b.len() > 0 && a[0] == b[0] {
        lemma_le_connected(a.drop_first(), b.drop_first());
    }
}

/// Lists that hold the same texts, each as often, have one sorted copy: the
/// order in which the texts were given leaves no trace in it.
pub proof fn sorted_copy_is_unique(
    first: Seq<Seq<char>>,
    given: Seq<Seq<char>>,
    second: Seq<Seq<char>>,
    other: Seq<Seq<char>>,
)
    requires
        is_sorted_copy(first, given),
        is_sorted_copy(second, other),
        given.to_multiset() == other.to_multiset(),
    ensures
        first == second,
{
    let le = |a: Seq<char>, b: Seq<char>| text_le(a, b);
    assert(total_ordering(le)) by {
        assert forall|a: Seq<char>| #[trigger] le(a, a) by {
            lemma_le_reflexive(a);
        }
        assert forall|a: Seq<char>, b: Seq<char>| #[trigger] le(a, b) && #[trigger] le(b, a) implies a
            == b by {
            lemma_le_antisymmetric(a, b);
        }
        assert forall|a: Seq<char>, b: Seq<char>, c: Seq<char>| #[trigger]
            le(a, b) && #[trigger] le(b, c) implies le(a, c) by {
            lemma_le_transitive(a, b, c);
        }
        assert forall|a: Seq<char>, b: Seq<char>| #[trigger] le(a, b) || #[trigger] le(b, a) by {
            lemma_le_connected(a, b);
        }
    }
    assert(sorted_by(first, le));
    assert(sorted_by(second, le));
    lemma_sorted_unique(first, second, le);
}

/// A sorted copy of a list that names no text twice names none twice.
pub proof fn sorted_copy_keeps_distinct(sorted: Seq<Seq<char>>, given: Seq<Seq<char>>)
    requires
        is_sorted_copy(sorted, given),
        given.no_duplicates(),
    ensures
        sorted.no_duplicates(),
{
    given.lemma_multiset_has_no_duplicates();
    sorted.lemma_multiset_has_no_duplicates_conv();
}

/// Trusted: `String::push`. std documents that it appends the character to
/// the end of the string.
#[verifier::external_body]
pub(crate) fn push(text: &mut String, c: char)
    ensures
        final(text)@ == old(text)@.push(c),
{
    text.push(c);
}

} // verus!
