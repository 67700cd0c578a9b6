//! Interval trees, as the `intervaltree` crate builds and searches them.
//!
//! Nothing in this file is proved: each contract states what the crate's
//! source shows of the function that it is about.

use vstd::prelude::*;
use vstd::multiset::Multiset;
use intervaltree::IntervalTree;

verus! {

/// `intervaltree::IntervalTree`. Nothing is known of what it holds but
/// what the functions below say.
#[verifier::external_type_specification]
#[verifier::external_body]
#[verifier::reject_recursive_types(K)]
#[verifier::reject_recursive_types(V)]
pub struct ExIntervalTree<K, V>(IntervalTree<K, V>);

/// What a tree over lines holds: for each of its elements the start of the
/// element's range, the end of the range, which is not part of it, and the
/// element's value.
pub uninterp spec fn line_tree_entries(tree: IntervalTree<usize, usize>) -> Multiset<(usize, usize, usize)>;

/// What a tree over positions holds: for each of its elements the start of
/// the element's range, the end of the range, which is not part of it, and
/// the element's value. A position is a line and a column.
pub uninterp spec fn cell_tree_entries(tree: IntervalTree<(usize, usize), usize>) -> Multiset<
    ((usize, usize), (usize, usize), usize),
>;

/// Whether position `a` comes before position `b`, by line first and by
/// column second: the order of pairs.
pub open spec fn pair_lt(a: (usize, usize), b: (usize, usize)) -> bool {
    a.0 < b.0 || (a.0 == b.0 && a.1 < b.1)
}

/// `IntervalTree::from_iter`: the tree holds one element for each item
/// handed in, with the item's range and value, and nothing else.
#[verifier::external_body]
pub(crate) fn line_tree_build(entries: &Vec<(usize, usize, usize)>) -> (tree: IntervalTree<usize, usize>)
    ensures
        line_tree_entries(tree) == entries@.to_multiset(),
{
    entries.iter().map(|e| (e.0..e.1, e.2)).collect()
}

/// `IntervalTree::query_point`: the elements whose range holds `point`,
/// each of them once, in an order that is not stated.
#[verifier::external_body]
pub(crate) fn line_tree_query_point(tree: &IntervalTree<usize, usize>, point: usize) -> (hits: Vec<
    (usize, usize, usize),
>)
    ensures
        hits@.to_multiset() == line_tree_entries(*tree).filter(
            |e: (usize, usize, usize)| e.0 <= point && point < e.1,
        ),
{
    tree.query_point(point).map(|e| (e.range.start, e.range.end, e.value)).collect()
}

/// `IntervalTree::from_iter`: the tree holds one element for each item
/// handed in, with the item's range and value, and nothing else.
#[verifier::external_body]
pub(crate) fn cell_tree_build(entries: &Vec<((usize, usize), (usize, usize), usize)>) -> (tree: IntervalTree<
    (usize, usize),
    usize,
>)
    ensures
        cell_tree_entries(tree) == entries@.to_multiset(),
{
    entries.iter().map(|e| (e.0..e.1, e.2)).collect()
}

/// `IntervalTree::query`: the elements whose range starts before `end`
/// and ends after `start`, each of them once, in an order that is not
/// stated.
#[verifier::external_body]
pub(crate) fn cell_tree_query(
    tree: &IntervalTree<(usize, usize), usize>,
    start: (usize, usize),
    end: (usize, usize),
) -> (hits: Vec<((usize, usize), (usize, usize), usize)>)
    ensures
        hits@.to_multiset() == cell_tree_entries(*tree).filter(
            |e: ((usize, usize), (usize, usize), usize)| pair_lt(e.0, end) && pair_lt(start, e.1),
        ),
{
    tree.query(start..end).map(|e| (e.range.start, e.range.end, e.value)).collect()
}

} // verus!
