//! Which cells of a row are highlighted.
//!
//! The selections and the followers of a cursor group are put into
//! interval trees once for each drawing, and looked up for each row.

use vstd::prelude::*;
use intervaltree::IntervalTree;
use crate::base::TargetShape;
use crate::buffer::Selection;
use crate::cursor::Cursor;
use crate::tree::{
    cell_tree_build,
    cell_tree_entries,
    cell_tree_query,
    line_tree_build,
    line_tree_entries,
    line_tree_query_point,
    pair_lt,
};

verus! {

/// A run of columns on one line, from `first` to `last`, both of them part of it.
#[derive(Clone, Copy, Debug, PartialEq, Eq, Structural)]
pub struct Span {
    /// The first column.
    pub first: usize,
    /// The last column.
    pub last: usize,
}

/// Whether `sel` reaches over `line`: the line is one of those from the
/// line of its start to the line of its end.
pub open spec fn covers(sel: Selection, line: usize) -> bool {
    sel.start.y <= line <= sel.end.y && line < usize::MAX
}

/// The smaller of two columns.
pub open spec fn lower(a: usize, b: usize) -> usize {
    if a <= b {
        a
    } else {
        b
    }
}

/// The larger of two columns.
pub open spec fn upper(a: usize, b: usize) -> usize {
    if a >= b {
        a
    } else {
        b
    }
}

/// The columns that `sel` would highlight on `line`, of which a row shows
/// the columns from `start` up to, and without, `end`.
///
/// A selection by characters begins at its start column on its first line
/// and ends at its end column on its last line; where it goes on beyond the
/// row, it is cut to the row. A selection by lines takes the whole row. A
/// selection by block takes the columns between those of its two ends on
/// every line.
pub open spec fn span_bounds(sel: Selection, line: usize, start: usize, end: usize) -> Span {
    let maxcol = if end == 0 {
        0
    } else {
        (end - 1) as usize
    };
    match sel.shape {
        TargetShape::CharWise => Span {
            first: if line == sel.start.y {
                upper(sel.start.x, start)
            } else {
                start
            },
            last: if line == sel.end.y {
                lower(sel.end.x, maxcol)
            } else {
                maxcol
            },
        },
        TargetShape::LineWise => Span { first: start, last: maxcol },
        TargetShape::BlockWise => Span {
            first: upper(lower(sel.start.x, sel.end.x), start),
            last: lower(upper(sel.start.x, sel.end.x), maxcol),
        },
    }
}

/// Whether `span` is a run of columns of a row that shows the columns from
/// `start` up to, and without, `end`.
pub open spec fn span_in_row(span: Span, start: usize, end: usize) -> bool {
    start <= span.first <= span.last < end
}

/// The columns that `sel` highlights on a row of `line`, if any: its
/// `span_bounds`, where both of them are columns of the row.
pub open spec fn span_of(sel: Selection, line: usize, start: usize, end: usize) -> Option<Span> {
    let span = span_bounds(sel, line, start, end);
    if span_in_row(span, start, end) {
        Some(span)
    } else {
        None
    }
}

/// Computes `span_of`.
pub fn selection_span(sel: &Selection, line: usize, start: usize, end: usize) -> (span: Option<Span>)
    ensures
        span == span_of(*sel, line, start, end),
{
    let maxcol: usize = end.saturating_sub(1);
    let (first, last): (usize, usize) = match sel.shape {
        TargetShape::CharWise => {
            let x1: usize = if line == sel.start.y && sel.start.x > start {
                sel.start.x
            } else {
                start
            };
            let x2: usize = if line == sel.end.y && sel.end.x < maxcol {
                sel.end.x
            } else {
                maxcol
            };
            (x1, x2)
        },
        TargetShape::LineWise => (start, maxcol),
        TargetShape::BlockWise => {
            let lx: usize = if sel.start.x <= sel.end.x { sel.start.x } else { sel.end.x };
            let rx: usize = if sel.start.x >= sel.end.x { sel.start.x } else { sel.end.x };
            let x1: usize = if lx > start { lx } else { start };
            let x2: usize = if rx < maxcol { rx } else { maxcol };
            (x1, x2)
        },
    };
    if start <= first && first <= last && last < end {
        Some(Span { first, last })
    } else {
        None
    }
}

/// What a search finds among items that are all different: the items that
/// the search asks for, each of them once.
proof fn lemma_hits<T>(keys: Seq<T>, hits: Seq<T>, wanted: spec_fn(T) -> bool)
    requires
        keys.no_duplicates(),
        hits.to_multiset() == keys.to_multiset().filter(wanted),
    ensures
        hits.no_duplicates(),
        forall|t: T| hits.contains(t) <==> keys.contains(t) && wanted(t),
{
    broadcast use vstd::multiset::group_multiset_axioms;

    keys.to_multiset_ensures();
    hits.to_multiset_ensures();
    keys.lemma_multiset_has_no_duplicates();
    assert forall|t: T| hits.to_multiset().contains(t) implies hits.to_multiset().count(t) == 1 by {
        assert(keys.to_multiset().filter(wanted).count(t) > 0);
        assert(keys.to_multiset().contains(t));
    }
    hits.lemma_multiset_has_no_duplicates_conv();
    assert forall|t: T| hits.contains(t) <==> keys.contains(t) && wanted(t) by {
        if hits.contains(t) {
            assert(keys.to_multiset().filter(wanted).count(t) > 0);
        }
        if keys.contains(t) && wanted(t) {
            assert(keys.to_multiset().count(t) > 0);
            assert(hits.to_multiset().count(t) > 0);
        }
    }
}

/// The selections of a cursor group, ready to be looked up by line.
pub struct HighlightInfo {
    tree: IntervalTree<usize, usize>,
    selections: Vec<Selection>,
}

/// What the tree holds for selection `i`: the lines that it reaches over,
/// and `i` itself.
spec fn line_key(sels: Seq<Selection>, i: int) -> (usize, usize, usize) {
    (sels[i].start.y, sels[i].end.y.saturating_add(1), i as usize)
}

/// What the tree holds for each of the selections.
spec fn line_keys(sels: Seq<Selection>) -> Seq<(usize, usize, usize)> {
    Seq::new(sels.len(), |i: int| line_key(sels, i))
}

impl HighlightInfo {
    /// What holds of every such value: the tree holds the selections, and
    /// nothing else.
    #[verifier::type_invariant]
    spec fn inv(&self) -> bool {
        line_tree_entries(self.tree) == line_keys(self.selections@).to_multiset()
    }

    /// The selections that can be looked up.
    pub closed spec fn selections(&self) -> Seq<Selection> {
        self.selections@
    }

    /// Puts `selections` into a tree, each under the lines that it reaches over.
    pub fn new(selections: &Vec<Selection>) -> (info: HighlightInfo)
        ensures
            info.selections() == selections@,
    {
        let n: usize = selections.len();
        let mut keys: Vec<(usize, usize, usize)> = Vec::new();
        let mut kept: Vec<Selection> = Vec::new();
        let mut i: usize = 0;
        while i < n
            invariant
                i <= n,
                n == selections@.len(),
                kept@ == selections@.take(i as int),
                keys@ == line_keys(selections@.take(i as int)),
            decreases n - i,
        {
            let sel = selections[i];
            keys.push((sel.start.y, sel.end.y.saturating_add(1), i));
            kept.push(sel);
            proof {
                assert(kept@ =~= selections@.take(i + 1));
                assert(keys@ =~= line_keys(selections@.take(i + 1)));
            }
            i += 1;
        }
        proof {
            assert(selections@.take(n as int) =~= selections@);
        }
        let tree = line_tree_build(&keys);
        HighlightInfo { tree, selections: kept }
    }

    /// There are no more selections than an index can count.
    pub proof fn lemma_bounded(&self)
        ensures
            self.selections().len() <= usize::MAX,
    {
        assert(self.selections@.len() == self.selections.len());
    }

    /// The selection at index `i`.
    pub fn selection(&self, i: usize) -> (sel: Selection)
        requires
            i < self.selections().len(),
        ensures
            sel == self.selections()[i as int],
    {
        self.selections[i]
    }

    /// The indices of the selections that reach over `line`, each of them
    /// once, in no stated order.
    pub fn query_point(&self, line: usize) -> (found: Vec<usize>)
        ensures
            found@.no_duplicates(),
            forall|i: usize|
                #[trigger] found@.contains(i) ==> i < self.selections().len() && covers(
                    self.selections()[i as int],
                    line,
                ),
            forall|i: usize|
                i < self.selections().len() && covers(#[trigger] self.selections()[i as int], line)
                    ==> found@.contains(i),
    {
        proof {
            use_type_invariant(self);
        }
        let hits = line_tree_query_point(&self.tree, line);
        let ghost sels = self.selections@;
        let ghost keys = line_keys(sels);
        let ghost wanted = |e: (usize, usize, usize)| e.0 <= line && line < e.1;
        proof {
            self.lemma_bounded();
            assert forall|a: int, b: int| 0 <= a < keys.len() && 0 <= b < keys.len() && a != b implies keys[a]
                != keys[b] by {
                assert(keys[a].2 == a && keys[b].2 == b);
            }
            lemma_hits(keys, hits@, wanted);
        }
        let m: usize = hits.len();
        let mut found: Vec<usize> = Vec::new();
        let mut j: usize = 0;
        while j < m
            invariant
                j <= m,
                m == hits@.len(),
                found@.len() == j,
                forall|k: int| 0 <= k < j ==> #[trigger] found@[k] == hits@[k].2,
            decreases m - j,
        {
            found.push(hits[j].2);
            j += 1;
        }
        proof {
            assert forall|k: int| 0 <= k < m implies {
                &&& (#[trigger] found@[k]) < sels.len()
                &&& covers(sels[found@[k] as int], line)
                &&& hits@[k] == keys[found@[k] as int]
            } by {
                assert(hits@.contains(hits@[k]));
                assert(keys.contains(hits@[k]));
                let i = choose|i: int| 0 <= i < keys.len() && keys[i] == hits@[k];
                assert(keys[i] == line_key(sels, i));
                assert(wanted(hits@[k]));
            }
            assert forall|a: int, b: int| 0 <= a < m && 0 <= b < m && a != b implies found@[a] != found@[b] by {
                assert(hits@[a] != hits@[b]);
            }
            assert forall|i: usize| i < sels.len() && covers(#[trigger] sels[i as int], line) implies found@.contains(
                i,
            ) by {
                assert(keys[i as int] == line_key(sels, i as int));
                assert(wanted(keys[i as int]));
                assert(keys.contains(keys[i as int]));
                assert(hits@.contains(keys[i as int]));
                let k = choose|k: int| 0 <= k < hits@.len() && hits@[k] == keys[i as int];
                assert(found@[k] == i);
            }
            assert forall|i: usize| #[trigger] found@.contains(i) implies i < sels.len() && covers(
                sels[i as int],
                line,
            ) by {
                let k = choose|k: int| 0 <= k < found@.len() && found@[k] == i;
                assert(found@[k] < sels.len());
            }
        }
        found
    }
}

/// The followers of a cursor group, ready to be looked up by position.
pub struct FollowersInfo {
    tree: IntervalTree<(usize, usize), usize>,
    followers: Vec<Cursor>,
}

/// What the tree holds for follower `i`: the cell that it stands on, and
/// `i` itself.
spec fn cell_key(followers: Seq<Cursor>, i: int) -> ((usize, usize), (usize, usize), usize) {
    (
        (followers[i].y, followers[i].x),
        (followers[i].y, followers[i].x.saturating_add(1)),
        i as usize,
    )
}

/// What the tree holds for each of the followers.
spec fn cell_keys(followers: Seq<Cursor>) -> Seq<((usize, usize), (usize, usize), usize)> {
    Seq::new(followers.len(), |i: int| cell_key(followers, i))
}

/// Whether `follower` stands on `line`, on one of the columns from `start`
/// up to, and without, `end`.
pub open spec fn in_row(follower: Cursor, line: usize, start: usize, end: usize) -> bool {
    follower.y == line && start <= follower.x < end
}

impl FollowersInfo {
    /// What holds of every such value: the tree holds the followers, and
    /// nothing else.
    #[verifier::type_invariant]
    spec fn inv(&self) -> bool {
        cell_tree_entries(self.tree) == cell_keys(self.followers@).to_multiset()
    }

    /// The followers that can be looked up.
    pub closed spec fn followers(&self) -> Seq<Cursor> {
        self.followers@
    }

    /// Puts `followers` into a tree, each under the cell that it stands on.
    pub fn new(followers: &Vec<Cursor>) -> (info: FollowersInfo)
        ensures
            info.followers() == followers@,
    {
        let n: usize = followers.len();
        let mut keys: Vec<((usize, usize), (usize, usize), usize)> = Vec::new();
        let mut kept: Vec<Cursor> = Vec::new();
        let mut i: usize = 0;
        while i < n
            invariant
                i <= n,
                n == followers@.len(),
                kept@ == followers@.take(i as int),
                keys@ == cell_keys(followers@.take(i as int)),
            decreases n - i,
        {
            let c = followers[i];
            keys.push(((c.y, c.x), (c.y, c.x.saturating_add(1)), i));
            kept.push(c);
            proof {
                assert(kept@ =~= followers@.take(i + 1));
                assert(keys@ =~= cell_keys(followers@.take(i + 1)));
            }
            i += 1;
        }
        proof {
            assert(followers@.take(n as int) =~= followers@);
        }
        let tree = cell_tree_build(&keys);
        FollowersInfo { tree, followers: kept }
    }

    /// There are no more followers than an index can count.
    pub proof fn lemma_bounded(&self)
        ensures
            self.followers().len() <= usize::MAX,
    {
        assert(self.followers@.len() == self.followers.len());
    }

    /// The follower at index `i`.
    pub fn follower(&self, i: usize) -> (c: Cursor)
        requires
            i < self.followers().len(),
        ensures
            c == self.followers()[i as int],
    {
        self.followers[i]
    }

    /// The indices of the followers that stand on `line`, on one of the
    /// columns from `start` up to, and without, `end`; each of them once,
    /// in no stated order.
    pub fn query(&self, line: usize, start: usize, end: usize) -> (found: Vec<usize>)
        ensures
            found@.no_duplicates(),
            forall|i: usize|
                #[trigger] found@.contains(i) ==> i < self.followers().len() && in_row(
                    self.followers()[i as int],
                    line,
                    start,
                    end,
                ),
            forall|i: usize|
                i < self.followers().len() && in_row(#[trigger] self.followers()[i as int], line, start, end)
                    ==> found@.contains(i),
    {
        proof {
            use_type_invariant(self);
        }
        let hits = cell_tree_query(&self.tree, (line, start), (line, end));
        let ghost all = self.followers@;
        let ghost keys = cell_keys(all);
        let ghost wanted = |e: ((usize, usize), (usize, usize), usize)|
            pair_lt(e.0, (line, end)) && pair_lt((line, start), e.1);
        proof {
            self.lemma_bounded();
            assert forall|a: int, b: int| 0 <= a < keys.len() && 0 <= b < keys.len() && a != b implies keys[a]
                != keys[b] by {
                assert(keys[a].2 == a && keys[b].2 == b);
            }
            lemma_hits(keys, hits@, wanted);
        }
        let m: usize = hits.len();
        let mut found: Vec<usize> = Vec::new();
        let mut j: usize = 0;
        while j < m
            invariant
                j <= m,
                m == hits@.len(),
                found@.len() == j,
                forall|k: int| 0 <= k < j ==> #[trigger] found@[k] == hits@[k].2,
            decreases m - j,
        {
            found.push(hits[j].2);
            j += 1;
        }
        proof {
            assert forall|k: int| 0 <= k < m implies {
                &&& (#[trigger] found@[k]) < all.len()
                &&& in_row(all[found@[k] as int], line, start, end)
                &&& hits@[k] == keys[found@[k] as int]
            } by {
                assert(hits@.contains(hits@[k]));
                assert(keys.contains(hits@[k]));
                let i = choose|i: int| 0 <= i < keys.len() && keys[i] == hits@[k];
                assert(keys[i] == cell_key(all, i));
                assert(wanted(hits@[k]));
            }
            assert forall|a: int, b: int| 0 <= a < m && 0 <= b < m && a != b implies found@[a] != found@[b] by {
                assert(hits@[a] != hits@[b]);
            }
            assert forall|i: usize|
                i < all.len() && in_row(#[trigger] all[i as int], line, start, end) implies found@.contains(i) by {
                assert(keys[i as int] == cell_key(all, i as int));
                assert(wanted(keys[i as int]));
                assert(keys.contains(keys[i as int]));
                assert(hits@.contains(keys[i as int]));
                let k = choose|k: int| 0 <= k < hits@.len() && hits@[k] == keys[i as int];
                assert(found@[k] == i);
            }
            assert forall|i: usize| #[trigger] found@.contains(i) implies i < all.len() && in_row(
                all[i as int],
                line,
                start,
                end,
            ) by {
                let k = choose|k: int| 0 <= k < found@.len() && found@[k] == i;
                assert(found@[k] < all.len());
            }
        }
        found
    }
}

} // verus!
