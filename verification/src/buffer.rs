//! The text that views show, with the cursors of each view.
//!
//! A buffer holds its text as lines, at least one, none of which contains a
//! line break. It also holds the cursor groups of the views on it: each group
//! has a leader, which drives the viewport of its view, followers, which are
//! only drawn, and selections.

use vstd::prelude::*;
use crate::base::TargetShape;
use crate::cursor::Cursor;

verus! {

/// A selection: the positions of its two ends, and its shape.
#[derive(Clone, Copy, Debug, PartialEq, Eq, Structural)]
pub struct Selection {
    /// The end that comes first in the document.
    pub start: Cursor,
    /// The end that comes last in the document.
    pub end: Cursor,
    /// The geometry of what lies between.
    pub shape: TargetShape,
}

/// The cursors of one view.
struct CursorGroup {
    leader: Cursor,
    followers: Vec<Cursor>,
    selections: Vec<Selection>,
}

/// The lines of a text: at least one, and none with a line break.
struct Text {
    lines: Vec<Vec<char>>,
}

/// A text and the cursor groups of the views on it.
pub struct EditBuffer {
    text: Text,
    groups: Vec<CursorGroup>,
}

/// Whether a line is free of line breaks.
pub open spec fn no_newline(line: Seq<char>) -> bool {
    forall|i: int| 0 <= i < line.len() ==> line[i] != '\n'
}

/// Whether none of `lines` contains a line break.
pub open spec fn no_newlines(lines: Seq<Seq<char>>) -> bool {
    forall|i: int| 0 <= i < lines.len() ==> no_newline(#[trigger] lines[i])
}

/// Whether `lines` can be the lines of a buffer: there is at least one, and
/// none contains a line break.
pub open spec fn valid_lines(lines: Seq<Seq<char>>) -> bool {
    lines.len() >= 1 && no_newlines(lines)
}

/// Whether `lines` can be held: their number and the length of each are
/// numbers that a coordinate can hold.
pub open spec fn holdable(lines: Seq<Seq<char>>) -> bool {
    &&& lines.len() <= usize::MAX
    &&& forall|i: int| 0 <= i < lines.len() ==> (#[trigger] lines[i]).len() <= usize::MAX
}

/// The text that `lines` make up: each line, followed by a line break.
pub open spec fn text_of(lines: Seq<Seq<char>>) -> Seq<char>
    decreases lines.len(),
{
    if lines.len() == 0 {
        Seq::empty()
    } else {
        text_of(lines.drop_last()) + lines.last() + seq!['\n']
    }
}

/// `text`, with a line break added at its end unless it has one there.
pub open spec fn terminated(text: Seq<char>) -> Seq<char> {
    if text.len() > 0 && text.last() == '\n' {
        text
    } else {
        text + seq!['\n']
    }
}

/// The last column of `line` that a cursor can stand on.
pub open spec fn last_column(line: Seq<char>) -> usize {
    if line.len() == 0 {
        0
    } else {
        (line.len() - 1) as usize
    }
}

/// Whether `cursor` stands on a character of `lines`, or at the start of an
/// empty line.
pub open spec fn legal(lines: Seq<Seq<char>>, cursor: Cursor) -> bool {
    cursor.y < lines.len() && cursor.x <= last_column(lines[cursor.y as int])
}

/// The legal position nearest to `cursor`: on the last line if `cursor` is
/// below it, and on the last column of its line if `cursor` is past it.
pub open spec fn clamped(lines: Seq<Seq<char>>, cursor: Cursor) -> Cursor {
    let y = if cursor.y < lines.len() {
        cursor.y
    } else {
        (lines.len() - 1) as usize
    };
    let last = last_column(lines[y as int]);
    Cursor { y, x: if cursor.x <= last { cursor.x } else { last } }
}

/// The text of lines has at least one character for each line, and ends
/// with a line break where there is a line.
proof fn lemma_text_ends(lines: Seq<Seq<char>>)
    ensures
        text_of(lines).len() >= lines.len(),
        lines.len() > 0 ==> text_of(lines).last() == '\n',
    decreases lines.len(),
{
    if lines.len() > 0 {
        lemma_text_ends(lines.drop_last());
    }
}

/// A text is made up of its lines in one way only: lines without line
/// breaks that make up the same text are the same lines.
pub proof fn lemma_text_fixes_lines(first: Seq<Seq<char>>, second: Seq<Seq<char>>)
    requires
        no_newlines(first),
        no_newlines(second),
        text_of(first) == text_of(second),
    ensures
        first == second,
    decreases first.len(),
{
    lemma_text_ends(first);
    lemma_text_ends(second);
    if first.len() == 0 || second.len() == 0 {
        assert(first =~= second);
    } else {
        let a = first.drop_last();
        let b = second.drop_last();
        let la = first.last();
        let lb = second.last();
        let ta = text_of(a);
        let tb = text_of(b);
        let text = text_of(first);
        lemma_text_ends(a);
        lemma_text_ends(b);
        assert(text == ta + la + seq!['\n']);
        assert(text == tb + lb + seq!['\n']);
        assert(ta.len() + la.len() == tb.len() + lb.len());
        if la.len() < lb.len() {
            let p = ta.len() - 1;
            assert(text[p] == ta[p]);
            assert(text[p] == lb[p - tb.len()]);
        } else if lb.len() < la.len() {
            let p = tb.len() - 1;
            assert(text[p] == tb[p]);
            assert(text[p] == la[p - ta.len()]);
        }
        assert(la =~= lb) by {
            assert forall|i: int| 0 <= i < la.len() implies la[i] == lb[i] by {
                assert(text[ta.len() + i] == la[i]);
                assert(text[tb.len() + i] == lb[i]);
            }
        }
        assert(ta =~= tb) by {
            assert forall|i: int| 0 <= i < ta.len() implies ta[i] == tb[i] by {
                assert(text[i] == ta[i]);
                assert(text[i] == tb[i]);
            }
        }
        lemma_text_fixes_lines(a, b);
        assert(first =~= a.push(la));
        assert(second =~= b.push(lb));
    }
}

/// `String::from_iter` on the characters of `chars`: the string that holds
/// them in their order.
#[verifier::external_body]
pub(crate) fn string_from_chars(chars: &Vec<char>) -> (s: String)
    ensures
        s@ == chars@,
{
    chars.iter().collect()
}

impl CursorGroup {
    /// A group with its leader at the start of the text, and nothing else.
    fn new() -> (g: CursorGroup)
        ensures
            g.leader == (Cursor { y: 0, x: 0 }),
            g.followers@.len() == 0,
            g.selections@.len() == 0,
    {
        CursorGroup { leader: Cursor { y: 0, x: 0 }, followers: Vec::new(), selections: Vec::new() }
    }
}

impl Text {
    /// What holds of every text: its lines are valid.
    #[verifier::type_invariant]
    spec fn inv(&self) -> bool {
        valid_lines(self.view())
    }

    /// The lines, each as its characters.
    spec fn view(&self) -> Seq<Seq<char>> {
        Seq::new(self.lines@.len(), |i: int| self.lines@[i]@)
    }

    /// The lines of `text`: what stands between its line breaks. A line
    /// break at the very end ends the last line, and starts no new one.
    fn parse(text: &str) -> (t: Text)
        ensures
            text_of(t.view()) == terminated(text@),
    {
        let mut lines: Vec<Vec<char>> = Vec::new();
        let mut cur: Vec<char> = Vec::new();
        let ghost mut done: Seq<Seq<char>> = Seq::empty();
        proof {
            vstd::string::axiom_spec_iter(text);
            assert(text@.take(0) =~= Seq::<char>::empty());
        }
        for c in it: text.chars()
            invariant
                it.seq() == text@,
                done == Seq::new(lines@.len(), |i: int| lines@[i]@),
                forall|i: int| 0 <= i < done.len() ==> no_newline(#[trigger] done[i]),
                no_newline(cur@),
                text_of(done) + cur@ == text@.take(it.index()),
        {
            proof {
                assert(text@.take(it.index() + 1) =~= text@.take(it.index()).push(c));
            }
            if c == '\n' {
                proof {
                    let next = done.push(cur@);
                    assert(next.drop_last() =~= done);
                    assert(text_of(next) =~= text_of(done) + cur@ + seq!['\n']);
                    assert(text_of(next) + Seq::<char>::empty() =~= text@.take(it.index() + 1));
                    done = next;
                }
                lines.push(cur);
                cur = Vec::new();
                assert(done =~= Seq::new(lines@.len(), |i: int| lines@[i]@));
            } else {
                cur.push(c);
                assert(text_of(done) + cur@ =~= text@.take(it.index() + 1));
            }
        }
        proof {
            assert(text@.take(text@.len() as int) =~= text@);
        }
        if cur.len() > 0 || lines.len() == 0 {
            proof {
                let next = done.push(cur@);
                assert(next.drop_last() =~= done);
                assert(text_of(next) =~= text_of(done) + cur@ + seq!['\n']);
                if cur@.len() > 0 {
                    assert(text@.last() == cur@.last());
                } else {
                    assert(text_of(done) =~= Seq::<char>::empty());
                    assert(text@ =~= Seq::<char>::empty());
                }
                done = next;
            }
            lines.push(cur);
            assert(done =~= Seq::new(lines@.len(), |i: int| lines@[i]@));
        } else {
            proof {
                assert(text_of(done) =~= text_of(done.drop_last()) + done.last() + seq!['\n']);
                assert(text@ =~= text_of(done));
                assert(text@.last() == '\n');
            }
        }
        Text { lines }
    }

    /// One empty line.
    fn empty() -> (t: Text)
        ensures
            t.view() == seq![Seq::<char>::empty()],
    {
        let mut lines: Vec<Vec<char>> = Vec::new();
        lines.push(Vec::new());
        let ghost one = seq![Seq::<char>::empty()];
        assert(Seq::new(lines@.len(), |i: int| lines@[i]@) =~= one);
        assert(no_newline(one[0]));
        Text { lines }
    }
}

impl EditBuffer {
    /// The lines of the text.
    pub closed spec fn lines(&self) -> Seq<Seq<char>> {
        self.text.view()
    }

    /// The number of cursor groups.
    pub closed spec fn group_count(&self) -> nat {
        self.groups@.len()
    }

    /// Whether `id` names a cursor group of this buffer.
    pub open spec fn has_group(&self, id: usize) -> bool {
        id < self.group_count()
    }

    /// The leader of group `id`.
    pub closed spec fn leader(&self, id: usize) -> Cursor {
        self.groups@[id as int].leader
    }

    /// The followers of group `id`.
    pub closed spec fn followers(&self, id: usize) -> Seq<Cursor> {
        self.groups@[id as int].followers@
    }

    /// The selections of group `id`.
    pub closed spec fn selections(&self, id: usize) -> Seq<Selection> {
        self.groups@[id as int].selections@
    }

    /// Whether every group has its leader at the start of the text, and
    /// neither followers nor selections.
    pub open spec fn groups_at_start(&self) -> bool {
        forall|g: usize|
            self.has_group(g) ==> {
                &&& #[trigger] self.leader(g) == (Cursor { y: 0, x: 0 })
                &&& self.followers(g).len() == 0
                &&& self.selections(g).len() == 0
            }
    }

    /// Whether `other` holds the same text.
    pub open spec fn same_text(&self, other: &EditBuffer) -> bool {
        self.lines() == other.lines()
    }

    /// Whether group `id` is the same in `other`.
    pub open spec fn same_group(&self, other: &EditBuffer, id: usize) -> bool {
        &&& self.leader(id) == other.leader(id)
        &&& self.followers(id) == other.followers(id)
        &&& self.selections(id) == other.selections(id)
    }

    /// Whether `other` differs from `self` in the leader of group `id` at most.
    pub open spec fn same_but_leader(&self, other: &EditBuffer, id: usize) -> bool {
        &&& self.same_text(other)
        &&& self.same_groups_but(other, id)
        &&& self.followers(id) == other.followers(id)
        &&& self.selections(id) == other.selections(id)
    }

    /// Whether `other` has the same groups, but for `id`.
    pub open spec fn same_groups_but(&self, other: &EditBuffer, id: usize) -> bool {
        &&& self.group_count() == other.group_count()
        &&& forall|g: usize| g != id && self.has_group(g) ==> self.same_group(other, g)
    }

    /// A buffer with one empty line and no cursor group.
    pub fn new() -> (b: EditBuffer)
        ensures
            b.lines() == seq![Seq::<char>::empty()],
            b.group_count() == 0,
    {
        EditBuffer { text: Text::empty(), groups: Vec::new() }
    }

    /// Adds a cursor group, with its leader at the start of the text, and
    /// returns its name.
    pub fn create_group(&mut self) -> (id: usize)
        ensures
            id == old(self).group_count(),
            final(self).group_count() == old(self).group_count() + 1,
            final(self).same_text(old(self)),
            forall|g: usize| old(self).has_group(g) ==> final(self).same_group(old(self), g),
            final(self).leader(id) == (Cursor { y: 0, x: 0 }),
            final(self).followers(id).len() == 0,
            final(self).selections(id).len() == 0,
    {
        let id = self.groups.len();
        self.groups.push(CursorGroup::new());
        id
    }

    /// The lines of a buffer can be held: there are no more of them, and
    /// no more characters in any of them, than a coordinate can count.
    pub proof fn lemma_lines_holdable(&self)
        ensures
            holdable(self.lines()),
    {
        assert(self.text.lines@.len() == self.text.lines.len());
        assert forall|i: int| 0 <= i < self.lines().len() implies (#[trigger] self.lines()[i]).len()
            <= usize::MAX by {
            assert(self.text.lines@[i]@.len() == self.text.lines@[i].len());
        }
    }

    /// Tells whether `id` names a cursor group of this buffer.
    pub fn contains_group(&self, id: usize) -> (b: bool)
        ensures
            b == self.has_group(id),
    {
        id < self.groups.len()
    }

    /// The number of lines.
    pub fn get_lines(&self) -> (n: usize)
        ensures
            n == self.lines().len(),
            valid_lines(self.lines()),
    {
        proof {
            use_type_invariant(&self.text);
        }
        self.text.lines.len()
    }

    /// The line at index `line`.
    pub fn line(&self, line: usize) -> (l: &Vec<char>)
        requires
            line < self.lines().len(),
        ensures
            l@ == self.lines()[line as int],
    {
        &self.text.lines[line]
    }

    /// The leader of group `id`.
    pub fn get_leader(&self, id: usize) -> (c: Cursor)
        requires
            self.has_group(id),
        ensures
            c == self.leader(id),
    {
        self.groups[id].leader
    }

    /// Makes `cursor` the leader of group `id`.
    pub fn set_leader(&mut self, id: usize, cursor: Cursor)
        requires
            old(self).has_group(id),
        ensures
            final(self).leader(id) == cursor,
            final(self).followers(id) == old(self).followers(id),
            final(self).selections(id) == old(self).selections(id),
            final(self).same_text(old(self)),
            final(self).same_groups_but(old(self), id),
    {
        self.groups[id].leader = cursor;
    }

    /// The followers of group `id`.
    pub fn get_followers(&self, id: usize) -> (f: &Vec<Cursor>)
        requires
            self.has_group(id),
        ensures
            f@ == self.followers(id),
    {
        &self.groups[id].followers
    }

    /// Gives group `id` the followers `followers`.
    pub fn set_followers(&mut self, id: usize, followers: Vec<Cursor>)
        requires
            old(self).has_group(id),
        ensures
            final(self).followers(id) == followers@,
            final(self).leader(id) == old(self).leader(id),
            final(self).selections(id) == old(self).selections(id),
            final(self).same_text(old(self)),
            final(self).same_groups_but(old(self), id),
    {
        self.groups[id].followers = followers;
    }

    /// The selections of group `id`.
    pub fn get_group_selections(&self, id: usize) -> (s: &Vec<Selection>)
        requires
            self.has_group(id),
        ensures
            s@ == self.selections(id),
    {
        &self.groups[id].selections
    }

    /// Gives group `id` the selections `selections`.
    pub fn set_selections(&mut self, id: usize, selections: Vec<Selection>)
        requires
            old(self).has_group(id),
        ensures
            final(self).selections(id) == selections@,
            final(self).leader(id) == old(self).leader(id),
            final(self).followers(id) == old(self).followers(id),
            final(self).same_text(old(self)),
            final(self).same_groups_but(old(self), id),
    {
        self.groups[id].selections = selections;
    }

    /// Moves `cursor` to the legal position nearest to it.
    pub fn clamp(&self, cursor: &mut Cursor)
        ensures
            *final(cursor) == clamped(self.lines(), *old(cursor)),
            legal(self.lines(), *final(cursor)),
            valid_lines(self.lines()),
    {
        proof {
            use_type_invariant(&self.text);
        }
        let count: usize = self.text.lines.len();
        if cursor.y >= count {
            cursor.y = count - 1;
        }
        let len: usize = self.text.lines[cursor.y].len();
        let last: usize = if len == 0 { 0 } else { len - 1 };
        if cursor.x > last {
            cursor.x = last;
        }
    }

    /// The text: each line, followed by a line break.
    pub fn get_text(&self) -> (s: String)
        ensures
            s@ == text_of(self.lines()),
    {
        let mut out: Vec<char> = Vec::new();
        let n: usize = self.text.lines.len();
        let mut i: usize = 0;
        while i < n
            invariant
                i <= n,
                n == self.text.lines@.len(),
                out@ == text_of(self.lines().take(i as int)),
            decreases n - i,
        {
            let line = &self.text.lines[i];
            let ghost before = out@;
            let m: usize = line.len();
            let mut j: usize = 0;
            while j < m
                invariant
                    j <= m,
                    m == line@.len(),
                    out@ == before + line@.take(j as int),
                decreases m - j,
            {
                out.push(line[j]);
                assert(line@.take(j + 1) =~= line@.take(j as int).push(line@[j as int]));
                j += 1;
            }
            out.push('\n');
            proof {
                assert(line@.take(m as int) =~= line@);
                let next = self.lines().take(i + 1);
                assert(next.drop_last() =~= self.lines().take(i as int));
                assert(next.last() == line@);
                assert(out@ =~= text_of(next.drop_last()) + next.last() + seq!['\n']);
            }
            i += 1;
        }
        assert(self.lines().take(n as int) =~= self.lines());
        string_from_chars(&out)
    }

    /// Replaces the text by `text`, cut into lines at its line breaks, and
    /// puts every cursor group back to a leader at the start of the text,
    /// without followers or selections.
    pub fn set_text(&mut self, text: &str)
        ensures
            valid_lines(final(self).lines()),
            text_of(final(self).lines()) == terminated(text@),
            final(self).groups_at_start(),
            final(self).group_count() == old(self).group_count(),
    {
        let parsed = Text::parse(text);
        proof {
            use_type_invariant(&parsed);
        }
        self.text = parsed;
        self.reset_groups();
    }

    /// Empties the text to one empty line, puts every cursor group back to
    /// a leader at the start of the text, without followers or selections,
    /// and returns the text that was there.
    pub fn reset_text(&mut self) -> (s: String)
        ensures
            s@ == text_of(old(self).lines()),
            final(self).lines() == seq![Seq::<char>::empty()],
            final(self).groups_at_start(),
            final(self).group_count() == old(self).group_count(),
    {
        let s = self.get_text();
        self.text = Text::empty();
        self.reset_groups();
        s
    }

    /// Puts every cursor group back to a leader at the start of the text,
    /// without followers or selections.
    fn reset_groups(&mut self)
        ensures
            final(self).lines() == old(self).lines(),
            final(self).groups_at_start(),
            final(self).group_count() == old(self).group_count(),
    {
        let n: usize = self.groups.len();
        let mut groups: Vec<CursorGroup> = Vec::new();
        let mut i: usize = 0;
        while i < n
            invariant
                i <= n,
                groups@.len() == i,
                forall|g: int|
                    0 <= g < i ==> {
                        &&& (#[trigger] groups@[g]).leader == (Cursor { y: 0, x: 0 })
                        &&& groups@[g].followers@.len() == 0
                        &&& groups@[g].selections@.len() == 0
                    },
            decreases n - i,
        {
            groups.push(CursorGroup::new());
            i += 1;
        }
        self.groups = groups;
    }
}

} // verus!
