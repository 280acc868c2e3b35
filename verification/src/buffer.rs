use vstd::prelude::*;

verus! {

/// The document being edited: an ordered sequence of lines, each line an
/// ordered sequence of characters. A well-formed document always holds at
/// least one line.
pub struct TextBuffer {
    lines: Vec<Vec<char>>,
}

/// The flat text of a document: its lines joined by a newline separator,
/// with no separator added after the last line.
pub open spec fn join_lines(lines: Seq<Seq<char>>) -> Seq<char>
    decreases lines.len(),
{
    if lines.len() == 0 {
        Seq::empty()
    } else if lines.len() == 1 {
        lines[0]
    } else {
        join_lines(lines.drop_last()) + seq!['\n'] + lines.last()
    }
}

/// The index of the first newline character of `s`, or -1 if there is none.
pub open spec fn first_newline(s: Seq<char>) -> int
    decreases s.len(),
{
    if s.len() == 0 {
        -1
    } else if s[0] == '\n' {
        0
    } else {
        let r = first_newline(s.drop_first());
        if r < 0 {
            -1
        } else {
            r + 1
        }
    }
}

/// The document read from flat text: `s` cut at each newline character, so
/// that text with N newlines yields N + 1 lines. The result is never empty.
pub open spec fn split_lines(s: Seq<char>) -> Seq<Seq<char>>
    decreases s.len(),
{
    let i = first_newline(s);
    if i < 0 || i >= s.len() {
        seq![s]
    } else {
        seq![s.take(i)] + split_lines(s.skip(i + 1))
    }
}

pub proof fn lemma_first_newline_spec(s: Seq<char>)
    ensures
        first_newline(s) >= 0 ==> first_newline(s) < s.len() && s[first_newline(s)] == '\n',
        first_newline(s) >= 0 ==> forall|j: int| 0 <= j < first_newline(s) ==> s[j] != '\n',
        first_newline(s) < 0 ==> forall|j: int| 0 <= j < s.len() ==> s[j] != '\n',
    decreases s.len(),
{
    if s.len() == 0 {
    } else if s[0] == '\n' {
    } else {
        let t = s.drop_first();
        lemma_first_newline_spec(t);
        if first_newline(s) >= 0 {
            assert forall|j: int| 0 <= j < first_newline(s) implies s[j] != '\n' by {
                if j > 0 {
                    assert(t[j - 1] == s[j]);
                    assert(t[j - 1] != '\n');
                }
            }
            assert(t[first_newline(t)] == s[first_newline(s)]);
        } else {
            assert forall|j: int| 0 <= j < s.len() implies s[j] != '\n' by {
                if j > 0 {
                    assert(t[j - 1] == s[j]);
                    assert(t[j - 1] != '\n');
                }
            }
        }
    }
}

/// The first newline is the unique position that holds a newline with none
/// before it.
pub proof fn lemma_first_newline_at(s: Seq<char>, k: int)
    requires
        0 <= k < s.len(),
        s[k] == '\n',
        forall|j: int| 0 <= j < k ==> s[j] != '\n',
    ensures
        first_newline(s) == k,
{
    lemma_first_newline_spec(s);
    let f = first_newline(s);
    if f < 0 {
        assert(s[k] != '\n');
    } else if f < k {
        assert(s[f] != '\n');
    } else if f > k {
        assert(s[k] != '\n');
    }
}

pub proof fn lemma_first_newline_none(s: Seq<char>)
    requires
        forall|j: int| 0 <= j < s.len() ==> s[j] != '\n',
    ensures
        first_newline(s) < 0,
{
    lemma_first_newline_spec(s);
    let f = first_newline(s);
    if f >= 0 {
        assert(s[f] != '\n');
    }
}

/// Unfolds one step of `join_lines` along a prefix of the line sequence.
pub proof fn lemma_join_take_succ(s: Seq<Seq<char>>, i: int)
    requires
        0 <= i < s.len(),
    ensures
        i == 0 ==> join_lines(s.take(1)) == s[0],
        i > 0 ==> join_lines(s.take(i + 1)) == join_lines(s.take(i)) + seq!['\n'] + s[i],
{
    let t = s.take(i + 1);
    if i == 0 {
        assert(t.len() == 1);
        assert(join_lines(t) == t[0]);
    } else {
        assert(t.drop_last() =~= s.take(i));
        assert(t.last() == s[i]);
    }
}

/// Deleting the character at a valid position of a line and inserting the
/// same character back at the same position restores the document exactly.
pub proof fn lemma_delete_insert_restores(doc: Seq<Seq<char>>, line: int, col: int)
    requires
        0 <= line < doc.len(),
        0 <= col < doc[line].len(),
    ensures
        doc.update(line, doc[line].remove(col).insert(col, doc[line][col])) == doc,
{
    lemma_seq_remove_insert(doc[line], col, doc[line][col]);
    assert(doc[line].update(col, doc[line][col]) =~= doc[line]);
    assert(doc.update(line, doc[line]) =~= doc);
}

/// Splitting a line at any position within it and then merging the new line
/// back into its predecessor restores the document exactly.
pub proof fn lemma_split_merge_restores(doc: Seq<Seq<char>>, line: int, col: int)
    requires
        0 <= line < doc.len(),
        0 <= col <= doc[line].len(),
    ensures
        ({
            let d = doc.update(line, doc[line].take(col)).insert(line + 1, doc[line].skip(col));
            d.update(line, d[line] + d[line + 1]).remove(line + 1) == doc
        }),
{
    let a = doc.update(line, doc[line].take(col));
    let d = a.insert(line + 1, doc[line].skip(col));
    a.insert_ensures(line + 1, doc[line].skip(col));
    assert(d[line] == doc[line].take(col));
    assert(d[line + 1] == doc[line].skip(col));
    assert(doc[line].take(col) + doc[line].skip(col) =~= doc[line]);
    let e = d.update(line, doc[line]);
    e.remove_ensures(line + 1);
    assert forall|j: int| 0 <= j < doc.len() implies e.remove(line + 1)[j] == doc[j] by {
        if j < line {
            assert(e.remove(line + 1)[j] == e[j]);
            assert(d[j] == a[j]);
        } else if j == line {
            assert(e.remove(line + 1)[j] == e[j]);
        } else {
            assert(e.remove(line + 1)[j] == e[j + 1]);
            assert(d[(j - 1) + 1 + 1] == a[j]);
        }
    }
    assert(e.remove(line + 1) =~= doc);
}

proof fn lemma_join_singleton_prepend(x: Seq<char>, rest: Seq<Seq<char>>)
    requires
        rest.len() >= 1,
    ensures
        join_lines(seq![x] + rest) == x + seq!['\n'] + join_lines(rest),
    decreases rest.len(),
{
    let s = seq![x] + rest;
    if rest.len() == 1 {
        assert(s.len() == 2);
        assert(s.drop_last() =~= seq![x]);
        assert(s.last() == rest[0]);
        assert(join_lines(seq![x]) == x);
        assert(join_lines(rest) == rest[0]);
    } else {
        assert(s.drop_last() =~= seq![x] + rest.drop_last());
        lemma_join_singleton_prepend(x, rest.drop_last());
        assert(s.last() == rest.last());
        assert((x + seq!['\n'] + join_lines(rest.drop_last())) + seq!['\n'] + rest.last() =~= x
            + seq!['\n'] + (join_lines(rest.drop_last()) + seq!['\n'] + rest.last()));
    }
}

/// Serializing the document read from any flat text reproduces that text
/// exactly: a load followed by a save changes nothing.
pub proof fn lemma_join_split_roundtrip(s: Seq<char>)
    ensures
        join_lines(split_lines(s)) == s,
    decreases s.len(),
{
    lemma_first_newline_spec(s);
    let i = first_newline(s);
    if i < 0 {
    } else {
        lemma_join_split_roundtrip(s.skip(i + 1));
        assert(split_lines(s.skip(i + 1)).len() >= 1);
        lemma_join_singleton_prepend(s.take(i), split_lines(s.skip(i + 1)));
        assert(s.take(i) + seq!['\n'] + s.skip(i + 1) =~= s);
    }
}

/// The view of a sequence of line vectors: each line as its character sequence.
pub open spec fn lift_lines(s: Seq<Vec<char>>) -> Seq<Seq<char>> {
    Seq::new(s.len(), |i: int| s[i]@)
}

proof fn lemma_seq_remove_insert<A>(s: Seq<A>, i: int, a: A)
    requires
        0 <= i < s.len(),
    ensures
        s.remove(i).insert(i, a) =~= s.update(i, a),
{
    s.remove_ensures(i);
    s.remove(i).insert_ensures(i, a);
    assert forall|j: int| 0 <= j < s.len() implies s.remove(i).insert(i, a)[j] == s.update(i, a)[j] by {
        if j < i {
            assert(s.remove(i).insert(i, a)[j] == s.remove(i)[j]);
        } else if j == i {
        } else {
            assert(s.remove(i).insert(i, a)[(j - 1) + 1] == s.remove(i)[j - 1]);
        }
    }
}

proof fn lemma_lift_update(s: Seq<Vec<char>>, i: int, v: Vec<char>)
    requires
        0 <= i < s.len(),
    ensures
        lift_lines(s.update(i, v)) =~= lift_lines(s).update(i, v@),
{
}

proof fn lemma_lift_insert(s: Seq<Vec<char>>, i: int, v: Vec<char>)
    requires
        0 <= i <= s.len(),
    ensures
        lift_lines(s.insert(i, v)) =~= lift_lines(s).insert(i, v@),
{
    s.insert_ensures(i, v);
    lift_lines(s).insert_ensures(i, v@);
    assert forall|j: int| 0 <= j < s.len() + 1 implies lift_lines(s.insert(i, v))[j] == lift_lines(
        s,
    ).insert(i, v@)[j] by {
        if j < i {
            assert(s.insert(i, v)[j] == s[j]);
            assert(lift_lines(s).insert(i, v@)[j] == lift_lines(s)[j]);
        } else if j == i {
        } else {
            assert(s.insert(i, v)[(j - 1) + 1] == s[j - 1]);
            assert(lift_lines(s).insert(i, v@)[(j - 1) + 1] == lift_lines(s)[j - 1]);
        }
    }
}

proof fn lemma_lift_push(s: Seq<Vec<char>>, v: Vec<char>)
    ensures
        lift_lines(s.push(v)) =~= lift_lines(s).push(v@),
{
    assert forall|j: int| 0 <= j < s.len() + 1 implies lift_lines(s.push(v))[j] == lift_lines(
        s,
    ).push(v@)[j] by {
        if j < s.len() {
            assert(s.push(v)[j] == s[j]);
        } else {
            assert(s.push(v)[j] == v);
        }
    }
}

proof fn lemma_lift_remove(s: Seq<Vec<char>>, i: int)
    requires
        0 <= i < s.len(),
    ensures
        lift_lines(s.remove(i)) =~= lift_lines(s).remove(i),
{
    s.remove_ensures(i);
    lift_lines(s).remove_ensures(i);
    assert forall|j: int| 0 <= j < s.len() - 1 implies lift_lines(s.remove(i))[j] == lift_lines(
        s,
    ).remove(i)[j] by {
        if j < i {
        } else {
            assert(s.remove(i)[j] == s[j + 1]);
            assert(lift_lines(s).remove(i)[j] == lift_lines(s)[j + 1]);
        }
    }
}

impl View for TextBuffer {
    type V = Seq<Seq<char>>;

    closed spec fn view(&self) -> Seq<Seq<char>> {
        lift_lines(self.lines@)
    }
}

impl TextBuffer {
    /// A document is well formed when it is never the empty sequence of lines.
    pub open spec fn wf(&self) -> bool {
        self@.len() >= 1
    }

    /// A fresh document: one empty line.
    pub fn new() -> (r: TextBuffer)
        ensures
            r.wf(),
            r@ =~~= seq![Seq::<char>::empty()],
    {
        let mut lines: Vec<Vec<char>> = Vec::new();
        let first: Vec<char> = Vec::new();
        lines.push(first);
        let r = TextBuffer { lines };
        proof {
            assert(r@ =~~= seq![Seq::<char>::empty()]);
        }
        r
    }

    pub fn line_count(&self) -> (r: usize)
        ensures
            r == self@.len(),
    {
        self.lines.len()
    }

    pub fn line_len(&self, line: usize) -> (r: usize)
        requires
            line < self@.len(),
        ensures
            r == self@[line as int].len(),
    {
        self.lines[line].len()
    }

    pub fn char_at(&self, line: usize, col: usize) -> (r: char)
        requires
            line < self@.len(),
            col < self@[line as int].len(),
        ensures
            r == self@[line as int][col as int],
    {
        self.lines[line][col]
    }

    /// A copy of one line's characters.
    pub fn line(&self, line: usize) -> (r: Vec<char>)
        requires
            line < self@.len(),
        ensures
            r@ == self@[line as int],
    {
        let src = &self.lines[line];
        let n = src.len();
        let mut out: Vec<char> = Vec::new();
        let mut i: usize = 0;
        while i < n
            invariant
                i <= n,
                n == src@.len(),
                out@ == src@.take(i as int),
            decreases n - i,
        {
            out.push(src[i]);
            proof {
                assert(out@ =~= src@.take(i + 1 as int));
            }
            i = i + 1;
        }
        proof {
            assert(src@.take(n as int) =~= src@);
        }
        out
    }

    /// Inserts `ch` at position `col` of line `line`. The caller clamps the
    /// column first; out-of-range positions are a contract violation.
    pub fn insert_char(&mut self, line: usize, col: usize, ch: char)
        requires
            old(self).wf(),
            line < old(self)@.len(),
            col <= old(self)@[line as int].len(),
        ensures
            final(self).wf(),
            final(self)@ == old(self)@.update(
                line as int,
                old(self)@[line as int].insert(col as int, ch),
            ),
    {
        let ghost g0 = self.lines@;
        let mut l = self.lines.remove(line);
        l.insert(col, ch);
        let ghost lg = l;
        self.lines.insert(line, l);
        proof {
            lemma_seq_remove_insert(g0, line as int, lg);
            lemma_lift_update(g0, line as int, lg);
            assert(self@ =~= old(self)@.update(
                line as int,
                old(self)@[line as int].insert(col as int, ch),
            ));
        }
    }

    /// Removes the character at position `col` of line `line`.
    pub fn delete_char(&mut self, line: usize, col: usize)
        requires
            old(self).wf(),
            line < old(self)@.len(),
            col < old(self)@[line as int].len(),
        ensures
            final(self).wf(),
            final(self)@ == old(self)@.update(line as int, old(self)@[line as int].remove(col as int)),
    {
        let ghost g0 = self.lines@;
        let mut l = self.lines.remove(line);
        l.remove(col);
        let ghost lg = l;
        self.lines.insert(line, l);
        proof {
            lemma_seq_remove_insert(g0, line as int, lg);
            lemma_lift_update(g0, line as int, lg);
            assert(self@ =~= old(self)@.update(
                line as int,
                old(self)@[line as int].remove(col as int),
            ));
        }
    }

    /// Cuts line `line` in two at `col`: the head keeps positions `0..col`,
    /// and the tail becomes a new line immediately after.
    pub fn split_line(&mut self, line: usize, col: usize)
        requires
            old(self).wf(),
            line < old(self)@.len(),
            col <= old(self)@[line as int].len(),
        ensures
            final(self).wf(),
            final(self)@ == old(self)@.update(line as int, old(self)@[line as int].take(col as int))
                .insert(line + 1, old(self)@[line as int].skip(col as int)),
    {
        let ghost g0 = self.lines@;
        let n = self.lines.len();
        let mut l = self.lines.remove(line);
        let tail = l.split_off(col);
        let ghost hg = l;
        let ghost tg = tail;
        self.lines.insert(line, l);
        self.lines.insert(line + 1, tail);
        proof {
            lemma_seq_remove_insert(g0, line as int, hg);
            let g1 = g0.update(line as int, hg);
            lemma_lift_insert(g1, line + 1, tg);
            lemma_lift_update(g0, line as int, hg);
            assert(self@ =~= old(self)@.update(
                line as int,
                old(self)@[line as int].take(col as int),
            ).insert(line + 1, old(self)@[line as int].skip(col as int)));
        }
    }

    /// Appends line `line`'s content to line `line - 1` and removes line
    /// `line` from the document.
    pub fn merge_with_previous(&mut self, line: usize)
        requires
            old(self).wf(),
            1 <= line < old(self)@.len(),
        ensures
            final(self).wf(),
            final(self)@ == old(self)@.update(
                line - 1,
                old(self)@[line - 1] + old(self)@[line as int],
            ).remove(line as int),
    {
        let ghost g0 = self.lines@;
        let mut cur = self.lines.remove(line);
        let mut prev = self.lines.remove(line - 1);
        prev.append(&mut cur);
        let ghost pg = prev;
        self.lines.insert(line - 1, prev);
        proof {
            let g1 = g0.remove(line as int);
            lemma_seq_remove_insert(g1, line - 1, pg);
            let g2 = g1.update(line - 1, pg);
            g0.remove_ensures(line as int);
            lemma_lift_update(g1, line - 1, pg);
            lemma_lift_remove(g0, line as int);
            let target = old(self)@.update(
                line - 1,
                old(self)@[line - 1] + old(self)@[line as int],
            ).remove(line as int);
            assert(self@ =~= target) by {
                assert(self@ == lift_lines(g1).update(line - 1, pg@));
                assert(lift_lines(g1) =~= old(self)@.remove(line as int));
                old(self)@.remove_ensures(line as int);
                old(self)@.update(
                    line - 1,
                    old(self)@[line - 1] + old(self)@[line as int],
                ).remove_ensures(line as int);
            }
        }
    }

    /// A document made of the given lines.
    pub fn from_lines(lines: Vec<Vec<char>>) -> (r: TextBuffer)
        requires
            lines@.len() >= 1,
        ensures
            r.wf(),
            r@ == lift_lines(lines@),
    {
        TextBuffer { lines }
    }

    /// The flat text of the document, for persistence: lines joined with a
    /// newline separator and nothing after the last line.
    pub fn serialize(&self) -> (r: Vec<char>)
        requires
            self.wf(),
        ensures
            r@ == join_lines(self@),
    {
        let mut out: Vec<char> = Vec::new();
        let n = self.lines.len();
        let mut i: usize = 0;
        proof {
            assert(out@ =~= join_lines(self@.take(0)));
        }
        while i < n
            invariant
                i <= n,
                n == self@.len(),
                self.wf(),
                out@ == join_lines(self@.take(i as int)),
            decreases n - i,
        {
            let ghost sep: Seq<char> = if i == 0 {
                Seq::<char>::empty()
            } else {
                seq!['\n']
            };
            if i > 0 {
                out.push('\n');
            }
            proof {
                assert(out@ =~= join_lines(self@.take(i as int)) + sep + self@[i as int].take(0));
            }
            let m = self.lines[i].len();
            let mut j: usize = 0;
            while j < m
                invariant
                    j <= m,
                    i < n,
                    n == self@.len(),
                    m == self@[i as int].len(),
                    out@ == join_lines(self@.take(i as int)) + sep + self@[i as int].take(j as int),
                decreases m - j,
            {
                let c = self.lines[i][j];
                out.push(c);
                proof {
                    assert(out@ =~= join_lines(self@.take(i as int)) + sep + self@[i as int].take(
                        j + 1,
                    ));
                }
                j = j + 1;
            }
            proof {
                assert(self@[i as int].take(m as int) =~= self@[i as int]);
                lemma_join_take_succ(self@, i as int);
                assert(out@ =~= join_lines(self@.take(i + 1)));
            }
            i = i + 1;
        }
        proof {
            assert(self@.take(n as int) =~= self@);
        }
        out
    }

    /// The document read from flat text, cut at each newline character.
    pub fn load(text: &Vec<char>) -> (r: TextBuffer)
        ensures
            r.wf(),
            r@ == split_lines(text@),
    {
        let mut lines: Vec<Vec<char>> = Vec::new();
        let mut cur: Vec<char> = Vec::new();
        let n = text.len();
        let mut i: usize = 0;
        proof {
            assert(cur@ + text@.skip(0) =~= text@);
            assert(lift_lines(lines@) + split_lines(text@) =~= split_lines(text@));
        }
        while i < n
            invariant
                i <= n,
                n == text@.len(),
                forall|j: int| 0 <= j < cur@.len() ==> cur@[j] != '\n',
                split_lines(text@) == lift_lines(lines@) + split_lines(cur@ + text@.skip(i as int)),
            decreases n - i,
        {
            let ghost u = cur@ + text@.skip(i as int);
            let c = text[i];
            if c == '\n' {
                proof {
                    assert(u[cur@.len() as int] == '\n');
                    lemma_first_newline_at(u, cur@.len() as int);
                    assert(u.take(cur@.len() as int) =~= cur@);
                    assert(u.skip(cur@.len() as int + 1) =~= text@.skip(i + 1));
                    assert(split_lines(u) == seq![cur@] + split_lines(text@.skip(i + 1)));
                }
                let ghost old_lines = lines@;
                let ghost old_cur = cur@;
                lines.push(cur);
                cur = Vec::new();
                proof {
                    lemma_lift_push(old_lines, lines@[old_lines.len() as int]);
                    assert(lines@ =~= old_lines.push(lines@[old_lines.len() as int]));
                    assert(lift_lines(lines@) =~= lift_lines(old_lines).push(old_cur));
                    assert(cur@ + text@.skip(i + 1) =~= text@.skip(i + 1));
                    assert(lift_lines(old_lines) + (seq![old_cur] + split_lines(
                        text@.skip(i + 1),
                    )) =~= lift_lines(lines@) + split_lines(text@.skip(i + 1)));
                }
            } else {
                cur.push(c);
                proof {
                    assert(cur@ + text@.skip(i + 1) =~= u);
                }
            }
            i = i + 1;
        }
        proof {
            assert(cur@ + text@.skip(n as int) =~= cur@);
            lemma_first_newline_none(cur@);
            assert(split_lines(cur@) == seq![cur@]);
        }
        let ghost done = lines@;
        let ghost last = cur@;
        lines.push(cur);
        let r = TextBuffer { lines };
        proof {
            lemma_lift_push(done, r.lines@[done.len() as int]);
            assert(r.lines@ =~= done.push(r.lines@[done.len() as int]));
            assert(r@ =~= lift_lines(done).push(last));
            assert(r@ =~= lift_lines(done) + seq![last]);
            assert(r@ == split_lines(text@));
        }
        r
    }

    /// Inserts `content` as a new line immediately after line `line`.
    pub fn insert_line_after(&mut self, line: usize, content: Vec<char>)
        requires
            old(self).wf(),
            line < old(self)@.len(),
        ensures
            final(self).wf(),
            final(self)@ == old(self)@.insert(line + 1, content@),
    {
        let ghost g0 = self.lines@;
        let n = self.lines.len();
        let ghost cg = content;
        self.lines.insert(line + 1, content);
        proof {
            lemma_lift_insert(g0, line + 1, cg);
            assert(self@ =~= old(self)@.insert(line + 1, cg@));
        }
    }
}

} // verus!
