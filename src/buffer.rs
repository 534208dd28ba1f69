//! The document: an ordered, never empty sequence of lines.
use vstd::prelude::*;
use vstd::utf8::*;

use crate::text::{char_count, char_width, lemma_chars_within_bytes, lemma_offset_step, split_at_position};

verus! {

/// The lines of `t`, cut at each `'\n'`; a text with `k` newlines has
/// `k + 1` lines.
pub open spec fn split_lines(t: Seq<char>) -> Seq<Seq<char>>
    decreases t.len(),
{
    if t.len() == 0 {
        seq![Seq::empty()]
    } else {
        let rest = split_lines(t.drop_first());
        if t[0] == '\n' {
            seq![Seq::empty()] + rest
        } else {
            rest.update(0, seq![t[0]] + rest[0])
        }
    }
}

/// The lines `ls` joined with `'\n'` between each two of them.
pub open spec fn join_lines(ls: Seq<Seq<char>>) -> Seq<char>
    decreases ls.len(),
{
    if ls.len() == 0 {
        Seq::empty()
    } else if ls.len() == 1 {
        ls[0]
    } else {
        join_lines(ls.drop_last()) + seq!['\n'] + ls.last()
    }
}

/// No character of `t` is a newline.
pub open spec fn no_newline(t: Seq<char>) -> bool {
    forall|i: int| 0 <= i < t.len() ==> t[i] != '\n'
}

pub proof fn lemma_split_nonempty(t: Seq<char>)
    ensures
        split_lines(t).len() >= 1,
    decreases t.len(),
{
    if t.len() > 0 {
        lemma_split_nonempty(t.drop_first());
    }
}

pub proof fn lemma_split_no_newline(t: Seq<char>)
    requires
        no_newline(t),
    ensures
        split_lines(t) == seq![t],
    decreases t.len(),
{
    if t.len() > 0 {
        let d = t.drop_first();
        assert forall|i: int| 0 <= i < d.len() implies d[i] != '\n' by {
            assert(d[i] == t[i + 1]);
        }
        lemma_split_no_newline(d);
        assert(t[0] != '\n');
        assert(seq![t[0]] + d =~= t);
        assert(split_lines(t) =~= seq![t]);
    } else {
        assert(t =~= Seq::<char>::empty());
    }
}

pub proof fn lemma_split_at_newline(t: Seq<char>, m: int)
    requires
        0 <= m < t.len(),
        t[m] == '\n',
        no_newline(t.take(m)),
    ensures
        split_lines(t) == seq![t.take(m)] + split_lines(t.skip(m + 1)),
    decreases m,
{
    if m == 0 {
        assert(t.skip(1) =~= t.drop_first());
        assert(t.take(0) =~= Seq::<char>::empty());
    } else {
        assert(t.take(m)[0] == t[0]);
        let d = t.drop_first();
        assert(d.take(m - 1) =~= t.take(m).drop_first());
        lemma_split_at_newline(d, m - 1);
        assert(d.skip(m) =~= t.skip(m + 1));
        assert(seq![t[0]] + d.take(m - 1) =~= t.take(m));
        assert(split_lines(t) =~= seq![t.take(m)] + split_lines(t.skip(m + 1)));
    }
}

/// Joining puts the first line, a newline, then the rest.
pub proof fn lemma_join_front(ls: Seq<Seq<char>>)
    requires
        ls.len() >= 2,
    ensures
        join_lines(ls) == ls[0] + seq!['\n'] + join_lines(ls.drop_first()),
    decreases ls.len(),
{
    if ls.len() > 2 {
        lemma_join_front(ls.drop_last());
        assert(ls.drop_last().drop_first() =~= ls.drop_first().drop_last());
        assert(ls.drop_last()[0] == ls[0]);
        assert(ls.drop_first().last() == ls.last());
        assert(join_lines(ls.drop_first()) == join_lines(ls.drop_first().drop_last()) + seq!['\n']
            + ls.last());
        assert(join_lines(ls) =~= ls[0] + seq!['\n'] + join_lines(ls.drop_first()));
    } else {
        assert(ls.drop_first() =~= seq![ls[1]]);
        assert(ls.drop_last() =~= seq![ls[0]]);
        assert(join_lines(ls.drop_first()) == ls[1]);
        assert(join_lines(ls.drop_last()) == ls[0]);
    }
}

/// Serializing the lines of a text gives that text back: joining the
/// result of splitting at newlines is the identity.
pub proof fn lemma_join_split(t: Seq<char>)
    ensures
        join_lines(split_lines(t)) == t,
    decreases t.len(),
{
    if t.len() > 0 {
        let d = t.drop_first();
        let rest = split_lines(d);
        lemma_join_split(d);
        lemma_split_nonempty(d);
        if t[0] == '\n' {
            let s = seq![Seq::<char>::empty()] + rest;
            lemma_join_front(s);
            assert(s.drop_first() =~= rest);
            assert(seq![t[0]] + d =~= t);
            assert(join_lines(s) =~= t);
        } else {
            let s = rest.update(0, seq![t[0]] + rest[0]);
            if rest.len() == 1 {
                assert(seq![t[0]] + d =~= t);
                assert(join_lines(s) =~= t);
            } else {
                lemma_join_front(s);
                lemma_join_front(rest);
                assert(s.drop_first() =~= rest.drop_first());
                assert(join_lines(s) == (seq![t[0]] + rest[0]) + seq!['\n'] + join_lines(
                    rest.drop_first(),
                ));
                assert(join_lines(s) =~= seq![t[0]] + join_lines(rest));
                assert(seq![t[0]] + d =~= t);
            }
        }
    }
}

/// The document's lines, as strings.
#[derive(Clone, Debug)]
pub struct Buffer {
    lines: Vec<String>,
}

impl View for Buffer {
    type V = Seq<Seq<char>>;

    closed spec fn view(&self) -> Seq<Seq<char>> {
        self.lines@.map_values(|l: String| l@)
    }
}

impl Buffer {
    /// A document of one empty line.
    pub fn new() -> (r: Buffer)
        ensures
            r@ == seq![Seq::<char>::empty()],
    {
        let mut lines: Vec<String> = Vec::new();
        lines.push(String::new());
        let r = Buffer { lines };
        assert(r@ =~= seq![Seq::<char>::empty()]);
        r
    }

    /// The lines of `text`, cut at each `'\n'`: an empty text gives one
    /// empty line, and a trailing newline gives a trailing empty line.
    pub fn from_text(text: &str) -> (r: Buffer)
        ensures
            r@ == split_lines(text@),
            r@.len() >= 1,
    {
        let mut lines: Vec<String> = Vec::new();
        let mut start: usize = 0;
        let ghost mut j: int = 0;
        let mut byte: usize = 0;
        let mut i: usize = 0;
        let total = text.as_bytes().len();
        proof {
            lemma_chars_within_bytes(text@);
            assert(text@.skip(0) =~= text@);
            assert(lines@.map_values(|l: String| l@) =~= Seq::<Seq<char>>::empty());
            assert(Seq::<Seq<char>>::empty() + split_lines(text@) =~= split_lines(text@));
        }
        for c in it: text.chars()
            invariant
                it.seq() == text@,
                i == it.index(),
                0 <= j <= i,
                start == encode_utf8(text@.take(j)).len(),
                byte == encode_utf8(text@.take(i as int)).len(),
                total == encode_utf8(text@).len(),
                text@.len() <= total,
                no_newline(text@.subrange(j, i as int)),
                lines@.map_values(|l: String| l@) + split_lines(text@.skip(j)) == split_lines(text@),
        {
            proof {
                lemma_offset_step(text@, i as int);
            }
            if c == '\n' {
                let (head, _) = split_at_position(text, byte, Ghost(i as int));
                proof {
                    assert(head@.take(j) =~= text@.take(j));
                }
                let (_, piece) = split_at_position(head, start, Ghost(j));
                let ghost u = text@.skip(j);
                proof {
                    let m = i - j;
                    assert(u.take(m) =~= text@.subrange(j, i as int));
                    assert(u.skip(m + 1) =~= text@.skip(i + 1));
                    lemma_split_at_newline(u, m);
                    assert(piece@ =~= text@.subrange(j, i as int));
                }
                let ghost before = lines@.map_values(|l: String| l@);
                lines.push(piece.to_owned());
                proof {
                    assert(lines@.map_values(|l: String| l@) =~= before.push(piece@));
                    assert(lines@.map_values(|l: String| l@) + split_lines(text@.skip(i + 1))
                        =~= before + split_lines(u));
                    j = i + 1;
                }
                start = byte + 1;
            }
            proof {
                let w = text@.subrange(j, i + 1);
                assert forall|x: int| 0 <= x < w.len() implies #[trigger] w[x] != '\n' by {
                    if x < i - j {
                        assert(w[x] == text@.subrange(j, i as int)[x]);
                    } else {
                        assert(w[x] == text@[i as int]);
                    }
                }
            }
            byte = byte + char_width(c);
            i = i + 1;
        }
        proof {
            assert(text@.take(i as int) =~= text@);
        }
        let (_, piece) = split_at_position(text, start, Ghost(j));
        proof {
            assert(text@.subrange(j, i as int) =~= text@.skip(j));
            lemma_split_no_newline(text@.skip(j));
        }
        let ghost before = lines@.map_values(|l: String| l@);
        lines.push(piece.to_owned());
        proof {
            assert(lines@.map_values(|l: String| l@) =~= before.push(piece@));
            assert(lines@.map_values(|l: String| l@) =~= split_lines(text@));
            lemma_split_nonempty(text@);
        }
        Buffer { lines }
    }

    /// The lines joined with `'\n'`.
    pub fn as_text(&self) -> (r: String)
        ensures
            r@ == join_lines(self@),
    {
        let n = self.lines.len();
        if n == 0 {
            return String::new();
        }
        let mut out = self.lines[0].clone();
        proof {
            assert(self@.take(1) =~= seq![self@[0]]);
            reveal_strlit("\n");
        }
        let mut i: usize = 1;
        while i < n
            invariant
                1 <= i <= n,
                n == self@.len(),
                out@ == join_lines(self@.take(i as int)),
            decreases n - i,
        {
            out.append("\n");
            out.append(self.lines[i].as_str());
            proof {
                reveal_strlit("\n");
                let t = self@.take(i + 1);
                assert(t.drop_last() =~= self@.take(i as int));
                assert(t.last() == self@[i as int]);
                assert(out@ =~= join_lines(t));
            }
            i = i + 1;
        }
        proof {
            assert(self@.take(n as int) =~= self@);
        }
        out
    }

    /// The line at `row`, if there is one.
    pub fn line(&self, row: usize) -> (r: Option<&str>)
        ensures
            row < self@.len() ==> r is Some && r->Some_0@ == self@[row as int],
            row >= self@.len() ==> r is None,
    {
        if row < self.lines.len() {
            Some(self.lines[row].as_str())
        } else {
            None
        }
    }

    /// Number of lines.
    pub fn line_count(&self) -> (r: usize)
        ensures
            r == self@.len(),
    {
        self.lines.len()
    }

    /// Number of characters of the line at `row`; 0 where there is none.
    pub(crate) fn line_len_chars(&self, row: usize) -> (r: usize)
        ensures
            r == (if row < self@.len() { self@[row as int].len() } else { 0 }),
    {
        if row < self.lines.len() {
            char_count(self.lines[row].as_str())
        } else {
            0
        }
    }

    /// The line at `row`, which exists.
    pub(crate) fn line_at(&self, row: usize) -> (r: &str)
        requires
            row < self@.len(),
        ensures
            r@ == self@[row as int],
    {
        self.lines[row].as_str()
    }

    /// Replaces the line at `row` with `s`.
    pub(crate) fn set_line(&mut self, row: usize, s: String)
        requires
            row < old(self)@.len(),
        ensures
            final(self)@ == old(self)@.update(row as int, s@),
    {
        self.lines.set(row, s);
        assert(self@ =~= old(self)@.update(row as int, s@));
    }

    /// Inserts `s` as the line at `row`, moving later lines down by one.
    pub(crate) fn insert_line(&mut self, row: usize, s: String)
        requires
            row <= old(self)@.len(),
        ensures
            final(self)@ == old(self)@.insert(row as int, s@),
    {
        self.lines.insert(row, s);
        assert(self@ =~= old(self)@.insert(row as int, s@));
    }

    /// Removes and returns the line at `row`, moving later lines up by one.
    pub(crate) fn remove_line(&mut self, row: usize) -> (r: String)
        requires
            row < old(self)@.len(),
        ensures
            r@ == old(self)@[row as int],
            final(self)@ == old(self)@.remove(row as int),
    {
        let r = self.lines.remove(row);
        assert(self@ =~= old(self)@.remove(row as int));
        r
    }

    /// Gives an empty document its one empty line.
    pub(crate) fn ensure_nonempty(&mut self)
        ensures
            final(self)@ == (if old(self)@.len() == 0 {
                seq![Seq::<char>::empty()]
            } else {
                old(self)@
            }),
    {
        if self.lines.len() == 0 {
            self.lines.push(String::new());
            assert(self@ =~= seq![Seq::<char>::empty()]);
        }
    }
}

impl Default for Buffer {
    fn default() -> (r: Buffer)
        ensures
            r@ == seq![Seq::<char>::empty()],
    {
        Buffer::new()
    }
}

} // verus!
