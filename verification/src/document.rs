//! The ordered collection of rows that represents a file's content,
//! together with its optional source path and a dirty flag.
//!
//! Persisted text and in-memory rows are related by two functions:
//! `to_text_spec` writes every row followed by a line terminator, and
//! `lines_of` splits text on terminators, dropping a final empty
//! segment.  For any document whose rows hold no terminator — an
//! invariant every editing operation preserves — the two compose to
//! the identity, so saving and reopening reproduces the same rows.

use vstd::prelude::*;

use crate::editor::Position;
use crate::row::Row;

verus! {

/// No row contains a line terminator.
pub open spec fn no_newlines(rows: Seq<Seq<char>>) -> bool {
    forall|i: int| 0 <= i < rows.len() ==> !(#[trigger] rows[i]).contains('\n')
}

/// Splits `text` on line terminators, left to right: `acc` holds the
/// finished lines, `cur` the one being read.  A final empty segment is
/// dropped, so text that ends with a terminator yields no extra line.
pub open spec fn lines_from(text: Seq<char>, acc: Seq<Seq<char>>, cur: Seq<char>) -> Seq<
    Seq<char>,
>
    decreases text.len(),
{
    if text.len() == 0 {
        if cur.len() == 0 {
            acc
        } else {
            acc.push(cur)
        }
    } else if text[0] == '\n' {
        lines_from(text.drop_first(), acc.push(cur), Seq::empty())
    } else {
        lines_from(text.drop_first(), acc, cur.push(text[0]))
    }
}

/// The rows a stretch of persisted text denotes.
pub open spec fn lines_of(text: Seq<char>) -> Seq<Seq<char>> {
    lines_from(text, Seq::empty(), Seq::empty())
}

/// The persisted form of a document's rows: every row followed by a
/// line terminator.
pub open spec fn to_text_spec(rows: Seq<Seq<char>>) -> Seq<char>
    decreases rows.len(),
{
    if rows.len() == 0 {
        Seq::empty()
    } else {
        rows[0] + seq!['\n'] + to_text_spec(rows.drop_first())
    }
}

/// Where a character insertion lands: the requested offset, clipped to
/// the row's length.
pub open spec fn clip_at(at: int, len: int) -> int {
    if at > len {
        len
    } else {
        at
    }
}

/// The rows after inserting `c` at column `x` of row `y`: beyond the
/// last row nothing changes; one past the last row appends a fresh row
/// holding `c`; otherwise `c` lands in row `y` at the clipped column.
/// A line terminator inserts a row boundary instead.
pub open spec fn doc_insert_spec(rows: Seq<Seq<char>>, x: int, y: int, c: char) -> Seq<
    Seq<char>,
> {
    if c == '\n' {
        doc_newline_spec(rows, x, y)
    } else if y > rows.len() {
        rows
    } else if y == rows.len() {
        rows.push(seq![c])
    } else {
        rows.update(y, rows[y].insert(clip_at(x, rows[y].len() as int), c))
    }
}

/// The rows after inserting a row boundary at `(x, y)`: row `y` keeps
/// the columns before `x`, a new row directly after it takes the rest;
/// one past the last row appends an empty row instead.
pub open spec fn doc_newline_spec(rows: Seq<Seq<char>>, x: int, y: int) -> Seq<Seq<char>> {
    if y > rows.len() {
        rows
    } else if y == rows.len() {
        rows.push(Seq::empty())
    } else {
        let cut = clip_at(x, rows[y].len() as int);
        rows.update(y, rows[y].subrange(0, cut)).insert(
            y + 1,
            rows[y].subrange(cut, rows[y].len() as int),
        )
    }
}

/// The rows after deleting at `(x, y)`: past the last row nothing
/// changes; at the end of a row that has a successor the successor's
/// characters join onto row `y` and the successor disappears;
/// otherwise the character at column `x` is removed when it exists.
pub open spec fn doc_delete_spec(rows: Seq<Seq<char>>, x: int, y: int) -> Seq<Seq<char>> {
    if y >= rows.len() {
        rows
    } else if x == rows[y].len() && y + 1 < rows.len() {
        rows.update(y, rows[y] + rows[y + 1]).remove(y + 1)
    } else if x < rows[y].len() {
        rows.update(y, rows[y].remove(x))
    } else {
        rows
    }
}

/// Whether an insertion at `(x, y)` changes the rows.
pub open spec fn doc_insert_changes(rows: Seq<Seq<char>>, y: int) -> bool {
    y <= rows.len()
}

/// Whether a deletion at `(x, y)` changes the rows.
pub open spec fn doc_delete_changes(rows: Seq<Seq<char>>, x: int, y: int) -> bool {
    y < rows.len() && (x < rows[y].len() || (x == rows[y].len() && y + 1 < rows.len()))
}

proof fn lemma_push_no_newline(s: Seq<char>, c: char)
    requires
        !s.contains('\n'),
        c != '\n',
    ensures
        !s.push(c).contains('\n'),
{
    if s.push(c).contains('\n') {
        let i = choose|i: int| 0 <= i < s.push(c).len() && s.push(c)[i] == '\n';
        if i < s.len() {
            assert(s[i] == '\n');
        }
    }
}

proof fn lemma_drop_first_no_newline(s: Seq<char>)
    requires
        !s.contains('\n'),
        s.len() > 0,
    ensures
        !s.drop_first().contains('\n'),
{
    if s.drop_first().contains('\n') {
        let i = choose|i: int| 0 <= i < s.drop_first().len() && s.drop_first()[i] == '\n';
        assert(s[i + 1] == '\n');
    }
}

/// Every line produced by splitting is free of line terminators,
/// provided the lines finished so far and the one in progress are.
proof fn lemma_lines_no_newlines(text: Seq<char>, acc: Seq<Seq<char>>, cur: Seq<char>)
    requires
        no_newlines(acc),
        !cur.contains('\n'),
    ensures
        no_newlines(lines_from(text, acc, cur)),
    decreases text.len(),
{
    if text.len() == 0 {
        if cur.len() != 0 {
            assert forall|i: int|
                0 <= i < acc.push(cur).len() implies !(#[trigger] acc.push(cur)[i]).contains(
                '\n',
            ) by {
                if i < acc.len() {
                    assert(acc.push(cur)[i] == acc[i]);
                } else {
                    assert(acc.push(cur)[i] == cur);
                }
            }
        }
    } else if text[0] == '\n' {
        assert forall|i: int|
            0 <= i < acc.push(cur).len() implies !(#[trigger] acc.push(cur)[i]).contains(
            '\n',
        ) by {
            if i < acc.len() {
                assert(acc.push(cur)[i] == acc[i]);
            } else {
                assert(acc.push(cur)[i] == cur);
            }
        }
        lemma_lines_no_newlines(text.drop_first(), acc.push(cur), Seq::empty());
    } else {
        lemma_push_no_newline(cur, text[0]);
        lemma_lines_no_newlines(text.drop_first(), acc, cur.push(text[0]));
    }
}

/// Appending a row to a document appends that row and a terminator to
/// its persisted form.
proof fn lemma_to_text_push(rows: Seq<Seq<char>>, r: Seq<char>)
    ensures
        to_text_spec(rows.push(r)) == to_text_spec(rows) + r + seq!['\n'],
    decreases rows.len(),
{
    if rows.len() == 0 {
        assert(rows.push(r).drop_first() =~= Seq::<Seq<char>>::empty());
        assert(rows.push(r)[0] == r);
        assert(to_text_spec(Seq::<Seq<char>>::empty()) == Seq::<char>::empty());
        assert(to_text_spec(rows.push(r)) =~= to_text_spec(rows) + r + seq!['\n']);
    } else {
        lemma_to_text_push(rows.drop_first(), r);
        assert(rows.push(r).drop_first() =~= rows.drop_first().push(r));
        assert(rows.push(r)[0] == rows[0]);
        assert(to_text_spec(rows.push(r)) =~= to_text_spec(rows) + r + seq!['\n']);
    }
}

/// Reading a terminator-free stretch moves it whole into the line in
/// progress.
proof fn lemma_lines_from_seg(s: Seq<char>, text: Seq<char>, acc: Seq<Seq<char>>, cur: Seq<char>)
    requires
        !s.contains('\n'),
    ensures
        lines_from(s + text, acc, cur) == lines_from(text, acc, cur + s),
    decreases s.len(),
{
    if s.len() == 0 {
        assert(s + text =~= text);
        assert(cur + s =~= cur);
    } else {
        assert((s + text)[0] == s[0]);
        if s[0] == '\n' {
            assert(s.contains('\n'));
        }
        assert((s + text).drop_first() =~= s.drop_first() + text);
        lemma_drop_first_no_newline(s);
        lemma_lines_from_seg(s.drop_first(), text, acc, cur.push(s[0]));
        assert(cur.push(s[0]) + s.drop_first() =~= cur + s);
    }
}

proof fn lemma_lines_round_trip(rows: Seq<Seq<char>>, acc: Seq<Seq<char>>)
    requires
        no_newlines(rows),
    ensures
        lines_from(to_text_spec(rows), acc, Seq::empty()) == acc + rows,
    decreases rows.len(),
{
    if rows.len() == 0 {
        assert(acc + rows =~= acc);
    } else {
        let r0 = rows[0];
        let rest = rows.drop_first();
        let rest_text = to_text_spec(rest);
        assert(to_text_spec(rows) =~= r0 + (seq!['\n'] + rest_text));
        assert(!r0.contains('\n'));
        lemma_lines_from_seg(r0, seq!['\n'] + rest_text, acc, Seq::empty());
        assert(Seq::<char>::empty() + r0 =~= r0);
        assert((seq!['\n'] + rest_text)[0] == '\n');
        assert((seq!['\n'] + rest_text).drop_first() =~= rest_text);
        assert forall|i: int| 0 <= i < rest.len() implies !(#[trigger] rest[i]).contains(
            '\n',
        ) by {
            assert(rest[i] == rows[i + 1]);
        }
        lemma_lines_round_trip(rest, acc.push(r0));
        assert(acc.push(r0) + rest =~= acc + rows);
    }
}

/// Law: saving and reopening round-trips.  For any rows free of line
/// terminators — as every document built by editing operations is —
/// splitting the persisted form reproduces exactly the same rows.
pub proof fn lemma_save_open_round_trip(rows: Seq<Seq<char>>)
    requires
        no_newlines(rows),
    ensures
        lines_of(to_text_spec(rows)) == rows,
{
    lemma_lines_round_trip(rows, Seq::empty());
    assert(Seq::<Seq<char>>::empty() + rows =~= rows);
}

/// A file's content as an ordered sequence of rows, with its optional
/// source path and a flag that records unsaved changes.
pub struct Document {
    rows: Vec<Row>,
    file_name: Option<String>,
    dirty: bool,
}

impl View for Document {
    type V = Seq<Seq<char>>;

    closed spec fn view(&self) -> Seq<Seq<char>> {
        self.rows@.map_values(|r: Row| r@)
    }
}

impl Default for Document {
    /// An empty, clean, unnamed document.
    fn default() -> (d: Document)
        ensures
            d@ == Seq::<Seq<char>>::empty(),
            d.wf(),
            !d.spec_dirty(),
            d.spec_file_name() is None,
    {
        let d = Document { rows: Vec::new(), file_name: None, dirty: false };
        proof {
            assert(d@ =~= Seq::<Seq<char>>::empty());
        }
        d
    }
}

impl Document {
    /// Every row's cache is sound and no row holds a line terminator.
    pub closed spec fn wf(&self) -> bool {
        &&& forall|i: int| 0 <= i < self.rows@.len() ==> (#[trigger] self.rows@[i]).wf()
        &&& no_newlines(self@)
    }

    /// Whether the rows have changed since they were loaded or last
    /// saved.
    pub closed spec fn spec_dirty(&self) -> bool {
        self.dirty
    }

    /// The path the document was loaded from or will be saved to.
    pub closed spec fn spec_file_name(&self) -> Option<String> {
        self.file_name
    }

    /// The path the document was loaded from or will be saved to.
    pub fn file_name(&self) -> (r: &Option<String>)
        ensures
            *r == self.spec_file_name(),
    {
        &self.file_name
    }

    /// Gives the document a path (or takes it away).
    pub fn set_file_name(&mut self, name: Option<String>)
        ensures
            final(self)@ == old(self)@,
            final(self).wf() == old(self).wf(),
            final(self).spec_dirty() == old(self).spec_dirty(),
            final(self).spec_file_name() == name,
    {
        self.file_name = name;
    }

    /// Builds a document from persisted text, split on line
    /// terminators, one row per line.
    pub fn from_text(text: &Vec<char>, file_name: Option<String>) -> (d: Document)
        ensures
            d@ == lines_of(text@),
            d.wf(),
            !d.spec_dirty(),
            d.spec_file_name() == file_name,
    {
        let ghost t = text@;
        let mut rows: Vec<Row> = Vec::new();
        let mut cur: Vec<char> = Vec::new();
        let mut i: usize = 0;
        proof {
            assert(t.skip(0) =~= t);
            assert(rows@.map_values(|r: Row| r@) =~= Seq::<Seq<char>>::empty());
        }
        while i < text.len()
            invariant
                i <= t.len(),
                text@ == t,
                lines_of(t) == lines_from(
                    t.skip(i as int),
                    rows@.map_values(|r: Row| r@),
                    cur@,
                ),
                forall|k: int| 0 <= k < rows@.len() ==> (#[trigger] rows@[k]).wf(),
            decreases t.len() - i,
        {
            let c = text[i];
            proof {
                assert(t.skip(i as int)[0] == t[i as int]);
                assert(t.skip(i as int).drop_first() =~= t.skip(i + 1));
            }
            if c == '\n' {
                let finished = cur;
                cur = Vec::new();
                let row = Row::from_chars(finished);
                let ghost before = rows@.map_values(|r: Row| r@);
                rows.push(row);
                proof {
                    assert(rows@.map_values(|r: Row| r@) =~= before.push(row@));
                }
            } else {
                cur.push(c);
            }
            i = i + 1;
        }
        proof {
            assert(t.skip(t.len() as int) =~= Seq::<char>::empty());
        }
        if cur.len() > 0 {
            let row = Row::from_chars(cur);
            let ghost before = rows@.map_values(|r: Row| r@);
            rows.push(row);
            proof {
                assert(rows@.map_values(|r: Row| r@) =~= before.push(row@));
            }
        }
        let d = Document { rows, file_name, dirty: false };
        proof {
            lemma_lines_no_newlines(t, Seq::empty(), Seq::empty());
        }
        d
    }

    /// The number of rows.
    pub fn len(&self) -> (n: usize)
        ensures
            n == self@.len(),
    {
        self.rows.len()
    }

    /// Whether the document has no rows.
    pub fn is_empty(&self) -> (r: bool)
        ensures
            r == (self@.len() == 0),
    {
        self.rows.is_empty()
    }

    /// Whether the rows have changed since load or last save.
    pub fn is_dirty(&self) -> (r: bool)
        ensures
            r == self.spec_dirty(),
    {
        self.dirty
    }

    /// The row at `index`, when it exists.
    pub fn row(&self, index: usize) -> (r: Option<&Row>)
        ensures
            (r is Some) == (index < self@.len()),
            r matches Some(row) ==> row@ == self@[index as int],
    {
        if index < self.rows.len() {
            Some(&self.rows[index])
        } else {
            None
        }
    }

    /// Inserts `c` at `at`; a line terminator becomes a row boundary.
    /// The dirty flag is raised exactly when the rows change.
    pub fn insert(&mut self, at: &Position, c: char)
        requires
            old(self).wf(),
        ensures
            final(self).wf(),
            final(self)@ == doc_insert_spec(old(self)@, at.x as int, at.y as int, c),
            final(self).spec_dirty() == (old(self).spec_dirty() || doc_insert_changes(
                old(self)@,
                at.y as int,
            )),
            final(self).spec_file_name() == old(self).spec_file_name(),
    {
        if c == '\n' {
            self.insert_newline(at);
            return ;
        }
        if at.y > self.rows.len() {
            return ;
        }
        if at.y == self.rows.len() {
            let mut row = Row::default();
            row.insert(0, c);
            let ghost before = self.rows@.map_values(|r: Row| r@);
            self.rows.push(row);
            self.dirty = true;
            proof {
                assert(self.rows@.map_values(|r: Row| r@) =~= before.push(row@));
                assert(row@ =~= seq![c]);
                lemma_push_no_newline(Seq::empty(), c);
                assert(self@ =~= doc_insert_spec(old(self)@, at.x as int, at.y as int, c));
            }
        } else {
            let ghost before = self.rows@.map_values(|r: Row| r@);
            let row = &mut self.rows[at.y];
            let ghost row0 = *row;
            row.insert(at.x, c);
            self.dirty = true;
            proof {
                let y = at.y as int;
                assert(self.rows@.map_values(|r: Row| r@) =~= before.update(
                    y,
                    self.rows@[y]@,
                ));
                assert(self@ =~= doc_insert_spec(old(self)@, at.x as int, y, c));
                assert forall|i: int| 0 <= i < self@.len() implies !(
                #[trigger] self@[i]).contains('\n') by {
                    if i == y {
                        let inserted = old(self)@[y].insert(
                            clip_at(at.x as int, old(self)@[y].len() as int),
                            c,
                        );
                        if inserted.contains('\n') {
                            let k = choose|k: int|
                                0 <= k < inserted.len() && inserted[k] == '\n';
                            let cut = clip_at(at.x as int, old(self)@[y].len() as int);
                            if k < cut {
                                assert(old(self)@[y][k] == '\n');
                            } else if k > cut {
                                assert(old(self)@[y][k - 1] == '\n');
                            }
                        }
                    } else {
                        assert(self@[i] == old(self)@[i]);
                    }
                }
            }
        }
    }

    /// Splits row `y` at column `x` into two rows; one past the last
    /// row appends an empty row instead.  The dirty flag is raised
    /// exactly when the rows change.
    pub fn insert_newline(&mut self, at: &Position)
        requires
            old(self).wf(),
        ensures
            final(self).wf(),
            final(self)@ == doc_newline_spec(old(self)@, at.x as int, at.y as int),
            final(self).spec_dirty() == (old(self).spec_dirty() || doc_insert_changes(
                old(self)@,
                at.y as int,
            )),
            final(self).spec_file_name() == old(self).spec_file_name(),
    {
        if at.y > self.rows.len() {
            return ;
        }
        self.dirty = true;
        if at.y == self.rows.len() {
            let ghost before = self.rows@.map_values(|r: Row| r@);
            self.rows.push(Row::default());
            proof {
                assert(self.rows@.map_values(|r: Row| r@) =~= before.push(
                    Seq::<char>::empty(),
                ));
                assert(!Seq::<char>::empty().contains('\n'));
            }
            return ;
        }
        let ghost before = self.rows@.map_values(|r: Row| r@);
        let row = &mut self.rows[at.y];
        let new_row = row.split(at.x);
        let ghost mid = self.rows@.map_values(|r: Row| r@);
        self.rows.insert(at.y + 1, new_row);
        proof {
            let y = at.y as int;
            let cut = clip_at(at.x as int, before[y].len() as int);
            assert(mid =~= before.update(y, before[y].subrange(0, cut)));
            assert(self.rows@.map_values(|r: Row| r@) =~= mid.insert(
                y + 1,
                before[y].subrange(cut, before[y].len() as int),
            ));
            assert(self@ =~= doc_newline_spec(old(self)@, at.x as int, y));
            assert forall|i: int| 0 <= i < self@.len() implies !(#[trigger] self@[i]).contains(
            '\n') by {
                if i == y || i == y + 1 {
                    let part = self@[i];
                    if part.contains('\n') {
                        let k = choose|k: int| 0 <= k < part.len() && part[k] == '\n';
                        if i == y {
                            assert(before[y][k] == '\n');
                        } else {
                            assert(before[y][cut + k] == '\n');
                        }
                    }
                } else if i < y {
                    assert(self@[i] == old(self)@[i]);
                } else {
                    assert(self@[i] == old(self)@[i - 1]);
                }
            }
        }
    }

    /// Deletes at `at`: at the end of a row with a successor, the
    /// successor joins onto the row; otherwise the character at the
    /// position disappears, when it exists.  The dirty flag is raised
    /// exactly when the rows change.
    pub fn delete(&mut self, at: &Position)
        requires
            old(self).wf(),
        ensures
            final(self).wf(),
            final(self)@ == doc_delete_spec(old(self)@, at.x as int, at.y as int),
            final(self).spec_dirty() == (old(self).spec_dirty() || doc_delete_changes(
                old(self)@,
                at.x as int,
                at.y as int,
            )),
            final(self).spec_file_name() == old(self).spec_file_name(),
    {
        if at.y >= self.rows.len() {
            return ;
        }
        let row_len = self.rows[at.y].len();
        if at.x == row_len && at.y + 1 < self.rows.len() {
            let ghost before = self.rows@.map_values(|r: Row| r@);
            let next = self.rows.remove(at.y + 1);
            let ghost mid = self.rows@.map_values(|r: Row| r@);
            let row = &mut self.rows[at.y];
            row.append(&next);
            self.dirty = true;
            proof {
                let y = at.y as int;
                assert(mid =~= before.remove(y + 1));
                assert(self.rows@.map_values(|r: Row| r@) =~= mid.update(
                    y,
                    before[y] + before[y + 1],
                ));
                assert(self@ =~= doc_delete_spec(old(self)@, at.x as int, y));
                assert forall|i: int|
                    0 <= i < self@.len() implies !(#[trigger] self@[i]).contains('\n') by {
                    if i == y {
                        let joined = before[y] + before[y + 1];
                        if joined.contains('\n') {
                            let k = choose|k: int|
                                0 <= k < joined.len() && joined[k] == '\n';
                            if k < before[y].len() {
                                assert(before[y][k] == '\n');
                            } else {
                                assert(before[y + 1][k - before[y].len()] == '\n');
                            }
                        }
                    } else if i < y {
                        assert(self@[i] == old(self)@[i]);
                    } else {
                        assert(self@[i] == old(self)@[i + 1]);
                    }
                }
            }
        } else if at.x < row_len {
            let ghost before = self.rows@.map_values(|r: Row| r@);
            let row = &mut self.rows[at.y];
            row.delete(at.x);
            self.dirty = true;
            proof {
                let y = at.y as int;
                assert(self.rows@.map_values(|r: Row| r@) =~= before.update(
                    y,
                    before[y].remove(at.x as int),
                ));
                assert(self@ =~= doc_delete_spec(old(self)@, at.x as int, y));
                assert forall|i: int|
                    0 <= i < self@.len() implies !(#[trigger] self@[i]).contains('\n') by {
                    if i == y {
                        let shrunk = before[y].remove(at.x as int);
                        if shrunk.contains('\n') {
                            let k = choose|k: int|
                                0 <= k < shrunk.len() && shrunk[k] == '\n';
                            if k < at.x as int {
                                assert(before[y][k] == '\n');
                            } else {
                                assert(before[y][k + 1] == '\n');
                            }
                        }
                    } else {
                        assert(self@[i] == old(self)@[i]);
                    }
                }
            }
        }
    }

    /// The text to persist: every row followed by a line terminator.
    pub fn to_text(&self) -> (text: Vec<char>)
        ensures
            text@ == to_text_spec(self@),
    {
        let mut out: Vec<char> = Vec::new();
        let mut i: usize = 0;
        while i < self.rows.len()
            invariant
                i <= self.rows@.len(),
                out@ == to_text_spec(self@.take(i as int)),
            decreases self.rows@.len() - i,
        {
            let row = &self.rows[i];
            let chars = row.chars();
            let mut j: usize = 0;
            while j < chars.len()
                invariant
                    j <= chars@.len(),
                    i < self.rows@.len(),
                    chars@ == self@[i as int],
                    out@ == to_text_spec(self@.take(i as int)) + self@[i as int].subrange(
                        0,
                        j as int,
                    ),
                decreases chars@.len() - j,
            {
                out.push(chars[j]);
                proof {
                    assert(out@ =~= to_text_spec(self@.take(i as int)) + self@[
                        i as int
                    ].subrange(0, j + 1));
                }
                j = j + 1;
            }
            out.push('\n');
            proof {
                assert(self@[i as int].subrange(0, self@[i as int].len() as int) =~= self@[
                    i as int
                ]);
                lemma_to_text_push(self@.take(i as int), self@[i as int]);
                assert(self@.take(i as int).push(self@[i as int]) =~= self@.take(i + 1));
                assert(out@ =~= to_text_spec(self@.take(i + 1)));
            }
            i = i + 1;
        }
        proof {
            assert(self@.take(self@.len() as int) =~= self@);
        }
        out
    }

    /// Records that the rows were just persisted: clears the dirty
    /// flag and changes nothing else.
    pub fn mark_saved(&mut self)
        ensures
            final(self)@ == old(self)@,
            final(self).wf() == old(self).wf(),
            !final(self).spec_dirty(),
            final(self).spec_file_name() == old(self).spec_file_name(),
    {
        self.dirty = false;
    }

    /// Renders the display slice `[start, end)` of the row at `index`,
    /// or nothing when that row does not exist.  Only the row's render
    /// cache may change.
    pub fn render_row(&mut self, index: usize, start: usize, end: usize) -> (r: Option<String>)
        requires
            old(self).wf(),
        ensures
            final(self).wf(),
            final(self)@ == old(self)@,
            final(self).spec_dirty() == old(self).spec_dirty(),
            final(self).spec_file_name() == old(self).spec_file_name(),
            (r is Some) == (index < old(self)@.len()),
            r matches Some(text) ==> text@ == crate::row::render_spec(
                old(self)@[index as int],
                start as int,
                end as int,
            ),
    {
        if index >= self.rows.len() {
            return None;
        }
        let ghost before = self.rows@.map_values(|r: Row| r@);
        let row = &mut self.rows[index];
        let text = row.render(start, end);
        proof {
            assert(self.rows@.map_values(|r: Row| r@) =~= before);
        }
        Some(text)
    }
}

} // verus!
