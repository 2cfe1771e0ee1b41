//! One editable line of text.
//!
//! A `Row` stores its characters and, lazily, a cached display form in
//! which each tab expands to a fixed number of spaces.  Every mutation
//! invalidates the cache; rendering rebuilds it on demand and slices it
//! between clipped offsets, so a rendered slice can never reach outside
//! the row's own bounds.

use vstd::prelude::*;

use crate::text::{push_char, string_of, string_of_range};

verus! {

/// The display form of one character: a tab becomes four spaces, any
/// other character stands for itself.
pub open spec fn expand_char(c: char) -> Seq<char> {
    if c == '\t' {
        seq![' ', ' ', ' ', ' ']
    } else {
        seq![c]
    }
}

/// The display form of a row's content: each character replaced by its
/// expansion, in order.
pub open spec fn display_of(s: Seq<char>) -> Seq<char>
    decreases s.len(),
{
    if s.len() == 0 {
        Seq::empty()
    } else {
        display_of(s.drop_last()) + expand_char(s.last())
    }
}

/// What rendering a row between offsets `start` and `end` yields: the
/// slice of the display form after both offsets are clipped to its
/// bounds, empty whenever the clipped range is empty or inverted.
pub open spec fn render_spec(content: Seq<char>, start: int, end: int) -> Seq<char> {
    let d = display_of(content);
    let e = if end > d.len() { d.len() as int } else { end };
    let s = if start > e { e } else { start };
    d.subrange(s, e)
}

/// Law: a rendered slice never holds content from outside the row's
/// display form.  The clipped offsets stay within the form's bounds,
/// every returned character comes from the form at its clipped place,
/// and an inverted or out-of-range request yields an empty result.
pub proof fn lemma_render_within_bounds(content: Seq<char>, start: int, end: int)
    requires
        0 <= start,
        0 <= end,
    ensures
        ({
            let d = display_of(content);
            let e = if end > d.len() { d.len() as int } else { end };
            let s = if start > e { e } else { start };
            &&& 0 <= s <= e <= d.len()
            &&& render_spec(content, start, end).len() == e - s
            &&& forall|i: int|
                0 <= i < render_spec(content, start, end).len() ==> render_spec(
                    content,
                    start,
                    end,
                )[i] == d[s + i]
            &&& start >= end ==> render_spec(content, start, end).len() == 0
            &&& start >= d.len() ==> render_spec(content, start, end).len() == 0
        }),
{
}

/// One line of document text, with a lazily cached display form.
pub struct Row {
    content: Vec<char>,
    cache: Option<Vec<char>>,
}

impl View for Row {
    type V = Seq<char>;

    closed spec fn view(&self) -> Seq<char> {
        self.content@
    }
}

impl Default for Row {
    /// An empty row.
    fn default() -> (r: Row)
        ensures
            r@ == Seq::<char>::empty(),
            r.wf(),
    {
        Row { content: Vec::new(), cache: None }
    }
}

impl Row {
    /// The cache, when present, holds exactly the display form of the
    /// current content.
    pub closed spec fn wf(&self) -> bool {
        match self.cache {
            Some(d) => d@ == display_of(self.content@),
            None => true,
        }
    }

    /// A row holding the given characters.
    pub fn from_chars(content: Vec<char>) -> (r: Row)
        ensures
            r@ == content@,
            r.wf(),
    {
        Row { content, cache: None }
    }

    /// The number of characters currently stored.
    pub fn len(&self) -> (n: usize)
        ensures
            n == self@.len(),
    {
        self.content.len()
    }

    /// The row's characters.
    pub fn chars(&self) -> (r: &Vec<char>)
        ensures
            r@ == self@,
    {
        &self.content
    }

    /// The row's characters as a `String`.
    pub fn string(&self) -> (s: String)
        ensures
            s@ == self@,
    {
        string_of(&self.content)
    }

    /// Inserts `c` before position `at`; `at` is clipped to the row's
    /// length, so an out-of-range index appends.  Invalidates the
    /// render cache.
    pub fn insert(&mut self, at: usize, c: char)
        ensures
            final(self).wf(),
            final(self)@ == old(self)@.insert(
                if at > old(self)@.len() {
                    old(self)@.len() as int
                } else {
                    at as int
                },
                c,
            ),
    {
        let pos = if at > self.content.len() {
            self.content.len()
        } else {
            at
        };
        self.content.insert(pos, c);
        self.cache = None;
    }

    /// Removes the character at position `at` when `at` is in range;
    /// does nothing otherwise.  Invalidates the render cache on change.
    pub fn delete(&mut self, at: usize)
        requires
            old(self).wf(),
        ensures
            final(self).wf(),
            at < old(self)@.len() ==> final(self)@ == old(self)@.remove(at as int),
            at >= old(self)@.len() ==> final(self)@ == old(self)@,
    {
        if at < self.content.len() {
            self.content.remove(at);
            self.cache = None;
        }
    }

    /// Splits the row at character offset `at` (clipped to the row's
    /// length): this row keeps the characters before the offset, the
    /// returned row takes the rest.
    pub fn split(&mut self, at: usize) -> (rest: Row)
        ensures
            final(self).wf(),
            rest.wf(),
            ({
                let cut = if at > old(self)@.len() {
                    old(self)@.len() as int
                } else {
                    at as int
                };
                &&& final(self)@ == old(self)@.subrange(0, cut)
                &&& rest@ == old(self)@.subrange(cut, old(self)@.len() as int)
            }),
    {
        let cut = if at > self.content.len() {
            self.content.len()
        } else {
            at
        };
        let tail = self.content.split_off(cut);
        self.cache = None;
        Row { content: tail, cache: None }
    }

    /// Concatenates another row's characters onto this row's end.
    pub fn append(&mut self, other: &Row)
        ensures
            final(self).wf(),
            final(self)@ == old(self)@ + other@,
    {
        let mut i: usize = 0;
        while i < other.content.len()
            invariant
                i <= other.content@.len(),
                self.content@ == old(self).content@ + other.content@.subrange(0, i as int),
            decreases other.content@.len() - i,
        {
            self.content.push(other.content[i]);
            proof {
                assert(old(self).content@ + other.content@.subrange(0, i as int).push(
                    other.content@[i as int],
                ) =~= old(self).content@ + other.content@.subrange(0, i + 1));
            }
            i = i + 1;
        }
        self.cache = None;
        proof {
            assert(other.content@.subrange(0, other.content@.len() as int) =~= other.content@);
        }
    }

    /// Produces the slice of the row's display form between `start`
    /// and `end`, both clipped to the form's bounds.  Builds the
    /// display cache when it is absent; the content is unchanged.
    pub fn render(&mut self, start: usize, end: usize) -> (text: String)
        requires
            old(self).wf(),
        ensures
            final(self).wf(),
            final(self)@ == old(self)@,
            text@ == render_spec(old(self)@, start as int, end as int),
    {
        if self.cache.is_none() {
            let d = build_display(&self.content);
            self.cache = Some(d);
        }
        match &self.cache {
            Some(d) => {
                let dlen = d.len();
                let e = if end > dlen {
                    dlen
                } else {
                    end
                };
                let s = if start > e {
                    e
                } else {
                    start
                };
                string_of_range(d, s, e)
            },
            None => {
                proof {
                    assert(false);
                }
                String::new()
            },
        }
    }
}

/// Builds the display form of `content`.
fn build_display(content: &Vec<char>) -> (d: Vec<char>)
    ensures
        d@ == display_of(content@),
{
    let mut d: Vec<char> = Vec::new();
    let mut i: usize = 0;
    while i < content.len()
        invariant
            i <= content@.len(),
            d@ == display_of(content@.subrange(0, i as int)),
        decreases content@.len() - i,
    {
        let c = content[i];
        if c == '\t' {
            d.push(' ');
            d.push(' ');
            d.push(' ');
            d.push(' ');
        } else {
            d.push(c);
        }
        proof {
            let pre = content@.subrange(0, i as int);
            let post = content@.subrange(0, i + 1);
            assert(post.drop_last() =~= pre);
            assert(post.last() == content@[i as int]);
            assert(d@ =~= display_of(pre) + expand_char(content@[i as int]));
        }
        i = i + 1;
    }
    proof {
        assert(content@.subrange(0, content@.len() as int) =~= content@);
    }
    d
}

} // verus!
