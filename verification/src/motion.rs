//! Cursor movement over a document.
//!
//! A cursor position is a column within a row; one past the last row
//! is a valid position meaning "after the last line".  Horizontal
//! movement wraps at row boundaries, so left and right steps walk the
//! document's positions in a single line: each position has a rank —
//! how many right steps reach it from the origin — and a right step
//! raises the rank by exactly one while a left step lowers it by one.
//! Hence every column of every row is visited exactly once per
//! direction, and `n` left steps are undone by `n` right steps.

use vstd::prelude::*;

use crate::editor::Command;

verus! {

/// The length of row `y`, or zero when that row does not exist.
pub open spec fn row_len(rows: Seq<Seq<char>>, y: int) -> int {
    if 0 <= y < rows.len() {
        rows[y].len() as int
    } else {
        0
    }
}

/// A cursor position the editor may hold: a row index up to one past
/// the last row, and a column up to that row's length.
pub open spec fn valid_pos(rows: Seq<Seq<char>>, x: int, y: int) -> bool {
    0 <= y <= rows.len() && 0 <= x <= row_len(rows, y)
}

/// Where a movement command sends the cursor, before the final clamp.
/// Vertical moves keep the column; left and right wrap at row
/// boundaries; page moves jump by the viewport height `term_h`;
/// non-movement commands leave the cursor in place.
pub open spec fn moved_spec(
    rows: Seq<Seq<char>>,
    term_h: int,
    x: int,
    y: int,
    key: Command,
) -> (int, int) {
    match key {
        Command::MoveUp => (x, if y > 0 {
            y - 1
        } else {
            0
        }),
        Command::MoveDown => (x, if y < rows.len() {
            y + 1
        } else {
            y
        }),
        Command::MoveLeft => if x > 0 {
            (x - 1, y)
        } else if y > 0 {
            (row_len(rows, y - 1), y - 1)
        } else {
            (x, y)
        },
        Command::MoveRight => if x < row_len(rows, y) {
            (x + 1, y)
        } else if y < rows.len() {
            (0, y + 1)
        } else {
            (x, y)
        },
        Command::PageUp => (x, if y > term_h {
            y - term_h
        } else {
            0
        }),
        Command::PageDown => (x, if y + term_h < rows.len() {
            y + term_h
        } else {
            rows.len() as int
        }),
        Command::Home => (0, y),
        Command::End => (row_len(rows, y), y),
        _ => (x, y),
    }
}

/// The cursor after a movement command: the moved position, with the
/// column clamped to the length of the row it landed on.
pub open spec fn move_cursor_spec(
    rows: Seq<Seq<char>>,
    term_h: int,
    x: int,
    y: int,
    key: Command,
) -> (int, int) {
    let p = moved_spec(rows, term_h, x, y, key);
    let w = row_len(rows, p.1);
    (
        if p.0 > w {
            w
        } else {
            p.0
        },
        p.1,
    )
}

/// How many positions precede row `y`: each earlier row contributes
/// its columns and one boundary position at its end.
pub open spec fn prefix_units(rows: Seq<Seq<char>>, y: int) -> int
    decreases y,
{
    if y <= 0 {
        0
    } else {
        prefix_units(rows, y - 1) + row_len(rows, y - 1) + 1
    }
}

/// The rank of a position in the left-to-right, top-to-bottom walk of
/// the document: the number of right steps that reach it from the
/// origin.
pub open spec fn rank(rows: Seq<Seq<char>>, x: int, y: int) -> int {
    prefix_units(rows, y) + x
}

proof fn lemma_prefix_units_nonneg(rows: Seq<Seq<char>>, y: int)
    ensures
        prefix_units(rows, y) >= 0,
    decreases y,
{
    if y > 0 {
        lemma_prefix_units_nonneg(rows, y - 1);
    }
}

proof fn lemma_prefix_units_mono(rows: Seq<Seq<char>>, a: int, b: int)
    requires
        0 <= a <= b,
    ensures
        prefix_units(rows, a) <= prefix_units(rows, b),
    decreases b - a,
{
    if a < b {
        lemma_prefix_units_mono(rows, a, b - 1);
    }
}

/// Law: the rank of every valid position lies between zero and the
/// rank of the document's end — the left-to-right walk enumerates
/// exactly the document's positions, nothing outside them.
pub proof fn lemma_rank_bounds(rows: Seq<Seq<char>>, x: int, y: int)
    requires
        valid_pos(rows, x, y),
    ensures
        0 <= rank(rows, x, y) <= rank(rows, 0, rows.len() as int),
{
    lemma_prefix_units_nonneg(rows, y);
    if y < rows.len() {
        assert(prefix_units(rows, y + 1) == prefix_units(rows, y) + row_len(rows, y) + 1);
        lemma_prefix_units_mono(rows, y + 1, rows.len() as int);
    }
}

/// Law: a movement command never leaves the set of valid cursor
/// positions.
pub proof fn lemma_move_valid(rows: Seq<Seq<char>>, term_h: int, x: int, y: int, key: Command)
    requires
        valid_pos(rows, x, y),
        term_h >= 0,
    ensures
        ({
            let p = move_cursor_spec(rows, term_h, x, y, key);
            valid_pos(rows, p.0, p.1)
        }),
{
}

/// Law: from any valid position short of the document's end, a right
/// step lands on a valid position and raises the rank by exactly one —
/// the walk visits each position exactly once.
pub proof fn lemma_move_right_rank(rows: Seq<Seq<char>>, term_h: int, x: int, y: int)
    requires
        valid_pos(rows, x, y),
        y < rows.len() || x < row_len(rows, y),
    ensures
        ({
            let p = move_cursor_spec(rows, term_h, x, y, Command::MoveRight);
            &&& valid_pos(rows, p.0, p.1)
            &&& rank(rows, p.0, p.1) == rank(rows, x, y) + 1
        }),
{
    if x >= row_len(rows, y) {
        assert(prefix_units(rows, y + 1) == prefix_units(rows, y) + row_len(rows, y) + 1);
    }
}

/// Law: from any valid position but the origin, a left step lands on a
/// valid position and lowers the rank by exactly one.
pub proof fn lemma_move_left_rank(rows: Seq<Seq<char>>, term_h: int, x: int, y: int)
    requires
        valid_pos(rows, x, y),
        x > 0 || y > 0,
    ensures
        ({
            let p = move_cursor_spec(rows, term_h, x, y, Command::MoveLeft);
            &&& valid_pos(rows, p.0, p.1)
            &&& rank(rows, p.0, p.1) == rank(rows, x, y) - 1
        }),
{
    if x == 0 {
        assert(prefix_units(rows, y) == prefix_units(rows, y - 1) + row_len(rows, y - 1) + 1);
    }
}

/// Law: a right step undoes a left step — from any valid position but
/// the origin, moving left and then right returns to it.
pub proof fn lemma_right_undoes_left(rows: Seq<Seq<char>>, term_h: int, x: int, y: int)
    requires
        valid_pos(rows, x, y),
        x > 0 || y > 0,
    ensures
        ({
            let p = move_cursor_spec(rows, term_h, x, y, Command::MoveLeft);
            move_cursor_spec(rows, term_h, p.0, p.1, Command::MoveRight) == (x, y)
        }),
{
}

/// Law: a left step undoes a right step — from any valid position
/// short of the document's end, moving right and then left returns to
/// it.
pub proof fn lemma_left_undoes_right(rows: Seq<Seq<char>>, term_h: int, x: int, y: int)
    requires
        valid_pos(rows, x, y),
        y < rows.len() || x < row_len(rows, y),
    ensures
        ({
            let p = move_cursor_spec(rows, term_h, x, y, Command::MoveRight);
            move_cursor_spec(rows, term_h, p.0, p.1, Command::MoveLeft) == (x, y)
        }),
{
}

/// The position after `n` left steps.
pub open spec fn lefts(rows: Seq<Seq<char>>, term_h: int, x: int, y: int, n: nat) -> (int, int)
    decreases n,
{
    if n == 0 {
        (x, y)
    } else {
        let p = move_cursor_spec(rows, term_h, x, y, Command::MoveLeft);
        lefts(rows, term_h, p.0, p.1, (n - 1) as nat)
    }
}

/// The position after `n` right steps.
pub open spec fn rights(rows: Seq<Seq<char>>, term_h: int, x: int, y: int, n: nat) -> (int, int)
    decreases n,
{
    if n == 0 {
        (x, y)
    } else {
        let p = move_cursor_spec(rows, term_h, x, y, Command::MoveRight);
        rights(rows, term_h, p.0, p.1, (n - 1) as nat)
    }
}

proof fn lemma_rights_snoc(rows: Seq<Seq<char>>, term_h: int, x: int, y: int, n: nat)
    ensures
        ({
            let q = rights(rows, term_h, x, y, n);
            rights(rows, term_h, x, y, n + 1) == move_cursor_spec(
                rows,
                term_h,
                q.0,
                q.1,
                Command::MoveRight,
            )
        }),
    decreases n,
{
    let p = move_cursor_spec(rows, term_h, x, y, Command::MoveRight);
    if n > 0 {
        lemma_rights_snoc(rows, term_h, p.0, p.1, (n - 1) as nat);
        assert(rights(rows, term_h, x, y, n + 1) == rights(rows, term_h, p.0, p.1, n));
        assert(rights(rows, term_h, x, y, n) == rights(rows, term_h, p.0, p.1, (n - 1) as nat));
    } else {
        assert(rights(rows, term_h, x, y, 0) == (x, y));
        assert(rights(rows, term_h, p.0, p.1, 0) == (p.0, p.1));
        assert(rights(rows, term_h, x, y, 1) == rights(rows, term_h, p.0, p.1, 0));
    }
}

/// After `n` left steps from a position of rank at least `n`, the
/// cursor sits on a valid position whose rank is lower by exactly `n`.
pub proof fn lemma_lefts_rank(rows: Seq<Seq<char>>, term_h: int, x: int, y: int, n: nat)
    requires
        valid_pos(rows, x, y),
        rank(rows, x, y) >= n,
    ensures
        ({
            let q = lefts(rows, term_h, x, y, n);
            &&& valid_pos(rows, q.0, q.1)
            &&& rank(rows, q.0, q.1) == rank(rows, x, y) - n
        }),
    decreases n,
{
    if n > 0 {
        assert(rank(rows, 0, 0) == 0);
        lemma_move_left_rank(rows, term_h, x, y);
        let p = move_cursor_spec(rows, term_h, x, y, Command::MoveLeft);
        lemma_lefts_rank(rows, term_h, p.0, p.1, (n - 1) as nat);
    }
}

/// Law: movement is reversible — from any valid position whose rank
/// allows it, `n` left steps followed by `n` right steps return the
/// cursor exactly to where it started.
pub proof fn lemma_lefts_then_rights(rows: Seq<Seq<char>>, term_h: int, x: int, y: int, n: nat)
    requires
        valid_pos(rows, x, y),
        rank(rows, x, y) >= n,
    ensures
        ({
            let q = lefts(rows, term_h, x, y, n);
            rights(rows, term_h, q.0, q.1, n) == (x, y)
        }),
    decreases n,
{
    if n > 0 {
        assert(rank(rows, 0, 0) == 0);
        lemma_move_left_rank(rows, term_h, x, y);
        let p = move_cursor_spec(rows, term_h, x, y, Command::MoveLeft);
        lemma_lefts_then_rights(rows, term_h, p.0, p.1, (n - 1) as nat);
        let q = lefts(rows, term_h, p.0, p.1, (n - 1) as nat);
        assert(lefts(rows, term_h, x, y, n) == q);
        lemma_rights_snoc(rows, term_h, q.0, q.1, (n - 1) as nat);
        lemma_right_undoes_left(rows, term_h, x, y);
    }
}

} // verus!
