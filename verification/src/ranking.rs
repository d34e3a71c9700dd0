//! The mathematical model of ranked fragments.
//!
//! A fragment table is a sequence of rows with pairwise distinct
//! identifiers. Everything the engine does is stated here as a function
//! from one such sequence to the next, together with the decisions the
//! engine takes before it touches the store: which ranks have to make
//! room, where a moved fragment comes to rest, and what an update has to
//! do before it writes.
use vstd::prelude::*;
use crate::models::Bookfragment;

verus! {

/// No two rows carry the same identifier.
pub open spec fn ids_unique(rows: Seq<Bookfragment>) -> bool {
    forall|i: int, j: int| 0 <= i < j < rows.len() ==> rows[i].id != rows[j].id
}

/// No two rows of one book carry the same rank.
pub open spec fn ranks_unique(rows: Seq<Bookfragment>) -> bool {
    forall|i: int, j: int|
        0 <= i < j < rows.len() && rows[i].book == rows[j].book ==> rows[i].rank != rows[j].rank
}

/// Some row carries the identifier `id`.
pub open spec fn contains_id(rows: Seq<Bookfragment>, id: u128) -> bool {
    exists|i: int| 0 <= i < rows.len() && rows[i].id == id
}

/// The index of the row that carries `id`, where there is one.
pub open spec fn position(rows: Seq<Bookfragment>, id: u128) -> int {
    choose|i: int| 0 <= i < rows.len() && rows[i].id == id
}

/// No row belongs to `book`.
pub open spec fn book_empty(rows: Seq<Bookfragment>, book: u128) -> bool {
    forall|i: int| 0 <= i < rows.len() ==> rows[i].book != book
}

/// The rows of `book`, in table order.
pub open spec fn book_rows(rows: Seq<Bookfragment>, book: u128) -> Seq<Bookfragment> {
    rows.filter(|row: Bookfragment| row.book == book)
}

/// `rank` lies in the half-open span that starts at `from` and ends before
/// `to`; without a `to` the span has no upper end.
pub open spec fn in_span(rank: i32, from: i32, to: Option<i32>) -> bool {
    from <= rank && match to {
        Some(end) => rank < end,
        None => true,
    }
}

/// A shift of `book` over the span touches `row`.
pub open spec fn touched(row: Bookfragment, book: u128, from: i32, to: Option<i32>) -> bool {
    row.book == book && in_span(row.rank, from, to)
}

/// `row` with its rank set to `rank` and nothing else changed.
pub open spec fn with_rank(row: Bookfragment, rank: i32) -> Bookfragment {
    Bookfragment { rank, ..row }
}

/// `row` after a shift by `delta`: its rank moves if the shift touches it,
/// and nothing else changes.
pub open spec fn shift_row(
    row: Bookfragment,
    book: u128,
    from: i32,
    to: Option<i32>,
    delta: i32,
) -> Bookfragment {
    if touched(row, book, from, to) {
        with_rank(row, (row.rank + delta) as i32)
    } else {
        row
    }
}

/// The table after a shift by `delta`.
pub open spec fn shift_rows(
    rows: Seq<Bookfragment>,
    book: u128,
    from: i32,
    to: Option<i32>,
    delta: i32,
) -> Seq<Bookfragment> {
    Seq::new(rows.len(), |i: int| shift_row(rows[i], book, from, to, delta))
}

/// Every rank that the shift touches stays a 32-bit rank.
pub open spec fn shift_fits(
    rows: Seq<Bookfragment>,
    book: u128,
    from: i32,
    to: Option<i32>,
    delta: i32,
) -> bool {
    forall|i: int|
        0 <= i < rows.len() && touched(#[trigger] rows[i], book, from, to) ==> i32::MIN
            <= rows[i].rank + delta <= i32::MAX
}

/// The rows that the shift touches, in table order.
pub open spec fn touched_rows(
    rows: Seq<Bookfragment>,
    book: u128,
    from: i32,
    to: Option<i32>,
) -> Seq<Bookfragment> {
    rows.filter(|row: Bookfragment| touched(row, book, from, to))
}

/// `rank` is the rank of some row of `book`, and no row of `book` ranks
/// higher.
pub open spec fn is_last_rank(rows: Seq<Bookfragment>, book: u128, rank: i32) -> bool {
    &&& exists|i: int| 0 <= i < rows.len() && rows[i].book == book && rows[i].rank == rank
    &&& forall|i: int| 0 <= i < rows.len() && rows[i].book == book ==> rows[i].rank <= rank
}

/// The highest rank in `book`, where the book has a row.
pub open spec fn last_rank(rows: Seq<Bookfragment>, book: u128) -> i32 {
    choose|rank: i32| is_last_rank(rows, book, rank)
}

/// Some row of `book` other than the one that carries `except` has the
/// rank `rank`.
pub open spec fn rank_taken(rows: Seq<Bookfragment>, book: u128, rank: i32, except: u128) -> bool {
    exists|i: int|
        0 <= i < rows.len() && rows[i].book == book && rows[i].rank == rank && rows[i].id
            != except
}

/// A ranged rank update: add `delta` to the rank of every row of `book`
/// whose rank is at least `from` and, where `to` is given, below `to`.
#[derive(Debug, Clone, Copy, PartialEq, Eq)]
pub struct Shift {
    pub book: u128,
    pub from: i32,
    pub to: Option<i32>,
    pub delta: i32,
}

/// The shift that a caller asks for who may leave out the amount: a shift
/// without an amount moves the rows one position down.
pub open spec fn requested_shift(book: u128, from: i32, to: Option<i32>, shift: Option<i32>) -> Shift {
    Shift { book, from, to, delta: shift.unwrap_or(1) }
}

/// The shift that vacates `rank` in `book`: every row at or after `rank`
/// moves one position down.
pub open spec fn opening_shift(book: u128, rank: i32) -> Shift {
    Shift { book, from: rank, to: None, delta: 1 }
}

/// Where a fragment that is asked to go to `to` comes to rest in a book
/// whose highest rank is `last`: at `to`, but never beyond `last`.
pub open spec fn clamped(to: i32, last: i32) -> i32 {
    if to > last {
        last
    } else {
        to
    }
}

/// The shift that lets a fragment travel from rank `current` to rank
/// `dest` within `book`. Moving later, the rows after `current` up to and
/// including `dest` close the gap it leaves; moving earlier, the rows from
/// `dest` up to `current` make room. Staying put shifts nothing.
pub open spec fn move_shift(book: u128, current: i32, dest: i32) -> Option<Shift> {
    if current < dest {
        Some(
            Shift {
                book,
                from: (current + 1) as i32,
                to: if dest == i32::MAX {
                    None
                } else {
                    Some((dest + 1) as i32)
                },
                delta: -1i32,
            },
        )
    } else if dest < current {
        Some(Shift { book, from: dest, to: Some(current), delta: 1 })
    } else {
        None
    }
}

/// What an update has to do before it writes the row.
#[derive(Debug, Clone, Copy, PartialEq, Eq, Structural)]
pub enum UpdateStep {
    /// The target rank is free: write the row.
    Write,
    /// The target rank is held by another fragment of the same book: move
    /// the fragment there first, then write the row.
    MoveThenWrite,
    /// The row would change books and land on a rank that is held there:
    /// refuse.
    Refuse,
}

/// The step an update takes, given whether the row stays in its book and
/// whether another fragment of the target book holds the target rank.
pub open spec fn update_step(same_book: bool, taken: bool) -> UpdateStep {
    if !taken {
        UpdateStep::Write
    } else if same_book {
        UpdateStep::MoveThenWrite
    } else {
        UpdateStep::Refuse
    }
}

/// The table accepts `fragment` as a new row: its identifier is free and
/// the ranks that make room for it stay within the 32-bit range.
pub open spec fn create_accepted(rows: Seq<Bookfragment>, fragment: Bookfragment) -> bool {
    !contains_id(rows, fragment.id) && shift_fits(rows, fragment.book, fragment.rank, None, 1)
}

/// The table after `fragment` was created: every row of its book at or
/// after its rank has moved one position down, and the fragment stands at
/// the rank it asked for.
pub open spec fn created(rows: Seq<Bookfragment>, fragment: Bookfragment) -> Seq<Bookfragment> {
    shift_rows(rows, fragment.book, fragment.rank, None, 1).push(fragment)
}

/// The rank at which the fragment `id` comes to rest when it is moved to
/// `to`: `to` itself, or the highest rank of its book where `to` lies
/// beyond it.
pub open spec fn move_target(rows: Seq<Bookfragment>, id: u128, to: i32) -> i32 {
    clamped(to, last_rank(rows, rows[position(rows, id)].book))
}

/// A fragment of `book` that travels from rank `current` to rank `dest`
/// passes `row`: the row belongs to the book and its rank lies after
/// `current` up to and including `dest`, or from `dest` up to `current`.
pub open spec fn passed(row: Bookfragment, book: u128, current: i32, dest: i32) -> bool {
    row.book == book && (current < row.rank <= dest || dest <= row.rank < current)
}

/// A row of the table after a fragment of `book` has travelled from rank
/// `current` to rank `dest`, for every row but the traveller itself: a
/// row that was passed has moved by one to fill the gap, and nothing else
/// has changed.
pub open spec fn passed_row(row: Bookfragment, book: u128, current: i32, dest: i32) -> Bookfragment {
    if !passed(row, book, current, dest) {
        row
    } else if current < dest {
        with_rank(row, (row.rank - 1) as i32)
    } else {
        with_rank(row, (row.rank + 1) as i32)
    }
}

/// The table after the fragment `id` was moved to `to`.
pub open spec fn moved(rows: Seq<Bookfragment>, id: u128, to: i32) -> Seq<Bookfragment> {
    let at = position(rows, id);
    let dest = move_target(rows, id, to);
    Seq::new(
        rows.len(),
        |i: int|
            if i == at {
                with_rank(rows[i], dest)
            } else {
                passed_row(rows[i], rows[at].book, rows[at].rank, dest)
            },
    )
}

/// The number of rows that change rank to let the fragment `id` pass on
/// its way to `to`.
pub open spec fn moved_count(rows: Seq<Bookfragment>, id: u128, to: i32) -> nat {
    let at = position(rows, id);
    let dest = move_target(rows, id, to);
    rows.filter(|row: Bookfragment| passed(row, rows[at].book, rows[at].rank, dest)).len()
}

/// The table accepts `fragment` as the new content of the row that
/// carries its identifier: that row exists, and the fragment either stays
/// in its book or lands on a free rank of its new book.
pub open spec fn update_accepted(rows: Seq<Bookfragment>, fragment: Bookfragment) -> bool {
    &&& contains_id(rows, fragment.id)
    &&& update_step(
        rows[position(rows, fragment.id)].book == fragment.book,
        rank_taken(rows, fragment.book, fragment.rank, fragment.id),
    ) != UpdateStep::Refuse
}

/// The table after `fragment` was written over the row that carries its
/// identifier. Where another fragment of the same book holds the rank it
/// asks for, the fragment is moved there first.
pub open spec fn updated(rows: Seq<Bookfragment>, fragment: Bookfragment) -> Seq<Bookfragment> {
    let at = position(rows, fragment.id);
    let settled = if update_step(
        rows[at].book == fragment.book,
        rank_taken(rows, fragment.book, fragment.rank, fragment.id),
    ) == UpdateStep::MoveThenWrite {
        moved(rows, fragment.id, fragment.rank)
    } else {
        rows
    };
    settled.update(at, fragment)
}

/// The table after the fragment `id` was deleted: its row is gone and
/// every other row is as it was.
pub open spec fn deleted(rows: Seq<Bookfragment>, id: u128) -> Seq<Bookfragment> {
    rows.remove(position(rows, id))
}

/// A book has one last rank at most.
pub proof fn lemma_last_rank_is(rows: Seq<Bookfragment>, book: u128, rank: i32)
    requires
        is_last_rank(rows, book, rank),
    ensures
        last_rank(rows, book) == rank,
{
    let chosen = last_rank(rows, book);
    assert(is_last_rank(rows, book, chosen));
}

/// In a table of distinct identifiers, the row at index `i` is the row
/// that `position` finds for its identifier.
pub proof fn lemma_position_is(rows: Seq<Bookfragment>, i: int)
    requires
        ids_unique(rows),
        0 <= i < rows.len(),
    ensures
        contains_id(rows, rows[i].id),
        position(rows, rows[i].id) == i,
{
    let j = position(rows, rows[i].id);
    assert(0 <= j < rows.len() && rows[j].id == rows[i].id);
}

/// A book that has a row has a last rank.
pub proof fn lemma_last_rank_exists(rows: Seq<Bookfragment>, book: u128)
    requires
        !book_empty(rows, book),
    ensures
        is_last_rank(rows, book, last_rank(rows, book)),
    decreases rows.len(),
{
    let w = choose|i: int| 0 <= i < rows.len() && rows[i].book == book;
    let rest = rows.drop_last();
    let tail = rows.last();
    if book_empty(rest, book) {
        if w < rest.len() {
            assert(rest[w].book != book);
        }
        assert forall|i: int| 0 <= i < rows.len() && rows[i].book == book implies rows[i].rank
            <= tail.rank by {
            if i < rest.len() {
                assert(rest[i].book != book);
            }
        }
        assert(is_last_rank(rows, book, tail.rank));
    } else {
        lemma_last_rank_exists(rest, book);
        let best = last_rank(rest, book);
        let b = choose|i: int| 0 <= i < rest.len() && rest[i].book == book && rest[i].rank == best;
        assert(rows[b].book == book && rows[b].rank == best);
        let top = if tail.book == book && tail.rank > best {
            tail.rank
        } else {
            best
        };
        assert forall|i: int| 0 <= i < rows.len() && rows[i].book == book implies rows[i].rank
            <= top by {
            if i < rest.len() {
                assert(rest[i].book == book);
            }
        }
        assert(rows[rows.len() - 1] == tail);
        assert(is_last_rank(rows, book, top));
    }
}

/// Tells whether `rank` lies in the span from `from` up to, but not
/// including, `to`.
pub fn rank_in_span(rank: i32, from: i32, to: Option<i32>) -> (inside: bool)
    ensures
        inside == in_span(rank, from, to),
{
    from <= rank && match to {
        Some(end) => rank < end,
        None => true,
    }
}

/// The shift that a caller asks for who may leave out the end of the span
/// and the amount: without an end the span runs to the end of the book,
/// and without an amount the rows move one position down.
pub fn shift_of(book: u128, from: i32, to: Option<i32>, shift: Option<i32>) -> (asked: Shift)
    ensures
        asked == requested_shift(book, from, to, shift),
{
    let delta = match shift {
        Some(delta) => delta,
        None => 1,
    };
    Shift { book, from, to, delta }
}

/// The shift that makes room for a new fragment at `rank` of `book`; a
/// book without rows needs none.
pub fn shift_for_new(book: u128, rank: i32, book_has_rows: bool) -> (shift: Option<Shift>)
    ensures
        shift == if book_has_rows {
            Some(opening_shift(book, rank))
        } else {
            None::<Shift>
        },
{
    if book_has_rows {
        Some(Shift { book, from: rank, to: None, delta: 1 })
    } else {
        None
    }
}

/// The rank at which a fragment that is asked to go to `to` comes to
/// rest in a book whose highest rank is `last`.
pub fn clamp_target(to: i32, last: i32) -> (dest: i32)
    ensures
        dest == clamped(to, last),
{
    if to > last {
        last
    } else {
        to
    }
}

/// The shift that lets a fragment of `book` travel from rank `current` to
/// rank `dest`, or nothing where it stays put.
pub fn shift_for_move(book: u128, current: i32, dest: i32) -> (shift: Option<Shift>)
    ensures
        shift == move_shift(book, current, dest),
{
    if current < dest {
        let to = if dest == i32::MAX {
            None
        } else {
            Some(dest + 1)
        };
        Some(Shift { book, from: current + 1, to, delta: -1 })
    } else if dest < current {
        Some(Shift { book, from: dest, to: Some(current), delta: 1 })
    } else {
        None
    }
}

/// The plan of a move: where a fragment of `book` that stands at rank
/// `current` and is asked to go to `to` comes to rest, and the shift that
/// lets it travel there. `last` is the highest rank of the book; a book
/// of which no highest rank is known is taken to end at the fragment.
pub fn plan_move(book: u128, current: i32, to: i32, last: Option<i32>) -> (plan: (
    i32,
    Option<Shift>,
))
    ensures
        plan.0 == clamped(to, last.unwrap_or(current)),
        plan.1 == move_shift(book, current, plan.0),
{
    let end = match last {
        Some(rank) => rank,
        None => current,
    };
    let dest = clamp_target(to, end);
    (dest, shift_for_move(book, current, dest))
}

/// The step an update takes: see [`UpdateStep`].
pub fn step_for_update(same_book: bool, taken: bool) -> (step: UpdateStep)
    ensures
        step == update_step(same_book, taken),
{
    if !taken {
        UpdateStep::Write
    } else if same_book {
        UpdateStep::MoveThenWrite
    } else {
        UpdateStep::Refuse
    }
}

} // verus!
