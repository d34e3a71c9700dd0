//! The fragment ranking engine.
//!
//! Every book owns a set of fragments ordered by an integer rank. The
//! engine creates, moves, updates and deletes fragments and lists a book
//! in rank order. Each operation either takes effect as a whole or leaves
//! the table as it was, and each keeps the ranks within a book free of
//! duplicates.
use std::cmp::Ordering;
use rayon::iter::{IntoParallelRefIterator, ParallelIterator};
use vstd::prelude::*;
use crate::laws::{
    lemma_created_keeps_unique, lemma_deleted_keeps_unique, lemma_listing_of_empty_book,
    lemma_listing_strictly_ascending, lemma_move_by_shift, lemma_moved_keeps_unique,
    lemma_moved_keeps_unique_ids, lemma_shift_keeps_ids, lemma_updated_keeps_unique,
};
use crate::models::Bookfragment;
use crate::ranking::{
    book_empty, book_rows, contains_id, create_accepted, created, deleted,
    move_target, moved, moved_count, plan_move, position, ranks_unique, shift_fits,
    shift_for_new, shift_of, shift_rows, step_for_update, touched_rows, update_accepted, updated,
    UpdateStep,
};
use crate::table::FragmentTable;
use crate::utils::{ApiResult, StoreError};

verus! {

/// The identifier and the rank of a fragment: all that a client needs to
/// put the fragments of a book in order.
///
/// Two values compare by rank alone.
#[derive(Debug, Clone, Copy)]
pub struct Simple {
    pub uuid: u128,
    pub rank: i32,
}

impl PartialEq for Simple {
    fn eq(&self, other: &Self) -> (same: bool) {
        self.rank == other.rank
    }
}

impl vstd::std_specs::cmp::PartialEqSpecImpl for Simple {
    open spec fn obeys_eq_spec() -> bool {
        true
    }

    open spec fn eq_spec(&self, other: &Self) -> bool {
        self.rank == other.rank
    }
}

impl Eq for Simple {

}

impl PartialOrd for Simple {
    fn partial_cmp(&self, other: &Self) -> (order: Option<Ordering>) {
        if self.rank < other.rank {
            Some(Ordering::Less)
        } else if self.rank == other.rank {
            Some(Ordering::Equal)
        } else {
            Some(Ordering::Greater)
        }
    }
}

impl vstd::std_specs::cmp::PartialOrdSpecImpl for Simple {
    open spec fn obeys_partial_cmp_spec() -> bool {
        true
    }

    open spec fn partial_cmp_spec(&self, other: &Self) -> Option<Ordering> {
        if self.rank < other.rank {
            Some(Ordering::Less)
        } else if self.rank == other.rank {
            Some(Ordering::Equal)
        } else {
            Some(Ordering::Greater)
        }
    }
}

/// The summary of `row`.
pub open spec fn summary(row: Bookfragment) -> Simple {
    Simple { uuid: row.id, rank: row.rank }
}

/// The summaries of `rows`, in the order of the rows.
pub open spec fn summaries(rows: Seq<Bookfragment>) -> Seq<Simple> {
    Seq::new(rows.len(), |i: int| summary(rows[i]))
}

/// Ranks never fall from one entry to the next.
pub open spec fn ascending(list: Seq<Simple>) -> bool {
    forall|i: int, j: int| 0 <= i < j < list.len() ==> list[i].rank <= list[j].rank
}

/// Ranks rise from each entry to the next.
pub open spec fn strictly_ascending(list: Seq<Simple>) -> bool {
    forall|i: int, j: int| 0 <= i < j < list.len() ==> list[i].rank < list[j].rank
}

/// `listing` holds the entries of `entries` in the order `order`: its
/// entry `k` is entry `order[k]` of `entries`, no entry of `entries` is
/// taken twice, and entries of equal rank come in the order in which
/// `entries` has them.
pub open spec fn keeps_order(entries: Seq<Simple>, listing: Seq<Simple>, order: Seq<int>) -> bool {
    &&& order.len() == listing.len()
    &&& listing.len() == entries.len()
    &&& forall|k: int|
        0 <= k < listing.len() ==> 0 <= #[trigger] order[k] < entries.len() && listing[k]
            == entries[order[k]]
    &&& forall|k: int, l: int|
        0 <= k < l < listing.len() ==> order[k] != order[l] && (listing[k].rank
            == listing[l].rank ==> order[k] < order[l])
}

/// `listing` is `entries` in rank order: it holds the same entries, ranks
/// never fall from one entry to the next, and entries of equal rank come
/// in the order in which `entries` has them.
pub open spec fn ranked(entries: Seq<Simple>, listing: Seq<Simple>) -> bool {
    &&& ascending(listing)
    &&& listing.to_multiset() == entries.to_multiset()
    &&& exists|order: Seq<int>| keeps_order(entries, listing, order)
}

impl Simple {
    /// The summary of `row`.
    pub fn of(row: &Bookfragment) -> (simple: Simple)
        ensures
            simple == summary(*row),
    {
        Simple { uuid: row.id, rank: row.rank }
    }
}

/// Summarises every row, spreading the work over rayon's thread pool.
///
/// Not proved: rayon's `par_iter`, `map` and `collect` into a `Vec` are
/// taken at their word that the result holds the image of each element,
/// in the order of the elements.
#[verifier::external_body]
fn summarise(rows: &Vec<Bookfragment>) -> (list: Vec<Simple>)
    ensures
        list@ == summaries(rows@),
{
    rows.par_iter().map(|row| Simple::of(row)).collect()
}

/// The entries of `list` in ascending order of rank; entries of equal
/// rank keep the order they had.
fn sort_by_rank(list: &Vec<Simple>) -> (sorted: Vec<Simple>)
    ensures
        ranked(list@, sorted@),
{
    let mut sorted: Vec<Simple> = Vec::new();
    let ghost mut order: Seq<int> = Seq::empty();
    let mut i: usize = 0;
    assert(list@.take(0) =~= Seq::<Simple>::empty());
    while i < list.len()
        invariant
            i <= list.len(),
            ascending(sorted@),
            sorted@.to_multiset() == list@.take(i as int).to_multiset(),
            keeps_order(list@.take(i as int), sorted@, order),
        decreases list.len() - i,
    {
        let entry = list[i];
        let mut at: usize = sorted.len();
        while at > 0 && sorted[at - 1].rank > entry.rank
            invariant
                at <= sorted.len(),
                forall|k: int| at <= k < sorted.len() ==> sorted[k].rank > entry.rank,
            decreases at,
        {
            at -= 1;
        }
        proof {
            vstd::seq_lib::to_multiset_insert(sorted@, at as int, entry);
            assert(list@.take(i + 1) =~= list@.take(i as int).push(entry));
            vstd::seq_lib::to_multiset_build(list@.take(i as int), entry);
            let next = order.insert(at as int, i as int);
            let grown = sorted@.insert(at as int, entry);
            assert forall|k: int| 0 <= k < grown.len() implies 0 <= #[trigger] next[k] < i + 1
                && grown[k] == list@.take(i + 1)[next[k]] by {
                if k < at {
                    assert(next[k] == order[k] && grown[k] == sorted@[k]);
                } else if k > at {
                    assert(next[k] == order[k - 1] && grown[k] == sorted@[k - 1]);
                }
            }
            assert forall|k: int, l: int| 0 <= k < l < grown.len() implies next[k] != next[l] && (
            grown[k].rank == grown[l].rank ==> next[k] < next[l]) by {
                let a = if k < at {
                    k
                } else {
                    k - 1
                };
                let b = if l < at {
                    l
                } else {
                    l - 1
                };
                if k != at && l != at {
                    assert(next[k] == order[a] && next[l] == order[b]);
                    assert(grown[k] == sorted@[a] && grown[l] == sorted@[b]);
                } else if l == at {
                    assert(next[k] == order[a] && next[l] == i);
                } else {
                    assert(next[l] == order[b] && next[k] == i);
                    assert(grown[l] == sorted@[b]);
                }
            }
            order = next;
        }
        sorted.insert(at, entry);
        i += 1;
    }
    assert(list@.take(i as int) =~= list@);
    sorted
}

/// The summaries of `rows` in ascending order of rank.
///
/// This is the listing of a book once its rows are at hand: each row is
/// cut down to its identifier and rank, and the summaries are put in
/// order. The rows may come in any order; summaries of equal rank keep
/// the order of their rows.
pub fn project(rows: &Vec<Bookfragment>) -> (listing: Vec<Simple>)
    ensures
        ranked(summaries(rows@), listing@),
{
    let list = summarise(rows);
    sort_by_rank(&list)
}

/// List all fragments of a book.
///
/// Only the identifier and the rank of each fragment are returned, in
/// ascending order of rank. A book without fragments, or one that does
/// not exist, gives an empty list.
pub fn list(table: &FragmentTable, book_id: u128) -> (listing: ApiResult<Vec<Simple>>)
    ensures
        listing is Ok,
        ranked(summaries(book_rows(table@, book_id)), listing.unwrap()@),
        ranks_unique(table@) ==> strictly_ascending(listing.unwrap()@),
        book_empty(table@, book_id) ==> listing.unwrap()@.len() == 0,
{
    let rows = table.load(book_id);
    let sorted = project(&rows);
    proof {
        if ranks_unique(table@) {
            lemma_listing_strictly_ascending(table@, book_id, sorted@);
        }
        if book_empty(table@, book_id) {
            lemma_listing_of_empty_book(table@, book_id, sorted@);
        }
    }
    Ok(sorted)
}

/// Return a full fragment.
///
/// # Errors
///
/// `NotFound` if no fragment carries `id`.
pub fn get(table: &FragmentTable, id: u128) -> (found: ApiResult<Bookfragment>)
    ensures
        match found {
            Ok(row) => contains_id(table@, id) && row == table@[position(table@, id)],
            Err(error) => error == StoreError::NotFound && !contains_id(table@, id),
        },
{
    match table.find(id) {
        Some(row) => Ok(row.clone()),
        None => Err(StoreError::NotFound),
    }
}

/// Shift fragments in a book.
///
/// Adds `shift` to the rank of every fragment of `book` whose rank is at
/// least `from` and below `to`, and returns how many fragments that were.
/// Without a `to`, every fragment from `from` to the end of the book is
/// shifted; without a `shift`, the fragments move down by one rank.
///
/// # Errors
///
/// `StoreFailure` if one of the new ranks would leave the 32-bit range;
/// no rank has changed then.
pub fn shift_fragments(
    table: &mut FragmentTable,
    book: u128,
    from: i32,
    to: Option<i32>,
    shift: Option<i32>,
) -> (done: ApiResult<usize>)
    ensures
        match done {
            Ok(count) => {
                &&& shift_fits(old(table)@, book, from, to, shift.unwrap_or(1))
                &&& final(table)@ == shift_rows(old(table)@, book, from, to, shift.unwrap_or(1))
                &&& count == touched_rows(old(table)@, book, from, to).len()
            },
            Err(error) => {
                &&& error == StoreError::StoreFailure
                &&& !shift_fits(old(table)@, book, from, to, shift.unwrap_or(1))
                &&& final(table)@ == old(table)@
            },
        },
{
    let asked = shift_of(book, from, to, shift);
    table.shift(asked.book, asked.from, asked.to, asked.delta)
}

/// Move a fragment inside a book.
///
/// Moves the fragment to the rank `to` and shifts the fragments it
/// passes: moving later, the fragments after its old rank up to and
/// including `to` move up by one; moving earlier, the fragments from `to`
/// up to its old rank move down by one. If `to` lies beyond the last rank
/// of the book, the fragment becomes the last one: it takes the rank the
/// last fragment had, which is one past the last rank once the others
/// have closed up.
///
/// Returns how many other fragments changed rank.
///
/// # Errors
///
/// `NotFound` if no fragment carries the identifier.
pub fn move_frag_id(table: &mut FragmentTable, fragment: u128, to: i32) -> (done: ApiResult<usize>)
    ensures
        match done {
            Ok(count) => {
                &&& contains_id(old(table)@, fragment)
                &&& final(table)@ == moved(old(table)@, fragment, to)
                &&& count == moved_count(old(table)@, fragment, to)
            },
            Err(error) => {
                &&& error == StoreError::NotFound
                &&& !contains_id(old(table)@, fragment)
                &&& final(table)@ == old(table)@
            },
        },
        ranks_unique(old(table)@) ==> ranks_unique(final(table)@),
{
    let ghost before = table@;
    proof {
        use_type_invariant(&*table);
    }
    let (book, current) = match table.find(fragment) {
        Some(row) => (row.book, row.rank),
        None => {
            return Err(StoreError::NotFound);
        },
    };
    let (dest, shift) = plan_move(book, current, to, table.last_rank(book));
    proof {
        assert(before[position(before, fragment)].book == book);
        assert(dest == move_target(before, fragment, to));
        lemma_move_by_shift(before, fragment, to);
        if ranks_unique(before) {
            lemma_moved_keeps_unique(before, fragment, to);
        }
    }
    let count = match shift {
        Some(shift) => {
            proof {
                lemma_shift_keeps_ids(
                    before,
                    shift.book,
                    shift.from,
                    shift.to,
                    shift.delta,
                    fragment,
                );
            }
            table.shift(shift.book, shift.from, shift.to, shift.delta)?
        },
        None => 0,
    };
    table.set_rank(fragment, dest)?;
    Ok(count)
}

/// Create a new fragment.
///
/// If the book already has fragments, every fragment at or after the
/// rank of the new one moves down by one, whether or not the rank was
/// taken; then the fragment is inserted at the rank it asks for. The rank
/// is taken as given: a rank beyond the end of the book leaves a gap.
///
/// Returns the number of rows inserted, which is one.
///
/// # Errors
///
/// `StoreFailure` if the identifier is already present, or if making
/// room would push a rank out of the 32-bit range; nothing has changed
/// then.
pub fn new(table: &mut FragmentTable, fragment: Bookfragment) -> (done: ApiResult<usize>)
    ensures
        match done {
            Ok(count) => {
                &&& count == 1
                &&& create_accepted(old(table)@, fragment)
                &&& final(table)@ == created(old(table)@, fragment)
            },
            Err(error) => {
                &&& error == StoreError::StoreFailure
                &&& !create_accepted(old(table)@, fragment)
                &&& final(table)@ == old(table)@
            },
        },
        ranks_unique(old(table)@) ==> ranks_unique(final(table)@),
{
    let ghost before = table@;
    proof {
        use_type_invariant(&*table);
    }
    if table.position(fragment.id).is_some() {
        return Err(StoreError::StoreFailure);
    }
    match shift_for_new(fragment.book, fragment.rank, table.has_book(fragment.book)) {
        Some(shift) => {
            proof {
                lemma_shift_keeps_ids(
                    before,
                    shift.book,
                    shift.from,
                    shift.to,
                    shift.delta,
                    fragment.id,
                );
            }
            table.shift(shift.book, shift.from, shift.to, shift.delta)?;
        },
        None => {
            assert(shift_rows(before, fragment.book, fragment.rank, None, 1) =~= before);
        },
    }
    proof {
        if ranks_unique(before) {
            lemma_created_keeps_unique(before, fragment);
        }
    }
    table.insert(fragment)
}

/// Update a fragment.
///
/// Writes every field of `fragment` over the row that carries its
/// identifier. If another fragment of the same book already holds the
/// rank it asks for, the fragment is first moved to that rank, so that
/// the others make room.
///
/// Returns the number of rows updated, which is one.
///
/// # Errors
///
/// - `NotFound` if no fragment carries the identifier.
/// - `InvariantRisk` if the update would carry the fragment into another
///   book, onto a rank that is held there; nothing has changed then.
pub fn update(table: &mut FragmentTable, fragment: Bookfragment) -> (done: ApiResult<usize>)
    ensures
        match done {
            Ok(count) => {
                &&& count == 1
                &&& update_accepted(old(table)@, fragment)
                &&& final(table)@ == updated(old(table)@, fragment)
            },
            Err(error) => {
                &&& !update_accepted(old(table)@, fragment)
                &&& error == if contains_id(old(table)@, fragment.id) {
                    StoreError::InvariantRisk
                } else {
                    StoreError::NotFound
                }
                &&& final(table)@ == old(table)@
            },
        },
        ranks_unique(old(table)@) ==> ranks_unique(final(table)@),
{
    let ghost before = table@;
    proof {
        use_type_invariant(&*table);
    }
    let stored_book = match table.find(fragment.id) {
        Some(row) => row.book,
        None => {
            return Err(StoreError::NotFound);
        },
    };
    let taken = table.rank_taken(fragment.book, fragment.rank, fragment.id);
    match step_for_update(stored_book == fragment.book, taken) {
        UpdateStep::Refuse => {
            return Err(StoreError::InvariantRisk);
        },
        UpdateStep::MoveThenWrite => {
            proof {
                lemma_moved_keeps_unique_ids(before, fragment.id, fragment.rank);
            }
            move_frag_id(table, fragment.id, fragment.rank)?;
        },
        UpdateStep::Write => {},
    }
    proof {
        if ranks_unique(before) {
            lemma_updated_keeps_unique(before, fragment);
        }
    }
    table.replace(fragment)
}

/// What a delete statement that removed `count` rows amounts to: a
/// statement that removed nothing found no fragment to delete.
pub fn deleted_reply(count: usize) -> (reply: ApiResult<()>)
    ensures
        reply == if count == 0 {
            Err::<(), StoreError>(StoreError::NotFound)
        } else {
            Ok::<(), StoreError>(())
        },
{
    if count == 0 {
        Err(StoreError::NotFound)
    } else {
        Ok(())
    }
}

/// Delete a book fragment.
///
/// The other fragments keep their ranks: the gap is left open.
///
/// # Errors
///
/// `NotFound` if no fragment carries `id`.
pub fn delete(table: &mut FragmentTable, id: u128) -> (done: ApiResult<()>)
    ensures
        match done {
            Ok(_) => contains_id(old(table)@, id) && final(table)@ == deleted(old(table)@, id),
            Err(error) => {
                &&& error == StoreError::NotFound
                &&& !contains_id(old(table)@, id)
                &&& final(table)@ == old(table)@
            },
        },
        ranks_unique(old(table)@) ==> ranks_unique(final(table)@),
{
    proof {
        use_type_invariant(&*table);
        if ranks_unique(table@) && contains_id(table@, id) {
            lemma_deleted_keeps_unique(table@, id);
        }
    }
    deleted_reply(table.remove(id))
}

} // verus!
