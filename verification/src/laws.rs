//! What holds of the ranking engine, proved over the model in
//! [`crate::ranking`].
use vstd::multiset::Multiset;
use vstd::prelude::*;
use vstd::relations::{sorted_by, total_ordering};
use vstd::seq_lib::{
    lemma_multiset_commutative, lemma_sorted_unique, to_multiset_contains, to_multiset_len,
};
use crate::fragment::{ascending, strictly_ascending, summaries, summary, Simple};
use crate::models::Bookfragment;
use crate::ranking::{
    book_empty, book_rows, contains_id, create_accepted, created, deleted, ids_unique,
    is_last_rank, last_rank, lemma_last_rank_exists, lemma_position_is, move_shift, move_target,
    moved, moved_count, passed, position, rank_taken, ranks_unique, shift_fits, shift_rows,
    touched, touched_rows, update_accepted, update_step, updated, with_rank, UpdateStep,
};

verus! {

/// A shift changes ranks only: the table keeps its length, and every row
/// keeps its identifier and its place.
pub proof fn lemma_shift_keeps_ids(
    rows: Seq<Bookfragment>,
    book: u128,
    from: i32,
    to: Option<i32>,
    delta: i32,
    id: u128,
)
    requires
        ids_unique(rows),
    ensures
        ids_unique(shift_rows(rows, book, from, to, delta)),
        contains_id(shift_rows(rows, book, from, to, delta), id) == contains_id(rows, id),
        contains_id(rows, id) ==> position(shift_rows(rows, book, from, to, delta), id) == position(
            rows,
            id,
        ),
{
    let shifted = shift_rows(rows, book, from, to, delta);
    assert forall|i: int| 0 <= i < rows.len() implies #[trigger] shifted[i].id == rows[i].id by {}
    if contains_id(rows, id) {
        let at = position(rows, id);
        assert(shifted[at].id == id);
        lemma_position_is(shifted, at);
    }
    if contains_id(shifted, id) {
        let at = position(shifted, id);
        assert(rows[at].id == id);
    }
}

/// Two tests that agree on every row of a table keep the same rows.
proof fn lemma_filter_agrees(
    rows: Seq<Bookfragment>,
    one: spec_fn(Bookfragment) -> bool,
    other: spec_fn(Bookfragment) -> bool,
)
    requires
        forall|i: int| 0 <= i < rows.len() ==> one(#[trigger] rows[i]) == other(rows[i]),
    ensures
        rows.filter(one) == rows.filter(other),
    decreases rows.len(),
{
    reveal(Seq::filter);
    if rows.len() > 0 {
        let rest = rows.drop_last();
        assert forall|i: int| 0 <= i < rest.len() implies one(#[trigger] rest[i]) == other(
            rest[i],
        ) by {
            assert(rest[i] == rows[i]);
        }
        lemma_filter_agrees(rest, one, other);
        assert(rows.last() == rows[rows.len() - 1]);
    }
}

/// Moving a fragment is one shift of the rows it passes, followed by
/// setting its own rank; that shift never leaves the 32-bit range, and it
/// touches exactly the rows that are passed.
pub proof fn lemma_move_by_shift(rows: Seq<Bookfragment>, id: u128, to: i32)
    requires
        ids_unique(rows),
        contains_id(rows, id),
    ensures
        match move_shift(
            rows[position(rows, id)].book,
            rows[position(rows, id)].rank,
            move_target(rows, id, to),
        ) {
            Some(shift) => {
                let shifted = shift_rows(rows, shift.book, shift.from, shift.to, shift.delta);
                &&& shift_fits(rows, shift.book, shift.from, shift.to, shift.delta)
                &&& shifted.update(
                    position(rows, id),
                    with_rank(shifted[position(rows, id)], move_target(rows, id, to)),
                ) == moved(rows, id, to)
                &&& touched_rows(rows, shift.book, shift.from, shift.to).len() == moved_count(
                    rows,
                    id,
                    to,
                )
            },
            None => {
                &&& rows.update(
                    position(rows, id),
                    with_rank(rows[position(rows, id)], move_target(rows, id, to)),
                ) == moved(rows, id, to)
                &&& moved_count(rows, id, to) == 0
            },
        },
{
    let at = position(rows, id);
    let dest = move_target(rows, id, to);
    match move_shift(rows[at].book, rows[at].rank, dest) {
        Some(shift) => {
            let shifted = shift_rows(rows, shift.book, shift.from, shift.to, shift.delta);
            assert(shifted.update(at, with_rank(shifted[at], dest)) =~= moved(rows, id, to));
            lemma_filter_agrees(
                rows,
                |row: Bookfragment| touched(row, shift.book, shift.from, shift.to),
                |row: Bookfragment| passed(row, rows[at].book, rows[at].rank, dest),
            );
        },
        None => {
            assert(rows.update(at, with_rank(rows[at], dest)) =~= moved(rows, id, to));
            rows.lemma_all_neg_filter_empty(
                |row: Bookfragment| passed(row, rows[at].book, rows[at].rank, dest),
            );
        },
    }
}

/// Creating a fragment keeps identifiers and ranks unique.
pub proof fn lemma_created_keeps_unique(rows: Seq<Bookfragment>, fragment: Bookfragment)
    requires
        ids_unique(rows),
        ranks_unique(rows),
        create_accepted(rows, fragment),
    ensures
        ids_unique(created(rows, fragment)),
        ranks_unique(created(rows, fragment)),
{
    let next = created(rows, fragment);
    assert forall|i: int| 0 <= i < rows.len() implies #[trigger] next[i].id == rows[i].id
        && next[i].book == rows[i].book by {}
}

/// A move changes ranks only: every row keeps its identifier and its
/// place.
pub proof fn lemma_moved_keeps_unique_ids(rows: Seq<Bookfragment>, id: u128, to: i32)
    requires
        ids_unique(rows),
        contains_id(rows, id),
    ensures
        ids_unique(moved(rows, id, to)),
        contains_id(moved(rows, id, to), id),
        position(moved(rows, id, to), id) == position(rows, id),
{
    let next = moved(rows, id, to);
    let at = position(rows, id);
    assert forall|i: int| 0 <= i < rows.len() implies #[trigger] next[i].id == rows[i].id by {}
    assert(next[at].id == id);
    lemma_position_is(next, at);
}

/// Moving a fragment keeps identifiers and ranks unique.
pub proof fn lemma_moved_keeps_unique(rows: Seq<Bookfragment>, id: u128, to: i32)
    requires
        ids_unique(rows),
        ranks_unique(rows),
        contains_id(rows, id),
    ensures
        ids_unique(moved(rows, id, to)),
        ranks_unique(moved(rows, id, to)),
{
    let next = moved(rows, id, to);
    lemma_moved_keeps_unique_ids(rows, id, to);
    assert forall|i: int| 0 <= i < rows.len() implies #[trigger] next[i].id == rows[i].id
        && next[i].book == rows[i].book by {}
}

/// Updating a fragment keeps identifiers and ranks unique.
pub proof fn lemma_updated_keeps_unique(rows: Seq<Bookfragment>, fragment: Bookfragment)
    requires
        ids_unique(rows),
        ranks_unique(rows),
        update_accepted(rows, fragment),
    ensures
        ids_unique(updated(rows, fragment)),
        ranks_unique(updated(rows, fragment)),
{
    let at = position(rows, fragment.id);
    let taken = rank_taken(rows, fragment.book, fragment.rank, fragment.id);
    let next = updated(rows, fragment);
    if update_step(rows[at].book == fragment.book, taken) == UpdateStep::MoveThenWrite {
        let settled = moved(rows, fragment.id, fragment.rank);
        lemma_moved_keeps_unique(rows, fragment.id, fragment.rank);
        lemma_settles_on_rank(rows, fragment);
        assert forall|i: int| 0 <= i < rows.len() implies #[trigger] next[i].id == settled[i].id
            && next[i].book == settled[i].book && next[i].rank == settled[i].rank by {}
    } else {
        assert forall|i: int| 0 <= i < rows.len() && i != at implies #[trigger] next[i]
            == rows[i] by {}
    }
}

/// Where an update has to move the fragment first, the move brings it to
/// exactly the rank the update asks for.
pub proof fn lemma_settles_on_rank(rows: Seq<Bookfragment>, fragment: Bookfragment)
    requires
        contains_id(rows, fragment.id),
        rows[position(rows, fragment.id)].book == fragment.book,
        rank_taken(rows, fragment.book, fragment.rank, fragment.id),
    ensures
        move_target(rows, fragment.id, fragment.rank) == fragment.rank,
{
    let at = position(rows, fragment.id);
    assert(rows[at].book == fragment.book);
    lemma_last_rank_exists(rows, fragment.book);
    assert(is_last_rank(rows, fragment.book, last_rank(rows, fragment.book)));
}

/// Deleting a fragment keeps identifiers and ranks unique.
pub proof fn lemma_deleted_keeps_unique(rows: Seq<Bookfragment>, id: u128)
    requires
        ids_unique(rows),
        ranks_unique(rows),
        contains_id(rows, id),
    ensures
        ids_unique(deleted(rows, id)),
        ranks_unique(deleted(rows, id)),
{
    let at = position(rows, id);
    let next = deleted(rows, id);
    assert forall|i: int| 0 <= i < next.len() implies #[trigger] next[i] == rows[if i < at {
        i
    } else {
        i + 1
    }] by {}
}

/// One call of the engine that changes the table.
pub enum Operation {
    Create(Bookfragment),
    Move { fragment: u128, to: i32 },
    Update(Bookfragment),
    Delete(u128),
}

/// The table after `operation`, or nothing where the engine refuses it.
pub open spec fn applied(rows: Seq<Bookfragment>, operation: Operation) -> Option<
    Seq<Bookfragment>,
> {
    match operation {
        Operation::Create(fragment) => if create_accepted(rows, fragment) {
            Some(created(rows, fragment))
        } else {
            None
        },
        Operation::Move { fragment, to } => if contains_id(rows, fragment) {
            Some(moved(rows, fragment, to))
        } else {
            None
        },
        Operation::Update(fragment) => if update_accepted(rows, fragment) {
            Some(updated(rows, fragment))
        } else {
            None
        },
        Operation::Delete(id) => if contains_id(rows, id) {
            Some(deleted(rows, id))
        } else {
            None
        },
    }
}

/// The table after `operations`, one after the other, or nothing where
/// the engine refuses one of them.
pub open spec fn applied_all(rows: Seq<Bookfragment>, operations: Seq<Operation>) -> Option<
    Seq<Bookfragment>,
>
    decreases operations.len(),
{
    if operations.len() == 0 {
        Some(rows)
    } else {
        match applied_all(rows, operations.drop_last()) {
            Some(reached) => applied(reached, operations.last()),
            None => None,
        }
    }
}

/// Whatever create, move, update and delete calls succeed one after the
/// other on a table without duplicate ranks, no two fragments of a book
/// share a rank afterwards.
pub proof fn lemma_uniqueness_kept(rows: Seq<Bookfragment>, operations: Seq<Operation>)
    requires
        ids_unique(rows),
        ranks_unique(rows),
        applied_all(rows, operations) is Some,
    ensures
        ids_unique(applied_all(rows, operations).unwrap()),
        ranks_unique(applied_all(rows, operations).unwrap()),
    decreases operations.len(),
{
    if operations.len() > 0 {
        lemma_uniqueness_kept(rows, operations.drop_last());
        let reached = applied_all(rows, operations.drop_last()).unwrap();
        match operations.last() {
            Operation::Create(fragment) => lemma_created_keeps_unique(reached, fragment),
            Operation::Move { fragment, to } => lemma_moved_keeps_unique(reached, fragment, to),
            Operation::Update(fragment) => lemma_updated_keeps_unique(reached, fragment),
            Operation::Delete(id) => lemma_deleted_keeps_unique(reached, id),
        }
    }
}

/// The create calls for `fragments`, in the order of the sequence.
pub open spec fn creations(fragments: Seq<Bookfragment>) -> Seq<Operation> {
    Seq::new(fragments.len(), |i: int| Operation::Create(fragments[i]))
}

/// Create calls that compete for the ranks of one book leave no
/// duplicate rank behind, in whatever order they take effect: each call
/// is one step of the table, and the claim holds of every sequence of
/// such steps.
pub proof fn lemma_creations_keep_unique(rows: Seq<Bookfragment>, fragments: Seq<Bookfragment>)
    requires
        ids_unique(rows),
        ranks_unique(rows),
        applied_all(rows, creations(fragments)) is Some,
    ensures
        ranks_unique(applied_all(rows, creations(fragments)).unwrap()),
{
    lemma_uniqueness_kept(rows, creations(fragments));
}

/// Among the rows of one book, taken from a table without duplicate
/// ranks, no rank occurs twice.
pub proof fn lemma_book_ranks_differ(rows: Seq<Bookfragment>, book: u128)
    requires
        ranks_unique(rows),
    ensures
        forall|i: int, j: int|
            0 <= i < j < book_rows(rows, book).len() ==> book_rows(rows, book)[i].rank
                != book_rows(rows, book)[j].rank,
    decreases rows.len(),
{
    reveal(Seq::filter);
    if rows.len() > 0 {
        let rest = rows.drop_last();
        let tail = rows.last();
        let sub = book_rows(rest, book);
        assert(ranks_unique(rest)) by {
            assert forall|i: int, j: int|
                0 <= i < j < rest.len() && rest[i].book == rest[j].book implies rest[i].rank
                != rest[j].rank by {
                assert(rest[i] == rows[i] && rest[j] == rows[j]);
            }
        }
        lemma_book_ranks_differ(rest, book);
        if tail.book == book {
            assert(book_rows(rows, book) == sub.push(tail));
            assert forall|i: int| 0 <= i < sub.len() implies sub[i].rank != tail.rank by {
                rest.lemma_filter_pred(|row: Bookfragment| row.book == book, i);
                assert(sub.contains(sub[i]));
                rest.lemma_filter_contains_rev(|row: Bookfragment| row.book == book, sub[i]);
                let k = choose|k: int| 0 <= k < rest.len() && rest[k] == sub[i];
                assert(rows[k] == rest[k]);
                assert(rows[rows.len() - 1] == tail);
            }
        } else {
            assert(book_rows(rows, book) == sub);
        }
    }
}

/// In a table without duplicate ranks, a listing of a book that is in
/// ascending order rises strictly from each entry to the next.
pub proof fn lemma_listing_strictly_ascending(
    rows: Seq<Bookfragment>,
    book: u128,
    listing: Seq<Simple>,
)
    requires
        ranks_unique(rows),
        ascending(listing),
        listing.to_multiset() == summaries(book_rows(rows, book)).to_multiset(),
    ensures
        strictly_ascending(listing),
{
    let source = summaries(book_rows(rows, book));
    lemma_book_ranks_differ(rows, book);
    assert(source.no_duplicates());
    source.lemma_multiset_has_no_duplicates();
    listing.lemma_multiset_has_no_duplicates_conv();
    assert forall|i: int, j: int| 0 <= i < j < listing.len() implies listing[i].rank
        < listing[j].rank by {
        assert(listing.contains(listing[i]));
        assert(listing.contains(listing[j]));
        to_multiset_contains(listing, listing[i]);
        to_multiset_contains(listing, listing[j]);
        to_multiset_contains(source, listing[i]);
        to_multiset_contains(source, listing[j]);
        let a = choose|a: int| 0 <= a < source.len() && source[a] == listing[i];
        let b = choose|b: int| 0 <= b < source.len() && source[b] == listing[j];
        assert(listing[i] != listing[j]);
        assert(a != b);
    }
}

/// In a table without duplicate ranks the listing of a book is
/// determined: two listings that hold the summaries of its rows in
/// ascending order are one and the same.
pub proof fn lemma_listing_is_determined(
    rows: Seq<Bookfragment>,
    book: u128,
    one: Seq<Simple>,
    other: Seq<Simple>,
)
    requires
        ranks_unique(rows),
        ascending(one),
        ascending(other),
        one.to_multiset() == summaries(book_rows(rows, book)).to_multiset(),
        other.to_multiset() == summaries(book_rows(rows, book)).to_multiset(),
    ensures
        one == other,
{
    lemma_listing_strictly_ascending(rows, book, one);
    lemma_listing_strictly_ascending(rows, book, other);
    let before = |a: Simple, b: Simple| a.rank < b.rank || (a.rank == b.rank && a.uuid <= b.uuid);
    assert(total_ordering(before));
    assert(sorted_by(one, before));
    assert(sorted_by(other, before));
    lemma_sorted_unique(one, other, before);
}

/// A book without rows has an empty listing.
pub proof fn lemma_listing_of_empty_book(rows: Seq<Bookfragment>, book: u128, listing: Seq<Simple>)
    requires
        book_empty(rows, book),
        listing.to_multiset() == summaries(book_rows(rows, book)).to_multiset(),
    ensures
        listing.len() == 0,
{
    rows.lemma_all_neg_filter_empty(|row: Bookfragment| row.book == book);
    to_multiset_len(summaries(book_rows(rows, book)));
    to_multiset_len(listing);
}

/// The summaries of two runs of rows, one after the other, are the
/// summaries of the first followed by those of the second.
proof fn lemma_summaries_of_book_rows_add(a: Seq<Bookfragment>, b: Seq<Bookfragment>, book: u128)
    ensures
        summaries(book_rows(a + b, book)) == summaries(book_rows(a, book)) + summaries(
            book_rows(b, book),
        ),
{
    Seq::filter_distributes_over_add(a, b, |row: Bookfragment| row.book == book);
    assert(summaries(book_rows(a, book) + book_rows(b, book)) =~= summaries(book_rows(a, book))
        + summaries(book_rows(b, book)));
}

/// Once a fragment is deleted it is gone from the table, so that a
/// second delete finds nothing; every other row is still there as it
/// was; and the listing of every book is what it was before, less the
/// entry of the deleted fragment in the listing of its own book.
pub proof fn lemma_delete_then_list(rows: Seq<Bookfragment>, id: u128, book: u128)
    requires
        ids_unique(rows),
        contains_id(rows, id),
    ensures
        !contains_id(deleted(rows, id), id),
        forall|i: int|
            0 <= i < rows.len() && i != position(rows, id) ==> deleted(rows, id).contains(
                #[trigger] rows[i],
            ),
        summaries(book_rows(deleted(rows, id), book)).to_multiset() == if rows[position(
            rows,
            id,
        )].book == book {
            summaries(book_rows(rows, book)).to_multiset().remove(
                summary(rows[position(rows, id)]),
            )
        } else {
            summaries(book_rows(rows, book)).to_multiset()
        },
{
    let at = position(rows, id);
    let gone = rows[at];
    let next = deleted(rows, id);
    let head = rows.subrange(0, at);
    let tail = rows.subrange(at + 1, rows.len() as int);
    let one = seq![gone];
    assert forall|k: int| 0 <= k < next.len() implies #[trigger] next[k].id != id by {
        if k < at {
            assert(next[k] == rows[k]);
        } else {
            assert(next[k] == rows[k + 1]);
        }
    }
    assert forall|i: int| 0 <= i < rows.len() && i != at implies next.contains(
        #[trigger] rows[i],
    ) by {
        if i < at {
            assert(next[i] == rows[i]);
        } else {
            assert(next[i - 1] == rows[i]);
        }
    }
    assert(rows =~= (head + one) + tail);
    assert(next =~= head + tail);
    lemma_summaries_of_book_rows_add(head + one, tail, book);
    lemma_summaries_of_book_rows_add(head, one, book);
    lemma_summaries_of_book_rows_add(head, tail, book);
    let h = summaries(book_rows(head, book));
    let o = summaries(book_rows(one, book));
    let t = summaries(book_rows(tail, book));
    lemma_multiset_commutative(h + o, t);
    lemma_multiset_commutative(h, o);
    lemma_multiset_commutative(h, t);
    assert(o =~= if gone.book == book {
        seq![summary(gone)]
    } else {
        Seq::<Simple>::empty()
    }) by {
        reveal_with_fuel(Seq::filter, 2);
        assert(one.drop_last() =~= Seq::<Bookfragment>::empty());
    }
    if gone.book == book {
        assert(o.to_multiset() =~= Multiset::<Simple>::empty().insert(summary(gone))) by {
            vstd::seq_lib::to_multiset_build(Seq::<Simple>::empty(), summary(gone));
            assert(Seq::<Simple>::empty().push(summary(gone)) =~= o);
            assert(Seq::<Simple>::empty().to_multiset() =~= Multiset::<Simple>::empty()) by {
                to_multiset_len(Seq::<Simple>::empty());
            }
        }
        assert(h.to_multiset().add(o.to_multiset()).add(t.to_multiset()).remove(summary(gone))
            =~= h.to_multiset().add(t.to_multiset()));
    } else {
        assert(o.to_multiset() =~= Multiset::<Simple>::empty()) by {
            to_multiset_len(o);
        }
        assert(h.to_multiset().add(o.to_multiset()).add(t.to_multiset()) =~= h.to_multiset().add(
            t.to_multiset(),
        ));
    }
}

} // verus!
