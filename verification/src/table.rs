//! The fragment table: the rows the ranking engine works on.
//!
//! The table keeps its rows in the order in which they were inserted and
//! never holds two rows with the same identifier. It offers the handful
//! of statements the engine is built from: point lookup, a scan of one
//! book, a ranged rank update, insert, replace and delete.
use vstd::prelude::*;
use crate::models::Bookfragment;
use crate::ranking::{
    book_empty, book_rows, contains_id, ids_unique, is_last_rank, last_rank, lemma_last_rank_is,
    lemma_position_is, position, rank_in_span, rank_taken, shift_fits, shift_row, shift_rows,
    touched, touched_rows, with_rank,
};
use crate::utils::{ApiResult, StoreError};

verus! {

/// A table of book fragments keyed by identifier.
pub struct FragmentTable {
    rows: Vec<Bookfragment>,
}

impl View for FragmentTable {
    type V = Seq<Bookfragment>;

    /// The rows in table order.
    closed spec fn view(&self) -> Seq<Bookfragment> {
        self.rows@
    }
}

impl FragmentTable {
    /// What holds of every table: identifiers are pairwise distinct.
    #[verifier::type_invariant]
    pub open spec fn wf(&self) -> bool {
        ids_unique(self@)
    }

    /// An empty table.
    pub fn new() -> (table: FragmentTable)
        ensures
            table@ == Seq::<Bookfragment>::empty(),
    {
        FragmentTable { rows: Vec::new() }
    }

    /// Takes the rows out of the table and leaves it empty.
    fn take_rows(&mut self) -> (rows: Vec<Bookfragment>)
        ensures
            rows@ == old(self)@,
            ids_unique(rows@),
            final(self)@ == Seq::<Bookfragment>::empty(),
    {
        proof {
            use_type_invariant(&*self);
        }
        let mut taken = FragmentTable::new();
        core::mem::swap(self, &mut taken);
        taken.rows
    }

    /// Makes `rows` the rows of the table.
    fn put_rows(&mut self, rows: Vec<Bookfragment>)
        requires
            ids_unique(rows@),
        ensures
            final(self)@ == rows@,
    {
        *self = FragmentTable { rows };
    }

    /// The number of rows.
    pub fn len(&self) -> (count: usize)
        ensures
            count == self@.len(),
    {
        self.rows.len()
    }

    /// The index of the row that carries `id`.
    pub fn position(&self, id: u128) -> (found: Option<usize>)
        ensures
            match found {
                Some(i) => i < self@.len() && self@[i as int].id == id && contains_id(self@, id)
                    && i == position(self@, id),
                None => !contains_id(self@, id),
            },
    {
        let mut i: usize = 0;
        while i < self.rows.len()
            invariant
                i <= self.rows.len(),
                forall|j: int| 0 <= j < i ==> self@[j].id != id,
            decreases self.rows.len() - i,
        {
            if self.rows[i].id == id {
                proof {
                    use_type_invariant(self);
                    lemma_position_is(self@, i as int);
                }
                return Some(i);
            }
            i += 1;
        }
        None
    }

    /// The row that carries `id`.
    pub fn find(&self, id: u128) -> (found: Option<&Bookfragment>)
        ensures
            match found {
                Some(row) => contains_id(self@, id) && *row == self@[position(self@, id)],
                None => !contains_id(self@, id),
            },
    {
        match self.position(id) {
            Some(i) => Some(&self.rows[i]),
            None => None,
        }
    }

    /// Tells whether `book` has a row.
    pub fn has_book(&self, book: u128) -> (present: bool)
        ensures
            present == !book_empty(self@, book),
    {
        let mut i: usize = 0;
        while i < self.rows.len()
            invariant
                i <= self.rows.len(),
                forall|j: int| 0 <= j < i ==> self@[j].book != book,
            decreases self.rows.len() - i,
        {
            if self.rows[i].book == book {
                return true;
            }
            i += 1;
        }
        false
    }

    /// Copies of the rows of `book`, in table order.
    pub fn load(&self, book: u128) -> (loaded: Vec<Bookfragment>)
        ensures
            loaded@ == book_rows(self@, book),
    {
        let mut loaded: Vec<Bookfragment> = Vec::new();
        let mut i: usize = 0;
        proof {
            assert(self@.take(0) =~= Seq::<Bookfragment>::empty());
        }
        while i < self.rows.len()
            invariant
                i <= self.rows.len(),
                loaded@ == book_rows(self@.take(i as int), book),
            decreases self.rows.len() - i,
        {
            proof {
                assert(self@.take(i + 1) =~= self@.take(i as int).push(self@[i as int]));
                self@.take(i as int).lemma_filter_push(
                    self@[i as int],
                    |row: Bookfragment| row.book == book,
                );
            }
            if self.rows[i].book == book {
                loaded.push(self.rows[i].clone());
            }
            i += 1;
        }
        assert(self@.take(i as int) =~= self@);
        loaded
    }

    /// The highest rank in `book`, or nothing where the book has no row.
    pub fn last_rank(&self, book: u128) -> (last: Option<i32>)
        ensures
            match last {
                Some(rank) => is_last_rank(self@, book, rank) && rank == last_rank(self@, book),
                None => book_empty(self@, book),
            },
    {
        let mut last: Option<i32> = None;
        let mut i: usize = 0;
        while i < self.rows.len()
            invariant
                i <= self.rows.len(),
                match last {
                    Some(rank) => is_last_rank(self@.take(i as int), book, rank),
                    None => book_empty(self@.take(i as int), book),
                },
            decreases self.rows.len() - i,
        {
            let ghost seen = self@.take(i as int);
            let ghost next = self@.take(i + 1);
            assert(forall|j: int| 0 <= j < i ==> next[j] == seen[j]);
            assert(next[i as int] == self@[i as int]);
            if self.rows[i].book == book {
                let rank = self.rows[i].rank;
                match last {
                    Some(best) => {
                        let ghost w = choose|j: int|
                            0 <= j < seen.len() && seen[j].book == book && seen[j].rank == best;
                        if best < rank {
                            last = Some(rank);
                        } else {
                            assert(next[w].book == book && next[w].rank == best);
                        }
                    },
                    None => {
                        last = Some(rank);
                    },
                }
            } else {
                match last {
                    Some(best) => {
                        let ghost w = choose|j: int|
                            0 <= j < seen.len() && seen[j].book == book && seen[j].rank == best;
                        assert(next[w].book == book && next[w].rank == best);
                    },
                    None => {},
                }
            }
            i += 1;
        }
        assert(self@.take(i as int) =~= self@);
        proof {
            if let Some(rank) = last {
                lemma_last_rank_is(self@, book, rank);
            }
        }
        last
    }

    /// Tells whether some row of `book` other than the one that carries
    /// `except` has the rank `rank`.
    pub fn rank_taken(&self, book: u128, rank: i32, except: u128) -> (taken: bool)
        ensures
            taken == rank_taken(self@, book, rank, except),
    {
        let mut i: usize = 0;
        while i < self.rows.len()
            invariant
                i <= self.rows.len(),
                forall|j: int|
                    0 <= j < i ==> !(self@[j].book == book && self@[j].rank == rank && self@[j].id
                        != except),
            decreases self.rows.len() - i,
        {
            let row = &self.rows[i];
            if row.book == book && row.rank == rank && row.id != except {
                return true;
            }
            i += 1;
        }
        false
    }

    /// Tells whether a shift would keep every rank it touches within the
    /// 32-bit range.
    pub fn can_shift(&self, book: u128, from: i32, to: Option<i32>, delta: i32) -> (fits: bool)
        ensures
            fits == shift_fits(self@, book, from, to, delta),
    {
        let mut i: usize = 0;
        while i < self.rows.len()
            invariant
                i <= self.rows.len(),
                forall|j: int|
                    0 <= j < i && touched(#[trigger] self@[j], book, from, to) ==> i32::MIN
                        <= self@[j].rank + delta <= i32::MAX,
            decreases self.rows.len() - i,
        {
            let row = &self.rows[i];
            if row.book == book && rank_in_span(row.rank, from, to) {
                if row.rank.checked_add(delta).is_none() {
                    assert(touched(self@[i as int], book, from, to));
                    return false;
                }
            }
            i += 1;
        }
        true
    }

    /// Adds `delta` to the rank of every row of `book` whose rank lies in
    /// the span from `from` up to, but not including, `to`, and returns how
    /// many rows that were. The statement is refused as a whole, and the
    /// table left as it was, if one of those ranks would leave the 32-bit
    /// range.
    pub fn shift(&mut self, book: u128, from: i32, to: Option<i32>, delta: i32) -> (done: ApiResult<
        usize,
    >)
        ensures
            match done {
                Ok(count) => {
                    &&& shift_fits(old(self)@, book, from, to, delta)
                    &&& final(self)@ == shift_rows(old(self)@, book, from, to, delta)
                    &&& count == touched_rows(old(self)@, book, from, to).len()
                },
                Err(error) => {
                    &&& !shift_fits(old(self)@, book, from, to, delta)
                    &&& error == StoreError::StoreFailure
                    &&& final(self)@ == old(self)@
                },
            },
    {
        if !self.can_shift(book, from, to, delta) {
            return Err(StoreError::StoreFailure);
        }
        Ok(self.shift_all(book, from, to, delta))
    }

    fn shift_all(&mut self, book: u128, from: i32, to: Option<i32>, delta: i32) -> (count: usize)
        requires
            shift_fits(old(self)@, book, from, to, delta),
        ensures
            final(self)@ == shift_rows(old(self)@, book, from, to, delta),
            count == touched_rows(old(self)@, book, from, to).len(),
    {
        let ghost before = self@;
        let mut rows = self.take_rows();
        let mut count: usize = 0;
        let mut i: usize = 0;
        assert(before.take(0) =~= Seq::<Bookfragment>::empty());
        while i < rows.len()
            invariant
                i <= rows.len(),
                rows@.len() == before.len(),
                ids_unique(before),
                shift_fits(before, book, from, to, delta),
                forall|j: int| 0 <= j < i ==> rows@[j] == shift_row(before[j], book, from, to, delta),
                forall|j: int| i <= j < before.len() ==> rows@[j] == before[j],
                count == touched_rows(before.take(i as int), book, from, to).len(),
                count <= i,
            decreases rows.len() - i,
        {
            proof {
                assert(before.take(i + 1) =~= before.take(i as int).push(before[i as int]));
                before.take(i as int).lemma_filter_push(
                    before[i as int],
                    |row: Bookfragment| touched(row, book, from, to),
                );
            }
            if rows[i].book == book && rank_in_span(rows[i].rank, from, to) {
                assert(touched(before[i as int], book, from, to));
                let rank = rows[i].rank;
                rows[i].rank = rank + delta;
                count += 1;
            }
            i += 1;
        }
        assert(before.take(i as int) =~= before);
        assert(rows@ =~= shift_rows(before, book, from, to, delta));
        assert(ids_unique(rows@)) by {
            assert forall|j: int| 0 <= j < rows@.len() implies #[trigger] rows@[j].id
                == before[j].id by {}
        }
        self.put_rows(rows);
        count
    }

    /// Adds `row` to the table. A row whose identifier is already present
    /// is refused and the table left as it was.
    pub fn insert(&mut self, row: Bookfragment) -> (done: ApiResult<usize>)
        ensures
            match done {
                Ok(count) => {
                    &&& count == 1
                    &&& !contains_id(old(self)@, row.id)
                    &&& final(self)@ == old(self)@.push(row)
                },
                Err(error) => {
                    &&& error == StoreError::StoreFailure
                    &&& contains_id(old(self)@, row.id)
                    &&& final(self)@ == old(self)@
                },
            },
    {
        if self.position(row.id).is_some() {
            return Err(StoreError::StoreFailure);
        }
        let mut rows = self.take_rows();
        rows.push(row);
        self.put_rows(rows);
        Ok(1)
    }

    /// Puts `row` in the place of the row that carries its identifier.
    pub fn replace(&mut self, row: Bookfragment) -> (done: ApiResult<usize>)
        ensures
            match done {
                Ok(count) => {
                    &&& count == 1
                    &&& contains_id(old(self)@, row.id)
                    &&& final(self)@ == old(self)@.update(position(old(self)@, row.id), row)
                },
                Err(error) => {
                    &&& error == StoreError::NotFound
                    &&& !contains_id(old(self)@, row.id)
                    &&& final(self)@ == old(self)@
                },
            },
    {
        match self.position(row.id) {
            Some(i) => {
                let mut rows = self.take_rows();
                rows[i] = row;
                self.put_rows(rows);
                Ok(1)
            },
            None => Err(StoreError::NotFound),
        }
    }

    /// Sets the rank of the row that carries `id` and leaves its other
    /// fields alone.
    pub fn set_rank(&mut self, id: u128, rank: i32) -> (done: ApiResult<usize>)
        ensures
            match done {
                Ok(count) => {
                    &&& count == 1
                    &&& contains_id(old(self)@, id)
                    &&& final(self)@ == old(self)@.update(
                        position(old(self)@, id),
                        with_rank(old(self)@[position(old(self)@, id)], rank),
                    )
                },
                Err(error) => {
                    &&& error == StoreError::NotFound
                    &&& !contains_id(old(self)@, id)
                    &&& final(self)@ == old(self)@
                },
            },
    {
        match self.position(id) {
            Some(i) => {
                let mut rows = self.take_rows();
                rows[i].rank = rank;
                self.put_rows(rows);
                Ok(1)
            },
            None => Err(StoreError::NotFound),
        }
    }

    /// Deletes the row that carries `id` and returns how many rows were
    /// deleted: one, or none where no row carries `id`. The rows behind
    /// the deleted one close up; no rank changes.
    pub fn remove(&mut self, id: u128) -> (count: usize)
        ensures
            count == if contains_id(old(self)@, id) {
                1usize
            } else {
                0usize
            },
            final(self)@ == if contains_id(old(self)@, id) {
                old(self)@.remove(position(old(self)@, id))
            } else {
                old(self)@
            },
    {
        match self.position(id) {
            Some(i) => {
                let mut rows = self.take_rows();
                rows.remove(i);
                self.put_rows(rows);
                1
            },
            None => 0,
        }
    }
}

} // verus!
