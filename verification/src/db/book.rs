//! Searching books.
use vstd::prelude::*;
use crate::db::{containing, contains_pattern};
use crate::models::{Book, BookType};

verus! {

/// Advanced search query for books.
///
/// A book answers the query if it is of the type asked for and lists
/// every genre asked for. A query that leaves out the type or the genres
/// is answered by no book.
#[derive(Debug, Clone)]
pub struct SearchQuery {
    pub name: Option<String>,
    pub genre: Option<Vec<String>>,
    pub booktype: Option<BookType>,
}

/// `genre` is among `listed`.
pub open spec fn genre_listed(listed: Seq<Option<String>>, genre: String) -> bool {
    exists|i: int| 0 <= i < listed.len() && listed[i] is Some && listed[i].unwrap()@ == genre@
}

/// Every genre of `wanted` is among `listed`.
pub open spec fn genres_covered(listed: Seq<Option<String>>, wanted: Seq<String>) -> bool {
    forall|j: int| 0 <= j < wanted.len() ==> genre_listed(listed, #[trigger] wanted[j])
}

/// `book` answers `search`.
pub open spec fn answers(search: SearchQuery, book: Book) -> bool {
    &&& search.booktype == Some(book.booktype)
    &&& search.genre is Some
    &&& book.genre is Some
    &&& genres_covered(book.genre.unwrap()@, search.genre.unwrap()@)
}

/// Tells whether `genre` is among `listed`.
fn lists_genre(listed: &Vec<Option<String>>, genre: &String) -> (found: bool)
    ensures
        found == genre_listed(listed@, *genre),
{
    let mut i: usize = 0;
    while i < listed.len()
        invariant
            i <= listed.len(),
            forall|k: int| 0 <= k < i ==> !(listed@[k] is Some && listed@[k].unwrap()@ == genre@),
        decreases listed.len() - i,
    {
        match &listed[i] {
            Some(name) => {
                if *name == *genre {
                    return true;
                }
            },
            None => {},
        }
        i += 1;
    }
    false
}

/// Tells whether every genre of `wanted` is among `listed`.
fn covers_genres(listed: &Vec<Option<String>>, wanted: &Vec<String>) -> (covered: bool)
    ensures
        covered == genres_covered(listed@, wanted@),
{
    let mut j: usize = 0;
    while j < wanted.len()
        invariant
            j <= wanted.len(),
            forall|k: int| 0 <= k < j ==> genre_listed(listed@, #[trigger] wanted@[k]),
        decreases wanted.len() - j,
    {
        if !lists_genre(listed, &wanted[j]) {
            return false;
        }
        j += 1;
    }
    true
}

impl SearchQuery {
    /// The pattern the titles of the books are matched against: one that
    /// matches every title that contains the name asked for, and every
    /// title where no name is asked for.
    pub fn title_pattern(&self) -> (pattern: String)
        ensures
            pattern@ == containing(
                match self.name {
                    Some(name) => name@,
                    None => Seq::<char>::empty(),
                },
            ),
    {
        match &self.name {
            Some(name) => contains_pattern(name.as_str()),
            None => {
                let pattern = contains_pattern("");
                proof {
                    reveal_strlit("");
                    assert(""@ =~= Seq::<char>::empty());
                }
                pattern
            },
        }
    }

    /// Tells whether `book` answers the query.
    pub fn matches(&self, book: &Book) -> (answer: bool)
        ensures
            answer == answers(*self, *book),
    {
        let of_type = match self.booktype {
            Some(booktype) => booktype == book.booktype,
            None => false,
        };
        if !of_type {
            return false;
        }
        match &self.genre {
            Some(wanted) => match &book.genre {
                Some(listed) => covers_genres(listed, wanted),
                None => false,
            },
            None => false,
        }
    }
}

/// Do an advanced search for books.
///
/// Keeps, of the books whose title matched, those that answer `search`,
/// in the order in which they came.
pub fn advanced_find(books: Vec<Book>, search: &SearchQuery) -> (found: Vec<Book>)
    ensures
        found@ == books@.filter(|book: Book| answers(*search, book)),
{
    let ghost all = books@;
    let mut found: Vec<Book> = Vec::new();
    proof {
        assert(all.take(0) =~= Seq::<Book>::empty());
    }
    for book in it: books
        invariant
            it.seq() == all,
            found@ == all.take(it.index() as int).filter(|book: Book| answers(*search, book)),
    {
        proof {
            let i = it.index() as int;
            assert(all.take(i + 1) =~= all.take(i).push(all[i]));
            all.take(i).lemma_filter_push(all[i], |book: Book| answers(*search, book));
        }
        if search.matches(&book) {
            found.push(book);
        }
    }
    assert(all.take(all.len() as int) =~= all);
    found
}

} // verus!
