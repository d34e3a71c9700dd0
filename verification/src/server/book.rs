//! Requests on books.
use vstd::prelude::*;
use vstd::string::StringExecFns;
use crate::ident::{fresh_id, is_random_id};
use crate::models::{Book, BookType};
use crate::server::{
    fails_with, not_found_or_internal_saying, not_found_text, Failure, JsonResponse, Status,
};
use crate::utils::{error_text, ApiResult, StoreError};

verus! {

/// Data the user can send to create or update a book.
#[derive(Debug, Clone)]
pub struct UserInput {
    pub title: String,
    pub author: u128,
    pub isbn: Option<Vec<Option<String>>>,
    pub cover: Option<String>,
    pub publisher: Option<String>,
    pub published: Option<chrono::NaiveDate>,
    pub genre: Option<Vec<Option<String>>>,
    pub synopsis: Option<String>,
    pub booktype: BookType,
}

/// The book that `input` describes, under the identifier `id`.
pub open spec fn book_of(input: UserInput, id: u128) -> Book {
    Book {
        id,
        title: input.title,
        author: input.author,
        isbn: input.isbn,
        cover: input.cover,
        publisher: input.publisher,
        published: input.published,
        genre: input.genre,
        synopsis: input.synopsis,
        booktype: input.booktype,
    }
}

impl UserInput {
    /// The book that this input describes, under the identifier `id`.
    pub fn into_book(self, id: u128) -> (book: Book)
        ensures
            book == book_of(self, id),
    {
        Book {
            id,
            title: self.title,
            author: self.author,
            isbn: self.isbn,
            cover: self.cover,
            publisher: self.publisher,
            published: self.published,
            genre: self.genre,
            synopsis: self.synopsis,
            booktype: self.booktype,
        }
    }
}

impl From<UserInput> for Book {
    /// The book that `other` describes, under a fresh identifier.
    fn from(other: UserInput) -> (book: Book)
        ensures
            book == book_of(other, book.id),
            is_random_id(book.id),
    {
        other.into_book(fresh_id())
    }
}

impl vstd::std_specs::convert::FromSpecImpl<UserInput> for Book {
    /// The identifier is drawn at random: no function of the input says
    /// what comes out.
    open spec fn obeys_from_spec() -> bool {
        false
    }

    open spec fn from_spec(other: UserInput) -> Book {
        book_of(other, 0)
    }
}

/// The digit `digit` as text.
pub open spec fn digit_text(digit: nat) -> Seq<char> {
    if digit == 0 {
        "0"@
    } else if digit == 1 {
        "1"@
    } else if digit == 2 {
        "2"@
    } else if digit == 3 {
        "3"@
    } else if digit == 4 {
        "4"@
    } else if digit == 5 {
        "5"@
    } else if digit == 6 {
        "6"@
    } else if digit == 7 {
        "7"@
    } else if digit == 8 {
        "8"@
    } else {
        "9"@
    }
}

/// The decimal digits of `n`, most significant first.
pub open spec fn decimal(n: nat) -> Seq<char>
    decreases n,
{
    if n < 10 {
        digit_text(n)
    } else {
        decimal(n / 10) + digit_text(n % 10)
    }
}

/// The digit `digit` as text.
fn digit_str(digit: usize) -> (text: &'static str)
    requires
        digit < 10,
    ensures
        text@ == digit_text(digit as nat),
{
    if digit == 0 {
        "0"
    } else if digit == 1 {
        "1"
    } else if digit == 2 {
        "2"
    } else if digit == 3 {
        "3"
    } else if digit == 4 {
        "4"
    } else if digit == 5 {
        "5"
    } else if digit == 6 {
        "6"
    } else if digit == 7 {
        "7"
    } else if digit == 8 {
        "8"
    } else {
        "9"
    }
}

/// `count` in decimal digits.
fn count_text(count: usize) -> (text: String)
    ensures
        text@ == decimal(count as nat),
    decreases count,
{
    if count < 10 {
        String::from_str(digit_str(count))
    } else {
        count_text(count / 10).concat(digit_str(count % 10))
    }
}

/// The message that says that an update touched `count` books where it
/// should have touched one.
pub open spec fn miscount_text(count: usize) -> Seq<char> {
    "Something went wrong, "@ + decimal(count as nat) + " books updated"@
}

/// The answer to an update of the book `id`, given what the store said
/// and, where it failed, the words `text` in which it said so: success
/// if exactly one row was updated, an internal server error if another
/// number was, not found if the book is missing, and an internal server
/// error in the words of the store otherwise.
pub fn update_reply_saying(result: ApiResult<usize>, text: String, id: u128) -> (response:
    JsonResponse<()>)
    ensures
        match result {
            Ok(count) => if count == 1 {
                response is Ok
            } else {
                fails_with(response, Status::InternalServerError, miscount_text(count))
            },
            Err(StoreError::NotFound) => fails_with(
                response,
                Status::NotFound,
                not_found_text("Book"@, id),
            ),
            Err(_) => fails_with(response, Status::InternalServerError, text@),
        },
{
    match result {
        Ok(count) => if count == 1 {
            Ok(())
        } else {
            let written = count_text(count);
            let message = String::from_str("Something went wrong, ").concat(
                written.as_str(),
            ).concat(" books updated");
            Err(Failure { status: Status::InternalServerError, message })
        },
        Err(error) => Err(not_found_or_internal_saying(error, text, "Book", id)),
    }
}

/// The answer to an update of the book `id`, given what the store said:
/// success if exactly one row was updated, an internal server error if
/// another number was, not found if the book is missing, and an internal
/// server error with the text of the failure otherwise.
pub fn update_reply(result: ApiResult<usize>, id: u128) -> (response: JsonResponse<()>)
    ensures
        match result {
            Ok(count) => if count == 1 {
                response is Ok
            } else {
                fails_with(response, Status::InternalServerError, miscount_text(count))
            },
            Err(StoreError::NotFound) => fails_with(
                response,
                Status::NotFound,
                not_found_text("Book"@, id),
            ),
            Err(error) => fails_with(response, Status::InternalServerError, error_text(error)),
        },
{
    let text = match result {
        Ok(_) => String::new(),
        Err(error) => error.message(),
    };
    update_reply_saying(result, text, id)
}

} // verus!
