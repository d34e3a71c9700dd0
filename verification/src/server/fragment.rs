//! Requests on fragments.
use vstd::prelude::*;
use crate::fragment::{ranked, strictly_ascending, summaries, Simple};
use crate::ident::{fresh_id, is_random_id};
use crate::models::{Bookfragment, ImageType, SoundType};
use crate::ranking::{
    book_empty, book_rows, contains_id, create_accepted, created, deleted, moved, position,
    ranks_unique, update_accepted, updated,
};
use crate::server::{
    fails_with, json_val_or_error, json_val_or_not_found, not_found_text, ApiKey, JsonResponse,
    Status,
};
use crate::table::FragmentTable;
use crate::utils::{error_text, StoreError};

verus! {

/// The body of a reorder request: the rank the fragment is to take.
#[derive(Debug, Clone, Copy, PartialEq, Eq, Structural)]
pub struct ToRank {
    pub to: i32,
}

/// What a client sends to create a fragment.
#[derive(Debug, Clone)]
pub struct UserInput {
    pub content: String,
    pub oneshotsoundsource: Option<String>,
    pub bgsoundtype: SoundType,
    pub bgsoundsource: Option<String>,
    pub imgtype: ImageType,
    pub imgsource: Option<String>,
    pub book: u128,
    pub chapter: i32,
    pub rank: i32,
}

/// The fragment that `input` describes, under the identifier `id`.
pub open spec fn fragment_of(input: UserInput, id: u128) -> Bookfragment {
    Bookfragment {
        id,
        content: input.content,
        oneshotsoundsource: input.oneshotsoundsource,
        bgsoundtype: input.bgsoundtype,
        bgsoundsource: input.bgsoundsource,
        imgtype: input.imgtype,
        imgsource: input.imgsource,
        book: input.book,
        chapter: input.chapter,
        rank: input.rank,
    }
}

impl UserInput {
    /// The fragment that this input describes, under the identifier `id`.
    pub fn into_fragment(self, id: u128) -> (fragment: Bookfragment)
        ensures
            fragment == fragment_of(self, id),
    {
        Bookfragment {
            id,
            content: self.content,
            oneshotsoundsource: self.oneshotsoundsource,
            bgsoundtype: self.bgsoundtype,
            bgsoundsource: self.bgsoundsource,
            imgtype: self.imgtype,
            imgsource: self.imgsource,
            book: self.book,
            chapter: self.chapter,
            rank: self.rank,
        }
    }
}

impl From<UserInput> for Bookfragment {
    /// The fragment that `other` describes, under a fresh identifier.
    fn from(other: UserInput) -> (fragment: Bookfragment)
        ensures
            fragment == fragment_of(other, fragment.id),
            is_random_id(fragment.id),
    {
        other.into_fragment(fresh_id())
    }
}

impl vstd::std_specs::convert::FromSpecImpl<UserInput> for Bookfragment {
    /// The identifier is drawn at random: no function of the input says
    /// what comes out.
    open spec fn obeys_from_spec() -> bool {
        false
    }

    open spec fn from_spec(other: UserInput) -> Bookfragment {
        fragment_of(other, 0)
    }
}

/// Get all fragments of a book.
///
/// Answers with the identifier and the rank of each fragment, in
/// ascending order of rank; a book that has no fragment or does not exist
/// gives an empty list.
pub fn list(table: &FragmentTable, book_id: u128) -> (response: JsonResponse<Vec<Simple>>)
    ensures
        response is Ok,
        ranked(summaries(book_rows(table@, book_id)), response.unwrap()@),
        ranks_unique(table@) ==> strictly_ascending(response.unwrap()@),
        book_empty(table@, book_id) ==> response.unwrap()@.len() == 0,
{
    json_val_or_error(crate::fragment::list(table, book_id))
}

/// Get a fragment by ID.
///
/// # Errors
///
/// Not found if no fragment carries `id`.
pub fn get(table: &FragmentTable, id: u128) -> (response: JsonResponse<Bookfragment>)
    ensures
        match response {
            Ok(row) => contains_id(table@, id) && row == table@[position(table@, id)],
            Err(_) => !contains_id(table@, id) && fails_with(
                response,
                Status::NotFound,
                not_found_text("Fragment with"@, id),
            ),
        },
{
    json_val_or_not_found(crate::fragment::get(table, id), "Fragment with", id)
}

/// Create the fragment that `fragment` describes, under the identifier
/// `id`.
///
/// # Errors
///
/// An internal server error if the store refuses the fragment; nothing
/// has changed then.
pub fn new_with_id(table: &mut FragmentTable, fragment: UserInput, id: u128) -> (response:
    JsonResponse<()>)
    ensures
        match response {
            Ok(_) => {
                &&& create_accepted(old(table)@, fragment_of(fragment, id))
                &&& final(table)@ == created(old(table)@, fragment_of(fragment, id))
            },
            Err(_) => {
                &&& !create_accepted(old(table)@, fragment_of(fragment, id))
                &&& fails_with(
                    response,
                    Status::InternalServerError,
                    error_text(StoreError::StoreFailure),
                )
                &&& final(table)@ == old(table)@
            },
        },
        ranks_unique(old(table)@) ==> ranks_unique(final(table)@),
{
    match json_val_or_error(crate::fragment::new(table, fragment.into_fragment(id))) {
        Ok(_) => Ok(()),
        Err(failure) => Err(failure),
    }
}

/// Create a new fragment.
///
/// The fragment gets a fresh identifier. If the book already has
/// fragments, those at or after the rank of the new one move down by
/// one.
///
/// # Errors
///
/// An internal server error if the store refuses the fragment; nothing
/// has changed then.
pub fn new(table: &mut FragmentTable, fragment: UserInput) -> (response: JsonResponse<()>)
    ensures
        match response {
            Ok(_) => exists|id: u128|
                {
                    &&& is_random_id(id)
                    &&& create_accepted(old(table)@, #[trigger] fragment_of(fragment, id))
                    &&& final(table)@ == created(old(table)@, fragment_of(fragment, id))
                },
            Err(_) => {
                &&& exists|id: u128|
                    is_random_id(id) && !create_accepted(
                        old(table)@,
                        #[trigger] fragment_of(fragment, id),
                    )
                &&& fails_with(
                    response,
                    Status::InternalServerError,
                    error_text(StoreError::StoreFailure),
                )
                &&& final(table)@ == old(table)@
            },
        },
        ranks_unique(old(table)@) ==> ranks_unique(final(table)@),
{
    let id = fresh_id();
    let response = new_with_id(table, fragment, id);
    proof {
        if response is Ok {
            assert(create_accepted(old(table)@, fragment_of(fragment, id)));
        } else {
            assert(!create_accepted(old(table)@, fragment_of(fragment, id)));
        }
    }
    response
}

/// Update an existing fragment.
///
/// If another fragment of the same book holds the rank the fragment asks
/// for, the fragment is moved there first and the others make room.
///
/// # Errors
///
/// Not found if no fragment carries the identifier; an internal server
/// error if the update would carry the fragment onto a rank that is held
/// in another book. Nothing has changed then.
pub fn update(table: &mut FragmentTable, fragment: Bookfragment) -> (response: JsonResponse<()>)
    ensures
        match response {
            Ok(_) => {
                &&& update_accepted(old(table)@, fragment)
                &&& final(table)@ == updated(old(table)@, fragment)
            },
            Err(_) => {
                &&& !update_accepted(old(table)@, fragment)
                &&& if contains_id(old(table)@, fragment.id) {
                    fails_with(
                        response,
                        Status::InternalServerError,
                        error_text(StoreError::InvariantRisk),
                    )
                } else {
                    fails_with(response, Status::NotFound, not_found_text("Fragment"@, fragment.id))
                }
                &&& final(table)@ == old(table)@
            },
        },
        ranks_unique(old(table)@) ==> ranks_unique(final(table)@),
{
    let id = fragment.id;
    match json_val_or_not_found(crate::fragment::update(table, fragment), "Fragment", id) {
        Ok(_) => Ok(()),
        Err(failure) => Err(failure),
    }
}

/// Delete a fragment by ID.
///
/// # Errors
///
/// An internal server error if no fragment carries `id`.
pub fn delete(table: &mut FragmentTable, id: u128, _key: ApiKey<'_>) -> (response: JsonResponse<
    (),
>)
    ensures
        match response {
            Ok(_) => contains_id(old(table)@, id) && final(table)@ == deleted(old(table)@, id),
            Err(_) => {
                &&& !contains_id(old(table)@, id)
                &&& fails_with(
                    response,
                    Status::InternalServerError,
                    error_text(StoreError::NotFound),
                )
                &&& final(table)@ == old(table)@
            },
        },
        ranks_unique(old(table)@) ==> ranks_unique(final(table)@),
{
    json_val_or_error(crate::fragment::delete(table, id))
}

/// Reorder a book fragment.
///
/// Moves the fragment to the rank `to.to` and shifts the fragments it
/// passes. A rank beyond the end of the book makes the fragment the last
/// one.
///
/// # Errors
///
/// Not found if no fragment carries `id`.
pub fn reorder(table: &mut FragmentTable, id: u128, to: ToRank, _key: ApiKey<'_>) -> (response:
    JsonResponse<()>)
    ensures
        match response {
            Ok(_) => contains_id(old(table)@, id) && final(table)@ == moved(old(table)@, id, to.to),
            Err(_) => {
                &&& !contains_id(old(table)@, id)
                &&& fails_with(response, Status::NotFound, not_found_text("Fragment"@, id))
                &&& final(table)@ == old(table)@
            },
        },
        ranks_unique(old(table)@) ==> ranks_unique(final(table)@),
{
    match json_val_or_not_found(crate::fragment::move_frag_id(table, id, to.to), "Fragment", id) {
        Ok(_) => Ok(()),
        Err(failure) => Err(failure),
    }
}

} // verus!
