//! Requests on authors.
use vstd::prelude::*;
use vstd::string::StringExecFns;
use crate::ident::{fresh_id, is_random_id};
use crate::models::Author;
use crate::server::{Failure, Status};

verus! {

/// What a client sends to create an author.
#[derive(Debug, Clone)]
pub struct UserInput {
    pub firstname: Option<String>,
    pub lastname: Option<String>,
    pub penname: Option<String>,
}

/// The author that `input` describes, under the identifier `id`.
pub open spec fn author_of(input: UserInput, id: u128) -> Author {
    Author { id, firstname: input.firstname, lastname: input.lastname, penname: input.penname }
}

impl UserInput {
    /// Tells whether at least one of the names is given.
    pub fn is_valid(&self) -> (valid: bool)
        ensures
            valid == !(self.firstname is None && self.lastname is None && self.penname is None),
    {
        !(self.firstname.is_none() && self.lastname.is_none() && self.penname.is_none())
    }

    /// The author that this input describes, under the identifier `id`.
    pub fn into_author(self, id: u128) -> (author: Author)
        ensures
            author == author_of(self, id),
    {
        Author { id, firstname: self.firstname, lastname: self.lastname, penname: self.penname }
    }

    /// Refuses an input that names nobody.
    pub fn check(&self) -> (checked: Result<(), Failure>)
        ensures
            match checked {
                Ok(_) => !(self.firstname is None && self.lastname is None && self.penname
                    is None),
                Err(failure) => {
                    &&& self.firstname is None && self.lastname is None && self.penname is None
                    &&& failure.status == Status::NotAcceptable
                    &&& failure.message@
                        == "At least one field must be full. Received UserInput { firstname: None, lastname: None, penname: None }"@
                },
            },
    {
        if self.is_valid() {
            Ok(())
        } else {
            Err(
                Failure {
                    status: Status::NotAcceptable,
                    message: String::from_str(
                        "At least one field must be full. Received UserInput { firstname: None, lastname: None, penname: None }",
                    ),
                },
            )
        }
    }
}

impl From<UserInput> for Author {
    /// The author that `other` describes, under a fresh identifier.
    fn from(other: UserInput) -> (author: Author)
        ensures
            author == author_of(other, author.id),
            is_random_id(author.id),
    {
        other.into_author(fresh_id())
    }
}

impl vstd::std_specs::convert::FromSpecImpl<UserInput> for Author {
    /// The identifier is drawn at random: no function of the input says
    /// what comes out.
    open spec fn obeys_from_spec() -> bool {
        false
    }

    open spec fn from_spec(other: UserInput) -> Author {
        author_of(other, 0)
    }
}

} // verus!
