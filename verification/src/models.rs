//! Rows of the catalogue, as plain values.
use vstd::prelude::*;

verus! {

/// A calendar date, kept by the `chrono` crate. The catalogue stores and
/// hands back dates and never looks inside one.
#[verifier::external_type_specification]
#[verifier::external_body]
pub struct ExNaiveDate(chrono::NaiveDate);

/// One row of the author table.
///
/// Every name may be missing, but an author has either a pen name or a
/// first and a last name.
#[derive(Debug, Clone, PartialEq, Eq)]
pub struct Author {
    pub id: u128,
    pub firstname: Option<String>,
    pub lastname: Option<String>,
    pub penname: Option<String>,
}

/// Different types of books.
#[derive(Debug, Clone, Copy, PartialEq, Eq, Structural)]
pub enum BookType {
    Novel,
    ShortStory,
    Poem,
}

/// One row of the book table.
#[derive(Debug, Clone, PartialEq, Eq)]
pub struct Book {
    pub id: u128,
    pub title: String,
    pub author: u128,
    pub isbn: Option<Vec<Option<String>>>,
    pub cover: Option<String>,
    pub publisher: Option<String>,
    pub published: Option<chrono::NaiveDate>,
    pub genre: Option<Vec<Option<String>>>,
    pub synopsis: Option<String>,
    pub booktype: BookType,
}

/// The type of image used as the background for a fragment.
///
/// - `NoImage`: no background image
/// - `Url`: the image named by `imgsource`
/// - `Auto`: an image looked up from the keywords in `imgsource`
/// - `Same`: keep the image of the previous fragment
#[derive(Debug, Clone, Copy, PartialEq, Eq, Structural)]
pub enum ImageType {
    NoImage,
    Url,
    Auto,
    Same,
}

/// The type of background sound used for a fragment.
///
/// - `NoSound`: no background sound
/// - `Url`: the sound named by `bgsoundsource`
/// - `Same`: keep the sound of the previous fragment
#[derive(Debug, Clone, Copy, PartialEq, Eq, Structural)]
pub enum SoundType {
    NoSound,
    Url,
    Same,
}

/// One row of the fragment table.
///
/// `id` is the primary key and `book` the key of the owning book, both
/// 128-bit identifiers. `rank` orders the fragment among the fragments of
/// its book; `chapter` is a grouping label that plays no part in the
/// ordering. The remaining fields are payload.
#[derive(Debug, PartialEq, Eq)]
pub struct Bookfragment {
    pub id: u128,
    pub content: String,
    pub oneshotsoundsource: Option<String>,
    pub bgsoundtype: SoundType,
    pub bgsoundsource: Option<String>,
    pub imgtype: ImageType,
    pub imgsource: Option<String>,
    pub book: u128,
    pub chapter: i32,
    pub rank: i32,
}

impl Clone for Bookfragment {
    fn clone(&self) -> (copy: Self)
        ensures
            copy == *self,
    {
        Bookfragment {
            id: self.id,
            content: self.content.clone(),
            oneshotsoundsource: self.oneshotsoundsource.clone(),
            bgsoundtype: self.bgsoundtype,
            bgsoundsource: self.bgsoundsource.clone(),
            imgtype: self.imgtype,
            imgsource: self.imgsource.clone(),
            book: self.book,
            chapter: self.chapter,
            rank: self.rank,
        }
    }
}

} // verus!
