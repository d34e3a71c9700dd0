use alexandria::db::book::{advanced_find, SearchQuery};
use alexandria::db::contains_pattern;
use alexandria::fragment::Simple;
use alexandria::models::{Author, Book, BookType, Bookfragment, ImageType, SoundType};
use alexandria::server::author::UserInput as AuthorInput;
use alexandria::server::book::{update_reply, update_reply_saying, UserInput as BookInput};
use alexandria::server::fragment::{
    delete, get, list, new, new_with_id, reorder, update, ToRank, UserInput as FragmentInput,
};
use alexandria::server::routes::{rocket, Handler, Method, Mount, Path, Route};
use alexandria::server::{
    internal_error, internal_error_saying, is_valid, json_val_or_error, json_val_or_not_found,
    not_found_or_internal, not_found_or_internal_saying, ApiKey, ApiKeyError, ApiResponse,
    AuthorJson, BookFragmentJson, BookJson, Failure, Status,
};
use alexandria::table::FragmentTable;
use alexandria::utils::StoreError;

const ID: u128 = 0xa1a2a3a4_b1b2_c1c2_d1d2_d3d4d5d6d7d8;
const BOOK: u128 = 0x0000000f_0000_4000_8000_00000000b00c;

fn input(rank: i32) -> FragmentInput {
    FragmentInput {
        content: String::from("It was a dark and stormy night"),
        oneshotsoundsource: None,
        bgsoundtype: SoundType::Url,
        bgsoundsource: Some(String::from("rain.ogg")),
        imgtype: ImageType::NoImage,
        imgsource: None,
        book: BOOK,
        chapter: 1,
        rank,
    }
}

fn stored(id: u128, rank: i32) -> Bookfragment {
    input(rank).into_fragment(id)
}

fn failure(status: Status, message: &str) -> Failure {
    Failure { status, message: String::from(message) }
}

fn listed(table: &FragmentTable) -> Vec<(u128, i32)> {
    list(table, BOOK).unwrap().iter().map(|simple: &Simple| (simple.uuid, simple.rank)).collect()
}

fn book(id: u128, booktype: BookType, genre: Option<Vec<Option<&str>>>) -> Book {
    Book {
        id,
        title: format!("Book {}", id),
        author: 1,
        isbn: None,
        cover: None,
        publisher: None,
        published: chrono::NaiveDate::from_ymd_opt(1847, 10, 16),
        genre: genre
            .map(|names| names.into_iter().map(|name| name.map(String::from)).collect()),
        synopsis: None,
        booktype,
    }
}

fn query(booktype: Option<BookType>, genre: Option<Vec<&str>>) -> SearchQuery {
    SearchQuery {
        name: Some(String::from("Book")),
        genre: genre.map(|names| names.into_iter().map(String::from).collect()),
        booktype,
    }
}

#[test]
fn a_request_without_the_header_is_missing_the_key() {
    assert_eq!(ApiKey::from_header(None, "secret"), Err(ApiKeyError::Missing));
}

#[test]
fn a_request_with_another_key_is_invalid() {
    assert_eq!(ApiKey::from_header(Some("guess"), "secret"), Err(ApiKeyError::Invalid));
    assert_eq!(ApiKey::from_header(Some(""), "secret"), Err(ApiKeyError::Invalid));
    assert_eq!(ApiKey::from_header(Some("secret "), "secret"), Err(ApiKeyError::Invalid));
}

#[test]
fn a_request_with_the_key_is_let_through() {
    let key = ApiKey::from_header(Some("secret"), "secret").unwrap();
    assert_eq!(key.as_str(), "secret");
    assert_eq!(ApiKey::from_header(Some("secret"), "secret"), Ok(key));
    assert_eq!(ApiKeyError::Missing.status(), Status::BadRequest);
    assert_eq!(ApiKeyError::Invalid.status(), Status::BadRequest);
    assert_eq!(ApiKeyError::Invalid.status().code(), 400);
    assert!(is_valid("secret", "secret"));
    assert!(!is_valid("Secret", "secret"));
}

#[test]
fn status_codes() {
    assert_eq!(Status::BadRequest.code(), 400);
    assert_eq!(Status::NotFound.code(), 404);
    assert_eq!(Status::NotAcceptable.code(), 406);
    assert_eq!(Status::InternalServerError.code(), 500);
}

#[test]
fn a_failure_of_the_store_is_an_internal_server_error() {
    assert_eq!(json_val_or_error(Ok::<i32, StoreError>(7)), Ok(7));
    assert_eq!(
        json_val_or_error(Err::<i32, StoreError>(StoreError::NotFound)),
        Err(failure(Status::InternalServerError, "Record not found"))
    );
    assert_eq!(
        json_val_or_error(Err::<i32, StoreError>(StoreError::StoreFailure)),
        Err(failure(Status::InternalServerError, "The store refused the statement"))
    );
    assert_eq!(
        ApiResponse::from_error(StoreError::StoreFailure),
        ApiResponse { code: 500, message: String::from("The store refused the statement") }
    );
}

#[test]
fn a_missing_record_is_reported_with_its_identifier() {
    assert_eq!(json_val_or_not_found(Ok::<i32, StoreError>(7), "Book", ID), Ok(7));
    assert_eq!(
        json_val_or_not_found(Err::<i32, StoreError>(StoreError::NotFound), "Book", ID),
        Err(failure(Status::NotFound, "Book ID a1a2a3a4-b1b2-c1c2-d1d2-d3d4d5d6d7d8 not found"))
    );
    assert_eq!(
        json_val_or_not_found(Err::<i32, StoreError>(StoreError::NotFound), "Author", 0x1f),
        Err(failure(
            Status::NotFound,
            "Author ID 00000000-0000-0000-0000-00000000001f not found"
        ))
    );
    assert_eq!(
        json_val_or_not_found(Err::<i32, StoreError>(StoreError::InvariantRisk), "Book", ID),
        Err(failure(
            Status::InternalServerError,
            "Rank collision, nothing was changed; try again"
        ))
    );
}

#[test]
fn a_failure_in_the_words_of_the_store() {
    let words = String::from("connection reset by peer");
    assert_eq!(
        internal_error_saying(words.clone()),
        failure(Status::InternalServerError, "connection reset by peer")
    );
    assert_eq!(
        internal_error(StoreError::InvariantRisk),
        failure(Status::InternalServerError, "Rank collision, nothing was changed; try again")
    );
    assert_eq!(
        not_found_or_internal_saying(StoreError::StoreFailure, words.clone(), "Book", ID),
        failure(Status::InternalServerError, "connection reset by peer")
    );
    assert_eq!(
        not_found_or_internal_saying(StoreError::InvariantRisk, words.clone(), "Book", ID),
        failure(Status::InternalServerError, "connection reset by peer")
    );
    assert_eq!(
        not_found_or_internal_saying(StoreError::NotFound, words.clone(), "Book", ID),
        failure(Status::NotFound, "Book ID a1a2a3a4-b1b2-c1c2-d1d2-d3d4d5d6d7d8 not found")
    );
    assert_eq!(
        not_found_or_internal(StoreError::StoreFailure, "Book", ID),
        failure(Status::InternalServerError, "The store refused the statement")
    );
    assert_eq!(
        ApiResponse::saying(words.clone()),
        ApiResponse { code: 500, message: words.clone() }
    );
    assert_eq!(update_reply_saying(Ok(1), String::new(), ID), Ok(()));
    assert_eq!(
        update_reply_saying(Ok(2), words.clone(), ID),
        Err(failure(Status::InternalServerError, "Something went wrong, 2 books updated"))
    );
    assert_eq!(
        update_reply_saying(Err(StoreError::StoreFailure), words.clone(), ID),
        Err(failure(Status::InternalServerError, "connection reset by peer"))
    );
    assert_eq!(
        update_reply_saying(Err(StoreError::NotFound), words, ID),
        Err(failure(Status::NotFound, "Book ID a1a2a3a4-b1b2-c1c2-d1d2-d3d4d5d6d7d8 not found"))
    );
}

#[test]
fn the_answers_of_the_plain_server() {
    let author = AuthorJson {
        id: String::from("00000000-0000-0000-0000-000000000007"),
        first_name: String::from("Emily"),
        last_name: String::from("Brontë"),
        alias: String::from("Ellis Bell"),
    };
    let book = BookJson {
        id: String::from("00000000-0000-0000-0000-000000000008"),
        name: String::from("Wuthering Heights"),
        author: author.clone(),
        isbns: vec![String::from("978-0141439556")],
        cover: String::new(),
        publisher: None,
        published: Some(String::from("1847-12-01")),
        genres: vec![String::from("gothic")],
        synopsis: None,
        book_type: String::from("Novel"),
    };
    let fragment = BookFragmentJson {
        book: book.clone(),
        rank: 1,
        text: String::from("1801. I have just returned from a visit to my landlord"),
        one_shot_sound_source: None,
    };
    assert_eq!(fragment.book.author, author);
    assert_eq!(fragment.clone(), fragment);
    assert_eq!(book.author.alias, "Ellis Bell");
}

#[test]
fn a_search_by_name_is_sent_between_wildcards() {
    assert_eq!(contains_pattern("Heights"), "%Heights%");
    assert_eq!(contains_pattern(""), "%%");
    assert_eq!(query(None, None).title_pattern(), "%Book%");
    let nameless = SearchQuery { name: None, genre: None, booktype: None };
    assert_eq!(nameless.title_pattern(), "%%");
}

#[test]
fn an_update_of_a_book_has_to_touch_one_row() {
    assert_eq!(update_reply(Ok(1), ID), Ok(()));
    assert_eq!(
        update_reply(Ok(0), ID),
        Err(failure(Status::InternalServerError, "Something went wrong, 0 books updated"))
    );
    assert_eq!(
        update_reply(Ok(1204), ID),
        Err(failure(Status::InternalServerError, "Something went wrong, 1204 books updated"))
    );
    assert_eq!(
        update_reply(Err(StoreError::NotFound), ID),
        Err(failure(Status::NotFound, "Book ID a1a2a3a4-b1b2-c1c2-d1d2-d3d4d5d6d7d8 not found"))
    );
    assert_eq!(
        update_reply(Err(StoreError::StoreFailure), ID),
        Err(failure(Status::InternalServerError, "The store refused the statement"))
    );
}

#[test]
fn an_author_needs_a_name() {
    let nobody = AuthorInput { firstname: None, lastname: None, penname: None };
    assert!(!nobody.is_valid());
    assert_eq!(
        nobody.check(),
        Err(failure(
            Status::NotAcceptable,
            "At least one field must be full. Received UserInput { firstname: None, lastname: None, penname: None }"
        ))
    );
    assert_eq!(
        nobody.check().unwrap_err().message,
        format!("At least one field must be full. Received {:?}", nobody)
    );
    for (firstname, lastname, penname) in [
        (Some("Emily"), None, None),
        (None, Some("Brontë"), None),
        (None, None, Some("Ellis Bell")),
        (Some("Emily"), Some("Brontë"), Some("Ellis Bell")),
    ] {
        let somebody = AuthorInput {
            firstname: firstname.map(String::from),
            lastname: lastname.map(String::from),
            penname: penname.map(String::from),
        };
        assert!(somebody.is_valid());
        assert_eq!(somebody.check(), Ok(()));
    }
}

#[test]
fn an_author_from_input() {
    let somebody = AuthorInput {
        firstname: Some(String::from("Emily")),
        lastname: None,
        penname: Some(String::from("Ellis Bell")),
    };
    let expected = Author {
        id: ID,
        firstname: Some(String::from("Emily")),
        lastname: None,
        penname: Some(String::from("Ellis Bell")),
    };
    assert_eq!(somebody.clone().into_author(ID), expected);
    let fresh = Author::from(somebody.clone());
    assert_eq!(fresh, Author { id: fresh.id, ..expected });
    assert_eq!((fresh.id >> 76) & 0xf, 4);
    assert_eq!((fresh.id >> 62) & 0x3, 2);
    assert_ne!(Author::from(somebody).id, fresh.id);
}

#[test]
fn a_book_from_input() {
    let sent = BookInput {
        title: String::from("Wuthering Heights"),
        author: 7,
        isbn: Some(vec![Some(String::from("978-0141439556")), None]),
        cover: None,
        publisher: Some(String::from("Thomas Cautley Newby")),
        published: chrono::NaiveDate::from_ymd_opt(1847, 12, 1),
        genre: Some(vec![Some(String::from("gothic"))]),
        synopsis: None,
        booktype: BookType::Novel,
    };
    let expected = Book {
        id: ID,
        title: String::from("Wuthering Heights"),
        author: 7,
        isbn: Some(vec![Some(String::from("978-0141439556")), None]),
        cover: None,
        publisher: Some(String::from("Thomas Cautley Newby")),
        published: chrono::NaiveDate::from_ymd_opt(1847, 12, 1),
        genre: Some(vec![Some(String::from("gothic"))]),
        synopsis: None,
        booktype: BookType::Novel,
    };
    assert_eq!(sent.clone().into_book(ID), expected);
    let fresh = Book::from(sent);
    assert_eq!(fresh, Book { id: fresh.id, ..expected });
    assert_eq!((fresh.id >> 76) & 0xf, 4);
    assert_eq!((fresh.id >> 62) & 0x3, 2);
}

#[test]
fn a_fragment_from_input() {
    let expected = Bookfragment {
        id: ID,
        content: String::from("It was a dark and stormy night"),
        oneshotsoundsource: None,
        bgsoundtype: SoundType::Url,
        bgsoundsource: Some(String::from("rain.ogg")),
        imgtype: ImageType::NoImage,
        imgsource: None,
        book: BOOK,
        chapter: 1,
        rank: 3,
    };
    assert_eq!(input(3).into_fragment(ID), expected);
    let fresh = Bookfragment::from(input(3));
    assert_eq!(fresh, Bookfragment { id: fresh.id, ..expected });
    assert_eq!((fresh.id >> 76) & 0xf, 4);
    assert_eq!((fresh.id >> 62) & 0x3, 2);
    assert_ne!(Bookfragment::from(input(3)).id, fresh.id);
}

#[test]
fn the_routes_of_the_server() {
    let routes = rocket();
    assert_eq!(routes.len(), 15);
    assert_eq!(
        routes[0],
        Route {
            mount: Mount::Author,
            method: Method::Get,
            path: Path::Root,
            handler: Handler::AuthorList,
            keyed: false
        }
    );
    assert_eq!(
        routes[11],
        Route {
            mount: Mount::Book,
            method: Method::Get,
            path: Path::Fragments,
            handler: Handler::FragmentList,
            keyed: false
        }
    );
    assert_eq!(
        routes[14],
        Route {
            mount: Mount::Fragment,
            method: Method::Put,
            path: Path::Reorder,
            handler: Handler::FragmentReorder,
            keyed: true
        }
    );
    let keyed: Vec<Handler> =
        routes.iter().filter(|route| route.keyed).map(|route| route.handler).collect();
    assert_eq!(
        keyed,
        vec![
            Handler::AuthorNew,
            Handler::AuthorDelete,
            Handler::BookNew,
            Handler::BookDelete,
            Handler::FragmentDelete,
            Handler::FragmentReorder
        ]
    );
    for (i, route) in routes.iter().enumerate() {
        assert_eq!(*route, route.handler.route());
        for other in &routes[i + 1..] {
            assert!(
                (route.mount, route.method, route.path) != (other.mount, other.method, other.path)
            );
        }
    }
}

#[test]
fn mounts_and_paths_as_text() {
    assert_eq!(Mount::Author.base(), "/author");
    assert_eq!(Mount::Book.base(), "/book");
    assert_eq!(Mount::Fragment.base(), "/fragment");
    assert_eq!(Path::Root.pattern(), "/");
    assert_eq!(Path::Find.pattern(), "/find?<name>");
    assert_eq!(Path::Id.pattern(), "/<id>");
    assert_eq!(Path::Fragments.pattern(), "/<book_id>/fragments");
    assert_eq!(Path::Reorder.pattern(), "/<id>/reorder");
}

#[test]
fn a_search_needs_the_type_and_every_genre() {
    let gothic_novel = book(1, BookType::Novel, Some(vec![Some("gothic"), None, Some("romance")]));
    let wanted = query(Some(BookType::Novel), Some(vec!["romance", "gothic"]));
    assert!(wanted.matches(&gothic_novel));
    assert!(query(Some(BookType::Novel), Some(vec![])).matches(&gothic_novel));
    assert!(!query(Some(BookType::Poem), Some(vec!["gothic"])).matches(&gothic_novel));
    assert!(!query(Some(BookType::Novel), Some(vec!["gothic", "horror"])).matches(&gothic_novel));
    assert!(!query(None, Some(vec!["gothic"])).matches(&gothic_novel));
    assert!(!query(Some(BookType::Novel), None).matches(&gothic_novel));
    assert!(!wanted.matches(&book(2, BookType::Novel, None)));
    assert!(!wanted.matches(&book(3, BookType::Novel, Some(vec![Some("Gothic"), Some("romance")]))));
}

#[test]
fn an_advanced_search_keeps_the_books_that_answer_in_their_order() {
    let books = vec![
        book(1, BookType::Novel, Some(vec![Some("gothic")])),
        book(2, BookType::Poem, Some(vec![Some("gothic")])),
        book(3, BookType::Novel, None),
        book(4, BookType::Novel, Some(vec![Some("romance"), Some("gothic")])),
        book(5, BookType::ShortStory, Some(vec![Some("gothic")])),
    ];
    let found = advanced_find(books.clone(), &query(Some(BookType::Novel), Some(vec!["gothic"])));
    assert_eq!(found, vec![books[0].clone(), books[3].clone()]);
    assert_eq!(advanced_find(books.clone(), &query(None, Some(vec!["gothic"]))), vec![]);
    assert_eq!(advanced_find(vec![], &query(Some(BookType::Novel), Some(vec![]))), vec![]);
}

#[test]
fn fragment_requests() {
    let key = ApiKey::from_header(Some("secret"), "secret").unwrap();
    let mut table = FragmentTable::new();
    assert_eq!(list(&table, BOOK), Ok(vec![]));
    for (id, rank) in [(1, 1), (2, 2), (3, 3)] {
        assert_eq!(new_with_id(&mut table, input(rank), id), Ok(()));
    }
    assert_eq!(
        new_with_id(&mut table, input(1), 3),
        Err(failure(Status::InternalServerError, "The store refused the statement"))
    );
    assert_eq!(new(&mut table, input(2)), Ok(()));
    let fresh = list(&table, BOOK).unwrap()[1].uuid;
    assert_eq!((fresh >> 76) & 0xf, 4);
    assert_eq!(listed(&table), vec![(1, 1), (fresh, 2), (2, 3), (3, 4)]);

    assert_eq!(get(&table, 2), Ok(stored(2, 3)));
    assert_eq!(
        get(&table, ID),
        Err(failure(
            Status::NotFound,
            "Fragment with ID a1a2a3a4-b1b2-c1c2-d1d2-d3d4d5d6d7d8 not found"
        ))
    );

    assert_eq!(reorder(&mut table, 3, ToRank { to: 1 }, key), Ok(()));
    assert_eq!(listed(&table), vec![(3, 1), (1, 2), (fresh, 3), (2, 4)]);
    assert_eq!(
        reorder(&mut table, ID, ToRank { to: 1 }, key),
        Err(failure(Status::NotFound, "Fragment ID a1a2a3a4-b1b2-c1c2-d1d2-d3d4d5d6d7d8 not found"))
    );

    assert_eq!(update(&mut table, stored(2, 1)), Ok(()));
    assert_eq!(listed(&table), vec![(2, 1), (3, 2), (1, 3), (fresh, 4)]);
    assert_eq!(
        update(&mut table, stored(ID, 1)),
        Err(failure(Status::NotFound, "Fragment ID a1a2a3a4-b1b2-c1c2-d1d2-d3d4d5d6d7d8 not found"))
    );
    let mut elsewhere = stored(77, 4);
    elsewhere.book = 5;
    assert_eq!(alexandria::fragment::new(&mut table, elsewhere), Ok(1));
    let mut leaving = stored(1, 4);
    leaving.book = 5;
    assert_eq!(
        update(&mut table, leaving),
        Err(failure(
            Status::InternalServerError,
            "Rank collision, nothing was changed; try again"
        ))
    );

    assert_eq!(delete(&mut table, 3, key), Ok(()));
    assert_eq!(listed(&table), vec![(2, 1), (1, 3), (fresh, 4)]);
    assert_eq!(
        delete(&mut table, 3, key),
        Err(failure(Status::InternalServerError, "Record not found"))
    );
}
