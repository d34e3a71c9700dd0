//! The routes of the server.
use vstd::prelude::*;

verus! {

/// The method of a request.
#[derive(Debug, Clone, Copy, PartialEq, Eq, Structural)]
pub enum Method {
    Get,
    Post,
    Put,
    Delete,
}

/// Where a group of routes is mounted.
#[derive(Debug, Clone, Copy, PartialEq, Eq, Structural)]
pub enum Mount {
    /// `/author`
    Author,
    /// `/book`
    Book,
    /// `/fragment`
    Fragment,
}

/// The path of a route below its mount point.
#[derive(Debug, Clone, Copy, PartialEq, Eq, Structural)]
pub enum Path {
    /// `/`
    Root,
    /// `/find?<name>`
    Find,
    /// `/<id>`
    Id,
    /// `/<book_id>/fragments`
    Fragments,
    /// `/<id>/reorder`
    Reorder,
}

/// What a route does.
#[derive(Debug, Clone, Copy, PartialEq, Eq, Structural)]
pub enum Handler {
    AuthorList,
    AuthorNew,
    AuthorUpdate,
    AuthorFind,
    AuthorGet,
    AuthorDelete,
    BookList,
    BookNew,
    BookFind,
    BookGet,
    BookDelete,
    FragmentList,
    FragmentGet,
    FragmentDelete,
    FragmentReorder,
}

/// One route: the requests it answers, what it does with them, and
/// whether it asks for the key of the server.
#[derive(Debug, Clone, Copy, PartialEq, Eq, Structural)]
pub struct Route {
    pub mount: Mount,
    pub method: Method,
    pub path: Path,
    pub handler: Handler,
    pub keyed: bool,
}

/// The route for `handler`.
pub open spec fn route_of(handler: Handler) -> Route {
    match handler {
        Handler::AuthorList => Route {
            mount: Mount::Author,
            method: Method::Get,
            path: Path::Root,
            handler,
            keyed: false,
        },
        Handler::AuthorNew => Route {
            mount: Mount::Author,
            method: Method::Post,
            path: Path::Root,
            handler,
            keyed: true,
        },
        Handler::AuthorUpdate => Route {
            mount: Mount::Author,
            method: Method::Put,
            path: Path::Root,
            handler,
            keyed: false,
        },
        Handler::AuthorFind => Route {
            mount: Mount::Author,
            method: Method::Get,
            path: Path::Find,
            handler,
            keyed: false,
        },
        Handler::AuthorGet => Route {
            mount: Mount::Author,
            method: Method::Get,
            path: Path::Id,
            handler,
            keyed: false,
        },
        Handler::AuthorDelete => Route {
            mount: Mount::Author,
            method: Method::Delete,
            path: Path::Id,
            handler,
            keyed: true,
        },
        Handler::BookList => Route {
            mount: Mount::Book,
            method: Method::Get,
            path: Path::Root,
            handler,
            keyed: false,
        },
        Handler::BookNew => Route {
            mount: Mount::Book,
            method: Method::Post,
            path: Path::Root,
            handler,
            keyed: true,
        },
        Handler::BookFind => Route {
            mount: Mount::Book,
            method: Method::Get,
            path: Path::Find,
            handler,
            keyed: false,
        },
        Handler::BookGet => Route {
            mount: Mount::Book,
            method: Method::Get,
            path: Path::Id,
            handler,
            keyed: false,
        },
        Handler::BookDelete => Route {
            mount: Mount::Book,
            method: Method::Delete,
            path: Path::Id,
            handler,
            keyed: true,
        },
        Handler::FragmentList => Route {
            mount: Mount::Book,
            method: Method::Get,
            path: Path::Fragments,
            handler,
            keyed: false,
        },
        Handler::FragmentGet => Route {
            mount: Mount::Fragment,
            method: Method::Get,
            path: Path::Id,
            handler,
            keyed: false,
        },
        Handler::FragmentDelete => Route {
            mount: Mount::Fragment,
            method: Method::Delete,
            path: Path::Id,
            handler,
            keyed: true,
        },
        Handler::FragmentReorder => Route {
            mount: Mount::Fragment,
            method: Method::Put,
            path: Path::Reorder,
            handler,
            keyed: true,
        },
    }
}

/// The handlers in the order in which the server mounts them.
pub open spec fn mounted() -> Seq<Handler> {
    seq![
        Handler::AuthorList,
        Handler::AuthorNew,
        Handler::AuthorUpdate,
        Handler::AuthorFind,
        Handler::AuthorGet,
        Handler::AuthorDelete,
        Handler::BookList,
        Handler::BookNew,
        Handler::BookFind,
        Handler::BookGet,
        Handler::BookDelete,
        Handler::FragmentList,
        Handler::FragmentGet,
        Handler::FragmentDelete,
        Handler::FragmentReorder,
    ]
}

/// No two routes answer the same request.
pub open spec fn collision_free(routes: Seq<Route>) -> bool {
    forall|i: int, j: int|
        0 <= i < j < routes.len() ==> !(routes[i].mount == routes[j].mount && routes[i].method
            == routes[j].method && routes[i].path == routes[j].path)
}

impl Mount {
    /// The mount point as text.
    pub fn base(&self) -> (base: &'static str)
        ensures
            base@ == match *self {
                Mount::Author => "/author"@,
                Mount::Book => "/book"@,
                Mount::Fragment => "/fragment"@,
            },
    {
        match self {
            Mount::Author => "/author",
            Mount::Book => "/book",
            Mount::Fragment => "/fragment",
        }
    }
}

impl Path {
    /// The path as the pattern the router matches requests against.
    pub fn pattern(&self) -> (pattern: &'static str)
        ensures
            pattern@ == match *self {
                Path::Root => "/"@,
                Path::Find => "/find?<name>"@,
                Path::Id => "/<id>"@,
                Path::Fragments => "/<book_id>/fragments"@,
                Path::Reorder => "/<id>/reorder"@,
            },
    {
        match self {
            Path::Root => "/",
            Path::Find => "/find?<name>",
            Path::Id => "/<id>",
            Path::Fragments => "/<book_id>/fragments",
            Path::Reorder => "/<id>/reorder",
        }
    }
}

impl Handler {
    /// The route that leads to this handler.
    pub fn route(self) -> (route: Route)
        ensures
            route == route_of(self),
    {
        let (mount, method, path, keyed) = match self {
            Handler::AuthorList => (Mount::Author, Method::Get, Path::Root, false),
            Handler::AuthorNew => (Mount::Author, Method::Post, Path::Root, true),
            Handler::AuthorUpdate => (Mount::Author, Method::Put, Path::Root, false),
            Handler::AuthorFind => (Mount::Author, Method::Get, Path::Find, false),
            Handler::AuthorGet => (Mount::Author, Method::Get, Path::Id, false),
            Handler::AuthorDelete => (Mount::Author, Method::Delete, Path::Id, true),
            Handler::BookList => (Mount::Book, Method::Get, Path::Root, false),
            Handler::BookNew => (Mount::Book, Method::Post, Path::Root, true),
            Handler::BookFind => (Mount::Book, Method::Get, Path::Find, false),
            Handler::BookGet => (Mount::Book, Method::Get, Path::Id, false),
            Handler::BookDelete => (Mount::Book, Method::Delete, Path::Id, true),
            Handler::FragmentList => (Mount::Book, Method::Get, Path::Fragments, false),
            Handler::FragmentGet => (Mount::Fragment, Method::Get, Path::Id, false),
            Handler::FragmentDelete => (Mount::Fragment, Method::Delete, Path::Id, true),
            Handler::FragmentReorder => (Mount::Fragment, Method::Put, Path::Reorder, true),
        };
        Route { mount, method, path, handler: self, keyed }
    }
}

/// The routes of the server, in the order in which it mounts them: the
/// author routes, the book routes with the listing of a book's fragments
/// among them, and the fragment routes. No two of them answer the same
/// request.
pub fn rocket() -> (routes: Vec<Route>)
    ensures
        routes@.len() == mounted().len(),
        forall|i: int| 0 <= i < routes@.len() ==> routes@[i] == route_of(mounted()[i]),
        collision_free(routes@),
{
    let handlers: [Handler; 15] = [
        Handler::AuthorList,
        Handler::AuthorNew,
        Handler::AuthorUpdate,
        Handler::AuthorFind,
        Handler::AuthorGet,
        Handler::AuthorDelete,
        Handler::BookList,
        Handler::BookNew,
        Handler::BookFind,
        Handler::BookGet,
        Handler::BookDelete,
        Handler::FragmentList,
        Handler::FragmentGet,
        Handler::FragmentDelete,
        Handler::FragmentReorder,
    ];
    assert(handlers@ =~= mounted());
    let mut routes: Vec<Route> = Vec::new();
    let mut i: usize = 0;
    while i < 15
        invariant
            i <= 15,
            handlers@ == mounted(),
            routes@.len() == i,
            forall|k: int| 0 <= k < i ==> routes@[k] == route_of(mounted()[k]),
        decreases 15 - i,
    {
        routes.push(handlers[i].route());
        i += 1;
    }
    routes
}

} // verus!
