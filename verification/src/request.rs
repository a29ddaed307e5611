//! The small web server that the pool was made for: which page a request
//! gets.
use vstd::prelude::*;

verus! {

/// The first line of a request for the front page: `GET / HTTP/1.1`,
/// carriage return, line feed.
pub const GET_HOME: [u8; 16] = [71, 69, 84, 32, 47, 32, 72, 84, 84, 80, 47, 49, 46, 49, 13, 10];

/// The first line of a request for the slow page: `GET /sleep HTTP/1.1`,
/// carriage return, line feed.
pub const GET_SLEEP: [u8; 21] = [
    71, 69, 84, 32, 47, 115, 108, 101, 101, 112, 32, 72, 84, 84, 80, 47, 49, 46, 49, 13, 10,
];

/// What the server answers to a request.
#[derive(Clone, Copy, Debug, PartialEq, Eq, Structural)]
pub enum Route {
    /// The front page, at once.
    Home,
    /// The front page, after a pause.
    Sleep,
    /// The page that says that there is no such page.
    NotFound,
}

/// The answer to the request that `bytes` begins with.
pub open spec fn route_of(bytes: Seq<u8>) -> Route {
    if GET_HOME@.is_prefix_of(bytes) {
        Route::Home
    } else if GET_SLEEP@.is_prefix_of(bytes) {
        Route::Sleep
    } else {
        Route::NotFound
    }
}

/// Whether `bytes` begins with `prefix`.
pub fn starts_with(bytes: &[u8], prefix: &[u8]) -> (found: bool)
    ensures
        found == prefix@.is_prefix_of(bytes@),
{
    if prefix.len() > bytes.len() {
        return false;
    }
    let mut i: usize = 0;
    while i < prefix.len()
        invariant
            i <= prefix@.len() <= bytes@.len(),
            forall|j: int| 0 <= j < i ==> prefix@[j] == bytes@[j],
        decreases prefix.len() - i,
    {
        if prefix[i] != bytes[i] {
            return false;
        }
        i = i + 1;
    }
    true
}

/// Reads the request in `buffer` as far as the server cares: which page
/// it asks for.
pub fn route(buffer: &[u8]) -> (answer: Route)
    ensures
        answer == route_of(buffer@),
{
    let home = GET_HOME;
    let sleep = GET_SLEEP;
    if starts_with(buffer, home.as_slice()) {
        Route::Home
    } else if starts_with(buffer, sleep.as_slice()) {
        Route::Sleep
    } else {
        Route::NotFound
    }
}

impl Route {
    /// The status line of the answer, with the empty line that ends the
    /// head of the response.
    pub fn status_line(&self) -> (line: &'static str)
        ensures
            line@ == if *self == Route::NotFound {
                "HTTP/1.1 404 NOT FOUND\r\n\r\n"@
            } else {
                "HTTP/1.1 200 OK\r\n\r\n"@
            },
    {
        match self {
            Route::Home => "HTTP/1.1 200 OK\r\n\r\n",
            Route::Sleep => "HTTP/1.1 200 OK\r\n\r\n",
            Route::NotFound => "HTTP/1.1 404 NOT FOUND\r\n\r\n",
        }
    }

    /// The name of the file that holds the body of the answer.
    pub fn page(&self) -> (name: &'static str)
        ensures
            name@ == if *self == Route::NotFound {
                "404.html"@
            } else {
                "hello.html"@
            },
    {
        match self {
            Route::Home => "hello.html",
            Route::Sleep => "hello.html",
            Route::NotFound => "404.html",
        }
    }

    /// For how many seconds the server holds the answer back.
    pub fn delay_secs(&self) -> (secs: u64)
        ensures
            secs == if *self == Route::Sleep {
                5u64
            } else {
                0u64
            },
    {
        match self {
            Route::Home => 0,
            Route::Sleep => 5,
            Route::NotFound => 0,
        }
    }
}

} // verus!
