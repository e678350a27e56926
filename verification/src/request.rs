//! What a connection handler decides between reading a request and writing
//! the response: which page answers the request, and what is sent back.

use vstd::prelude::*;
use vstd::string::StringExecFns;

verus! {

/// The request line that asks for the main page: `GET / HTTP/1.1`, followed
/// by a carriage return and a line feed.
pub const ROOT_REQUEST_LINE: [u8; 16] = [
    0x47, 0x45, 0x54, 0x20, 0x2f, 0x20, 0x48, 0x54, 0x54, 0x50, 0x2f, 0x31, 0x2e, 0x31, 0x0d, 0x0a,
];

/// The page that answers a request.
#[derive(Clone, Copy, PartialEq, Eq, Debug, Structural)]
pub enum Page {
    /// The main page, for a request that begins with [`ROOT_REQUEST_LINE`].
    Main,
    /// The page that says that nothing was found, for every other request.
    NotFound,
}

impl Page {
    /// The status line and the empty line that open the response.
    pub open spec fn status_text(self) -> Seq<char> {
        match self {
            Page::Main => "HTTP/1.1 200 OK\r\n\r\n"@,
            Page::NotFound => "HTTP/1.1 404 NOT FOUND\r\n\r\n"@,
        }
    }

    /// The name of the file that holds the page.
    pub open spec fn file_text(self) -> Seq<char> {
        match self {
            Page::Main => "main.html"@,
            Page::NotFound => "404.html"@,
        }
    }

    /// The status line and the empty line that open the response.
    pub fn status_line(self) -> (line: &'static str)
        ensures
            line@ == self.status_text(),
    {
        match self {
            Page::Main => "HTTP/1.1 200 OK\r\n\r\n",
            Page::NotFound => "HTTP/1.1 404 NOT FOUND\r\n\r\n",
        }
    }

    /// The name of the file that holds the page.
    pub fn file_name(self) -> (name: &'static str)
        ensures
            name@ == self.file_text(),
    {
        match self {
            Page::Main => "main.html",
            Page::NotFound => "404.html",
        }
    }
}

/// Whether `request` begins with the request line for the main page.
pub open spec fn asks_for_root(request: Seq<u8>) -> bool {
    ROOT_REQUEST_LINE@.is_prefix_of(request)
}

/// Chooses the page that answers `request`: the main page if the request
/// begins with the request line for it, the not-found page otherwise.
pub fn select_page(request: &[u8]) -> (page: Page)
    ensures
        page == if asks_for_root(request@) {
            Page::Main
        } else {
            Page::NotFound
        },
{
    let line = ROOT_REQUEST_LINE;
    if request.len() < line.len() {
        return Page::NotFound;
    }
    let mut i: usize = 0;
    while i < line.len()
        invariant
            i <= line@.len(),
            line@.len() <= request@.len(),
            line@ == ROOT_REQUEST_LINE@,
            forall|j: int| 0 <= j < i ==> request@[j] == line@[j],
        decreases line@.len() - i,
    {
        if request[i] != line[i] {
            proof {
                assert(request@.subrange(0, line@.len() as int)[i as int] != line@[i as int]);
            }
            return Page::NotFound;
        }
        i += 1;
    }
    proof {
        assert(line@ =~= request@.subrange(0, line@.len() as int));
    }
    Page::Main
}

/// Puts the response together: the status line of `page`, an empty line,
/// and then `contents`.
pub fn compose_response(page: Page, contents: &str) -> (response: String)
    ensures
        response@ == page.status_text() + contents@,
{
    String::from_str(page.status_line()).concat(contents)
}

} // verus!
