//! The request-line parsing and routing decisions of the static file server
//! that serves the rendered output: the surrounding socket and file work
//! stays outside the library.

use vstd::prelude::*;

use crate::strutil::str_eq;

verus! {

/// Index of the first carriage-return/line-feed pair in `s`, or `s.len()`
/// when there is none.
pub open spec fn first_crlf(s: Seq<char>) -> int
    decreases s.len(),
{
    if s.len() < 2 {
        s.len() as int
    } else if s[0] == '\r' && s[1] == '\n' {
        0
    } else {
        1 + first_crlf(s.skip(1))
    }
}

/// Index of the first occurrence of `c` in `s`, or `s.len()` when there is
/// none.
pub open spec fn first_char(s: Seq<char>, c: char) -> int
    decreases s.len(),
{
    if s.len() == 0 {
        0
    } else if s[0] == c {
        0
    } else {
        1 + first_char(s.skip(1), c)
    }
}

/// The request's status line: everything before the first line break.
pub open spec fn status_line_of(s: Seq<char>) -> Seq<char> {
    s.take(first_crlf(s))
}

pub proof fn lemma_first_crlf(s: Seq<char>)
    ensures
        0 <= first_crlf(s) <= s.len(),
        first_crlf(s) == s.len() || (first_crlf(s) + 1 < s.len() && s[first_crlf(s)] == '\r'
            && s[first_crlf(s) + 1] == '\n'),
        forall|j: int|
            0 <= j < first_crlf(s) && j + 1 < s.len() ==> !(s[j] == '\r' && #[trigger] s[j + 1]
                == '\n'),
    decreases s.len(),
{
    if s.len() >= 2 && !(s[0] == '\r' && s[1] == '\n') {
        lemma_first_crlf(s.skip(1));
        assert forall|j: int|
            0 <= j < first_crlf(s) && j + 1 < s.len() implies !(s[j] == '\r' && #[trigger] s[j + 1]
            == '\n') by {
            if j > 0 {
                assert(s.skip(1)[j - 1] == s[j]);
                assert(s.skip(1)[j] == s[j + 1]);
            }
        }
    }
}

pub proof fn lemma_first_char(s: Seq<char>, c: char)
    ensures
        0 <= first_char(s, c) <= s.len(),
        first_char(s, c) == s.len() || s[first_char(s, c)] == c,
        forall|j: int| 0 <= j < first_char(s, c) ==> s[j] != c,
    decreases s.len(),
{
    if s.len() > 0 && s[0] != c {
        lemma_first_char(s.skip(1), c);
        assert forall|j: int| 0 <= j < first_char(s, c) implies s[j] != c by {
            if j > 0 {
                assert(s.skip(1)[j - 1] == s[j]);
            }
        }
    }
}

/// Find the first line break, as `first_crlf` names it.
fn find_crlf(s: &str) -> (r: usize)
    ensures
        r == first_crlf(s@),
{
    let len = s.unicode_len();
    if len < 2 {
        proof {
            lemma_first_crlf(s@);
        }
        return len;
    }
    let mut i: usize = 0;
    while i + 1 < len
        invariant
            len == s@.len(),
            i + 1 <= len,
            forall|j: int|
                0 <= j < i && j + 1 < s@.len() ==> !(s@[j] == '\r' && #[trigger] s@[j + 1] == '\n'),
        decreases len - i,
    {
        if s.get_char(i) == '\r' && s.get_char(i + 1) == '\n' {
            proof {
                lemma_first_crlf(s@);
            }
            return i;
        }
        i = i + 1;
    }
    proof {
        lemma_first_crlf(s@);
    }
    len
}

/// Find the first occurrence of `c`, as `first_char` names it.
fn find_char(s: &str, c: char) -> (r: usize)
    ensures
        r == first_char(s@, c),
{
    let len = s.unicode_len();
    for i in 0..len
        invariant
            len == s@.len(),
            forall|j: int| 0 <= j < i ==> s@[j] != c,
    {
        if s.get_char(i) == c {
            proof {
                lemma_first_char(s@, c);
            }
            return i;
        }
    }
    proof {
        lemma_first_char(s@, c);
    }
    len
}

/// Struct representing the barebones for a generic HTTP request.
pub struct HttpRequest {
    pub method: String,
    pub uri: String,
}

impl HttpRequest {
    /// Split the request's status line into the method (before the first
    /// space) and the URI (between the first space and the space or line end
    /// after it). A status line without any space does not form a request.
    pub fn new(request_data: String) -> (req: HttpRequest)
        requires
            first_char(status_line_of(request_data@), ' ') < status_line_of(
                request_data@,
            ).len(),
        ensures
            ({
                let sl = status_line_of(request_data@);
                let p = first_char(sl, ' ');
                let q = first_char(sl.skip(p + 1), ' ');
                &&& req.method@ == sl.take(p)
                &&& req.uri@ == sl.subrange(p + 1, p + 1 + q)
            }),
    {
        let data = request_data.as_str();
        let ghost sl = status_line_of(request_data@);

        /* the status line is GET / HTTP/1.1 etc */
        let sl_end = find_crlf(data);
        proof {
            lemma_first_crlf(data@);
        }
        let status_line = data.substring_char(0, sl_end);

        /* this grabs the method, like GET */
        let p = find_char(status_line, ' ');
        proof {
            lemma_first_char(sl, ' ');
        }
        let method = status_line.substring_char(0, p).to_owned();

        /* this grabs the URI, like / */
        let tail = status_line.substring_char(p + 1, sl_end);
        let q = find_char(tail, ' ');
        proof {
            lemma_first_char(tail@, ' ');
        }
        let uri = tail.substring_char(0, q).to_owned();
        proof {
            assert(uri@ =~= sl.subrange(p + 1, p + 1 + first_char(sl.skip(p + 1), ' ')));
        }

        HttpRequest { method, uri }
    }
}

/// What the server decides to do with a parsed request.
#[derive(PartialEq, Eq, Structural, Debug)]
pub enum RouteOutcome {
    Serve,
    NotFound,
    NotImplemented,
}

/// The file a URI asks for: the index page for the bare root, otherwise the
/// URI itself.
pub fn resolve_filename(uri: &str) -> (r: String)
    ensures
        uri@ == "/"@ ==> r@ == "index.html"@,
        uri@ != "/"@ ==> r@ == uri@,
{
    if str_eq(uri, "/") {
        "index.html".to_owned()
    } else {
        uri.to_owned()
    }
}

/// The label the content type is built from: scripts are served as
/// `javascript`, anything else under its own extension.
pub fn mime_label(ext: &str) -> (r: String)
    ensures
        ext@ == "js"@ ==> r@ == "javascript"@,
        ext@ != "js"@ ==> r@ == ext@,
{
    if str_eq(ext, "js") {
        "javascript".to_owned()
    } else {
        ext.to_owned()
    }
}

/// How a request is answered: only GET is implemented, and only for files
/// that exist under the served root.
pub fn route(method: &str, file_exists: bool) -> (r: RouteOutcome)
    ensures
        method@ == "GET"@ && file_exists ==> r == RouteOutcome::Serve,
        method@ == "GET"@ && !file_exists ==> r == RouteOutcome::NotFound,
        method@ != "GET"@ ==> r == RouteOutcome::NotImplemented,
{
    if str_eq(method, "GET") {
        if file_exists {
            RouteOutcome::Serve
        } else {
            RouteOutcome::NotFound
        }
    } else {
        RouteOutcome::NotImplemented
    }
}

} // verus!
