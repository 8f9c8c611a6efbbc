//! Request-line parsing, routing, and the exact wire responses.

use vstd::prelude::*;
use vstd::string::StrSliceExecFns;
use vstd::string::StringExecFns;
use crate::digits::dec_rep;
use crate::digits::usize_to_string;
use crate::store::UrlShortener;
use crate::store::is_valid_code;
use crate::store::spec_resolve;

verus! {

/// ASCII whitespace, as the request line is split on.
pub open spec fn is_space(c: char) -> bool {
    c == ' ' || c == '\t' || c == '\r' || c == '\n' || c == '\u{c}'
}

/// The first index at or after `i` holding a non-space character, or the end.
pub open spec fn skip_spaces(s: Seq<char>, i: nat) -> nat
    decreases s.len() - i,
{
    if i >= s.len() {
        s.len()
    } else if is_space(s[i as int]) {
        skip_spaces(s, i + 1)
    } else {
        i
    }
}

/// The first index at or after `i` holding a space, or the end.
pub open spec fn scan_token(s: Seq<char>, i: nat) -> nat
    decreases s.len() - i,
{
    if i >= s.len() {
        s.len()
    } else if is_space(s[i as int]) {
        i
    } else {
        scan_token(s, i + 1)
    }
}

/// The first index at or after `i` holding something other than `/`, or the end.
pub open spec fn skip_slashes(s: Seq<char>, i: nat) -> nat
    decreases s.len() - i,
{
    if i >= s.len() {
        s.len()
    } else if s[i as int] == '/' {
        skip_slashes(s, i + 1)
    } else {
        i
    }
}

/// The first index at or after `i` holding `'='`, or the end.
pub open spec fn find_eq(s: Seq<char>, i: nat) -> nat
    decreases s.len() - i,
{
    if i >= s.len() {
        s.len()
    } else if s[i as int] == '=' {
        i
    } else {
        find_eq(s, i + 1)
    }
}

/// The method token: the first whitespace-separated token of the line.
pub open spec fn spec_method(line: Seq<char>) -> Seq<char> {
    let a = skip_spaces(line, 0);
    let b = scan_token(line, a);
    line.subrange(a as int, b as int)
}

/// The path token: the second whitespace-separated token of the line.
pub open spec fn spec_path(line: Seq<char>) -> Seq<char> {
    let a = skip_spaces(line, 0);
    let b = scan_token(line, a);
    let c = skip_spaces(line, b);
    let d = scan_token(line, c);
    line.subrange(c as int, d as int)
}

/// The path with every leading `/` removed.
pub open spec fn spec_strip_slashes(s: Seq<char>) -> Seq<char> {
    s.subrange(skip_slashes(s, 0) as int, s.len() as int)
}

/// The long URL in a body of the form `key=value`: the text between the first
/// `=` and the second `=` or the end; empty when the body holds no `=`.
pub open spec fn spec_long_url(body: Seq<char>) -> Seq<char> {
    let p = find_eq(body, 0);
    if p == body.len() {
        Seq::empty()
    } else {
        body.subrange(p as int + 1, find_eq(body, (p + 1) as nat) as int)
    }
}

fn is_space_char(c: char) -> (b: bool)
    ensures
        b == is_space(c),
{
    c == ' ' || c == '\t' || c == '\r' || c == '\n' || c == '\u{c}'
}

fn skip_spaces_exec(line: &str, start: usize) -> (j: usize)
    requires
        start as nat <= line@.len(),
    ensures
        start <= j,
        j as nat <= line@.len(),
        j as nat == skip_spaces(line@, start as nat),
{
    let n = line.unicode_len();
    let mut i: usize = start;
    loop
        invariant
            start <= i,
            i as nat <= line@.len(),
            n as nat == line@.len(),
            skip_spaces(line@, start as nat) == skip_spaces(line@, i as nat),
        ensures
            i as nat == skip_spaces(line@, start as nat),
            start <= i,
            i as nat <= line@.len(),
        decreases line@.len() - i as nat,
    {
        if i >= n {
            break;
        }
        let c = line.get_char(i);
        if !is_space_char(c) {
            break;
        }
        i = i + 1;
    }
    i
}

fn scan_token_exec(line: &str, start: usize) -> (j: usize)
    requires
        start as nat <= line@.len(),
    ensures
        start <= j,
        j as nat <= line@.len(),
        j as nat == scan_token(line@, start as nat),
{
    let n = line.unicode_len();
    let mut i: usize = start;
    loop
        invariant
            start <= i,
            i as nat <= line@.len(),
            n as nat == line@.len(),
            scan_token(line@, start as nat) == scan_token(line@, i as nat),
        ensures
            i as nat == scan_token(line@, start as nat),
            start <= i,
            i as nat <= line@.len(),
        decreases line@.len() - i as nat,
    {
        if i >= n {
            break;
        }
        let c = line.get_char(i);
        if is_space_char(c) {
            break;
        }
        i = i + 1;
    }
    i
}

/// Splits the request line into its first two whitespace-separated tokens,
/// method and path; a missing token comes back empty.
pub fn parse_request_line(line: &str) -> (r: (String, String))
    ensures
        r.0@ == spec_method(line@),
        r.1@ == spec_path(line@),
{
    let a = skip_spaces_exec(line, 0);
    let b = scan_token_exec(line, a);
    let method = String::from_str(line.substring_char(a, b));
    let c = skip_spaces_exec(line, b);
    let d = scan_token_exec(line, c);
    let path = String::from_str(line.substring_char(c, d));
    (method, path)
}

/// Removes every leading `/` from the path, leaving the short code.
pub fn strip_leading_slashes(path: &str) -> (r: String)
    ensures
        r@ == spec_strip_slashes(path@),
{
    let n = path.unicode_len();
    let mut i: usize = 0;
    loop
        invariant
            i as nat <= path@.len(),
            n as nat == path@.len(),
            skip_slashes(path@, 0) == skip_slashes(path@, i as nat),
        ensures
            i as nat == skip_slashes(path@, 0),
            i as nat <= path@.len(),
        decreases path@.len() - i as nat,
    {
        if i >= n {
            break;
        }
        if path.get_char(i) != '/' {
            break;
        }
        i = i + 1;
    }
    String::from_str(path.substring_char(i, n))
}

fn find_eq_exec(body: &str, start: usize) -> (j: usize)
    requires
        start as nat <= body@.len(),
    ensures
        start <= j,
        j as nat <= body@.len(),
        j as nat == find_eq(body@, start as nat),
{
    let n = body.unicode_len();
    let mut i: usize = start;
    loop
        invariant
            start <= i,
            i as nat <= body@.len(),
            n as nat == body@.len(),
            find_eq(body@, start as nat) == find_eq(body@, i as nat),
        ensures
            i as nat == find_eq(body@, start as nat),
            start <= i,
            i as nat <= body@.len(),
        decreases body@.len() - i as nat,
    {
        if i >= n {
            break;
        }
        if body.get_char(i) == '=' {
            break;
        }
        i = i + 1;
    }
    i
}

/// Extracts the long URL from the request body, permissively: everything
/// between the first `=` and the next `=` or the end; empty without an `=`.
pub fn extract_long_url(body: &str) -> (r: String)
    ensures
        r@ == spec_long_url(body@),
{
    let n = body.unicode_len();
    let p = find_eq_exec(body, 0);
    if p >= n {
        let r = String::new();
        proof {
            assert(r@ =~= spec_long_url(body@));
        }
        r
    } else {
        let q = find_eq_exec(body, p + 1);
        String::from_str(body.substring_char(p + 1, q))
    }
}

/// Compares two string slices character by character.
pub fn str_eq(a: &str, b: &str) -> (r: bool)
    ensures
        r == (a@ == b@),
{
    let na = a.unicode_len();
    let nb = b.unicode_len();
    if na != nb {
        return false;
    }
    let mut i: usize = 0;
    while i < na
        invariant
            i <= na,
            na as nat == a@.len(),
            na as nat == b@.len(),
            forall|j: int| 0 <= j < i ==> a@[j] == b@[j],
        decreases na - i,
    {
        if a.get_char(i) != b.get_char(i) {
            return false;
        }
        i = i + 1;
    }
    proof {
        assert(a@ =~= b@);
    }
    true
}

/// One parsed request, as the dispatch sees it.
pub enum Request {
    /// A lookup of the path stripped of its leading slashes.
    Get { code: String },
    /// A registration of the URL carried in the body.
    Shorten,
    /// Anything else: refused.
    Other,
}

/// Classifies the two request-line tokens: any `GET` is a lookup,
/// `POST /shorten` is a registration, and everything else is refused.
pub fn route(method: &str, path: &str) -> (r: Request)
    ensures
        method@ == "GET"@ ==> (r matches Request::Get { code } && code@ == spec_strip_slashes(
            path@,
        )),
        method@ != "GET"@ && method@ == "POST"@ && path@ == "/shorten"@ ==> r is Shorten,
        method@ != "GET"@ && !(method@ == "POST"@ && path@ == "/shorten"@) ==> r is Other,
{
    if str_eq(method, "GET") {
        Request::Get { code: strip_leading_slashes(path) }
    } else if str_eq(method, "POST") && str_eq(path, "/shorten") {
        Request::Shorten
    } else {
        Request::Other
    }
}

/// The root-page response: 200 with the document and its length.
/// The length counts characters, which equals the byte count for an
/// ASCII document.
pub open spec fn spec_ok_response(body: Seq<char>) -> Seq<char> {
    "HTTP/1.1 200 OK\r\nContent-Length: "@ + dec_rep(body.len()) + "\r\n\r\n"@ + body
}

/// The redirect response: 302 with the resolved URL in `Location`.
pub open spec fn spec_redirect_response(url: Seq<char>) -> Seq<char> {
    "HTTP/1.1 302 Found\r\nLocation: "@ + url + "\r\n\r\n"@
}

/// The response for an unknown alias: 404 with an empty body.
pub open spec fn spec_not_found_response() -> Seq<char> {
    "HTTP/1.1 404 Not Found\r\nContent-Length: 0\r\n\r\n"@
}

/// The registration response: 201 with the short code as body.
pub open spec fn spec_created_response(code: Seq<char>) -> Seq<char> {
    "HTTP/1.1 201 Created\r\nContent-Length: "@ + dec_rep(code.len()) + "\r\n\r\n"@ + code
}

/// The response for an unsupported method or path: 405 with an empty body.
pub open spec fn spec_method_not_allowed_response() -> Seq<char> {
    "HTTP/1.1 405 Method Not Allowed\r\nContent-Length: 0\r\n\r\n"@
}

/// Builds the 200 response around the root document.
pub fn ok_response(body: &str) -> (r: String)
    ensures
        r@ == spec_ok_response(body@),
{
    let mut s = String::from_str("HTTP/1.1 200 OK\r\nContent-Length: ");
    let len_str = usize_to_string(body.unicode_len());
    s.append(len_str.as_str());
    s.append("\r\n\r\n");
    s.append(body);
    proof {
        assert(s@ =~= spec_ok_response(body@));
    }
    s
}

/// Builds the 302 response pointing at the resolved URL.
pub fn redirect_response(url: &str) -> (r: String)
    ensures
        r@ == spec_redirect_response(url@),
{
    let mut s = String::from_str("HTTP/1.1 302 Found\r\nLocation: ");
    s.append(url);
    s.append("\r\n\r\n");
    proof {
        assert(s@ =~= spec_redirect_response(url@));
    }
    s
}

/// Builds the 404 response.
pub fn not_found_response() -> (r: String)
    ensures
        r@ == spec_not_found_response(),
{
    String::from_str("HTTP/1.1 404 Not Found\r\nContent-Length: 0\r\n\r\n")
}

/// Builds the 201 response carrying the short code.
pub fn created_response(code: &str) -> (r: String)
    ensures
        r@ == spec_created_response(code@),
{
    let mut s = String::from_str("HTTP/1.1 201 Created\r\nContent-Length: ");
    let len_str = usize_to_string(code.unicode_len());
    s.append(len_str.as_str());
    s.append("\r\n\r\n");
    s.append(code);
    proof {
        assert(s@ =~= spec_created_response(code@));
    }
    s
}

/// Builds the 405 response.
pub fn method_not_allowed_response() -> (r: String)
    ensures
        r@ == spec_method_not_allowed_response(),
{
    String::from_str("HTTP/1.1 405 Method Not Allowed\r\nContent-Length: 0\r\n\r\n")
}

/// Serves a lookup: a known code redirects to its URL, an empty unknown code
/// serves the root document, and any other unknown code is a 404.
pub fn handle_get(store: &UrlShortener, code: &str, index_contents: &str) -> (resp: String)
    ensures
        spec_resolve(store@, code@) matches Some(url) ==> resp@ == spec_redirect_response(url),
        spec_resolve(store@, code@) is None && code@.len() == 0 ==> resp@ == spec_ok_response(
            index_contents@,
        ),
        spec_resolve(store@, code@) is None && code@.len() != 0 ==> resp@
            == spec_not_found_response(),
{
    match store.resolve(code) {
        Some(url) => redirect_response(url.as_str()),
        None => {
            if code.is_empty() {
                ok_response(index_contents)
            } else {
                not_found_response()
            }
        },
    }
}

/// Serves a registration: extracts the long URL from the body, stores it
/// under a fresh code, and answers 201 with that code. Returns the response
/// and the code it carries.
pub fn handle_shorten(store: &mut UrlShortener, body: &str) -> (r: (String, String))
    requires
        old(store).wf(),
    ensures
        final(store).wf(),
        is_valid_code(r.1@),
        final(store)@ == old(store)@.insert(r.1@, spec_long_url(body@)),
        r.0@ == spec_created_response(r.1@),
{
    let long = extract_long_url(body);
    let short = store.shorten(long);
    let resp = created_response(short.as_str());
    (resp, short)
}

} // verus!
