//! The file server's routing rule. The listener that accepts connections
//! and the file reads live with the host; the decision which status line and
//! which file answer a request line is made here.

use vstd::prelude::*;
use vstd::string::StringExecFns;

verus! {

/// Whether `request_line` is the one request this server answers with a
/// page.
pub fn is_get_root(request_line: &str) -> (r: bool)
    ensures
        r == (request_line@ == "GET / HTTP/1.1"@),
{
    let line = String::from_str(request_line);
    let target = String::from_str("GET / HTTP/1.1");
    line.eq(&target)
}

/// Picks the status line and the file that answer a request line: the root
/// request gets the greeting page, anything else the not-found page.
pub fn route(request_line: &str) -> (r: (&'static str, &'static str))
    ensures
        request_line@ == "GET / HTTP/1.1"@ ==> r.0@ == "HTTP/1.1 200 OK"@ && r.1@
            == "../static/hello.html"@,
        request_line@ != "GET / HTTP/1.1"@ ==> r.0@ == "HTTP/1.1 404 NOT FOUND"@ && r.1@
            == "../static/404.html"@,
{
    if is_get_root(request_line) {
        ("HTTP/1.1 200 OK", "../static/hello.html")
    } else {
        ("HTTP/1.1 404 NOT FOUND", "../static/404.html")
    }
}

} // verus!
