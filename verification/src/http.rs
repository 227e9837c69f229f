//! What to answer to a request for the overlay page and its assets.
//!
//! Reading the request off the socket and the files off the disk is left to
//! the owner of the listener; deciding what a request asks for, and how the
//! answer begins, is done here.

use crate::text::{
    append, begins_with, contains_text, decimal, ends_with, find_first, first_occurrence,
    from_chars, has_suffix, lemma_first_occurrence, occurs_at, slice, starts_with, to_chars,
    to_decimal,
};
use vstd::prelude::*;

verus! {

/// What a request asks for.
#[derive(Debug)]
pub enum Route {
    /// The overlay page.
    Overlay,
    /// The asset under this path, which begins with `/assets/`.
    Asset(String),
    /// Anything else under `/`: the client is sent to the overlay page.
    Redirect,
    /// Not a `GET` of anything: there is nothing to be found.
    NotFound,
    /// A request for an asset that never says where the path ends.
    Malformed,
}

/// What a [`Route`] is, as mathematics.
pub enum RouteView {
    Overlay,
    Asset(Seq<char>),
    Redirect,
    NotFound,
    Malformed,
}

impl View for Route {
    type V = RouteView;

    open spec fn view(&self) -> RouteView {
        match *self {
            Route::Overlay => RouteView::Overlay,
            Route::Asset(p) => RouteView::Asset(p@),
            Route::Redirect => RouteView::Redirect,
            Route::NotFound => RouteView::NotFound,
            Route::Malformed => RouteView::Malformed,
        }
    }
}

/// What the request `request` asks for. The path of an asset runs from
/// behind `GET ` to the first ` HTTP`.
pub open spec fn routed(request: Seq<char>) -> RouteView {
    if begins_with(request, "GET /overlay.html"@) {
        RouteView::Overlay
    } else if begins_with(request, "GET /assets/"@) {
        if contains_text(request, " HTTP"@) {
            RouteView::Asset(request.subrange(4, first_occurrence(request, " HTTP"@)))
        } else {
            RouteView::Malformed
        }
    } else if begins_with(request, "GET /"@) {
        RouteView::Redirect
    } else {
        RouteView::NotFound
    }
}

/// The content type that goes with a path, by its ending.
pub open spec fn content_type_of(path: Seq<char>) -> Seq<char> {
    if ends_with(path, ".png"@) {
        "image/png"@
    } else if ends_with(path, ".jpg"@) || ends_with(path, ".jpeg"@) {
        "image/jpeg"@
    } else if ends_with(path, ".svg"@) {
        "image/svg+xml"@
    } else if ends_with(path, ".css"@) {
        "text/css"@
    } else if ends_with(path, ".js"@) {
        "application/javascript"@
    } else if ends_with(path, ".ttf"@) {
        "font/ttf"@
    } else if ends_with(path, ".woff"@) {
        "font/woff"@
    } else if ends_with(path, ".woff2"@) {
        "font/woff2"@
    } else {
        "application/octet-stream"@
    }
}

/// The head of an answer that carries `length` bytes of `content_type`.
pub open spec fn head_of(content_type: Seq<char>, length: nat) -> Seq<char> {
    "HTTP/1.1 200 OK\r\nContent-Type: "@ + content_type + "\r\nContent-Length: "@ + decimal(length)
        + "\r\nAccess-Control-Allow-Origin: *\r\nConnection: close\r\n\r\n"@
}

/// An occurrence of ` HTTP` in a request for an asset lies behind `GET `.
proof fn lemma_path_end_is_behind_get(request: Seq<char>, i: int)
    requires
        begins_with(request, "GET /assets/"@),
        occurs_at(request, " HTTP"@, i),
    ensures
        i >= 4,
{
    reveal_strlit("GET /assets/");
    reveal_strlit(" HTTP");
    let head = "GET /assets/"@;
    let pat = " HTTP"@;
    let found = request.subrange(i, i + pat.len());
    let start = request.subrange(0, head.len() as int);
    assert(start == head);
    assert(found == pat);
    if i < 4 {
        assert(found[0] == request[i]);
        assert(found[1] == request[i + 1]);
        assert(start[i] == request[i]);
        assert(start[i + 1] == request[i + 1]);
        assert(pat[0] == ' ');
        assert(pat[1] == 'H');
        assert(head[0] == 'G');
        assert(head[1] == 'E');
        assert(head[2] == 'T');
        assert(head[3] == ' ');
        assert(head[4] == '/');
    }
}

/// Decides what a request asks for.
pub fn route_request(request: &str) -> (r: Route)
    ensures
        r@ == routed(request@),
{
    let chars = to_chars(request);
    if starts_with(&chars, &to_chars("GET /overlay.html")) {
        Route::Overlay
    } else if starts_with(&chars, &to_chars("GET /assets/")) {
        match find_first(&chars, &to_chars(" HTTP")) {
            Some(end) => {
                proof {
                    lemma_first_occurrence(chars@, " HTTP"@, end as int);
                    lemma_path_end_is_behind_get(chars@, end as int);
                }
                Route::Asset(from_chars(&slice(&chars, 4, end)))
            },
            None => Route::Malformed,
        }
    } else if starts_with(&chars, &to_chars("GET /")) {
        Route::Redirect
    } else {
        Route::NotFound
    }
}

/// The content type that goes with a path, by its ending.
pub fn content_type_for(path: &str) -> (r: &'static str)
    ensures
        r@ == content_type_of(path@),
{
    let chars = to_chars(path);
    if has_suffix(&chars, &to_chars(".png")) {
        "image/png"
    } else if has_suffix(&chars, &to_chars(".jpg")) || has_suffix(&chars, &to_chars(".jpeg")) {
        "image/jpeg"
    } else if has_suffix(&chars, &to_chars(".svg")) {
        "image/svg+xml"
    } else if has_suffix(&chars, &to_chars(".css")) {
        "text/css"
    } else if has_suffix(&chars, &to_chars(".js")) {
        "application/javascript"
    } else if has_suffix(&chars, &to_chars(".ttf")) {
        "font/ttf"
    } else if has_suffix(&chars, &to_chars(".woff")) {
        "font/woff"
    } else if has_suffix(&chars, &to_chars(".woff2")) {
        "font/woff2"
    } else {
        "application/octet-stream"
    }
}

/// The head of an answer that carries `length` bytes of `content_type`.
pub fn response_head(content_type: &str, length: u64) -> (r: String)
    ensures
        r@ == head_of(content_type@, length as nat),
{
    let mut out = to_chars("HTTP/1.1 200 OK\r\nContent-Type: ");
    append(&mut out, &to_chars(content_type));
    append(&mut out, &to_chars("\r\nContent-Length: "));
    append(&mut out, &to_decimal(length));
    append(
        &mut out,
        &to_chars("\r\nAccess-Control-Allow-Origin: *\r\nConnection: close\r\n\r\n"),
    );
    from_chars(&out)
}

/// The answer that sends a client to the overlay page.
pub fn redirect_response() -> (r: &'static str)
    ensures
        r@ == "HTTP/1.1 302 Found\r\nLocation: /overlay.html\r\nConnection: close\r\n\r\n"@,
{
    "HTTP/1.1 302 Found\r\nLocation: /overlay.html\r\nConnection: close\r\n\r\n"
}

} // verus!
