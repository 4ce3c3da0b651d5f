use vstd::prelude::*;

use crate::text::{chars_of, text_eq};

verus! {

/// Unicode `White_Space` characters, the ones `char::is_whitespace` accepts.
pub open spec fn is_unicode_whitespace(c: char) -> bool {
    let u = c as u32;
    ||| 0x09 <= u <= 0x0D
    ||| u == 0x20
    ||| u == 0x85
    ||| u == 0xA0
    ||| u == 0x1680
    ||| 0x2000 <= u <= 0x200A
    ||| u == 0x2028
    ||| u == 0x2029
    ||| u == 0x202F
    ||| u == 0x205F
    ||| u == 0x3000
}

/// Whether a character is Unicode white space.
pub fn is_whitespace(c: char) -> (b: bool)
    ensures
        b == is_unicode_whitespace(c),
{
    let u = c as u32;
    (0x09 <= u && u <= 0x0D) || u == 0x20 || u == 0x85 || u == 0xA0 || u == 0x1680 || (0x2000
        <= u && u <= 0x200A) || u == 0x2028 || u == 0x2029 || u == 0x202F || u == 0x205F || u
        == 0x3000
}

/// First index at or after `i` whose character is not white space (the
/// length when there is none).
pub open spec fn skip_space(s: Seq<char>, i: int) -> int
    decreases s.len() - i,
{
    if i >= s.len() {
        s.len() as int
    } else if is_unicode_whitespace(s[i]) {
        skip_space(s, i + 1)
    } else {
        i
    }
}

/// First index at or after `i` whose character is white space (the length
/// when there is none).
pub open spec fn skip_word(s: Seq<char>, i: int) -> int
    decreases s.len() - i,
{
    if i >= s.len() {
        s.len() as int
    } else if is_unicode_whitespace(s[i]) {
        i
    } else {
        skip_word(s, i + 1)
    }
}

/// First index in `[i, end)` holding `'?'` (`end` when there is none).
pub open spec fn find_query(s: Seq<char>, i: int, end: int) -> int
    decreases end - i,
{
    if i >= end {
        end
    } else if s[i] == '?' {
        i
    } else {
        find_query(s, i + 1, end)
    }
}

/// The path a request line asks for: the second white-space separated word
/// of the request, cut at its first `'?'`; `/` when the request has fewer
/// than two words.
pub open spec fn spec_request_path(s: Seq<char>) -> Seq<char> {
    let a = skip_space(s, skip_word(s, skip_space(s, 0)));
    if a >= s.len() {
        seq!['/']
    } else {
        s.subrange(a, find_query(s, a, skip_word(s, a)))
    }
}

/// Pages the dashboard serves.
#[derive(Debug, Clone, Copy, PartialEq, Eq, Structural)]
pub enum Route {
    Index,
    Stylesheet,
    Script,
    State,
    NotFound,
}

pub open spec fn spec_route(path: Seq<char>) -> Route {
    if path == "/"@ || path == "/index.html"@ {
        Route::Index
    } else if path == "/style.css"@ {
        Route::Stylesheet
    } else if path == "/app.js"@ {
        Route::Script
    } else if path == "/state"@ {
        Route::State
    } else {
        Route::NotFound
    }
}

pub open spec fn spec_content_type(r: Route) -> Seq<char> {
    match r {
        Route::Index => "text/html; charset=utf-8"@,
        Route::Stylesheet => "text/css; charset=utf-8"@,
        Route::Script => "application/javascript; charset=utf-8"@,
        Route::State => "application/json"@,
        Route::NotFound => "text/plain"@,
    }
}

pub open spec fn spec_status(r: Route) -> Seq<char> {
    match r {
        Route::NotFound => "404 Not Found"@,
        _ => "200 OK"@,
    }
}

/// Decimal digits of a number, most significant first, without leading zeros.
pub open spec fn spec_decimal(n: nat) -> Seq<char>
    decreases n,
{
    if n < 10 {
        seq![digit_char(n)]
    } else {
        spec_decimal(n / 10) + seq![digit_char(n % 10)]
    }
}

pub open spec fn digit_char(d: nat) -> char {
    if d == 0 { '0' }
    else if d == 1 { '1' }
    else if d == 2 { '2' }
    else if d == 3 { '3' }
    else if d == 4 { '4' }
    else if d == 5 { '5' }
    else if d == 6 { '6' }
    else if d == 7 { '7' }
    else if d == 8 { '8' }
    else { '9' }
}

/// The full HTTP answer for a route and the body that goes with it: status
/// line, content type, content length in bytes, an open CORS header, a
/// closing connection, a blank line, then the body.
pub open spec fn spec_response(r: Route, body: &str) -> Seq<char> {
    "HTTP/1.1 "@ + spec_status(r) + "\r\nContent-Type: "@ + spec_content_type(r)
        + "\r\nContent-Length: "@ + spec_decimal(body.len() as nat)
        + "\r\nAccess-Control-Allow-Origin: *\r\nConnection: close\r\n\r\n"@ + body@
}

/// The requested path of a raw request.
pub fn request_path<'a>(req: &'a str) -> (p: &'a str)
    ensures
        p@ == spec_request_path(req@),
{
    let s = chars_of(req);
    let n = s.len();
    let ghost sv = s@;
    // first word
    let mut i: usize = 0;
    while i < n && is_whitespace(s[i])
        invariant
            s@ == sv, n == sv.len(), i <= n,
            skip_space(sv, 0) == skip_space(sv, i as int),
        decreases n - i,
    {
        i += 1;
    }
    while i < n && !is_whitespace(s[i])
        invariant
            s@ == sv, n == sv.len(), i <= n,
            skip_word(sv, skip_space(sv, 0)) == skip_word(sv, i as int),
        decreases n - i,
    {
        i += 1;
    }
    // second word
    while i < n && is_whitespace(s[i])
        invariant
            s@ == sv, n == sv.len(), i <= n,
            skip_space(sv, skip_word(sv, skip_space(sv, 0))) == skip_space(sv, i as int),
        decreases n - i,
    {
        i += 1;
    }
    let start = i;
    if start >= n {
        proof {
            reveal_strlit("/");
        }
        return "/";
    }
    let mut end = start;
    while end < n && !is_whitespace(s[end])
        invariant
            s@ == sv, n == sv.len(), start <= end <= n,
            skip_word(sv, start as int) == skip_word(sv, end as int),
        decreases n - end,
    {
        end += 1;
    }
    let mut q = start;
    while q < end && s[q] != '?'
        invariant
            s@ == sv, n == sv.len(), start <= q <= end, end <= n,
            find_query(sv, start as int, end as int) == find_query(sv, q as int, end as int),
        decreases end - q,
    {
        q += 1;
    }
    req.substring_char(start, q)
}

impl Route {
    /// The body a route answers with when it is fixed by the route alone:
    /// `not found` for an unknown path; the served pages (files and the
    /// state snapshot) have none.
    pub fn fixed_body(self) -> (b: Option<&'static str>)
        ensures
            match b {
                Some(t) => self == Route::NotFound && t@ == "not found"@,
                None => self != Route::NotFound,
            },
    {
        match self {
            Route::NotFound => Some("not found"),
            _ => None,
        }
    }

    /// The page a path names.
    pub fn from_path(path: &str) -> (r: Route)
        ensures
            r == spec_route(path@),
    {
        if text_eq(path, "/") || text_eq(path, "/index.html") {
            Route::Index
        } else if text_eq(path, "/style.css") {
            Route::Stylesheet
        } else if text_eq(path, "/app.js") {
            Route::Script
        } else if text_eq(path, "/state") {
            Route::State
        } else {
            Route::NotFound
        }
    }

    /// The `Content-Type` of the page.
    pub fn content_type(self) -> (t: &'static str)
        ensures
            t@ == spec_content_type(self),
    {
        match self {
            Route::Index => "text/html; charset=utf-8",
            Route::Stylesheet => "text/css; charset=utf-8",
            Route::Script => "application/javascript; charset=utf-8",
            Route::State => "application/json",
            Route::NotFound => "text/plain",
        }
    }

    /// The HTTP status of the answer: found for the served pages, not
    /// found for anything else.
    pub fn status(self) -> (t: &'static str)
        ensures
            t@ == spec_status(self),
            self != Route::NotFound ==> t@ == "200 OK"@,
            self == Route::NotFound ==> t@ == "404 Not Found"@,
    {
        match self {
            Route::NotFound => "404 Not Found",
            _ => "200 OK",
        }
    }
}

fn digit_str(d: usize) -> (t: &'static str)
    requires
        d < 10,
    ensures
        t@ == seq![digit_char(d as nat)],
{
    proof {
        reveal_strlit("0");
        reveal_strlit("1");
        reveal_strlit("2");
        reveal_strlit("3");
        reveal_strlit("4");
        reveal_strlit("5");
        reveal_strlit("6");
        reveal_strlit("7");
        reveal_strlit("8");
        reveal_strlit("9");
    }
    if d == 0 { "0" }
    else if d == 1 { "1" }
    else if d == 2 { "2" }
    else if d == 3 { "3" }
    else if d == 4 { "4" }
    else if d == 5 { "5" }
    else if d == 6 { "6" }
    else if d == 7 { "7" }
    else if d == 8 { "8" }
    else { "9" }
}

/// Appends the decimal form of `n` to `out`.
fn push_decimal(out: &mut String, n: usize)
    ensures
        final(out)@ == old(out)@ + spec_decimal(n as nat),
    decreases n,
{
    if n < 10 {
        out.append(digit_str(n));
    } else {
        push_decimal(out, n / 10);
        out.append(digit_str(n % 10));
    }
}

/// The decimal form of a number.
pub fn decimal(n: usize) -> (s: String)
    ensures
        s@ == spec_decimal(n as nat),
{
    let mut s = String::new();
    push_decimal(&mut s, n);
    assert(s@ =~= spec_decimal(n as nat));
    s
}

/// The HTTP answer to send for a route with the given body.
pub fn http_response(route: Route, body: &str) -> (resp: String)
    ensures
        resp@ == spec_response(route, body),
{
    let mut out = String::new();
    out.append("HTTP/1.1 ");
    out.append(route.status());
    out.append("\r\nContent-Type: ");
    out.append(route.content_type());
    out.append("\r\nContent-Length: ");
    push_decimal(&mut out, body.len());
    out.append("\r\nAccess-Control-Allow-Origin: *\r\nConnection: close\r\n\r\n");
    out.append(body);
    assert(out@ =~= spec_response(route, body));
    out
}

/// Every served page answers `200 OK` and only an unknown path answers
/// `404 Not Found`; the five served paths are `/`, `/index.html`,
/// `/style.css`, `/app.js` and `/state`, and any other path is unknown.
pub proof fn lemma_status_of_routes(r: Route, path: Seq<char>)
    ensures
        r != Route::NotFound ==> spec_status(r) == "200 OK"@,
        spec_status(Route::NotFound) == "404 Not Found"@,
        spec_status(r) == "200 OK"@ <==> r != Route::NotFound,
        spec_route("/"@) == Route::Index,
        spec_route("/index.html"@) == Route::Index,
        spec_route("/style.css"@) == Route::Stylesheet,
        spec_route("/app.js"@) == Route::Script,
        spec_route("/state"@) == Route::State,
        (spec_route(path) == Route::NotFound) <==> !(path == "/"@ || path == "/index.html"@
            || path == "/style.css"@ || path == "/app.js"@ || path == "/state"@),
        spec_status(spec_route(path)) == "200 OK"@ <==> (path == "/"@ || path == "/index.html"@
            || path == "/style.css"@ || path == "/app.js"@ || path == "/state"@),
{
    reveal_strlit("200 OK");
    reveal_strlit("404 Not Found");
    assert("200 OK"@.len() == 6);
    assert("404 Not Found"@.len() == 13);
    reveal_strlit("/");
    reveal_strlit("/index.html");
    reveal_strlit("/style.css");
    reveal_strlit("/app.js");
    reveal_strlit("/state");
    assert("/"@.len() == 1);
    assert("/index.html"@.len() == 11);
    assert("/style.css"@.len() == 10);
    assert("/app.js"@.len() == 7);
    assert("/state"@.len() == 6);
}

/// Length of the status line and `Content-Type` header of an answer.
pub open spec fn head_len(r: Route) -> int {
    ("HTTP/1.1 "@.len() + spec_status(r).len() + "\r\nContent-Type: "@.len()
        + spec_content_type(r).len()) as int
}

/// The shape of every answer: it starts with the status line and the
/// content type of its route; what follows is the same for every route
/// with the same body, namely the byte length of the body in decimal, the
/// open CORS header, the closing-connection header, a blank line and the
/// body itself, which ends the answer.
pub proof fn lemma_response_shape(r: Route, q: Route, body: &str)
    ensures
        spec_response(r, body).subrange(0, head_len(r)) == "HTTP/1.1 "@ + spec_status(r)
            + "\r\nContent-Type: "@ + spec_content_type(r),
        spec_response(r, body).skip(head_len(r)) == "\r\nContent-Length: "@ + spec_decimal(
            body.len() as nat,
        ) + "\r\nAccess-Control-Allow-Origin: *\r\nConnection: close\r\n\r\n"@ + body@,
        spec_response(r, body).skip(head_len(r)) == spec_response(q, body).skip(head_len(q)),
        spec_response(r, body).skip(spec_response(r, body).len() - body@.len()) == body@,
{
    let head = "HTTP/1.1 "@ + spec_status(r) + "\r\nContent-Type: "@ + spec_content_type(r);
    let tail = "\r\nContent-Length: "@ + spec_decimal(body.len() as nat)
        + "\r\nAccess-Control-Allow-Origin: *\r\nConnection: close\r\n\r\n"@ + body@;
    assert(spec_response(r, body) =~= head + tail);
    assert(head.len() == head_len(r));
    assert((head + tail).subrange(0, head_len(r)) =~= head);
    assert((head + tail).skip(head_len(r)) =~= tail);
    let headq = "HTTP/1.1 "@ + spec_status(q) + "\r\nContent-Type: "@ + spec_content_type(q);
    assert(spec_response(q, body) =~= headq + tail);
    assert((headq + tail).skip(head_len(q)) =~= tail);
    let pre = "\r\nContent-Length: "@ + spec_decimal(body.len() as nat)
        + "\r\nAccess-Control-Allow-Origin: *\r\nConnection: close\r\n\r\n"@;
    assert(tail =~= pre + body@);
    assert((head + pre + body@).skip((head + pre).len() as int) =~= body@);
    assert(head + tail =~= head + pre + body@);
}

/// No character of `w` is white space.
pub open spec fn no_space(w: Seq<char>) -> bool {
    forall|k: int| 0 <= k < w.len() ==> !is_unicode_whitespace(#[trigger] w[k])
}

/// Every character of `w` is white space.
pub open spec fn all_space(w: Seq<char>) -> bool {
    forall|k: int| 0 <= k < w.len() ==> is_unicode_whitespace(#[trigger] w[k])
}

proof fn lemma_skip_space_over(s: Seq<char>, i: int, j: int)
    requires
        0 <= i <= j <= s.len(),
        forall|k: int| i <= k < j ==> is_unicode_whitespace(#[trigger] s[k]),
        j == s.len() || !is_unicode_whitespace(s[j]),
    ensures
        skip_space(s, i) == j,
    decreases j - i,
{
    if i < j {
        lemma_skip_space_over(s, i + 1, j);
    }
}

proof fn lemma_skip_word_over(s: Seq<char>, i: int, j: int)
    requires
        0 <= i <= j <= s.len(),
        forall|k: int| i <= k < j ==> !is_unicode_whitespace(#[trigger] s[k]),
        j == s.len() || is_unicode_whitespace(s[j]),
    ensures
        skip_word(s, i) == j,
    decreases j - i,
{
    if i < j {
        lemma_skip_word_over(s, i + 1, j);
    }
}

proof fn lemma_find_query_bounds(s: Seq<char>, i: int, e: int)
    requires
        0 <= i <= e <= s.len(),
    ensures
        i <= find_query(s, i, e) <= e,
        forall|k: int| i <= k < find_query(s, i, e) ==> #[trigger] s[k] != '?',
        find_query(s, i, e) < e ==> s[find_query(s, i, e)] == '?',
    decreases e - i,
{
    if i < e && s[i] != '?' {
        lemma_find_query_bounds(s, i + 1, e);
    }
}

/// The path of a request is taken from its second word, whole up to its
/// first `'?'`: for a request made of (optional) white space, a first word,
/// white space, a second word and anything that does not continue that
/// word, the path is a prefix of the second word holding no `'?'`, and it
/// is cut short only right before a `'?'` of that word; with no `'?'` in the
/// word, the path is the word itself.
pub proof fn lemma_request_path_second_word(
    lead: Seq<char>,
    w1: Seq<char>,
    sep: Seq<char>,
    w2: Seq<char>,
    rest: Seq<char>,
)
    requires
        all_space(lead),
        no_space(w1),
        w1.len() > 0,
        all_space(sep),
        sep.len() > 0,
        no_space(w2),
        w2.len() > 0,
        rest.len() == 0 || is_unicode_whitespace(rest[0]),
    ensures
        ({
            let p = spec_request_path(lead + w1 + sep + w2 + rest);
            &&& p.len() <= w2.len()
            &&& p == w2.take(p.len() as int)
            &&& !p.contains('?')
            &&& p.len() < w2.len() ==> w2[p.len() as int] == '?'
            &&& !w2.contains('?') ==> p == w2
        }),
{
    let s = lead + w1 + sep + w2 + rest;
    let l = lead.len() as int;
    let a = l + w1.len();
    let b = a + sep.len();
    let c = b + w2.len();
    assert forall|k: int| 0 <= k < l implies is_unicode_whitespace(#[trigger] s[k]) by {
        assert(s[k] == lead[k]);
    }
    assert forall|k: int| l <= k < a implies !is_unicode_whitespace(#[trigger] s[k]) by {
        assert(s[k] == w1[k - l]);
    }
    assert forall|k: int| a <= k < b implies is_unicode_whitespace(#[trigger] s[k]) by {
        assert(s[k] == sep[k - a]);
    }
    assert forall|k: int| b <= k < c implies !is_unicode_whitespace(#[trigger] s[k]) by {
        assert(s[k] == w2[k - b]);
    }
    assert(s[l] == w1[0]);
    assert(s[a] == sep[0]);
    assert(s[b] == w2[0]);
    if rest.len() > 0 {
        assert(s[c] == rest[0]);
    }
    lemma_skip_space_over(s, 0, l);
    lemma_skip_word_over(s, l, a);
    lemma_skip_space_over(s, a, b);
    lemma_skip_word_over(s, b, c);
    lemma_find_query_bounds(s, b, c);
    let e = find_query(s, b, c);
    let p = spec_request_path(s);
    assert(p == s.subrange(b, e));
    assert(s.subrange(b, c) =~= w2);
    assert(p =~= w2.take(e - b));
    assert forall|k: int| 0 <= k < p.len() implies p[k] != '?' by {
        assert(p[k] == s[b + k]);
    }
    if e < c {
        assert(w2[e - b] == s[e]);
    } else {
        assert(p =~= w2);
    }
    if !w2.contains('?') && e < c {
        assert(w2[e - b] == '?');
    }
}

/// A request of fewer than two words asks for `/`.
pub proof fn lemma_request_path_default(lead: Seq<char>, w: Seq<char>, tail: Seq<char>)
    requires
        all_space(lead),
        no_space(w),
        all_space(tail),
    ensures
        spec_request_path(lead + w + tail) == seq!['/'],
{
    let s = lead + w + tail;
    let l = lead.len() as int;
    let a = l + w.len();
    assert forall|k: int| 0 <= k < l implies is_unicode_whitespace(#[trigger] s[k]) by {
        assert(s[k] == lead[k]);
    }
    assert forall|k: int| l <= k < a implies !is_unicode_whitespace(#[trigger] s[k]) by {
        assert(s[k] == w[k - l]);
    }
    assert forall|k: int| a <= k < s.len() implies is_unicode_whitespace(#[trigger] s[k]) by {
        assert(s[k] == tail[k - a]);
    }
    if w.len() > 0 {
        assert(s[l] == w[0]);
        if tail.len() > 0 {
            assert(s[a] == tail[0]);
        }
        lemma_skip_space_over(s, 0, l);
        lemma_skip_word_over(s, l, a);
        lemma_skip_space_over(s, a, s.len() as int);
    } else {
        lemma_skip_space_over(s, 0, s.len() as int);
        lemma_skip_word_over(s, s.len() as int, s.len() as int);
    }
}

} // verus!
