use vstd::prelude::*;
use vstd::string::*;

use crate::http::Method;

verus! {

/// What serves a request.
#[derive(Clone, Copy, Debug, PartialEq, Eq, Structural)]
pub enum Endpoint {
    /// The page listing the agents.
    Index,
    /// An agent posting a message to relay.
    Data,
    /// An agent registering.
    Register,
    /// A browser opening the websocket of relayed messages.
    Stream,
    /// The static files.
    StaticFiles,
    /// The not-found page.
    NotFound,
    /// The 405 answer.
    MethodNotAllowed,
}

/// How an entry matches a path.
#[derive(Clone, Copy, Debug, PartialEq, Eq, Structural)]
pub enum Pattern {
    /// The path equals the entry's path.
    Exact,
    /// The path is the entry's path or lies below it.
    Prefix,
}

/// One entry of the routing table.
#[derive(Debug, Clone, PartialEq, Eq)]
pub struct RouteEntry {
    pub pattern: Pattern,
    pub path: String,
    /// The one method the entry takes, or any method.
    pub method: Option<Method>,
    pub endpoint: Endpoint,
}

/// An entry of the routing table as a value.
pub struct RouteSpec {
    pub pattern: Pattern,
    pub path: Seq<char>,
    pub method: Option<Method>,
    pub endpoint: Endpoint,
}

impl RouteEntry {
    pub open spec fn view(&self) -> RouteSpec {
        RouteSpec { pattern: self.pattern, path: self.path@, method: self.method, endpoint: self.endpoint }
    }
}

/// The routing table: entries are tried in the order they were added.
#[derive(Debug, Clone, PartialEq, Eq)]
pub struct Router {
    entries: Vec<RouteEntry>,
}

impl View for Router {
    type V = Seq<RouteSpec>;

    closed spec fn view(&self) -> Seq<RouteSpec> {
        self.entries@.map_values(|e: RouteEntry| e.view())
    }
}

/// `path` lies at or below `prefix`: it is the prefix itself, or continues
/// it after a `/` (the prefix's own last one, or the next character). An
/// empty path counts as `/`.
pub open spec fn under_prefix(prefix: Seq<char>, path: Seq<char>) -> bool {
    let p = if path.len() == 0 { seq!['/'] } else { path };
    ||| p == prefix
    ||| prefix.is_prefix_of(p) && (
        (prefix.len() > 0 && prefix.last() == '/') || (prefix.len() < p.len() && p[prefix.len() as int] == '/'))
}

/// The entry's path pattern takes `path`.
pub open spec fn entry_matches(e: RouteSpec, path: Seq<char>) -> bool {
    match e.pattern {
        Pattern::Exact => e.path == path,
        Pattern::Prefix => under_prefix(e.path, path),
    }
}

/// The entry's method guard takes `m`.
pub open spec fn method_ok(e: RouteSpec, m: Method) -> bool {
    match e.method {
        Some(only) => only == m,
        None => true,
    }
}

/// Where a request that no entry serves goes: a GET gets the not-found
/// page, any other method the 405 answer.
pub open spec fn fallback(m: Method) -> Endpoint {
    if m == Method::Get {
        Endpoint::NotFound
    } else {
        Endpoint::MethodNotAllowed
    }
}

/// The endpoint for a request: the first entry whose path pattern takes
/// the path decides; it serves the request if its method guard takes the
/// method, and the request falls back otherwise.
pub open spec fn resolve(entries: Seq<RouteSpec>, m: Method, path: Seq<char>) -> Endpoint
    decreases entries.len(),
{
    if entries.len() == 0 {
        fallback(m)
    } else if entry_matches(entries[0], path) {
        if method_ok(entries[0], m) {
            entries[0].endpoint
        } else {
            fallback(m)
        }
    } else {
        resolve(entries.drop_first(), m, path)
    }
}

/// Whether `a` and `b` hold the same characters.
fn same_text(a: &str, b: &str) -> (r: bool)
    ensures
        r == (a@ == b@),
{
    let n = a.unicode_len();
    if n != b.unicode_len() {
        return false;
    }
    let mut i: usize = 0;
    while i < n
        invariant
            n == a@.len(),
            n == b@.len(),
            i <= n,
            forall|j: int| 0 <= j < i ==> a@[j] == b@[j],
        decreases n - i,
    {
        if a.get_char(i) != b.get_char(i) {
            return false;
        }
        i = i + 1;
    }
    proof {
        assert(a@ =~= b@);
    }
    true
}

/// Whether `prefix` is a prefix of `s`.
fn starts_with(prefix: &str, s: &str) -> (r: bool)
    ensures
        r == prefix@.is_prefix_of(s@),
{
    let n = prefix.unicode_len();
    if n > s.unicode_len() {
        return false;
    }
    let mut i: usize = 0;
    while i < n
        invariant
            n == prefix@.len(),
            n <= s@.len(),
            i <= n,
            forall|j: int| 0 <= j < i ==> prefix@[j] == s@[j],
        decreases n - i,
    {
        if prefix.get_char(i) != s.get_char(i) {
            return false;
        }
        i = i + 1;
    }
    proof {
        assert(prefix@ =~= s@.take(n as int));
    }
    true
}

/// Whether the non-empty `path` lies at or below `prefix`.
fn below_nonempty(prefix: &str, path: &str) -> (r: bool)
    requires
        path@.len() > 0,
    ensures
        r == under_prefix(prefix@, path@),
{
    let n = prefix.unicode_len();
    let m = path.unicode_len();
    if same_text(path, prefix) {
        return true;
    }
    if !starts_with(prefix, path) {
        return false;
    }
    if n > 0 && prefix.get_char(n - 1) == '/' {
        return true;
    }
    n < m && path.get_char(n) == '/'
}

/// Whether `path` lies at or below `prefix` (see [`under_prefix`]).
fn below(prefix: &str, path: &str) -> (r: bool)
    ensures
        r == under_prefix(prefix@, path@),
{
    if path.unicode_len() == 0 {
        let root = "/";
        proof {
            reveal_strlit("/");
            assert(root@ =~= seq!['/']);
        }
        below_nonempty(prefix, root)
    } else {
        below_nonempty(prefix, path)
    }
}

/// Whether the entry's path pattern takes `path`.
fn matches_path(e: &RouteEntry, path: &str) -> (r: bool)
    ensures
        r == entry_matches(e.view(), path@),
{
    match e.pattern {
        Pattern::Exact => same_text(e.path.as_str(), path),
        Pattern::Prefix => below(e.path.as_str(), path),
    }
}

fn fallback_for(m: Method) -> (r: Endpoint)
    ensures
        r == fallback(m),
{
    match m {
        Method::Get => Endpoint::NotFound,
        _ => Endpoint::MethodNotAllowed,
    }
}

impl Router {
    /// An empty table.
    pub fn new() -> (r: Router)
        ensures
            r@ == Seq::<RouteSpec>::empty(),
    {
        let r = Router { entries: Vec::new() };
        proof {
            assert(r@ =~= Seq::<RouteSpec>::empty());
        }
        r
    }

    /// Adds an entry for the exact path, taking `method` (any method where
    /// `None`).
    pub fn resource(self, path: &str, method: Option<Method>, endpoint: Endpoint) -> (r: Router)
        ensures
            r@ == self@.push(RouteSpec { pattern: Pattern::Exact, path: path@, method, endpoint }),
    {
        let mut entries = self.entries;
        let e = RouteEntry { pattern: Pattern::Exact, path: path.to_owned(), method, endpoint };
        let ghost before = entries@;
        entries.push(e);
        let r = Router { entries };
        proof {
            assert(r@ =~= before.map_values(|e: RouteEntry| e.view()).push(e.view()));
        }
        r
    }

    /// Adds an entry for everything at or below `prefix`, taking any method.
    /// The prefix is taken as given: it is not trimmed of whitespace or of
    /// a trailing `/`, and no leading `/` is added.
    pub fn handler(self, prefix: &str, endpoint: Endpoint) -> (r: Router)
        ensures
            r@ == self@.push(RouteSpec { pattern: Pattern::Prefix, path: prefix@, method: None, endpoint }),
    {
        let mut entries = self.entries;
        let e = RouteEntry { pattern: Pattern::Prefix, path: prefix.to_owned(), method: None, endpoint };
        let ghost before = entries@;
        entries.push(e);
        let r = Router { entries };
        proof {
            assert(r@ =~= before.map_values(|e: RouteEntry| e.view()).push(e.view()));
        }
        r
    }

    /// The endpoint that serves a request with method `m` for `path`.
    pub fn resolve(&self, m: Method, path: &str) -> (r: Endpoint)
        ensures
            r == resolve(self@, m, path@),
    {
        let mut i: usize = 0;
        proof {
            assert(self@.skip(0) =~= self@);
        }
        while i < self.entries.len()
            invariant
                i <= self.entries@.len(),
                resolve(self@, m, path@) == resolve(self@.skip(i as int), m, path@),
            decreases self.entries@.len() - i,
        {
            let e = &self.entries[i];
            proof {
                assert(self@.skip(i as int)[0] == e.view());
            }
            if matches_path(e, path) {
                let ok = match &e.method {
                    Some(only) => *only == m,
                    None => true,
                };
                if ok {
                    return e.endpoint;
                } else {
                    return fallback_for(m);
                }
            }
            proof {
                assert(self@.skip(i as int).drop_first() =~= self@.skip(i + 1));
            }
            i = i + 1;
        }
        fallback_for(m)
    }
}

/// The routes of the service mounted at `base`: the agent list at `/`,
/// posts of messages and registrations, the websocket, and the static
/// files below `/static`.
pub open spec fn service_table(base: Seq<char>) -> Seq<RouteSpec> {
    seq![
        RouteSpec { pattern: Pattern::Exact, path: "/"@, method: Some(Method::Get), endpoint: Endpoint::Index },
        RouteSpec { pattern: Pattern::Exact, path: base + "/data"@, method: Some(Method::Post), endpoint: Endpoint::Data },
        RouteSpec { pattern: Pattern::Exact, path: base + "/register"@, method: Some(Method::Post), endpoint: Endpoint::Register },
        RouteSpec { pattern: Pattern::Exact, path: base + "/stream"@, method: None, endpoint: Endpoint::Stream },
        RouteSpec { pattern: Pattern::Prefix, path: "/static"@, method: None, endpoint: Endpoint::StaticFiles },
    ]
}

/// The endpoint of the service mounted at `base` for a request, case by case.
pub open spec fn service_route(base: Seq<char>, m: Method, path: Seq<char>) -> Endpoint {
    if path == "/"@ {
        if m == Method::Get { Endpoint::Index } else { fallback(m) }
    } else if path == base + "/data"@ {
        if m == Method::Post { Endpoint::Data } else { fallback(m) }
    } else if path == base + "/register"@ {
        if m == Method::Post { Endpoint::Register } else { fallback(m) }
    } else if path == base + "/stream"@ {
        Endpoint::Stream
    } else if under_prefix("/static"@, path) {
        Endpoint::StaticFiles
    } else {
        fallback(m)
    }
}

fn joined(base: &str, tail: &str) -> (r: String)
    ensures
        r@ == base@ + tail@,
{
    let mut s = base.to_owned();
    s.append(tail);
    s
}

/// The routing table of the service mounted at `base`.
pub fn service_routes(base: &str) -> (r: Router)
    ensures
        r@ == service_table(base@),
{
    let data = joined(base, "/data");
    let register = joined(base, "/register");
    let stream = joined(base, "/stream");
    let r = Router::new()
        .resource("/", Some(Method::Get), Endpoint::Index)
        .resource(data.as_str(), Some(Method::Post), Endpoint::Data)
        .resource(register.as_str(), Some(Method::Post), Endpoint::Register)
        .resource(stream.as_str(), None, Endpoint::Stream)
        .handler("/static", Endpoint::StaticFiles);
    proof {
        assert(r@ =~= service_table(base@));
    }
    r
}

/// The routing table of the application, with the agent routes under
/// `/agents`.
pub fn create_app() -> (r: Router)
    ensures
        r@ == service_table("/agents"@),
{
    service_routes("/agents")
}

/// The routing table the server binary runs, with the agent routes at the
/// root.
pub fn server_routes() -> (r: Router)
    ensures
        r@ == service_table(Seq::<char>::empty()),
{
    let r = service_routes("");
    proof {
        reveal_strlit("");
    }
    r
}

/// The first entry that takes the path decides: it serves the request if
/// its guard takes the method, and otherwise the request falls back; later
/// entries are never consulted.
pub proof fn lemma_first_match_decides(entries: Seq<RouteSpec>, m: Method, path: Seq<char>, i: int)
    requires
        0 <= i < entries.len(),
        entry_matches(entries[i], path),
        forall|j: int| 0 <= j < i ==> !entry_matches(#[trigger] entries[j], path),
    ensures
        resolve(entries, m, path) == if method_ok(entries[i], m) { entries[i].endpoint } else { fallback(m) },
    decreases i,
{
    if i > 0 {
        assert(!entry_matches(entries[0], path));
        let rest = entries.drop_first();
        assert forall|j: int| 0 <= j < i - 1 implies !entry_matches(#[trigger] rest[j], path) by {
            assert(rest[j] == entries[j + 1]);
        }
        lemma_first_match_decides(rest, m, path, i - 1);
    }
}

/// A request whose path no entry takes falls back: a GET gets the
/// not-found page and any other method the 405 answer.
pub proof fn lemma_unrouted_falls_back(entries: Seq<RouteSpec>, m: Method, path: Seq<char>)
    requires
        forall|j: int| 0 <= j < entries.len() ==> !entry_matches(#[trigger] entries[j], path),
    ensures
        resolve(entries, m, path) == fallback(m),
    decreases entries.len(),
{
    if entries.len() > 0 {
        assert(!entry_matches(entries[0], path));
        let rest = entries.drop_first();
        assert forall|j: int| 0 <= j < rest.len() implies !entry_matches(#[trigger] rest[j], path) by {
            assert(rest[j] == entries[j + 1]);
        }
        lemma_unrouted_falls_back(rest, m, path);
    }
}

/// Every request is served by the endpoint of some entry or by the
/// fallback; so where no entry names the not-found page or the 405 answer,
/// only a GET ever sees the former and only another method the latter.
pub proof fn lemma_answer_comes_from_table(entries: Seq<RouteSpec>, m: Method, path: Seq<char>)
    ensures
        resolve(entries, m, path) == fallback(m)
            || exists|j: int| 0 <= j < entries.len() && (#[trigger] entries[j]).endpoint == resolve(entries, m, path),
        (forall|j: int| 0 <= j < entries.len() ==> (#[trigger] entries[j]).endpoint != Endpoint::NotFound
            && entries[j].endpoint != Endpoint::MethodNotAllowed) ==> {
            &&& resolve(entries, m, path) == Endpoint::NotFound ==> m == Method::Get
            &&& resolve(entries, m, path) == Endpoint::MethodNotAllowed ==> m != Method::Get
        },
    decreases entries.len(),
{
    if entries.len() > 0 && !entry_matches(entries[0], path) {
        let rest = entries.drop_first();
        lemma_answer_comes_from_table(rest, m, path);
        if resolve(rest, m, path) != fallback(m) {
            let j = choose|j: int| 0 <= j < rest.len() && (#[trigger] rest[j]).endpoint == resolve(rest, m, path);
            assert(entries[j + 1] == rest[j]);
        }
        if forall|j: int| 0 <= j < entries.len() ==> (#[trigger] entries[j]).endpoint != Endpoint::NotFound
            && entries[j].endpoint != Endpoint::MethodNotAllowed {
            assert forall|j: int| 0 <= j < rest.len() implies (#[trigger] rest[j]).endpoint != Endpoint::NotFound
                && rest[j].endpoint != Endpoint::MethodNotAllowed by {
                assert(rest[j] == entries[j + 1]);
            }
        }
    }
}

/// How the service mounted at `base` routes every request: the agent list
/// takes only GET at `/`, messages and registrations take only POST, the
/// websocket takes any method, everything at or below `/static` is a
/// static file, and the rest falls back (not-found page for GET, 405
/// otherwise).
pub proof fn lemma_service_routing(base: Seq<char>, m: Method, path: Seq<char>)
    ensures
        resolve(service_table(base), m, path) == service_route(base, m, path),
{
    reveal_with_fuel(resolve, 6);
    let t = service_table(base);
    assert(t.drop_first()[0] == t[1]);
    assert(t.drop_first().drop_first() =~= t.subrange(2, 5));
    assert(t.subrange(2, 5).drop_first() =~= t.subrange(3, 5));
    assert(t.subrange(3, 5).drop_first() =~= t.subrange(4, 5));
    assert(t.subrange(4, 5).drop_first() =~= Seq::<RouteSpec>::empty());
}

proof fn lemma_route_literals()
    ensures
        "/"@ =~= seq!['/'],
        "/static"@ =~= seq!['/', 's', 't', 'a', 't', 'i', 'c'],
        "/agents"@ =~= seq!['/', 'a', 'g', 'e', 'n', 't', 's'],
        "/data"@ =~= seq!['/', 'd', 'a', 't', 'a'],
        "/register"@ =~= seq!['/', 'r', 'e', 'g', 'i', 's', 't', 'e', 'r'],
        "/stream"@ =~= seq!['/', 's', 't', 'r', 'e', 'a', 'm'],
{
    reveal_strlit("/");
    reveal_strlit("/static");
    reveal_strlit("/agents");
    reveal_strlit("/data");
    reveal_strlit("/register");
    reveal_strlit("/stream");
}

/// Every file under the static directory is served as a static file, in
/// both tables (agent routes under `/agents` or at the root), whatever the
/// method and however long the path: `/static` itself and every path
/// `/static/...` go to the static files.
pub proof fn lemma_static_files_are_served(base: Seq<char>, m: Method, rest: Seq<char>)
    requires
        base == "/agents"@ || base.len() == 0,
    ensures
        resolve(service_table(base), m, "/static"@) == Endpoint::StaticFiles,
        resolve(service_table(base), m, "/static"@ + seq!['/'] + rest) == Endpoint::StaticFiles,
{
    lemma_route_literals();
    let s = "/static"@;
    let p = s + seq!['/'] + rest;
    lemma_service_routing(base, m, s);
    lemma_service_routing(base, m, p);
    assert(p[1] == 's');
    assert(p.len() > 7);
    assert(p.take(7) =~= s);
    assert(s.is_prefix_of(p));
    assert(p[7] == '/');
    assert(p != "/"@);
    assert((base + "/data"@)[1] != 's');
    assert((base + "/register"@)[1] != 's');
    assert(s != "/"@);
    assert(s != base + "/data"@);
    assert(s != base + "/register"@);
    if base.len() == 0 {
        assert(base + "/stream"@ =~= "/stream"@);
        assert(p[2] == 't' && p[3] == 'a');
        assert((base + "/stream"@)[3] == 'r');
        assert(p != base + "/stream"@);
        assert(s[3] != (base + "/stream"@)[3]);
    } else {
        assert((base + "/stream"@)[1] == 'a');
    }
    assert(p != base + "/stream"@);
    assert(s != base + "/stream"@);
}

/// A request for a path that does not start with `/static` and is none of
/// the four routes falls back, whatever else it holds (a dot, a file
/// extension): a GET gets the not-found page, any other method the 405
/// answer. So a browser's `GET /favicon.ico` gets the not-found page.
pub proof fn lemma_unknown_paths_fall_back(base: Seq<char>, m: Method, path: Seq<char>)
    requires
        !"/static"@.is_prefix_of(path),
        path != "/"@,
        path != base + "/data"@,
        path != base + "/register"@,
        path != base + "/stream"@,
    ensures
        resolve(service_table(base), m, path) == if m == Method::Get {
            Endpoint::NotFound
        } else {
            Endpoint::MethodNotAllowed
        },
{
    lemma_route_literals();
    lemma_service_routing(base, m, path);
    let s = "/static"@;
    if path.len() == 0 {
        assert(!s.is_prefix_of(seq!['/']));
    }
}

/// A path that continues `/static` with anything but a `/` (such as
/// `/statics` or `/static.css`) is not in the static directory: unless it
/// is one of the four routes, it falls back like any unknown path.
pub proof fn lemma_static_lookalikes_fall_back(base: Seq<char>, m: Method, c: char, rest: Seq<char>)
    requires
        c != '/',
        "/static"@ + seq![c] + rest != base + "/data"@,
        "/static"@ + seq![c] + rest != base + "/register"@,
        "/static"@ + seq![c] + rest != base + "/stream"@,
    ensures
        resolve(service_table(base), m, "/static"@ + seq![c] + rest) == if m == Method::Get {
            Endpoint::NotFound
        } else {
            Endpoint::MethodNotAllowed
        },
{
    lemma_route_literals();
    let s = "/static"@;
    let p = s + seq![c] + rest;
    lemma_service_routing(base, m, p);
    assert(p.len() > 7);
    assert(p != s);
    assert(p[7] == c);
    assert(p != "/"@);
}

} // verus!
