use vstd::prelude::*;
use crate::archive::{
    Archive, Entry, Index, Target, SLASH, is_first_match, lemma_first_match_unique, matches_at,
    resolves_to,
};

verus! {

/// The methods that a request can carry.
#[derive(Clone, Copy, Debug, PartialEq, Eq, Structural)]
pub enum Method {
    Get,
    Head,
    Post,
    Put,
    Delete,
    Connect,
    Options,
    Trace,
    Patch,
    Other,
}

/// The value of the `Allow` header that answers `OPTIONS`. `HEAD` is listed,
/// but a `HEAD` request is answered 405 like every method other than `GET`
/// and `OPTIONS`.
pub const ALLOW: &'static str = "GET, HEAD, OPTIONS";

/// What a request is answered with: a status, whether the `Allow` header is
/// set (to `ALLOW`), and the body. No other header is set.
#[derive(Clone, Debug)]
pub struct Reply {
    pub status: u16,
    pub allow: bool,
    pub body: Vec<u8>,
}

/// What a request calls for: a reply that is known at once, or the content
/// block at a cluster and a blob.
#[derive(Debug)]
pub enum Route {
    Respond(Reply),
    Fetch(u32, u32),
}

/// `r` has this status and `Allow` header, and an empty body.
pub open spec fn bare(r: Reply, status: u16, allow: bool) -> bool {
    &&& r.status == status
    &&& r.allow == allow
    &&& r.body@.len() == 0
}

/// `r` is the route of a request with `method` and path `request`:
/// `GET` fetches the block that the path resolves to or is answered 404;
/// `OPTIONS` is answered 200 with the `Allow` header; any other method 405.
pub open spec fn routes_to(entries: Seq<Option<Entry>>, method: Method, request: Seq<u8>, r: Route) -> bool {
    match method {
        Method::Get => match resolves_to(entries, request) {
            Some((c, b)) => r == Route::Fetch(c, b),
            None => r matches Route::Respond(rep) && bare(rep, 404, false),
        },
        Method::Options => r matches Route::Respond(rep) && bare(rep, 200, true),
        _ => r matches Route::Respond(rep) && bare(rep, 405, false),
    }
}

/// A reply with this status and `Allow` header, and an empty body.
pub fn bare_reply(status: u16, allow: bool) -> (r: Reply)
    ensures
        bare(r, status, allow),
{
    Reply { status, allow, body: Vec::new() }
}

/// The route of a request with `method` and path `request` over `index`.
pub fn route(index: &Index, method: Method, request: &[u8]) -> (r: Route)
    ensures
        routes_to(index.entries@, method, request@, r),
{
    match method {
        Method::Get => match index.resolve(request) {
            Some((c, b)) => Route::Fetch(c, b),
            None => Route::Respond(bare_reply(404, false)),
        },
        Method::Options => Route::Respond(bare_reply(200, true)),
        _ => Route::Respond(bare_reply(405, false)),
    }
}

/// The reply to a `GET` whose content block was fetched: 200 with its bytes,
/// or 500 with an empty body where it could not be read.
pub fn reply_for_blob(fetched: Option<Vec<u8>>) -> (r: Reply)
    ensures
        match fetched {
            Some(bytes) => r.status == 200 && !r.allow && r.body@ == bytes@,
            None => bare(r, 500, false),
        },
{
    match fetched {
        Some(bytes) => Reply { status: 200, allow: false, body: bytes },
        None => bare_reply(500, false),
    }
}

/// The same route, compared by value: the same block, or replies with the
/// same status, `Allow` header and body bytes.
pub open spec fn same_route(a: Route, b: Route) -> bool {
    match (a, b) {
        (Route::Fetch(c1, b1), Route::Fetch(c2, b2)) => c1 == c2 && b1 == b2,
        (Route::Respond(r1), Route::Respond(r2)) => {
            &&& r1.status == r2.status
            &&& r1.allow == r2.allow
            &&& r1.body@ == r2.body@
        },
        _ => false,
    }
}

/// A `GET` for `/` followed by the URL of an entry that leads straight to a
/// content block fetches exactly that block, where no other entry has the
/// same URL.
pub proof fn lemma_entry_is_served(entries: Seq<Option<Entry>>, i: int, r: Route)
    requires
        0 <= i < entries.len(),
        entries[i] matches Some(e) && e.target matches Target::Blob(_, _),
        forall|j: int|
            0 <= j < entries.len() && j != i && (#[trigger] entries[j]) is Some ==> entries[j]->Some_0.url@
                != entries[i]->Some_0.url@,
        routes_to(entries, Method::Get, seq![SLASH] + entries[i]->Some_0.url@, r),
    ensures
        entries[i]->Some_0.target matches Target::Blob(c, b) && r == Route::Fetch(c, b),
{
    let e = entries[i]->Some_0;
    let request = seq![SLASH] + e.url@;
    assert(request.subrange(1, request.len() as int) =~= e.url@);
    assert(matches_at(entries, i, request));
    assert forall|j: int| 0 <= j < i implies !matches_at(entries, j, request) by {
        if matches_at(entries, j, request) {
            assert(entries[j] is Some);
        }
    }
    assert(is_first_match(entries, i, request));
    let k = choose|k: int| is_first_match(entries, k, request);
    lemma_first_match_unique(entries, i, k, request);
}

/// A `GET` for `/` followed by a path that is no entry's URL is answered 404
/// with an empty body.
pub proof fn lemma_unknown_path_not_found(entries: Seq<Option<Entry>>, path: Seq<u8>, r: Route)
    requires
        forall|j: int|
            0 <= j < entries.len() && (#[trigger] entries[j]) is Some ==> entries[j]->Some_0.url@ != path,
        routes_to(entries, Method::Get, seq![SLASH] + path, r),
    ensures
        r matches Route::Respond(rep) && bare(rep, 404, false),
{
    let request = seq![SLASH] + path;
    assert(request.subrange(1, request.len() as int) =~= path);
    assert forall|j: int| 0 <= j < entries.len() implies !matches_at(entries, j, request) by {
        if matches_at(entries, j, request) {
            assert(entries[j] is Some);
        }
    }
    if exists|k: int| is_first_match(entries, k, request) {
        let k = choose|k: int| is_first_match(entries, k, request);
        assert(!matches_at(entries, k, request));
    }
}

/// The route of a request depends on the index, its method and its path
/// alone: asked again, or beside any other request, it is the same.
pub proof fn lemma_route_determined(
    entries: Seq<Option<Entry>>,
    method: Method,
    request: Seq<u8>,
    r1: Route,
    r2: Route,
)
    requires
        routes_to(entries, method, request, r1),
        routes_to(entries, method, request, r2),
    ensures
        same_route(r1, r2),
{
    if let (Route::Respond(a), Route::Respond(b)) = (r1, r2) {
        assert(a.body@ =~= b.body@);
    }
}

impl Archive {
    /// Answers one request with `method` and path `request`.
    pub fn handle(&self, method: Method, request: &[u8]) -> (r: Reply)
        ensures
            method == Method::Options ==> bare(r, 200, true),
            method != Method::Get && method != Method::Options ==> bare(r, 405, false),
            method == Method::Get && resolves_to(self.entries(), request@) is None ==> bare(r, 404, false),
            method == Method::Get && resolves_to(self.entries(), request@) is Some ==> {
                ||| r.status == 200 && !r.allow
                ||| bare(r, 500, false)
            },
    {
        match route(self.index(), method, request) {
            Route::Respond(rep) => rep,
            Route::Fetch(c, b) => reply_for_blob(self.content(c, b)),
        }
    }
}

} // verus!
