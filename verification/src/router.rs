//! Request routing: which route serves a request, whether the cache answers
//! it, where it is forwarded, and which plugins it triggers.
use vstd::prelude::*;
use crate::cache::Cache;
use crate::config::{RouteConfig, route_plugin_names, texts};
use crate::text::{has_prefix, starts_with};
use vstd::utf8::encode_utf8;
use hyper::Uri;
use hyper::http::uri::InvalidUri;

verus! {

#[verifier::external_type_specification]
#[verifier::external_body]
pub struct ExUri(hyper::Uri);

#[verifier::external_type_specification]
#[verifier::external_body]
pub struct ExInvalidUri(hyper::http::uri::InvalidUri);

/// Whether `http::Uri`'s parser accepts a text.
pub uninterp spec fn uri_parses(text: Seq<char>) -> bool;

/// The `Uri` that `http::Uri`'s parser makes of a text it accepts.
pub uninterp spec fn uri_from(text: Seq<char>) -> Uri;

/// The error that `http::Uri`'s parser gives for a text it rejects.
pub uninterp spec fn uri_error(text: Seq<char>) -> InvalidUri;

/// `Uri::from_str` (`text.parse::<Uri>()`): `Ok` exactly when the parser
/// accepts the text, with the `Uri` that the parser makes of it; otherwise the
/// parser's error for it. Both depend on the text alone.
#[verifier::external_body]
fn parse_uri(text: &str) -> (r: Result<Uri, InvalidUri>)
    ensures
        r is Ok <==> uri_parses(text@),
        r matches Ok(u) ==> u == uri_from(text@),
        r matches Err(e) ==> e == uri_error(text@),
{
    text.parse::<Uri>()
}

/// The status of the answer to a request that no route serves.
pub const NOT_FOUND_STATUS: u16 = 404;

/// `route` serves a request for `path`: its path is a prefix of the request's.
pub open spec fn route_matches(route: RouteConfig, path: Seq<char>) -> bool {
    starts_with(path, route.path@)
}

/// Route `i` is the first route, in configuration order, that serves `path`.
pub open spec fn first_match(routes: Seq<RouteConfig>, path: Seq<char>, i: int) -> bool {
    &&& 0 <= i < routes.len()
    &&& route_matches(routes[i], path)
    &&& forall|j: int| 0 <= j < i ==> !route_matches(#[trigger] routes[j], path)
}

/// Some route serves `path`.
pub open spec fn routed(routes: Seq<RouteConfig>, path: Seq<char>) -> bool {
    exists|i: int| first_match(routes, path, i)
}

/// The index of the route that serves `path` (meaningful when `routed`).
pub open spec fn route_index(routes: Seq<RouteConfig>, path: Seq<char>) -> int {
    choose|i: int| first_match(routes, path, i)
}

/// What is done with a request, in spec terms.
pub enum PlanView {
    NotFound,
    Cached { route: int, body: Seq<u8> },
    Forward { route: int, uri: Seq<char>, store: bool },
    BadUpstream { route: int, uri: Seq<char> },
}

/// What the server does with a request for `path` (with query
/// `path_and_query`) given the routes and the cache's entries: answer 404 when
/// no route serves it; answer from the cache when the route caches and the
/// cache holds the path; otherwise forward it to the route's upstream, with the
/// request's path and query appended, and store the answer when the route
/// caches; when that address does not parse as a URI, the request cannot be
/// forwarded.
pub open spec fn plan(
    routes: Seq<RouteConfig>,
    cached: Map<Seq<char>, Seq<u8>>,
    path: Seq<char>,
    path_and_query: Seq<char>,
) -> PlanView {
    if routed(routes, path) {
        let i = route_index(routes, path);
        let route = routes[i];
        if route.cache && cached.dom().contains(path) {
            PlanView::Cached { route: i, body: cached[path] }
        } else if uri_parses(route.upstream@ + path_and_query) {
            PlanView::Forward { route: i, uri: route.upstream@ + path_and_query, store: route.cache }
        } else {
            PlanView::BadUpstream { route: i, uri: route.upstream@ + path_and_query }
        }
    } else {
        PlanView::NotFound
    }
}

/// What is done with a request.
#[derive(Debug)]
pub enum RequestPlan {
    /// No route serves the request: answer 404.
    NotFound,
    /// Answer with `body`, taken from the cache; `route` serves the request.
    Cached { route: usize, body: Vec<u8> },
    /// Forward the request to `uri`, parsed as `target`; `store` tells whether
    /// the answer is cached.
    Forward { route: usize, uri: String, target: Uri, store: bool },
    /// The upstream address `uri` does not parse as a URI (`error` says why).
    BadUpstream { route: usize, uri: String, error: InvalidUri },
}

impl View for RequestPlan {
    type V = PlanView;

    open spec fn view(&self) -> PlanView {
        match self {
            RequestPlan::NotFound => PlanView::NotFound,
            RequestPlan::Cached { route, body } => PlanView::Cached { route: *route as int, body: body@ },
            RequestPlan::Forward { route, uri, store, .. } => PlanView::Forward {
                route: *route as int,
                uri: uri@,
                store: *store,
            },
            RequestPlan::BadUpstream { route, uri, .. } => PlanView::BadUpstream { route: *route as int, uri: uri@ },
        }
    }
}

proof fn lemma_first_match_unique(routes: Seq<RouteConfig>, path: Seq<char>, i: int, k: int)
    requires
        first_match(routes, path, i),
        first_match(routes, path, k),
    ensures
        i == k,
{
    if i < k {
        assert(!route_matches(routes[i], path));
    } else if k < i {
        assert(!route_matches(routes[k], path));
    }
}

/// The route that serves a request for `path`: the first one whose path is a
/// prefix of it.
pub fn find_route(routes: &Vec<RouteConfig>, path: &str) -> (r: Option<usize>)
    ensures
        r matches Some(i) ==> first_match(routes@, path@, i as int),
        r is None ==> forall|j: int| 0 <= j < routes@.len() ==> !route_matches(#[trigger] routes@[j], path@),
        r is None <==> !routed(routes@, path@),
        r matches Some(i) ==> i < routes@.len()
            && encode_utf8(routes@[i as int].path@).is_prefix_of(encode_utf8(path@))
            && forall|j: int| 0 <= j < i ==> !encode_utf8((#[trigger] routes@[j]).path@).is_prefix_of(encode_utf8(path@)),
        r is None ==> forall|j: int| 0 <= j < routes@.len()
            ==> !encode_utf8((#[trigger] routes@[j]).path@).is_prefix_of(encode_utf8(path@)),
{
    let mut i: usize = 0;
    while i < routes.len()
        invariant
            i <= routes@.len(),
            forall|j: int| 0 <= j < i ==> !route_matches(#[trigger] routes@[j], path@),
        decreases routes@.len() - i,
    {
        if has_prefix(path, routes[i].path.as_str()) {
            assert(first_match(routes@, path@, i as int));
            return Some(i);
        }
        i = i + 1;
    }
    assert forall|k: int| !first_match(routes@, path@, k) by {
        if 0 <= k < routes@.len() {
            assert(!route_matches(routes@[k], path@));
        }
    }
    None
}

/// The address of the upstream resource: the route's upstream followed by the
/// request's path and query.
pub fn backend_uri(upstream: &str, path_and_query: &str) -> (r: String)
    ensures
        r@ == upstream@ + path_and_query@,
{
    let mut r = upstream.to_owned();
    r.append(path_and_query);
    r
}

/// Decides what is done with a request for `path` whose path and query are
/// `path_and_query`.
pub fn plan_request(routes: &Vec<RouteConfig>, cache: &Cache, path: &str, path_and_query: &str) -> (r: RequestPlan)
    ensures
        r@ == plan(routes@, cache@, path@, path_and_query@),
        r matches RequestPlan::Forward { target, uri, .. } ==> target == uri_from(uri@),
        r matches RequestPlan::Forward { route, uri, store, .. } ==> route < routes@.len()
            && uri@ == routes@[route as int].upstream@ + path_and_query@
            && store == routes@[route as int].cache,
        r matches RequestPlan::BadUpstream { route, uri, .. } ==> route < routes@.len()
            && uri@ == routes@[route as int].upstream@ + path_and_query@,
        r matches RequestPlan::BadUpstream { error, uri, .. } ==> error == uri_error(uri@),
{
    match find_route(routes, path) {
        None => RequestPlan::NotFound,
        Some(i) => {
            proof {
                lemma_first_match_unique(routes@, path@, i as int, route_index(routes@, path@));
            }
            let route = &routes[i];
            if route.cache {
                match crate::cache::get(cache, path) {
                    Some(body) => {
                        return RequestPlan::Cached { route: i, body };
                    },
                    None => {},
                }
            }
            let uri = backend_uri(route.upstream.as_str(), path_and_query);
            match parse_uri(uri.as_str()) {
                Ok(target) => RequestPlan::Forward { route: i, uri, target, store: route.cache },
                Err(error) => RequestPlan::BadUpstream { route: i, uri, error },
            }
        },
    }
}

/// Finishes a forwarded request: stores the upstream's answer under the
/// request's path when the plan says so, and hands the answer back.
pub fn complete_forward(cache: &mut Cache, store: bool, path: String, body: Vec<u8>) -> (r: Vec<u8>)
    ensures
        r@ == body@,
        final(cache)@ == (if store { old(cache)@.insert(path@, body@) } else { old(cache)@ }),
{
    if store {
        let copy = body.clone();
        assert(copy@ =~= body@);
        crate::cache::set(cache, path, copy);
    }
    body
}

/// The body of the answer to a request that no route serves.
pub fn not_found_body() -> (r: String)
    ensures
        r@ == "404 - Route non trovata"@,
{
    "404 - Route non trovata".to_owned()
}

/// The plugins of `route` that are to run: those it names that are loaded,
/// in the order in which it names them.
pub open spec fn runnable(names: Seq<Seq<char>>, loaded: Seq<Seq<char>>) -> Seq<Seq<char>>
    decreases names.len(),
{
    if names.len() == 0 {
        Seq::empty()
    } else {
        let rest = runnable(names.drop_last(), loaded);
        if loaded.contains(names.last()) {
            rest.push(names.last())
        } else {
            rest
        }
    }
}

/// Whether `name` is among `names`.
pub fn contains_name(names: &Vec<String>, name: &String) -> (r: bool)
    ensures
        r == texts(names@).contains(name@),
{
    let mut i: usize = 0;
    while i < names.len()
        invariant
            i <= names@.len(),
            forall|j: int| 0 <= j < i ==> names@[j]@ != name@,
        decreases names@.len() - i,
    {
        if names[i] == *name {
            assert(texts(names@)[i as int] == name@);
            return true;
        }
        i = i + 1;
    }
    assert(!texts(names@).contains(name@)) by {
        assert forall|j: int| 0 <= j < texts(names@).len() implies texts(names@)[j] != name@ by {
            assert(names@[j]@ != name@);
        }
    }
    false
}

/// The plugins that a request served by `route` triggers, given the names of
/// the plugins that are loaded.
pub fn plugins_to_run(route: &RouteConfig, loaded: &Vec<String>) -> (r: Vec<String>)
    ensures
        texts(r@) == runnable(route_plugin_names(*route), texts(loaded@)),
{
    let mut r: Vec<String> = Vec::new();
    let mut i: usize = 0;
    while i < route.plugins.len()
        invariant
            i <= route.plugins@.len(),
            texts(r@) == runnable(route_plugin_names(*route).subrange(0, i as int), texts(loaded@)),
        decreases route.plugins@.len() - i,
    {
        let ghost names = route_plugin_names(*route);
        assert(names.subrange(0, i + 1).drop_last() =~= names.subrange(0, i as int));
        assert(names.subrange(0, i + 1).last() == route.plugins@[i as int].name@);
        if contains_name(loaded, &route.plugins[i].name) {
            let name = route.plugins[i].name.clone();
            let ghost prev = r@;
            r.push(name);
            assert(texts(r@) =~= texts(prev).push(route.plugins@[i as int].name@));
        }
        i = i + 1;
    }
    assert(route_plugin_names(*route).subrange(0, i as int) =~= route_plugin_names(*route));
    r
}

/// Every plugin that a request triggers is loaded and is named by its route.
pub proof fn lemma_runnable_loaded(names: Seq<Seq<char>>, loaded: Seq<Seq<char>>)
    ensures
        forall|k: int| 0 <= k < runnable(names, loaded).len() ==>
            loaded.contains(#[trigger] runnable(names, loaded)[k]) && names.contains(runnable(names, loaded)[k]),
    decreases names.len(),
{
    if names.len() > 0 {
        let rest = names.drop_last();
        lemma_runnable_loaded(rest, loaded);
        assert forall|k: int| 0 <= k < runnable(names, loaded).len() implies
            loaded.contains(#[trigger] runnable(names, loaded)[k]) && names.contains(runnable(names, loaded)[k]) by {
            let r = runnable(names, loaded);
            if k < runnable(rest, loaded).len() {
                let x = runnable(rest, loaded)[k];
                assert(r[k] == x);
                let w = choose|w: int| 0 <= w < rest.len() && rest[w] == x;
                assert(names[w] == x);
            } else {
                assert(r[k] == names.last());
                assert(names[names.len() - 1] == names.last());
            }
        }
    }
}

/// A route serves a request exactly when the route's path is a prefix of the
/// request's path, compared byte by byte over their UTF-8 encodings; so a
/// route whose path is longer than the request's never serves it.
pub proof fn lemma_route_matches_prefix(route: RouteConfig, path: Seq<char>)
    ensures
        route_matches(route, path) <==> encode_utf8(route.path@).is_prefix_of(encode_utf8(path)),
        route_matches(route, path) ==> encode_utf8(route.path@).len() <= encode_utf8(path).len(),
{
}

/// What is done with a request, by the raw prefix test: 404 exactly when no
/// route's path is a byte prefix of the request's; otherwise the serving route
/// is the first whose path is; a cached answer is the cache's entry for the
/// path, given only for a caching route that has one; and a request that is
/// not answered from the cache goes to (or is refused at) exactly the route's
/// upstream followed by the request's whole path and query, whether the route
/// caches or not, stored exactly when the route caches.
pub proof fn lemma_plan_laws(
    routes: Seq<RouteConfig>,
    cached: Map<Seq<char>, Seq<u8>>,
    path: Seq<char>,
    path_and_query: Seq<char>,
)
    ensures
        (plan(routes, cached, path, path_and_query) is NotFound) <==> (forall|j: int| 0 <= j < routes.len()
            ==> !encode_utf8((#[trigger] routes[j]).path@).is_prefix_of(encode_utf8(path))),
        !(plan(routes, cached, path, path_and_query) is NotFound) ==> {
            let i = route_index(routes, path);
            &&& 0 <= i < routes.len()
            &&& encode_utf8(routes[i].path@).is_prefix_of(encode_utf8(path))
            &&& forall|j: int| 0 <= j < i ==> !encode_utf8((#[trigger] routes[j]).path@).is_prefix_of(encode_utf8(path))
        },
        plan(routes, cached, path, path_and_query) matches PlanView::Cached { route, body } ==> {
            &&& route == route_index(routes, path)
            &&& routes[route].cache
            &&& cached.dom().contains(path)
            &&& body == cached[path]
        },
        plan(routes, cached, path, path_and_query) matches PlanView::Forward { route, uri, store } ==> {
            &&& route == route_index(routes, path)
            &&& uri == routes[route].upstream@ + path_and_query
            &&& store == routes[route].cache
            &&& !(routes[route].cache && cached.dom().contains(path))
        },
        plan(routes, cached, path, path_and_query) matches PlanView::BadUpstream { route, uri } ==> {
            &&& route == route_index(routes, path)
            &&& uri == routes[route].upstream@ + path_and_query
            &&& !(routes[route].cache && cached.dom().contains(path))
        },
{
    if routed(routes, path) {
        let i = route_index(routes, path);
        assert(first_match(routes, path, i));
        assert forall|j: int| 0 <= j < i implies !encode_utf8((#[trigger] routes[j]).path@).is_prefix_of(encode_utf8(path)) by {
            assert(!route_matches(routes[j], path));
        }
        assert(encode_utf8(routes[i].path@).is_prefix_of(encode_utf8(path)));
    } else {
        assert forall|j: int| 0 <= j < routes.len() implies !encode_utf8((#[trigger] routes[j]).path@).is_prefix_of(encode_utf8(path)) by {
            if encode_utf8(routes[j].path@).is_prefix_of(encode_utf8(path)) {
                lemma_some_match_routed(routes, path, j);
            }
        }
    }
}

proof fn lemma_some_match_routed(routes: Seq<RouteConfig>, path: Seq<char>, j: int)
    requires
        0 <= j < routes.len(),
        route_matches(routes[j], path),
    ensures
        routed(routes, path),
    decreases j,
{
    if exists|k: int| 0 <= k < j && route_matches(#[trigger] routes[k], path) {
        let k = choose|k: int| 0 <= k < j && route_matches(#[trigger] routes[k], path);
        lemma_some_match_routed(routes, path, k);
    } else {
        assert(first_match(routes, path, j));
    }
}

/// Triggered plugins are the route's names that are loaded, in the route's
/// order: none for no names, and one more name at the end keeps the earlier
/// result and adds that name after it exactly when it is loaded.
pub proof fn lemma_runnable_filters_in_order(names: Seq<Seq<char>>, loaded: Seq<Seq<char>>, x: Seq<char>)
    ensures
        runnable(Seq::empty(), loaded) == Seq::<Seq<char>>::empty(),
        runnable(names.push(x), loaded) == runnable(names, loaded) + (if loaded.contains(x) {
            seq![x]
        } else {
            Seq::<Seq<char>>::empty()
        }),
        runnable(names, loaded).len() <= names.len(),
    decreases names.len(),
{
    assert(names.push(x).drop_last() =~= names);
    assert(runnable(names, loaded).push(x) =~= runnable(names, loaded) + seq![x]);
    assert(runnable(names, loaded) + Seq::<Seq<char>>::empty() =~= runnable(names, loaded));
    if names.len() > 0 {
        lemma_runnable_filters_in_order(names.drop_last(), loaded, names.last());
    }
}

/// Once a forwarded answer has been stored, the next request for the same path
/// is answered from the cache with that answer, by the same route.
pub proof fn lemma_cached_after_store(
    routes: Seq<RouteConfig>,
    cached: Map<Seq<char>, Seq<u8>>,
    path: Seq<char>,
    path_and_query: Seq<char>,
    body: Seq<u8>,
)
    requires
        plan(routes, cached, path, path_and_query) matches PlanView::Forward { store, .. } && store,
    ensures
        plan(routes, cached.insert(path, body), path, path_and_query) == (PlanView::Cached {
            route: route_index(routes, path),
            body,
        }),
{
}

/// A route that does not cache never answers from the cache, and a request is
/// answered 404 exactly when no route serves it.
pub proof fn lemma_plan_shape(
    routes: Seq<RouteConfig>,
    cached: Map<Seq<char>, Seq<u8>>,
    path: Seq<char>,
    path_and_query: Seq<char>,
)
    ensures
        (plan(routes, cached, path, path_and_query) is NotFound) <==> !routed(routes, path),
        plan(routes, cached, path, path_and_query) matches PlanView::Cached { route, .. }
            ==> routes[route].cache,
        plan(routes, cached, path, path_and_query) matches PlanView::Forward { route, store, uri }
            ==> store == routes[route].cache && uri_parses(uri),
        plan(routes, cached, path, path_and_query) matches PlanView::BadUpstream { uri, .. }
            ==> !uri_parses(uri),
{
}

} // verus!
