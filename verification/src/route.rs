//! The pages of the site and the paths that lead to them.
//!
//! | path                  | route                   |
//! |-----------------------|-------------------------|
//! | `/`                   | `Home`                  |
//! | `/search/:query`      | `Search { query }`      |
//! | `/redirecting/:route` | `Redirecting { route }` |
//! | `/submitting/:route`  | `Submitting { route }`  |
//! | `/about`              | `About`                 |
//! | `/create_account`     | `CreateAccount`         |
//! | `/login`              | `Login`                 |
//! | `/secure`             | `Secure`                |
//! | `/404`                | `NotFound`              |
//! | `/restaurant/:name`   | `Restaurant { name }`   |
//!
//! A path is compared without the one slash that may end it and the one
//! that may start it. A parameter is one segment of the path: at least one
//! character, none of them a slash, taken as it stands. Every other path
//! leads to `NotFound`.

use crate::text::chars_of;
use vstd::prelude::*;
use vstd::string::*;

verus! {

/// Where a path leads.
#[derive(Debug)]
pub enum Route {
    Home,
    Search { query: String },
    Redirecting { route: String },
    Submitting { route: String },
    About,
    CreateAccount,
    Login,
    Secure,
    NotFound,
    Restaurant { name: String },
}

/// A route with its parameter as characters.
pub enum RouteView {
    Home,
    Search { query: Seq<char> },
    Redirecting { route: Seq<char> },
    Submitting { route: Seq<char> },
    About,
    CreateAccount,
    Login,
    Secure,
    NotFound,
    Restaurant { name: Seq<char> },
}

impl View for Route {
    type V = RouteView;

    open spec fn view(&self) -> RouteView {
        match self {
            Route::Home => RouteView::Home,
            Route::Search { query } => RouteView::Search { query: query@ },
            Route::Redirecting { route } => RouteView::Redirecting { route: route@ },
            Route::Submitting { route } => RouteView::Submitting { route: route@ },
            Route::About => RouteView::About,
            Route::CreateAccount => RouteView::CreateAccount,
            Route::Login => RouteView::Login,
            Route::Secure => RouteView::Secure,
            Route::NotFound => RouteView::NotFound,
            Route::Restaurant { name } => RouteView::Restaurant { name: name@ },
        }
    }
}

impl Clone for Route {
    fn clone(&self) -> (r: Self)
        ensures
            r@ == self@,
    {
        match self {
            Route::Home => Route::Home,
            Route::Search { query } => Route::Search { query: query.clone() },
            Route::Redirecting { route } => Route::Redirecting { route: route.clone() },
            Route::Submitting { route } => Route::Submitting { route: route.clone() },
            Route::About => Route::About,
            Route::CreateAccount => Route::CreateAccount,
            Route::Login => Route::Login,
            Route::Secure => Route::Secure,
            Route::NotFound => Route::NotFound,
            Route::Restaurant { name } => Route::Restaurant { name: name.clone() },
        }
    }
}

impl PartialEq for Route {
    fn eq(&self, other: &Self) -> (r: bool) {
        match (self, other) {
            (Route::Home, Route::Home) => true,
            (Route::Search { query: a }, Route::Search { query: b }) => *a == *b,
            (Route::Redirecting { route: a }, Route::Redirecting { route: b }) => *a == *b,
            (Route::Submitting { route: a }, Route::Submitting { route: b }) => *a == *b,
            (Route::About, Route::About) => true,
            (Route::CreateAccount, Route::CreateAccount) => true,
            (Route::Login, Route::Login) => true,
            (Route::Secure, Route::Secure) => true,
            (Route::NotFound, Route::NotFound) => true,
            (Route::Restaurant { name: a }, Route::Restaurant { name: b }) => *a == *b,
            _ => false,
        }
    }
}

impl vstd::std_specs::cmp::PartialEqSpecImpl for Route {
    open spec fn obeys_eq_spec() -> bool {
        true
    }

    open spec fn eq_spec(&self, other: &Self) -> bool {
        self@ == other@
    }
}

/// A path without the one slash that may end it and, after that, the one
/// that may start it.
pub open spec fn trimmed(path: Seq<char>) -> Seq<char> {
    let p = if path.len() > 0 && path.last() == '/' {
        path.drop_last()
    } else {
        path
    };
    if p.len() > 0 && p[0] == '/' {
        p.skip(1)
    } else {
        p
    }
}

/// What a parameter can hold: one segment of a path.
pub open spec fn is_segment(s: Seq<char>) -> bool {
    &&& s.len() > 0
    &&& forall|i: int| 0 <= i < s.len() ==> #[trigger] s[i] != '/'
}

/// The parameter that `p` holds behind `prefix`, if `p` is that prefix and
/// one segment.
pub open spec fn param_after(p: Seq<char>, prefix: Seq<char>) -> Option<Seq<char>> {
    if p.len() > prefix.len() && p.take(prefix.len() as int) == prefix && is_segment(
        p.skip(prefix.len() as int),
    ) {
        Some(p.skip(prefix.len() as int))
    } else {
        None
    }
}

/// The route of a trimmed path.
pub open spec fn route_of_trimmed(p: Seq<char>) -> RouteView {
    if p.len() == 0 {
        RouteView::Home
    } else if p == "about"@ {
        RouteView::About
    } else if p == "create_account"@ {
        RouteView::CreateAccount
    } else if p == "login"@ {
        RouteView::Login
    } else if p == "secure"@ {
        RouteView::Secure
    } else if p == "404"@ {
        RouteView::NotFound
    } else if let Some(query) = param_after(p, "search/"@) {
        RouteView::Search { query }
    } else if let Some(route) = param_after(p, "redirecting/"@) {
        RouteView::Redirecting { route }
    } else if let Some(route) = param_after(p, "submitting/"@) {
        RouteView::Submitting { route }
    } else if let Some(name) = param_after(p, "restaurant/"@) {
        RouteView::Restaurant { name }
    } else {
        RouteView::NotFound
    }
}

/// The route that a path leads to.
pub open spec fn route_of(path: Seq<char>) -> RouteView {
    route_of_trimmed(trimmed(path))
}

/// The path that is written for a route.
pub open spec fn path_of(r: RouteView) -> Seq<char> {
    match r {
        RouteView::Home => "/"@,
        RouteView::Search { query } => "/search/"@ + query,
        RouteView::Redirecting { route } => "/redirecting/"@ + route,
        RouteView::Submitting { route } => "/submitting/"@ + route,
        RouteView::About => "/about"@,
        RouteView::CreateAccount => "/create_account"@,
        RouteView::Login => "/login"@,
        RouteView::Secure => "/secure"@,
        RouteView::NotFound => "/404"@,
        RouteView::Restaurant { name } => "/restaurant/"@ + name,
    }
}

/// A route whose parameter, if it has one, is one segment of a path.
pub open spec fn has_segment(r: RouteView) -> bool {
    match r {
        RouteView::Search { query } => is_segment(query),
        RouteView::Redirecting { route } => is_segment(route),
        RouteView::Submitting { route } => is_segment(route),
        RouteView::Restaurant { name } => is_segment(name),
        _ => true,
    }
}

/// A path that is written in the table above: it is, up to trimming, the
/// path of a route other than `NotFound`.
pub open spec fn is_defined(path: Seq<char>) -> bool {
    exists|r: RouteView|
        r != RouteView::NotFound && has_segment(r) && trimmed(path) == trimmed(
            #[trigger] path_of(r),
        )
}

/// Whether the characters from `lo` to `hi` are those of `lit`.
#[verifier::loop_isolation(false)]
fn is_literal(chars: &Vec<char>, lo: usize, hi: usize, lit: &str) -> (r: bool)
    requires
        lo <= hi <= chars@.len(),
    ensures
        r == (chars@.subrange(lo as int, hi as int) == lit@),
{
    let want = chars_of(lit);
    if want.len() != hi - lo {
        return false;
    }
    let ghost have = chars@.subrange(lo as int, hi as int);
    let mut i: usize = 0;
    while i < want.len()
        invariant
            lo <= hi <= chars@.len(),
            want@.len() == hi - lo,
            have == chars@.subrange(lo as int, hi as int),
            i <= want@.len(),
            forall|k: int| 0 <= k < i ==> have[k] == want@[k],
        decreases want@.len() - i,
    {
        if chars[lo + i] != want[i] {
            assert(have[i as int] != want@[i as int]);
            return false;
        }
        i += 1;
    }
    assert(have =~= want@);
    true
}

/// Where the parameter starts, if the characters from `lo` to `hi` are
/// `prefix` and one segment.
#[verifier::loop_isolation(false)]
fn segment_after(chars: &Vec<char>, lo: usize, hi: usize, prefix: &str) -> (r: Option<usize>)
    requires
        lo <= hi <= chars@.len(),
    ensures
        r is Some <==> param_after(chars@.subrange(lo as int, hi as int), prefix@) is Some,
        r matches Some(start) ==> lo <= start < hi && param_after(
            chars@.subrange(lo as int, hi as int),
            prefix@,
        ) == Some(chars@.subrange(start as int, hi as int)),
{
    let want = chars_of(prefix);
    if hi - lo <= want.len() {
        return None;
    }
    let start: usize = lo + want.len();
    let ghost p = chars@.subrange(lo as int, hi as int);
    assert(p.take(want@.len() as int) =~= chars@.subrange(lo as int, start as int));
    assert(p.skip(want@.len() as int) =~= chars@.subrange(start as int, hi as int));
    if !is_literal(chars, lo, start, prefix) {
        return None;
    }
    let ghost seg = chars@.subrange(start as int, hi as int);
    let mut i: usize = start;
    while i < hi
        invariant
            start <= i <= hi <= chars@.len(),
            seg == chars@.subrange(start as int, hi as int),
            forall|k: int| 0 <= k < i - start ==> #[trigger] seg[k] != '/',
        decreases hi - i,
    {
        if chars[i] == '/' {
            assert(seg[i - start] == '/');
            return None;
        }
        i += 1;
    }
    Some(start)
}

/// The text of the path between two of its characters.
fn segment(pathname: &str, from: usize, to: usize) -> (r: String)
    requires
        from <= to <= pathname@.len(),
    ensures
        r@ == pathname@.subrange(from as int, to as int),
{
    String::from_str(pathname.substring_char(from, to))
}

impl Route {
    /// The route that `pathname` leads to. Every path leads to exactly one
    /// route; one that the table does not hold leads to `NotFound`.
    pub fn recognize(pathname: &str) -> (r: Route)
        ensures
            r@ == route_of(pathname@),
    {
        let chars = chars_of(pathname);
        let mut lo: usize = 0;
        let mut hi: usize = chars.len();
        if hi > 0 && chars[hi - 1] == '/' {
            hi -= 1;
        }
        if hi > lo && chars[lo] == '/' {
            lo += 1;
        }
        assert(chars@.subrange(lo as int, hi as int) =~= trimmed(pathname@));
        if lo == hi {
            Route::Home
        } else if is_literal(&chars, lo, hi, "about") {
            Route::About
        } else if is_literal(&chars, lo, hi, "create_account") {
            Route::CreateAccount
        } else if is_literal(&chars, lo, hi, "login") {
            Route::Login
        } else if is_literal(&chars, lo, hi, "secure") {
            Route::Secure
        } else if is_literal(&chars, lo, hi, "404") {
            Route::NotFound
        } else if let Some(start) = segment_after(&chars, lo, hi, "search/") {
            Route::Search { query: segment(pathname, start, hi) }
        } else if let Some(start) = segment_after(&chars, lo, hi, "redirecting/") {
            Route::Redirecting { route: segment(pathname, start, hi) }
        } else if let Some(start) = segment_after(&chars, lo, hi, "submitting/") {
            Route::Submitting { route: segment(pathname, start, hi) }
        } else if let Some(start) = segment_after(&chars, lo, hi, "restaurant/") {
            Route::Restaurant { name: segment(pathname, start, hi) }
        } else {
            Route::NotFound
        }
    }

    /// The path that is written for this route, its parameter as it
    /// stands.
    pub fn to_path(&self) -> (r: String)
        ensures
            r@ == path_of(self@),
    {
        match self {
            Route::Home => String::from_str("/"),
            Route::Search { query } => String::from_str("/search/").concat(query.as_str()),
            Route::Redirecting { route } => String::from_str("/redirecting/").concat(
                route.as_str(),
            ),
            Route::Submitting { route } => String::from_str("/submitting/").concat(
                route.as_str(),
            ),
            Route::About => String::from_str("/about"),
            Route::CreateAccount => String::from_str("/create_account"),
            Route::Login => String::from_str("/login"),
            Route::Secure => String::from_str("/secure"),
            Route::NotFound => String::from_str("/404"),
            Route::Restaurant { name } => String::from_str("/restaurant/").concat(name.as_str()),
        }
    }

    /// The route of a path that the table does not hold.
    pub fn not_found_route() -> (r: Route)
        ensures
            r@ == RouteView::NotFound,
    {
        Route::NotFound
    }
}

/// The characters of the paths in the table.
proof fn lemma_literals()
    ensures
        "/"@ =~= seq!['/'],
        "/search/"@ =~= seq!['/', 's', 'e', 'a', 'r', 'c', 'h', '/'],
        "/redirecting/"@ =~= seq!['/', 'r', 'e', 'd', 'i', 'r', 'e', 'c', 't', 'i', 'n', 'g', '/'],
        "/submitting/"@ =~= seq!['/', 's', 'u', 'b', 'm', 'i', 't', 't', 'i', 'n', 'g', '/'],
        "/about"@ =~= seq!['/', 'a', 'b', 'o', 'u', 't'],
        "/create_account"@ =~= seq!['/', 'c', 'r', 'e', 'a', 't', 'e', '_', 'a', 'c', 'c', 'o', 'u', 'n', 't'],
        "/login"@ =~= seq!['/', 'l', 'o', 'g', 'i', 'n'],
        "/secure"@ =~= seq!['/', 's', 'e', 'c', 'u', 'r', 'e'],
        "/404"@ =~= seq!['/', '4', '0', '4'],
        "/restaurant/"@ =~= seq!['/', 'r', 'e', 's', 't', 'a', 'u', 'r', 'a', 'n', 't', '/'],
        "about"@ =~= seq!['a', 'b', 'o', 'u', 't'],
        "create_account"@ =~= seq!['c', 'r', 'e', 'a', 't', 'e', '_', 'a', 'c', 'c', 'o', 'u', 'n', 't'],
        "login"@ =~= seq!['l', 'o', 'g', 'i', 'n'],
        "secure"@ =~= seq!['s', 'e', 'c', 'u', 'r', 'e'],
        "404"@ =~= seq!['4', '0', '4'],
        "search/"@ =~= seq!['s', 'e', 'a', 'r', 'c', 'h', '/'],
        "redirecting/"@ =~= seq!['r', 'e', 'd', 'i', 'r', 'e', 'c', 't', 'i', 'n', 'g', '/'],
        "submitting/"@ =~= seq!['s', 'u', 'b', 'm', 'i', 't', 't', 'i', 'n', 'g', '/'],
        "restaurant/"@ =~= seq!['r', 'e', 's', 't', 'a', 'u', 'r', 'a', 'n', 't', '/'],
{
    reveal_strlit("/");
    reveal_strlit("/search/");
    reveal_strlit("/redirecting/");
    reveal_strlit("/submitting/");
    reveal_strlit("/about");
    reveal_strlit("/create_account");
    reveal_strlit("/login");
    reveal_strlit("/secure");
    reveal_strlit("/404");
    reveal_strlit("/restaurant/");
    reveal_strlit("about");
    reveal_strlit("create_account");
    reveal_strlit("login");
    reveal_strlit("secure");
    reveal_strlit("404");
    reveal_strlit("search/");
    reveal_strlit("redirecting/");
    reveal_strlit("submitting/");
    reveal_strlit("restaurant/");
}

/// The path of a route starts with a slash, and trimming takes off that
/// slash and nothing else.
pub proof fn lemma_trimmed_path(r: RouteView)
    requires
        has_segment(r),
    ensures
        path_of(r).len() > 0,
        path_of(r)[0] == '/',
        trimmed(path_of(r)) == path_of(r).skip(1),
{
    lemma_literals();
    let path = path_of(r);
    match r {
        RouteView::Home => {
            assert(path.drop_last() =~= path.skip(1));
        },
        RouteView::Search { query } => {
            assert(path.last() == query.last());
        },
        RouteView::Redirecting { route } => {
            assert(path.last() == route.last());
        },
        RouteView::Submitting { route } => {
            assert(path.last() == route.last());
        },
        RouteView::Restaurant { name } => {
            assert(path.last() == name.last());
        },
        _ => {},
    }
}

/// Text with a slash in it is none of the paths without a parameter.
proof fn lemma_slash_is_not_static(p: Seq<char>, i: int)
    requires
        0 <= i < p.len(),
        p[i] == '/',
    ensures
        p != "about"@,
        p != "create_account"@,
        p != "login"@,
        p != "secure"@,
        p != "404"@,
{
    reveal_strlit("about");
    reveal_strlit("create_account");
    reveal_strlit("login");
    reveal_strlit("secure");
    reveal_strlit("404");
}

/// A segment behind a prefix is the parameter behind that prefix.
proof fn lemma_param_found(prefix: Seq<char>, seg: Seq<char>)
    requires
        is_segment(seg),
    ensures
        param_after(prefix + seg, prefix) == Some(seg),
{
    let p = prefix + seg;
    assert(p.take(prefix.len() as int) =~= prefix);
    assert(p.skip(prefix.len() as int) =~= seg);
}

/// Text that differs from a prefix in one place holds no parameter behind
/// that prefix.
proof fn lemma_param_missing(p: Seq<char>, prefix: Seq<char>, i: int)
    requires
        0 <= i < prefix.len(),
        p.len() > prefix.len() ==> p[i] != prefix[i],
    ensures
        param_after(p, prefix) is None,
{
    if p.len() > prefix.len() {
        assert(p.take(prefix.len() as int)[i] == p[i]);
    }
}

/// The path of a route without a parameter leads to that route.
proof fn lemma_route_of_static(r: RouteView)
    requires
        r is Home || r is About || r is CreateAccount || r is Login || r is Secure || r is NotFound,
    ensures
        route_of_trimmed(path_of(r).skip(1)) == r,
{
    reveal_strlit("about");
    reveal_strlit("create_account");
    reveal_strlit("login");
    reveal_strlit("secure");
    reveal_strlit("404");
    let p = path_of(r).skip(1);
    match r {
        RouteView::Home => {
            reveal_strlit("/");
        },
        RouteView::About => {
            reveal_strlit("/about");
            assert(p =~= "about"@);
        },
        RouteView::CreateAccount => {
            reveal_strlit("/create_account");
            assert(p =~= "create_account"@);
        },
        RouteView::Login => {
            reveal_strlit("/login");
            assert(p =~= "login"@);
            assert(p[0] != "about"@[0]);
        },
        RouteView::Secure => {
            reveal_strlit("/secure");
            assert(p =~= "secure"@);
        },
        _ => {
            reveal_strlit("/404");
            assert(p =~= "404"@);
        },
    }
}

/// The path of a route with a parameter leads to that route.
proof fn lemma_route_of_param(r: RouteView)
    requires
        r is Search || r is Redirecting || r is Submitting || r is Restaurant,
        has_segment(r),
    ensures
        route_of_trimmed(path_of(r).skip(1)) == r,
{
    let p = path_of(r).skip(1);
    match r {
        RouteView::Search { query } => {
            assert(p =~= "search/"@ + query && p.len() > 7 && p[6] == '/') by {
                reveal_strlit("/search/");
                reveal_strlit("search/");
            }
            lemma_slash_is_not_static(p, 6);
            lemma_param_found("search/"@, query);
        },
        RouteView::Redirecting { route } => {
            assert(p =~= "redirecting/"@ + route && p.len() > 12 && p[11] == '/' && p[0] == 'r') by {
                reveal_strlit("/redirecting/");
                reveal_strlit("redirecting/");
            }
            lemma_slash_is_not_static(p, 11);
            assert(param_after(p, "search/"@) is None) by {
                reveal_strlit("search/");
                lemma_param_missing(p, "search/"@, 0);
            }
            lemma_param_found("redirecting/"@, route);
        },
        RouteView::Submitting { route } => {
            assert(p =~= "submitting/"@ + route && p.len() > 11 && p[10] == '/' && p[0] == 's' && p[1]
                == 'u') by {
                reveal_strlit("/submitting/");
                reveal_strlit("submitting/");
            }
            lemma_slash_is_not_static(p, 10);
            assert(param_after(p, "search/"@) is None) by {
                reveal_strlit("search/");
                lemma_param_missing(p, "search/"@, 1);
            }
            assert(param_after(p, "redirecting/"@) is None) by {
                reveal_strlit("redirecting/");
                lemma_param_missing(p, "redirecting/"@, 0);
            }
            lemma_param_found("submitting/"@, route);
        },
        RouteView::Restaurant { name } => {
            assert(p =~= "restaurant/"@ + name && p.len() > 11 && p[10] == '/' && p[0] == 'r' && p[2]
                == 's') by {
                reveal_strlit("/restaurant/");
                reveal_strlit("restaurant/");
            }
            lemma_slash_is_not_static(p, 10);
            assert(param_after(p, "search/"@) is None) by {
                reveal_strlit("search/");
                lemma_param_missing(p, "search/"@, 0);
            }
            assert(param_after(p, "redirecting/"@) is None) by {
                reveal_strlit("redirecting/");
                lemma_param_missing(p, "redirecting/"@, 2);
            }
            assert(param_after(p, "submitting/"@) is None) by {
                reveal_strlit("submitting/");
                lemma_param_missing(p, "submitting/"@, 0);
            }
            lemma_param_found("restaurant/"@, name);
        },
        _ => {},
    }
}

/// A path that is written for a route leads back to that route, whatever
/// the route and whatever one segment its parameter holds.
pub proof fn lemma_route_of_path(r: RouteView)
    requires
        has_segment(r),
    ensures
        route_of(path_of(r)) == r,
{
    lemma_trimmed_path(r);
    if r is Search || r is Redirecting || r is Submitting || r is Restaurant {
        lemma_route_of_param(r);
    } else {
        lemma_route_of_static(r);
    }
}

/// A path that leads anywhere but to `NotFound` is, up to trimming, the
/// path that is written for its route, and the parameter of that route is
/// one segment.
pub proof fn lemma_path_of_route(path: Seq<char>)
    requires
        route_of(path) != RouteView::NotFound,
    ensures
        has_segment(route_of(path)),
        trimmed(path_of(route_of(path))) == trimmed(path),
{
    lemma_literals();
    let p = trimmed(path);
    let r = route_of(path);
    assert(has_segment(r) && path_of(r).skip(1) =~= p) by {
        match r {
            RouteView::Search { query } => {
                assert(p =~= p.take(7) + p.skip(7));
            },
            RouteView::Redirecting { route } => {
                assert(p =~= p.take(12) + p.skip(12));
            },
            RouteView::Submitting { route } => {
                assert(p =~= p.take(11) + p.skip(11));
            },
            RouteView::Restaurant { name } => {
                assert(p =~= p.take(11) + p.skip(11));
            },
            _ => {},
        }
    }
    lemma_trimmed_path(r);
}

/// The paths that lead to `NotFound` are exactly those that the table does
/// not hold: a path leads there if and only if it is not, up to trimming,
/// the path of any other route.
pub proof fn lemma_unmatched_is_not_found(path: Seq<char>)
    ensures
        route_of(path) == RouteView::NotFound <==> !is_defined(path),
{
    if route_of(path) != RouteView::NotFound {
        lemma_path_of_route(path);
        let r = route_of(path);
        assert(trimmed(path) == trimmed(path_of(r)));
    }
    if is_defined(path) {
        let r = choose|r: RouteView|
            r != RouteView::NotFound && has_segment(r) && trimmed(path) == trimmed(
                #[trigger] path_of(r),
            );
        lemma_route_of_path(r);
    }
}

} // verus!
