//! The page that each route shows.

use crate::review::{ReviewView, UserReview};
use crate::route::{Route, RouteView};
use vstd::prelude::*;
use vstd::string::*;

verus! {

/// A page of the site, with what it is set up with.
#[derive(Debug)]
pub enum Page {
    About,
    /// The front page, with the text that it searches for; the text is
    /// empty where nothing is searched for.
    Home { query: String },
    Redirecting { route: String },
    /// The page that takes a review: the token from the path, and the
    /// review that the page shows until it has read the token.
    Submitting { route: String, review: UserReview },
    Secure,
    NotFound,
    Restaurant { name: String },
    Login,
    CreateAccount,
}

pub enum PageView {
    About,
    Home { query: Seq<char> },
    Redirecting { route: Seq<char> },
    Submitting { route: Seq<char>, review: ReviewView },
    Secure,
    NotFound,
    Restaurant { name: Seq<char> },
    Login,
    CreateAccount,
}

impl View for Page {
    type V = PageView;

    open spec fn view(&self) -> PageView {
        match self {
            Page::About => PageView::About,
            Page::Home { query } => PageView::Home { query: query@ },
            Page::Redirecting { route } => PageView::Redirecting { route: route@ },
            Page::Submitting { route, review } => PageView::Submitting {
                route: route@,
                review: review@,
            },
            Page::Secure => PageView::Secure,
            Page::NotFound => PageView::NotFound,
            Page::Restaurant { name } => PageView::Restaurant { name: name@ },
            Page::Login => PageView::Login,
            Page::CreateAccount => PageView::CreateAccount,
        }
    }
}

impl PartialEq for Page {
    fn eq(&self, other: &Self) -> (r: bool) {
        match (self, other) {
            (Page::About, Page::About) => true,
            (Page::Home { query: a }, Page::Home { query: b }) => *a == *b,
            (Page::Redirecting { route: a }, Page::Redirecting { route: b }) => *a == *b,
            (
                Page::Submitting { route: a, review: ra },
                Page::Submitting { route: b, review: rb },
            ) => *a == *b && *ra == *rb,
            (Page::Secure, Page::Secure) => true,
            (Page::NotFound, Page::NotFound) => true,
            (Page::Restaurant { name: a }, Page::Restaurant { name: b }) => *a == *b,
            (Page::Login, Page::Login) => true,
            (Page::CreateAccount, Page::CreateAccount) => true,
            _ => false,
        }
    }
}

impl vstd::std_specs::cmp::PartialEqSpecImpl for Page {
    open spec fn obeys_eq_spec() -> bool {
        true
    }

    open spec fn eq_spec(&self, other: &Self) -> bool {
        self@ == other@
    }
}

/// The review that the submitting page shows before it has read its token.
pub open spec fn pending_review() -> ReviewView {
    ReviewView {
        user_rating: 5,
        user_review_title: "Title"@,
        restaurant_name: ""@,
        user_review: "Review"@,
        user_name: "John Doe"@,
    }
}

/// The page of a route: each route has its own page and hands it its
/// parameter; the front page also serves a search.
pub open spec fn page_of(route: RouteView) -> PageView {
    match route {
        RouteView::About => PageView::About,
        RouteView::Home => PageView::Home { query: ""@ },
        RouteView::Search { query } => PageView::Home { query },
        RouteView::Redirecting { route } => PageView::Redirecting { route },
        RouteView::Submitting { route } => PageView::Submitting { route, review: pending_review() },
        RouteView::Secure => PageView::Secure,
        RouteView::NotFound => PageView::NotFound,
        RouteView::Restaurant { name } => PageView::Restaurant { name },
        RouteView::Login => PageView::Login,
        RouteView::CreateAccount => PageView::CreateAccount,
    }
}

/// The page that `routes` shows.
pub fn switch(routes: Route) -> (r: Page)
    ensures
        r@ == page_of(routes@),
{
    match routes {
        Route::About => Page::About,
        Route::Home => Page::Home { query: String::from_str("") },
        Route::Search { query } => Page::Home { query },
        Route::Redirecting { route } => Page::Redirecting { route },
        Route::Submitting { route } => Page::Submitting {
            route,
            review: UserReview {
                user_rating: 5,
                user_review_title: String::from_str("Title"),
                restaurant_name: String::from_str(""),
                user_review: String::from_str("Review"),
                user_name: String::from_str("John Doe"),
            },
        },
        Route::Secure => Page::Secure,
        Route::NotFound => Page::NotFound,
        Route::Restaurant { name } => Page::Restaurant { name },
        Route::Login => Page::Login,
        Route::CreateAccount => Page::CreateAccount,
    }
}

} // verus!
