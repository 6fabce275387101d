//! The review record.

use vstd::prelude::*;
use vstd::string::*;

verus! {

/// A review as its author wrote it.
#[derive(Debug)]
pub struct UserReview {
    /// The rating as the form read it; it may lie outside the range that
    /// the form asks for.
    pub user_rating: i32,
    pub user_review_title: String,
    pub restaurant_name: String,
    pub user_review: String,
    pub user_name: String,
}

/// What a review says: its number, and its texts as characters.
pub struct ReviewView {
    pub user_rating: int,
    pub user_review_title: Seq<char>,
    pub restaurant_name: Seq<char>,
    pub user_review: Seq<char>,
    pub user_name: Seq<char>,
}

impl View for UserReview {
    type V = ReviewView;

    open spec fn view(&self) -> ReviewView {
        ReviewView {
            user_rating: self.user_rating as int,
            user_review_title: self.user_review_title@,
            restaurant_name: self.restaurant_name@,
            user_review: self.user_review@,
            user_name: self.user_name@,
        }
    }
}

impl Clone for UserReview {
    fn clone(&self) -> (r: Self)
        ensures
            r@ == self@,
    {
        UserReview {
            user_rating: self.user_rating,
            user_review_title: self.user_review_title.clone(),
            restaurant_name: self.restaurant_name.clone(),
            user_review: self.user_review.clone(),
            user_name: self.user_name.clone(),
        }
    }
}

impl PartialEq for UserReview {
    fn eq(&self, other: &Self) -> (r: bool) {
        self.user_rating == other.user_rating && self.user_review_title == other.user_review_title
            && self.restaurant_name == other.restaurant_name && self.user_review
            == other.user_review && self.user_name == other.user_name
    }
}

impl vstd::std_specs::cmp::PartialEqSpecImpl for UserReview {
    open spec fn obeys_eq_spec() -> bool {
        true
    }

    open spec fn eq_spec(&self, other: &Self) -> bool {
        self@ == other@
    }
}

} // verus!
