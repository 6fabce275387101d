//! The logic of a restaurant review site: the rating field of the review
//! form, the review record and the token that carries it between pages, the
//! table of routes, and the review form as a function of its state.

pub mod composer;
pub mod hex;
pub mod pages;
pub mod rating;
pub mod review;
pub mod route;
pub mod text;
pub mod wire;
