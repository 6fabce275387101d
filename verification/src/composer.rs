//! The review form.
//!
//! The form holds three fields of text: a title, a body and a rating. What
//! it shows is a function of its properties and those fields, and so is
//! what it does when something happens to it: an input changes the one
//! field it belongs to; a click on the submit control collapses the form
//! and leads on to the page that takes the review, with the review in the
//! path as a token; a click on the edit control asks for the form back.
//! Whoever draws the form carries out what it asks for. The review leaves
//! the form in the path and in no other way: the form calls nothing with
//! the review itself.

use crate::hex::lemma_hex_of_shape;
use crate::rating::{
    decimal_text, in_range, lemma_text_round_trip, parse_rating, parsed_i32, rating_in_range,
    rating_of, rating_text,
};
use crate::review::{ReviewView, UserReview};
use crate::route::{is_segment, lemma_route_of_path, path_of, route_of, Route, RouteView};
use crate::wire::{review_bytes, review_of_token, struct_to_hex, token_of};
use vstd::prelude::*;
use vstd::string::*;

verus! {

/// The name under which every review is written.
pub const AUTHOR: &'static str = "John Doe";

/// The class of what is shown.
pub const SHOWN: &'static str = "block";

/// The class of what is not shown.
pub const HIDDEN: &'static str = "hidden";

/// What the form is set up with.
#[derive(Debug)]
pub struct Props {
    /// The class of the fields: [`SHOWN`] while the review is being
    /// edited.
    pub review_exists: String,
    /// The review that the fields start from, and the restaurant that the
    /// review is about.
    pub initial_user_review: UserReview,
}

pub struct PropsView {
    pub review_exists: Seq<char>,
    pub initial_user_review: ReviewView,
}

impl View for Props {
    type V = PropsView;

    open spec fn view(&self) -> PropsView {
        PropsView {
            review_exists: self.review_exists@,
            initial_user_review: self.initial_user_review@,
        }
    }
}

impl Clone for Props {
    fn clone(&self) -> (r: Self)
        ensures
            r@ == self@,
    {
        Props {
            review_exists: self.review_exists.clone(),
            initial_user_review: self.initial_user_review.clone(),
        }
    }
}

impl PartialEq for Props {
    fn eq(&self, other: &Self) -> (r: bool) {
        self.review_exists == other.review_exists && self.initial_user_review
            == other.initial_user_review
    }
}

impl vstd::std_specs::cmp::PartialEqSpecImpl for Props {
    open spec fn obeys_eq_spec() -> bool {
        true
    }

    open spec fn eq_spec(&self, other: &Self) -> bool {
        self@ == other@
    }
}

/// The three fields of the form, as they stand.
#[derive(Debug)]
pub struct Draft {
    pub title: String,
    pub review: String,
    /// The rating as text, whatever was typed.
    pub rating: String,
}

pub struct DraftView {
    pub title: Seq<char>,
    pub review: Seq<char>,
    pub rating: Seq<char>,
}

impl View for Draft {
    type V = DraftView;

    open spec fn view(&self) -> DraftView {
        DraftView { title: self.title@, review: self.review@, rating: self.rating@ }
    }
}

impl Clone for Draft {
    fn clone(&self) -> (r: Self)
        ensures
            r@ == self@,
    {
        Draft {
            title: self.title.clone(),
            review: self.review.clone(),
            rating: self.rating.clone(),
        }
    }
}

impl PartialEq for Draft {
    fn eq(&self, other: &Self) -> (r: bool) {
        self.title == other.title && self.review == other.review && self.rating == other.rating
    }
}

impl vstd::std_specs::cmp::PartialEqSpecImpl for Draft {
    open spec fn obeys_eq_spec() -> bool {
        true
    }

    open spec fn eq_spec(&self, other: &Self) -> bool {
        self@ == other@
    }
}

/// Something that happens to the form.
#[derive(Debug)]
pub enum Event {
    /// The title field now holds this text.
    Title(String),
    /// The body field now holds this text.
    Review(String),
    /// The rating field now holds this text.
    Rating(String),
    /// The submit control was activated.
    Submit,
    /// The edit control was activated.
    Edit,
}

pub enum EventView {
    Title(Seq<char>),
    Review(Seq<char>),
    Rating(Seq<char>),
    Submit,
    Edit,
}

impl View for Event {
    type V = EventView;

    open spec fn view(&self) -> EventView {
        match self {
            Event::Title(text) => EventView::Title(text@),
            Event::Review(text) => EventView::Review(text@),
            Event::Rating(text) => EventView::Rating(text@),
            Event::Submit => EventView::Submit,
            Event::Edit => EventView::Edit,
        }
    }
}

/// Something that the form asks for.
#[derive(Debug)]
pub enum Effect {
    /// Keep the browser from submitting the form itself.
    PreventDefault,
    /// Call the function that collapses the form, or brings it back.
    Hide,
    /// Go to this route.
    Navigate(Route),
}

pub enum EffectView {
    PreventDefault,
    Hide,
    Navigate(RouteView),
}

impl View for Effect {
    type V = EffectView;

    open spec fn view(&self) -> EffectView {
        match self {
            Effect::PreventDefault => EffectView::PreventDefault,
            Effect::Hide => EffectView::Hide,
            Effect::Navigate(route) => EffectView::Navigate(route@),
        }
    }
}

impl PartialEq for Effect {
    fn eq(&self, other: &Self) -> (r: bool) {
        match (self, other) {
            (Effect::PreventDefault, Effect::PreventDefault) => true,
            (Effect::Hide, Effect::Hide) => true,
            (Effect::Navigate(a), Effect::Navigate(b)) => *a == *b,
            _ => false,
        }
    }
}

impl vstd::std_specs::cmp::PartialEqSpecImpl for Effect {
    open spec fn obeys_eq_spec() -> bool {
        true
    }

    open spec fn eq_spec(&self, other: &Self) -> bool {
        self@ == other@
    }
}

/// What the form shows.
#[derive(Debug)]
pub struct Form {
    /// The class of the block that holds the fields and the submit
    /// control.
    pub fields_class: String,
    pub title: String,
    pub review: String,
    pub rating: String,
    /// Where the submit control leads.
    pub submit_to: Route,
    /// The class of the line that warns of a rating out of range.
    pub warning_class: String,
    /// The class of the block that holds the edit control.
    pub edit_class: String,
}

pub struct FormView {
    pub fields_class: Seq<char>,
    pub title: Seq<char>,
    pub review: Seq<char>,
    pub rating: Seq<char>,
    pub submit_to: RouteView,
    pub warning_class: Seq<char>,
    pub edit_class: Seq<char>,
}

impl View for Form {
    type V = FormView;

    open spec fn view(&self) -> FormView {
        FormView {
            fields_class: self.fields_class@,
            title: self.title@,
            review: self.review@,
            rating: self.rating@,
            submit_to: self.submit_to@,
            warning_class: self.warning_class@,
            edit_class: self.edit_class@,
        }
    }
}

impl PartialEq for Form {
    fn eq(&self, other: &Self) -> (r: bool) {
        self.fields_class == other.fields_class && self.title == other.title && self.review
            == other.review && self.rating == other.rating && self.submit_to == other.submit_to
            && self.warning_class == other.warning_class && self.edit_class == other.edit_class
    }
}

impl vstd::std_specs::cmp::PartialEqSpecImpl for Form {
    open spec fn obeys_eq_spec() -> bool {
        true
    }

    open spec fn eq_spec(&self, other: &Self) -> bool {
        self@ == other@
    }
}

/// The fields that a form starts with: the title and the body of the
/// review it is set up with, and that review's rating written out.
pub open spec fn initial_draft(props: PropsView) -> DraftView {
    DraftView {
        title: props.initial_user_review.user_review_title,
        review: props.initial_user_review.user_review,
        rating: decimal_text(props.initial_user_review.user_rating),
    }
}

/// The review that the fields spell: their title and body, the rating that
/// the rating field stands for, the restaurant of the form, and the fixed
/// author.
pub open spec fn composed(props: PropsView, draft: DraftView) -> ReviewView {
    ReviewView {
        user_rating: rating_of(draft.rating),
        user_review_title: draft.title,
        restaurant_name: props.initial_user_review.restaurant_name,
        user_review: draft.review,
        user_name: AUTHOR@,
    }
}

/// Whether the form warns of its rating: it does unless the rating field
/// stands for a rating in range.
pub open spec fn warns(draft: DraftView) -> bool {
    !rating_in_range(rating_of(draft.rating))
}

/// Where the submit control leads: to the page that takes the review, with
/// the token of the review that the fields spell.
pub open spec fn destination(props: PropsView, draft: DraftView) -> RouteView {
    RouteView::Submitting { route: token_of(composed(props, draft)) }
}

/// What the form shows for given properties and fields.
pub open spec fn form_of(props: PropsView, draft: DraftView) -> FormView {
    FormView {
        fields_class: props.review_exists,
        title: draft.title,
        review: draft.review,
        rating: draft.rating,
        submit_to: destination(props, draft),
        warning_class: if warns(draft) {
            SHOWN@
        } else {
            HIDDEN@
        },
        edit_class: if props.review_exists == SHOWN@ {
            HIDDEN@
        } else {
            SHOWN@
        },
    }
}

/// The fields after an event: an input replaces its own field and leaves
/// the other two; a click changes none.
pub open spec fn next_draft(draft: DraftView, event: EventView) -> DraftView {
    match event {
        EventView::Title(text) => DraftView { title: text, ..draft },
        EventView::Review(text) => DraftView { review: text, ..draft },
        EventView::Rating(text) => DraftView { rating: text, ..draft },
        EventView::Submit => draft,
        EventView::Edit => draft,
    }
}

/// What the form asks for on an event, in the order in which it is to be
/// done.
pub open spec fn effects_of(props: PropsView, draft: DraftView, event: EventView) -> Seq<
    EffectView,
> {
    match event {
        EventView::Submit => seq![
            EffectView::PreventDefault,
            EffectView::Hide,
            EffectView::Navigate(destination(props, draft)),
        ],
        EventView::Edit => seq![EffectView::Hide],
        _ => Seq::empty(),
    }
}

/// Whether `effects` are the effects that `views` describes, one for one
/// and in that order.
pub open spec fn effects_are(effects: Seq<Effect>, views: Seq<EffectView>) -> bool {
    &&& effects.len() == views.len()
    &&& forall|i: int| 0 <= i < effects.len() ==> (#[trigger] effects[i])@ == views[i]
}

/// Whether the effect at place `i` is the call that collapses the form.
pub open spec fn hides_at(effects: Seq<EffectView>, i: int) -> bool {
    0 <= i < effects.len() && effects[i] is Hide
}

/// Whether the effects call the function that collapses the form exactly
/// once.
pub open spec fn hides_once(effects: Seq<EffectView>) -> bool {
    exists|i: int| #[trigger]
        hides_at(effects, i) && forall|j: int| #[trigger] hides_at(effects, j) ==> j == i
}

impl Draft {
    /// The fields of a form that was just set up.
    pub fn new(props: &Props) -> (r: Draft)
        ensures
            r@ == initial_draft(props@),
    {
        Draft {
            title: props.initial_user_review.user_review_title.clone(),
            review: props.initial_user_review.user_review.clone(),
            rating: rating_text(props.initial_user_review.user_rating),
        }
    }
}

/// The review that the fields spell at this moment.
pub fn compose(props: &Props, draft: &Draft) -> (r: UserReview)
    ensures
        r@ == composed(props@, draft@),
{
    UserReview {
        user_rating: parse_rating(draft.rating.as_str()),
        user_review_title: draft.title.clone(),
        restaurant_name: props.initial_user_review.restaurant_name.clone(),
        user_review: draft.review.clone(),
        user_name: String::from_str(AUTHOR),
    }
}

/// Where the submit control leads at this moment. The token in the route is
/// read back as the review that the fields spell.
pub fn submit_route(props: &Props, draft: &Draft) -> (r: Route)
    ensures
        r@ == destination(props@, draft@),
        review_of_token(token_of(composed(props@, draft@))) == Some(composed(props@, draft@)),
{
    let review = compose(props, draft);
    Route::Submitting { route: struct_to_hex(&review) }
}

/// What the form shows.
pub fn write_a_review(props: &Props, draft: &Draft) -> (r: Form)
    ensures
        r@ == form_of(props@, draft@),
{
    let rating: i32 = parse_rating(draft.rating.as_str());
    let warning_class = if in_range(rating) {
        String::from_str(HIDDEN)
    } else {
        String::from_str(SHOWN)
    };
    let edit_class = if props.review_exists == String::from_str(SHOWN) {
        String::from_str(HIDDEN)
    } else {
        String::from_str(SHOWN)
    };
    Form {
        fields_class: props.review_exists.clone(),
        title: draft.title.clone(),
        review: draft.review.clone(),
        rating: draft.rating.clone(),
        submit_to: submit_route(props, draft),
        warning_class,
        edit_class,
    }
}

/// Takes an event: gives the fields as they are after it, and what the form
/// asks for.
pub fn step(props: &Props, draft: Draft, event: Event) -> (r: (Draft, Vec<Effect>))
    ensures
        r.0@ == next_draft(draft@, event@),
        effects_are(r.1@, effects_of(props@, draft@, event@)),
{
    let mut effects: Vec<Effect> = Vec::new();
    let next = match event {
        Event::Title(text) => Draft { title: text, review: draft.review, rating: draft.rating },
        Event::Review(text) => Draft { title: draft.title, review: text, rating: draft.rating },
        Event::Rating(text) => Draft { title: draft.title, review: draft.review, rating: text },
        Event::Submit => {
            effects.push(Effect::PreventDefault);
            effects.push(Effect::Hide);
            effects.push(Effect::Navigate(submit_route(props, &draft)));
            draft
        },
        Event::Edit => {
            effects.push(Effect::Hide);
            draft
        },
    };
    (next, effects)
}

/// The warning follows the rating field, whatever it holds: the line is
/// hidden where the field writes a number from 1 to 5, and shown where it
/// writes another number or none.
pub proof fn lemma_warning_follows_rating(props: PropsView, draft: DraftView)
    ensures
        warns(draft) <==> !(parsed_i32(draft.rating) matches Some(v) && 1 <= v <= 5),
        form_of(props, draft).warning_class == SHOWN@ <==> warns(draft),
        form_of(props, draft).warning_class == HIDDEN@ <==> !warns(draft),
{
    reveal_strlit("block");
    reveal_strlit("hidden");
    assert(SHOWN@.len() != HIDDEN@.len());
}

/// The review that is read after an input holds what was typed: the title,
/// the body or the rating of that input, the other fields as they were, and
/// never what the changed field held before.
pub proof fn lemma_record_follows_fields(props: PropsView, draft: DraftView, event: EventView)
    ensures
        composed(props, draft).user_review_title == draft.title,
        composed(props, draft).user_review == draft.review,
        composed(props, draft).user_rating == rating_of(draft.rating),
        event matches EventView::Title(text) ==> composed(props, next_draft(draft, event)) == (
        ReviewView { user_review_title: text, ..composed(props, draft) }),
        event matches EventView::Review(text) ==> composed(props, next_draft(draft, event)) == (
        ReviewView { user_review: text, ..composed(props, draft) }),
        event matches EventView::Rating(text) ==> composed(props, next_draft(draft, event)) == (
        ReviewView { user_rating: rating_of(text), ..composed(props, draft) }),
        event is Submit || event is Edit ==> composed(props, next_draft(draft, event))
            == composed(props, draft),
{
}

/// A form that was just set up spells the review it was set up with, but
/// for the author: title, body, restaurant and rating are those of that
/// review.
pub proof fn lemma_initial_record(props: PropsView)
    requires
        i32::MIN <= props.initial_user_review.user_rating <= i32::MAX,
    ensures
        composed(props, initial_draft(props)) == (ReviewView {
            user_name: AUTHOR@,
            ..props.initial_user_review
        }),
{
    lemma_text_round_trip(props.initial_user_review.user_rating);
}

/// Submitting calls the function that collapses the form exactly once,
/// whatever the fields hold and whether or not the rating is in range; so
/// does a click on the edit control, and an input never calls it.
pub proof fn lemma_submit_hides_once(props: PropsView, draft: DraftView, event: EventView)
    ensures
        event is Submit ==> hides_once(effects_of(props, draft, event)),
        event is Edit ==> hides_once(effects_of(props, draft, event)),
        !(event is Submit || event is Edit) ==> forall|i: int|
            !hides_at(effects_of(props, draft, event), i),
{
    let effects = effects_of(props, draft, event);
    if event is Submit {
        assert(hides_at(effects, 1));
    } else if event is Edit {
        assert(hides_at(effects, 0));
    }
}

/// The token of a review is one segment of a path: it is not empty and
/// holds no slash.
pub proof fn lemma_token_is_segment(r: ReviewView)
    ensures
        is_segment(token_of(r)),
{
    lemma_hex_of_shape(review_bytes(r));
}

/// The path that the submit control leads to is read back as the route it
/// was written for, token and all.
pub proof fn lemma_destination_is_recognized(props: PropsView, draft: DraftView)
    ensures
        route_of(path_of(destination(props, draft))) == destination(props, draft),
{
    lemma_token_is_segment(composed(props, draft));
    lemma_route_of_path(destination(props, draft));
}

} // verus!
