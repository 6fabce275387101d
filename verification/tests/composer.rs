use restaurant_reviews::composer::{
    compose, step, submit_route, write_a_review, Draft, Effect, Event, Props, AUTHOR, HIDDEN,
    SHOWN,
};
use restaurant_reviews::review::UserReview;
use restaurant_reviews::route::Route;
use restaurant_reviews::wire::{hex_to_struct, struct_to_hex};

fn props(review_exists: &str) -> Props {
    Props {
        review_exists: review_exists.to_string(),
        initial_user_review: UserReview {
            user_rating: 4,
            user_review_title: "Good".to_string(),
            restaurant_name: "Chez Pierre".to_string(),
            user_review: "Nice soup".to_string(),
            user_name: "Somebody".to_string(),
        },
    }
}

fn draft(title: &str, review: &str, rating: &str) -> Draft {
    Draft { title: title.to_string(), review: review.to_string(), rating: rating.to_string() }
}

fn hides(effects: &[Effect]) -> usize {
    effects.iter().filter(|e| matches!(e, Effect::Hide)).count()
}

#[test]
fn the_classes_are_block_and_hidden() {
    assert_eq!(SHOWN, "block");
    assert_eq!(HIDDEN, "hidden");
    assert_eq!(AUTHOR, "John Doe");
}

#[test]
fn a_new_form_starts_from_the_initial_review() {
    let d = Draft::new(&props("block"));
    assert_eq!(d, draft("Good", "Nice soup", "4"));
}

#[test]
fn a_new_form_writes_out_any_rating() {
    let mut p = props("block");
    p.initial_user_review.user_rating = -1;
    assert_eq!(Draft::new(&p).rating, "-1");
    p.initial_user_review.user_rating = 0;
    assert_eq!(Draft::new(&p).rating, "0");
    p.initial_user_review.user_rating = i32::MIN;
    assert_eq!(Draft::new(&p).rating, "-2147483648");
}

#[test]
fn a_new_form_spells_the_initial_review_under_the_fixed_author() {
    let p = props("block");
    let r = compose(&p, &Draft::new(&p));
    let mut expected = p.initial_user_review.clone();
    expected.user_name = "John Doe".to_string();
    assert_eq!(r, expected);
}

#[test]
fn rating_five_hides_the_warning() {
    let p = props("block");
    let d = draft("t", "b", "5");
    assert_eq!(write_a_review(&p, &d).warning_class, "hidden");
    assert_eq!(compose(&p, &d).user_rating, 5);
}

#[test]
fn rating_abc_shows_the_warning() {
    let p = props("block");
    let d = draft("t", "b", "abc");
    assert_eq!(compose(&p, &d).user_rating, -1);
    assert_eq!(write_a_review(&p, &d).warning_class, "block");
}

#[test]
fn rating_seven_shows_the_warning() {
    let p = props("block");
    let d = draft("t", "b", "7");
    assert_eq!(compose(&p, &d).user_rating, 7);
    assert_eq!(write_a_review(&p, &d).warning_class, "block");
}

#[test]
fn the_warning_is_hidden_from_one_to_five_only() {
    let p = props("block");
    let hidden = ["1", "2", "3", "4", "5", "+3", "05", "0001"];
    for text in hidden {
        assert_eq!(write_a_review(&p, &draft("", "", text)).warning_class, HIDDEN, "on {:?}", text);
    }
    let shown = [
        "", "0", "6", "-1", "-5", "10", "55", "abc", "5 ", " 5", "5.0", "five", "2147483648",
        "1e0", "\u{0665}",
    ];
    for text in shown {
        assert_eq!(write_a_review(&p, &draft("", "", text)).warning_class, SHOWN, "on {:?}", text);
    }
}

#[test]
fn the_record_reflects_the_fields() {
    let p = props("block");
    let r = compose(&p, &draft("My title", "My body", "3"));
    assert_eq!(
        r,
        UserReview {
            user_rating: 3,
            user_review_title: "My title".to_string(),
            restaurant_name: "Chez Pierre".to_string(),
            user_review: "My body".to_string(),
            user_name: "John Doe".to_string(),
        }
    );
}

#[test]
fn the_record_follows_each_input() {
    let p = props("block");
    let d = Draft::new(&p);
    let (d, effects) = step(&p, d, Event::Title("New title".to_string()));
    assert!(effects.is_empty());
    assert_eq!(d, draft("New title", "Nice soup", "4"));
    assert_eq!(compose(&p, &d).user_review_title, "New title");
    let (d, effects) = step(&p, d, Event::Review("New body".to_string()));
    assert!(effects.is_empty());
    assert_eq!(d, draft("New title", "New body", "4"));
    assert_eq!(compose(&p, &d).user_review, "New body");
    let (d, effects) = step(&p, d, Event::Rating("2".to_string()));
    assert!(effects.is_empty());
    assert_eq!(d, draft("New title", "New body", "2"));
    assert_eq!(compose(&p, &d).user_rating, 2);
    let (d, _) = step(&p, d, Event::Rating("2x".to_string()));
    assert_eq!(compose(&p, &d).user_rating, -1);
    let (d, _) = step(&p, d, Event::Title(String::new()));
    assert_eq!(compose(&p, &d).user_review_title, "");
    assert_eq!(compose(&p, &d).user_review, "New body");
    assert_eq!(compose(&p, &d).restaurant_name, "Chez Pierre");
    assert_eq!(compose(&p, &d).user_name, "John Doe");
}

#[test]
fn the_form_shows_the_fields_as_they_stand() {
    let p = props("block");
    let d = draft("T", "B", "not a number");
    let f = write_a_review(&p, &d);
    assert_eq!(f.fields_class, "block");
    assert_eq!(f.title, "T");
    assert_eq!(f.review, "B");
    assert_eq!(f.rating, "not a number");
    assert_eq!(f.submit_to, submit_route(&p, &d));
    assert_eq!(f.warning_class, "block");
    assert_eq!(f.edit_class, "hidden");
}

#[test]
fn the_edit_control_shows_unless_the_fields_do() {
    let d = draft("T", "B", "5");
    assert_eq!(write_a_review(&props("block"), &d).edit_class, "hidden");
    assert_eq!(write_a_review(&props("block"), &d).fields_class, "block");
    assert_eq!(write_a_review(&props("hidden"), &d).edit_class, "block");
    assert_eq!(write_a_review(&props("hidden"), &d).fields_class, "hidden");
    assert_eq!(write_a_review(&props(""), &d).edit_class, "block");
    assert_eq!(write_a_review(&props("Block"), &d).edit_class, "block");
    assert_eq!(write_a_review(&props("block "), &d).edit_class, "block");
    assert_eq!(write_a_review(&props("block "), &d).fields_class, "block ");
}

#[test]
fn the_submit_control_leads_to_the_submitting_page_with_the_token() {
    let p = props("block");
    let d = draft("T", "B", "5");
    let expected = struct_to_hex(&compose(&p, &d));
    assert_eq!(submit_route(&p, &d), Route::Submitting { route: expected.clone() });
    assert_eq!(write_a_review(&p, &d).submit_to, Route::Submitting { route: expected });
}

#[test]
fn the_token_in_the_route_carries_the_record() {
    let p = props("block");
    let drafts = [
        draft("T", "B", "5"),
        draft("", "", ""),
        draft("caf\u{00e9}", "\u{2615}\n/", "abc"),
        draft("a/b", "c d", "-3"),
    ];
    for d in drafts {
        let route = submit_route(&p, &d);
        let path = route.to_path();
        match Route::recognize(&path) {
            Route::Submitting { route: token } => {
                assert_eq!(hex_to_struct(&token), Some(compose(&p, &d)));
            },
            other => panic!("{:?} led to {:?}", path, other),
        }
        assert_eq!(Route::recognize(&path), route);
    }
}

#[test]
fn submitting_hides_once_whatever_the_rating() {
    let p = props("block");
    let ratings = ["5", "1", "0", "7", "-1", "abc", "", "2147483648"];
    for rating in ratings {
        let d = draft("T", "B", rating);
        let (next, effects) = step(&p, d.clone(), Event::Submit);
        assert_eq!(next, d);
        assert_eq!(hides(&effects), 1, "on {:?}", rating);
        assert_eq!(
            effects,
            vec![Effect::PreventDefault, Effect::Hide, Effect::Navigate(submit_route(&p, &d))]
        );
    }
}

#[test]
fn the_edit_control_hides_once_and_changes_nothing() {
    let p = props("hidden");
    let d = draft("T", "B", "5");
    let (next, effects) = step(&p, d.clone(), Event::Edit);
    assert_eq!(next, d);
    assert_eq!(effects, vec![Effect::Hide]);
    assert_eq!(hides(&effects), 1);
}

#[test]
fn an_input_never_hides() {
    let p = props("block");
    let d = draft("T", "B", "5");
    for event in [
        Event::Title("x".to_string()),
        Event::Review("y".to_string()),
        Event::Rating("z".to_string()),
    ] {
        let (_, effects) = step(&p, d.clone(), event);
        assert_eq!(hides(&effects), 0);
        assert!(effects.is_empty());
    }
}

#[test]
fn props_are_equal_by_field() {
    assert_eq!(props("block"), props("block"));
    assert_eq!(props("block"), props("block").clone());
    assert_ne!(props("block"), props("hidden"));
    let mut other = props("block");
    other.initial_user_review.user_rating = 1;
    assert_ne!(props("block"), other);
}

#[test]
fn forms_are_equal_by_field() {
    let p = props("block");
    let a = write_a_review(&p, &draft("T", "B", "5"));
    let b = write_a_review(&p, &draft("T", "B", "5"));
    let c = write_a_review(&p, &draft("T", "B", "6"));
    assert_eq!(a, b);
    assert_ne!(a, c);
}
