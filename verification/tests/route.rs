use restaurant_reviews::route::Route;

fn search(query: &str) -> Route {
    Route::Search { query: query.to_string() }
}

fn redirecting(route: &str) -> Route {
    Route::Redirecting { route: route.to_string() }
}

fn submitting(route: &str) -> Route {
    Route::Submitting { route: route.to_string() }
}

fn restaurant(name: &str) -> Route {
    Route::Restaurant { name: name.to_string() }
}

#[test]
fn a_restaurant_name_is_taken_as_it_stands() {
    assert_eq!(Route::recognize("/restaurant/Chez%20Pierre"), restaurant("Chez%20Pierre"));
}

#[test]
fn every_path_of_the_table_is_recognized() {
    assert_eq!(Route::recognize("/"), Route::Home);
    assert_eq!(Route::recognize("/search/pizza"), search("pizza"));
    assert_eq!(Route::recognize("/redirecting/login"), redirecting("login"));
    assert_eq!(Route::recognize("/submitting/05000000"), submitting("05000000"));
    assert_eq!(Route::recognize("/about"), Route::About);
    assert_eq!(Route::recognize("/create_account"), Route::CreateAccount);
    assert_eq!(Route::recognize("/login"), Route::Login);
    assert_eq!(Route::recognize("/secure"), Route::Secure);
    assert_eq!(Route::recognize("/404"), Route::NotFound);
    assert_eq!(Route::recognize("/restaurant/Roma"), restaurant("Roma"));
}

#[test]
fn one_slash_at_the_end_is_ignored() {
    assert_eq!(Route::recognize("/about/"), Route::About);
    assert_eq!(Route::recognize("/search/pizza/"), search("pizza"));
    assert_eq!(Route::recognize("/restaurant/Roma/"), restaurant("Roma"));
    assert_eq!(Route::recognize("/about//"), Route::NotFound);
    assert_eq!(Route::recognize("/search/pizza//"), Route::NotFound);
}

#[test]
fn one_slash_at_the_start_is_ignored() {
    assert_eq!(Route::recognize(""), Route::Home);
    assert_eq!(Route::recognize("about"), Route::About);
    assert_eq!(Route::recognize("search/pizza"), search("pizza"));
    assert_eq!(Route::recognize("//about"), Route::NotFound);
    assert_eq!(Route::recognize("//"), Route::Home);
    assert_eq!(Route::recognize("///"), Route::NotFound);
}

#[test]
fn an_unmatched_path_is_not_found() {
    let paths = [
        "/nope",
        "/About",
        "/about/us",
        "/abou",
        "/aboutt",
        "/search",
        "/search/",
        "/search//",
        "/search/a/b",
        "/searching/a",
        "/restaurant",
        "/restaurant/",
        "/restaurant/a/b",
        "/restaurants/a",
        "/redirecting",
        "/submitting",
        "/submitting/",
        "/login/now",
        "/secure/x",
        "/create-account",
        "/404/x",
        "/home",
        "/index.html",
        " /about",
        "/about ",
        "/\u{00e9}",
        "/search\\pizza",
        "?query",
    ];
    for path in paths {
        assert_eq!(Route::recognize(path), Route::NotFound, "on {:?}", path);
        assert_eq!(Route::recognize(path), Route::not_found_route(), "on {:?}", path);
    }
}

#[test]
fn a_parameter_is_not_decoded() {
    assert_eq!(Route::recognize("/search/a%2Fb"), search("a%2Fb"));
    assert_eq!(Route::recognize("/search/a+b"), search("a+b"));
    assert_eq!(Route::recognize("/search/a b"), search("a b"));
    assert_eq!(Route::recognize("/search/%"), search("%"));
    assert_eq!(Route::recognize("/search/a.b"), search("a.b"));
    assert_eq!(Route::recognize("/search/:query"), search(":query"));
    assert_eq!(Route::recognize("/search/*"), search("*"));
    assert_eq!(Route::recognize("/search/a?b=c#d"), search("a?b=c#d"));
    assert_eq!(Route::recognize("/restaurant/caf\u{00e9} \u{2615}"), restaurant("caf\u{00e9} \u{2615}"));
    assert_eq!(Route::recognize("/restaurant/\u{4e2d}\u{6587}/"), restaurant("\u{4e2d}\u{6587}"));
    assert_eq!(Route::recognize("/redirecting/about"), redirecting("about"));
    assert_eq!(Route::recognize("/submitting/search"), submitting("search"));
}

#[test]
fn to_path_writes_the_table() {
    assert_eq!(Route::Home.to_path(), "/");
    assert_eq!(search("pizza").to_path(), "/search/pizza");
    assert_eq!(redirecting("login").to_path(), "/redirecting/login");
    assert_eq!(submitting("05000000").to_path(), "/submitting/05000000");
    assert_eq!(Route::About.to_path(), "/about");
    assert_eq!(Route::CreateAccount.to_path(), "/create_account");
    assert_eq!(Route::Login.to_path(), "/login");
    assert_eq!(Route::Secure.to_path(), "/secure");
    assert_eq!(Route::NotFound.to_path(), "/404");
    assert_eq!(restaurant("Chez%20Pierre").to_path(), "/restaurant/Chez%20Pierre");
    assert_eq!(restaurant("caf\u{00e9}").to_path(), "/restaurant/caf\u{00e9}");
}

#[test]
fn a_written_path_leads_back_to_its_route() {
    let routes = [
        Route::Home,
        search("pizza"),
        search("s"),
        redirecting("r"),
        redirecting("secure"),
        submitting("00ff"),
        Route::About,
        Route::CreateAccount,
        Route::Login,
        Route::Secure,
        Route::NotFound,
        restaurant("Chez%20Pierre"),
        restaurant("\u{1f35c}"),
    ];
    for route in routes {
        assert_eq!(Route::recognize(&route.to_path()), route.clone());
    }
}

#[test]
fn a_recognized_path_is_written_back() {
    let paths = [
        "/",
        "/about",
        "/login",
        "/secure",
        "/create_account",
        "/search/x",
        "/redirecting/y",
        "/submitting/z",
        "/restaurant/w",
    ];
    for path in paths {
        assert_eq!(Route::recognize(path).to_path(), path);
        if path != "/" {
            assert_eq!(Route::recognize(&format!("{}/", path)).to_path(), path);
            assert_eq!(Route::recognize(&path[1..]).to_path(), path);
        }
    }
}

#[test]
fn route_equality_is_by_variant_and_parameter() {
    assert_eq!(Route::Home, Route::Home);
    assert_ne!(Route::Home, Route::About);
    assert_ne!(Route::NotFound, Route::Secure);
    assert_eq!(search("a"), search("a"));
    assert_ne!(search("a"), search("b"));
    assert_ne!(search("a"), restaurant("a"));
    assert_ne!(redirecting("a"), submitting("a"));
    assert_eq!(restaurant("a").clone(), restaurant("a"));
}
