use rs_server::app::route::Route;
use rs_server::app::{App, RouteError};
use rs_server::http::http_method::HttpMethod;

fn table() -> App<u32> {
    App::default()
        .get("/", 1)
        .get("/about", 2)
        .get("/users/{id}", 3)
        .post("/users/{id}", 4)
        .get("/post/{id}/comments/{comment_id}", 5)
}

fn resolve(app: &App<u32>, method: HttpMethod, path: &str) -> Option<u32> {
    app.get_route(method, &path.to_owned()).map(|route| route.handler)
}

#[test]
fn empty_table_resolves_nothing() {
    let app: App<u32> = App::new();
    assert_eq!(resolve(&app, HttpMethod::Get, "/"), None);
}

#[test]
fn path_with_other_segment_count_does_not_match() {
    let app = table();
    assert_eq!(resolve(&app, HttpMethod::Get, "/users"), None);
    assert_eq!(resolve(&app, HttpMethod::Get, "/users/5/posts"), None);
    assert_eq!(resolve(&app, HttpMethod::Get, "/about/"), None);
    assert_eq!(resolve(&app, HttpMethod::Get, "/post/1/comments"), None);
}

#[test]
fn literal_pattern_matches_only_itself() {
    let app = table();
    assert_eq!(resolve(&app, HttpMethod::Get, "/about"), Some(2));
    assert_eq!(resolve(&app, HttpMethod::Get, "/abouT"), None);
    assert_eq!(resolve(&app, HttpMethod::Get, "/abou"), None);
    assert_eq!(resolve(&app, HttpMethod::Get, "about"), None);
    assert_eq!(resolve(&app, HttpMethod::Get, "/"), Some(1));
    assert_eq!(resolve(&app, HttpMethod::Get, ""), None);
}

#[test]
fn parameter_takes_any_content_that_is_not_empty() {
    let app = table();
    assert_eq!(resolve(&app, HttpMethod::Get, "/users/5"), Some(3));
    assert_eq!(resolve(&app, HttpMethod::Get, "/users/{id}"), Some(3));
    assert_eq!(resolve(&app, HttpMethod::Get, "/users/ünï"), Some(3));
    assert_eq!(resolve(&app, HttpMethod::Get, "/users/"), None);
    assert_eq!(resolve(&app, HttpMethod::Get, "/post/42/comments/7"), Some(5));
    assert_eq!(resolve(&app, HttpMethod::Get, "/post/42/comment/7"), None);
    assert_eq!(resolve(&app, HttpMethod::Get, "/post//comments/7"), None);
}

#[test]
fn method_is_part_of_the_lookup() {
    let app = table();
    assert_eq!(resolve(&app, HttpMethod::Post, "/users/5"), Some(4));
    assert_eq!(resolve(&app, HttpMethod::Put, "/users/5"), None);
    assert_eq!(resolve(&app, HttpMethod::Delete, "/about"), None);
    assert_eq!(resolve(&app, HttpMethod::Patch, "/"), None);
}

#[test]
fn first_registered_route_wins() {
    let app: App<u32> = App::new().get("/users/{id}", 1).get("/users/5", 2);
    assert_eq!(resolve(&app, HttpMethod::Get, "/users/5"), Some(1));

    let app: App<u32> = App::new().get("/users/5", 2).get("/users/{id}", 1);
    assert_eq!(resolve(&app, HttpMethod::Get, "/users/5"), Some(2));
    assert_eq!(resolve(&app, HttpMethod::Get, "/users/6"), Some(1));
}

#[test]
fn resolved_route_is_the_registered_one() {
    let app = table();
    let route = app.get_route(HttpMethod::Post, &"/users/9".to_owned()).unwrap();
    assert_eq!(route.method, HttpMethod::Post);
    assert_eq!(route.path, "/users/{id}");
    assert_eq!(route.handler, 4);
}

#[test]
fn registering_a_route_twice_fails() {
    let mut app: App<u32> = App::new();
    assert_eq!(app.register_route(HttpMethod::Get, "/x", 1), Ok(()));
    assert_eq!(
        app.register_route(HttpMethod::Get, "/x", 2),
        Err(RouteError::DuplicateRouteRegistration)
    );
    assert_eq!(resolve(&app, HttpMethod::Get, "/x"), Some(1));
    assert_eq!(app.register_route(HttpMethod::Get, "/y", 3), Ok(()));
    assert_eq!(
        app.register_route(HttpMethod::Get, "/x", 4),
        Err(RouteError::DuplicateRouteRegistration)
    );
}

#[test]
fn same_pattern_under_another_method_registers() {
    let mut app: App<u32> = App::new();
    assert_eq!(app.register_route(HttpMethod::Get, "/x", 1), Ok(()));
    assert_eq!(app.register_route(HttpMethod::Post, "/x", 2), Ok(()));
    assert_eq!(app.register_route(HttpMethod::Put, "/x", 3), Ok(()));
    assert_eq!(app.register_route(HttpMethod::Delete, "/x", 4), Ok(()));
    assert_eq!(app.register_route(HttpMethod::Patch, "/x", 5), Ok(()));
    assert_eq!(resolve(&app, HttpMethod::Put, "/x"), Some(3));
    assert_eq!(resolve(&app, HttpMethod::Patch, "/x"), Some(5));
}

#[test]
fn is_registered_compares_patterns_exactly() {
    let app = table();
    assert!(app.is_registered(HttpMethod::Get, "/users/{id}"));
    assert!(!app.is_registered(HttpMethod::Get, "/users/{name}"));
    assert!(!app.is_registered(HttpMethod::Get, "/users/5"));
    assert!(!app.is_registered(HttpMethod::Delete, "/users/{id}"));
}

#[test]
fn builders_register_under_their_method() {
    let app: App<u32> = App::new().get("/a", 1).post("/a", 2).put("/a", 3).delete("/a", 4);
    assert_eq!(resolve(&app, HttpMethod::Get, "/a"), Some(1));
    assert_eq!(resolve(&app, HttpMethod::Post, "/a"), Some(2));
    assert_eq!(resolve(&app, HttpMethod::Put, "/a"), Some(3));
    assert_eq!(resolve(&app, HttpMethod::Delete, "/a"), Some(4));
}

#[test]
fn matches_follows_the_segments() {
    let route = Route::new(HttpMethod::Get, "/files/{name}/raw".to_owned(), ());
    assert!(route.matches("/files/a.txt/raw"));
    assert!(!route.matches("/files/a.txt/RAW"));
    assert!(!route.matches("/files//raw"));
    assert!(!route.matches("/files/a.txt"));
    assert!(!route.matches("files/a.txt/raw"));
}

#[test]
fn segment_without_both_braces_is_a_literal() {
    let route = Route::new(HttpMethod::Get, "/a/{id/b}/{".to_owned(), ());
    assert_eq!(route.get_params().len(), 0);
    assert!(route.matches("/a/{id/b}/{"));
    assert!(!route.matches("/a/x/y/z"));
}

#[test]
fn parameter_name_may_be_empty() {
    let route = Route::new(HttpMethod::Get, "/{}/x".to_owned(), ());
    let params = route.get_params();
    assert_eq!(params, vec![(1, "")]);
    assert!(route.matches("/anything/x"));
}

#[test]
fn cloned_route_keeps_its_parts() {
    let route = Route::new(HttpMethod::Put, "/p/{q}".to_owned(), 7u8);
    let copy = route.clone();
    assert_eq!(copy.method, HttpMethod::Put);
    assert_eq!(copy.path, "/p/{q}");
    assert_eq!(copy.handler, 7);
}

#[test]
fn find_route_gives_the_registered_route_itself() {
    let app = table();
    let route = app.find_route(HttpMethod::Get, "/users/5").unwrap();
    assert_eq!(route.method, HttpMethod::Get);
    assert_eq!(route.path, "/users/{id}");
    assert_eq!(route.handler, 3);
    assert!(app.find_route(HttpMethod::Get, "/users").is_none());
    assert!(app.find_route(HttpMethod::Patch, "/").is_none());
}
