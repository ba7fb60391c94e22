use std::sync::Arc;

use rs_server::app::route::Route;
use rs_server::http::http_method::HttpMethod;
use rs_server::http::request::Request;
use rs_server::http::response::Response;

type RouteHandler = Arc<dyn Fn(Request) -> Response + Send + Sync + 'static>;

fn init_route(path: &str) -> Route<RouteHandler> {
    let handler: RouteHandler = Arc::new(|_r: Request| -> Response { Response::not_found() });
    Route::new(HttpMethod::Get, path.to_owned(), handler)
}

#[test]
fn get_params_work_with_no_param() {
    let path = "/posts/all";
    let route = init_route(path);

    let params = route.get_params();

    assert_eq!(params.len(), 0);
}

#[test]
fn get_params_work_with_one_param() {
    let path = "/post/{id}/comments";
    let route = init_route(path);

    let params = route.get_params();

    assert_eq!(params.len(), 1);
    assert_eq!(params[0], (2, "id"));
}

#[test]
fn get_params_work_with_just_param() {
    let path = "/{id}";
    let route = init_route(path);

    let params = route.get_params();

    assert_eq!(params.len(), 1);
    assert_eq!(params[0], (1, "id"));
}

#[test]
fn get_params_work_with_more_than_one_param() {
    let path = "/post/{id}/comments/{comment_id}";
    let route = init_route(path);

    let params = route.get_params();

    assert_eq!(params.len(), 2);
    assert_eq!(params[0], (2, "id"));
    assert_eq!(params[1], (4, "comment_id"));
}
