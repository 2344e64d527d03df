use iron_mountrouter::{accepts_route, is_user_route, route_pattern, NoRoute, RequestContext, Router, LEFTOVER_PARAM_NAME};

fn ctx(path: &str) -> RequestContext {
    RequestContext::new(path.to_string())
}

#[test]
fn literal_pattern_runs_its_handler_with_no_params() {
    let mut router = Router::new();
    router.add_route("/about", 7, false);
    router.add_route("/contact", 8, false);
    let mut c = ctx("/about");
    assert_eq!(router.handle(&mut c), Ok(7));
    assert!(c.has_params());
    assert_eq!(c.param_count(), 0);
    assert_eq!(c.path(), "/about");
    assert_eq!(c.history(), None);
}

#[test]
fn named_capture_is_stored() {
    let mut router = Router::new();
    router.add_route("/page/:id/", 1, false);
    let mut c = ctx("/page/42/");
    assert_eq!(router.handle(&mut c), Ok(1));
    assert_eq!(c.param("id"), Some("42".to_string()));
    assert_eq!(c.param(LEFTOVER_PARAM_NAME), None);
    assert_eq!(c.param_count(), 1);
}

#[test]
fn mounted_router_sees_the_rest_of_the_path() {
    let mut outer = Router::new();
    outer.add_route("/book/:name/", 0, true);
    let mut inner = Router::new();
    inner.add_route("/page/:key/", 5, false);

    let mut c = ctx("/book/alpha/page/7/");
    assert_eq!(outer.handle(&mut c), Ok(0));
    assert_eq!(c.path(), "/page/7/");
    assert_eq!(c.history(), Some("/book/alpha/page/7/".to_string()));
    assert_eq!(inner.handle(&mut c), Ok(5));
    assert_eq!(c.param("name"), Some("alpha".to_string()));
    assert_eq!(c.param("key"), Some("7".to_string()));
    assert_eq!(c.param(LEFTOVER_PARAM_NAME), None);
    assert_eq!(c.param_count(), 2);
    assert_eq!(c.history(), Some("/book/alpha/page/7/".to_string()));
}

#[test]
fn history_keeps_the_outermost_path_through_three_mounts() {
    let mut first = Router::new();
    first.add_route("/a", 0, true);
    let mut second = Router::new();
    second.add_route("/b/", 0, true);
    let mut third = Router::new();
    third.add_route("/c", 0, true);
    let mut leaf = Router::new();
    leaf.add_route("/d", 9, false);

    let mut c = ctx("/a/b/c/d");
    assert_eq!(first.handle(&mut c), Ok(0));
    assert_eq!(c.path(), "/b/c/d");
    assert_eq!(second.handle(&mut c), Ok(0));
    assert_eq!(c.path(), "/c/d");
    assert_eq!(third.handle(&mut c), Ok(0));
    assert_eq!(c.path(), "/d");
    assert_eq!(leaf.handle(&mut c), Ok(9));
    assert_eq!(c.history(), Some("/a/b/c/d".to_string()));
}

#[test]
fn unmatched_path_fails_and_leaves_request_alone() {
    let mut router = Router::new();
    router.add_route("/page/:id/", 1, false);
    let mut c = ctx("/nothing/here");
    assert_eq!(router.handle(&mut c), Err(NoRoute));
    assert!(!c.has_params());
    assert_eq!(c.path(), "/nothing/here");
    assert_eq!(c.history(), None);
}

#[test]
fn unmatched_path_at_inner_level_fails() {
    let mut outer = Router::new();
    outer.add_route("/book/:name/", 0, true);
    let mut inner = Router::new();
    inner.add_route("/page/:key/", 5, false);
    let mut c = ctx("/book/alpha/chapter/3/");
    assert_eq!(outer.handle(&mut c), Ok(0));
    assert_eq!(inner.handle(&mut c), Err(NoRoute));
    assert_eq!(c.path(), "/chapter/3/");
    assert_eq!(c.param("name"), Some("alpha".to_string()));
}

#[test]
fn resolving_twice_gives_the_same_params() {
    let mut router = Router::new();
    router.add_route("/page/:id/:part", 2, false);
    let mut a = ctx("/page/3/intro");
    let mut b = ctx("/page/3/intro");
    assert_eq!(router.handle(&mut a), Ok(2));
    assert_eq!(router.handle(&mut b), Ok(2));
    assert_eq!(a.param("id"), b.param("id"));
    assert_eq!(a.param("part"), b.param("part"));
    assert_eq!(router.handle(&mut a), Ok(2));
    assert_eq!(a.param_count(), 2);
    assert_eq!(a.param("id"), Some("3".to_string()));
    assert_eq!(a.param("part"), Some("intro".to_string()));
}

#[test]
fn inner_capture_overrides_outer_capture_of_same_name() {
    let mut outer = Router::new();
    outer.add_route("/user/:id", 0, true);
    let mut inner = Router::new();
    inner.add_route("/post/:id", 4, false);
    let mut c = ctx("/user/10/post/20");
    assert_eq!(outer.handle(&mut c), Ok(0));
    assert_eq!(c.param("id"), Some("10".to_string()));
    assert_eq!(inner.handle(&mut c), Ok(4));
    assert_eq!(c.param("id"), Some("20".to_string()));
    assert_eq!(c.param_count(), 1);
}

#[test]
fn wildcard_captures_across_slashes() {
    let mut router = Router::new();
    router.add_route("/redirect/to/*path", 3, false);
    let mut c = ctx("/redirect/to/example.com/example");
    assert_eq!(router.handle(&mut c), Ok(3));
    assert_eq!(c.param("path"), Some("example.com/example".to_string()));
}

#[test]
fn colon_inside_a_segment_is_literal() {
    let mut router = Router::new();
    router.add_route("/page-:num", 1, false);
    let mut c = ctx("/page-5");
    assert_eq!(router.handle(&mut c), Err(NoRoute));
    let mut d = ctx("/page-:num");
    assert_eq!(router.handle(&mut d), Ok(1));
}

#[test]
fn later_handler_index_follows_its_route() {
    let mut router = Router::new();
    router.add_route("/one", 11, false);
    router.add_route("/two", 22, false);
    router.add_route("/three", 33, true);
    let mut c = ctx("/two");
    assert_eq!(router.handle(&mut c), Ok(22));
    let mut d = ctx("/three/x");
    assert_eq!(router.handle(&mut d), Ok(33));
    assert_eq!(d.path(), "/x");
}

#[test]
fn mount_pattern_gets_slash_and_leftover() {
    assert_eq!(route_pattern("/book", true), "/book/*mountrouter_leftover");
    assert_eq!(route_pattern("/book/", true), "/book/*mountrouter_leftover");
    assert_eq!(route_pattern("/book", false), "/book");
    assert_eq!(route_pattern("", true), "/*mountrouter_leftover");
}

#[test]
fn apply_match_strips_mount_and_hides_leftover() {
    let mut router = Router::new();
    router.add_route("/plain", 1, false);
    router.add_route("/mount", 2, true);
    let caps = vec![
        (LEFTOVER_PARAM_NAME.to_string(), "x/y".to_string()),
        ("id".to_string(), "3".to_string()),
    ];
    let mut c = ctx("/mount/x/y");
    assert_eq!(router.apply_match(Some((1, caps)), &mut c), Ok(2));
    assert_eq!(c.path(), "/x/y");
    assert_eq!(c.history(), Some("/mount/x/y".to_string()));
    assert_eq!(c.param("id"), Some("3".to_string()));
    assert_eq!(c.param(LEFTOVER_PARAM_NAME), None);
    assert_eq!(c.param_count(), 1);
}

#[test]
fn apply_match_on_plain_route_keeps_path() {
    let mut router = Router::new();
    router.add_route("/plain/:a", 1, false);
    let caps = vec![("a".to_string(), "v".to_string())];
    let mut c = ctx("/plain/v");
    assert_eq!(router.apply_match(Some((0, caps)), &mut c), Ok(1));
    assert_eq!(c.path(), "/plain/v");
    assert_eq!(c.history(), None);
    assert_eq!(c.param("a"), Some("v".to_string()));
}

#[test]
fn apply_match_without_match_is_no_route() {
    let router = Router::new();
    let mut c = ctx("/x");
    assert_eq!(router.apply_match(None, &mut c), Err(NoRoute));
    assert!(!c.has_params());
}

#[test]
fn second_mount_does_not_overwrite_history() {
    let mut router = Router::new();
    router.add_route("/m", 1, true);
    let mut c = ctx("/m/inner");
    let first = vec![(LEFTOVER_PARAM_NAME.to_string(), "inner".to_string())];
    assert_eq!(router.apply_match(Some((0, first)), &mut c), Ok(1));
    let second = vec![(LEFTOVER_PARAM_NAME.to_string(), "".to_string())];
    assert_eq!(router.apply_match(Some((0, second)), &mut c), Ok(1));
    assert_eq!(c.path(), "/");
    assert_eq!(c.history(), Some("/m/inner".to_string()));
}

#[test]
fn no_route_messages() {
    assert_eq!(NoRoute.message(), "No matching route found.");
    assert_eq!(NoRoute.description(), "No Route");
}

#[test]
fn routes_must_start_with_ascii() {
    assert!(accepts_route(""));
    assert!(accepts_route("/"));
    assert!(accepts_route("/a/b"));
    assert!(accepts_route(":id"));
    assert!(accepts_route("/a\u{e9}"));
    assert!(!accepts_route("/\u{e9}t\u{e9}"));
    assert!(!accepts_route("\u{fc}ber"));
}

#[test]
fn routes_may_not_name_the_leftover_wildcard() {
    assert!(is_user_route("/book/:name/"));
    assert!(is_user_route(""));
    assert!(is_user_route("/mountrouter_leftove"));
    assert!(!is_user_route("/x/*mountrouter_leftover"));
    assert!(!is_user_route("mountrouter_leftover"));
    assert!(!is_user_route("/a/:mountrouter_leftover/b"));
    assert!(!is_user_route("/\u{e9}"));
}

#[test]
fn new_router_matches_nothing() {
    let router = Router::new();
    let mut c = ctx("/");
    assert_eq!(router.handle(&mut c), Err(NoRoute));
    let mut d = ctx("/any/path");
    assert_eq!(router.handle(&mut d), Err(NoRoute));
    assert!(!d.has_params());
}

#[test]
fn path_with_nul_matches_no_route() {
    let mut router = Router::new();
    router.add_route("/:anything", 1, false);
    router.add_route("/m", 2, true);
    let mut c = ctx("/\u{0}");
    assert_eq!(router.handle(&mut c), Err(NoRoute));
    assert_eq!(c.path(), "/\u{0}");
    assert!(!c.has_params());
    let mut d = ctx("/m/a\u{0}b");
    assert_eq!(router.handle(&mut d), Err(NoRoute));
    assert_eq!(d.history(), None);
    let mut e = ctx("/ok");
    assert_eq!(router.handle(&mut e), Ok(1));
}

#[test]
fn routes_with_nul_are_refused() {
    assert!(!accepts_route("/a\u{0}"));
    assert!(!accepts_route("\u{0}"));
    assert!(!is_user_route("/page/\u{0}/x"));
    assert!(accepts_route("/page/x"));
}

#[test]
fn mount_pattern_of_route_without_trailing_slash() {
    assert_eq!(route_pattern("/a/b", true), "/a/b/*mountrouter_leftover");
    assert_eq!(route_pattern("/", true), "/*mountrouter_leftover");
}
