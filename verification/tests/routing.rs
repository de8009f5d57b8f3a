use engine_z::registry::ProjectRegistry;
use engine_z::router::CatchAllRouter;

fn sample_router() -> CatchAllRouter {
    let dirs = vec!["blog".to_string(), "shop".to_string()];
    let registry = ProjectRegistry::from_scan(dirs, &"html".to_string());
    CatchAllRouter::new(registry, "html".to_string())
}

#[test]
fn route_known_project_with_file() {
    let router = sample_router();
    let r = router.route("/blog/post1");
    assert_eq!(r.project, "blog");
    assert_eq!(r.rel, "post1");
}

#[test]
fn route_unknown_project_falls_back_whole_path() {
    let router = sample_router();
    let r = router.route("/unknownproj/file.js");
    assert_eq!(r.project, "html");
    assert_eq!(r.rel, "unknownproj/file.js");
}

#[test]
fn route_bare_project_name_triggers_index() {
    let router = sample_router();
    let r = router.route("/shop");
    assert_eq!(r.project, "shop");
    assert_eq!(r.rel, "");
}

#[test]
fn route_empty_path_goes_to_default_index() {
    let router = sample_router();
    let r = router.route("");
    assert_eq!(r.project, "html");
    assert_eq!(r.rel, "");
}

#[test]
fn route_bare_unknown_name_goes_to_default() {
    let router = sample_router();
    let r = router.route("/readme.txt");
    assert_eq!(r.project, "html");
    assert_eq!(r.rel, "readme.txt");
}

#[test]
fn route_deep_path_keeps_tail_unsplit() {
    let router = sample_router();
    let r = router.route("/blog/2024/post.html");
    assert_eq!(r.project, "blog");
    assert_eq!(r.rel, "2024/post.html");
}

#[test]
fn route_root_slash_goes_to_default_index() {
    let router = sample_router();
    let r = router.route("/");
    assert_eq!(r.project, "html");
    assert_eq!(r.rel, "");
}

#[test]
fn registry_excludes_default_project() {
    let dirs = vec!["html".to_string(), "blog".to_string(), "shop".to_string()];
    let registry = ProjectRegistry::from_scan(dirs, &"html".to_string());
    assert_eq!(registry.len(), 2);
    assert!(registry.contains(&"blog".to_string()));
    assert!(registry.contains(&"shop".to_string()));
    assert!(!registry.contains(&"html".to_string()));
}

#[test]
fn registry_names_keep_scan_order() {
    let dirs = vec!["shop".to_string(), "html".to_string(), "blog".to_string()];
    let registry = ProjectRegistry::from_scan(dirs, &"html".to_string());
    assert_eq!(registry.names(), &vec!["shop".to_string(), "blog".to_string()]);
}

#[test]
fn route_double_slash_has_empty_head() {
    // "//x" strips to "/x": the empty head names no project, so the whole
    // stripped path falls back to the default project.
    let router = sample_router();
    let r = router.route("//x");
    assert_eq!(r.project, "html");
    assert_eq!(r.rel, "/x");
}
