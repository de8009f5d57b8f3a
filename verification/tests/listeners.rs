use engine_z::ports::{assign_ports, CatchAllPort, PortAssignment};
use engine_z::registry::ProjectRegistry;
use engine_z::resolve::PathResolver;
use engine_z::router::CatchAllRouter;
use engine_z::server::{response_status, ServerCore};

#[test]
fn first_policy_assigns_sequential_distinct_ports() {
    let a: PortAssignment = assign_ports(42069, 42100, &CatchAllPort::First, 2);
    assert_eq!(a.catch_all, Some(42069));
    assert_eq!(a.default_port, 42070);
    assert_eq!(a.project_ports, vec![42071, 42072]);
}

#[test]
fn fixed_policy_leaves_cursor_alone() {
    let a = assign_ports(42069, 42100, &CatchAllPort::Fixed(8080), 3);
    assert_eq!(a.catch_all, Some(8080));
    assert_eq!(a.default_port, 42069);
    assert_eq!(a.project_ports, vec![42070, 42071, 42072]);
}

#[test]
fn last_policy_takes_upper_bound() {
    let a = assign_ports(42069, 42100, &CatchAllPort::Last, 1);
    assert_eq!(a.catch_all, Some(42100));
    assert_eq!(a.default_port, 42069);
    assert_eq!(a.project_ports, vec![42070]);
}

#[test]
fn disabled_policy_has_no_catch_all_port() {
    let a = assign_ports(42069, 42100, &CatchAllPort::Disabled, 2);
    assert_eq!(a.catch_all, None);
    assert_eq!(a.default_port, 42069);
    assert_eq!(a.project_ports, vec![42070, 42071]);
}

#[test]
fn no_projects_means_no_project_ports() {
    let a = assign_ports(42069, 42100, &CatchAllPort::First, 0);
    assert_eq!(a.catch_all, Some(42069));
    assert_eq!(a.default_port, 42070);
    assert!(a.project_ports.is_empty());
}

fn sample_core() -> ServerCore {
    let dirs = vec!["blog".to_string(), "shop".to_string()];
    let registry = ProjectRegistry::from_scan(dirs, &"html".to_string());
    let router = CatchAllRouter::new(registry, "html".to_string());
    let resolver = PathResolver::new("/var/www", "index.html".to_string()).unwrap();
    ServerCore::new(router, resolver)
}

#[test]
fn catch_all_plan_serves_known_project() {
    let core = sample_core();
    let p = core.plan_catch_all("/blog/post1").unwrap();
    assert_eq!(p.to_path_string(), "/var/www/blog/post1");
}

#[test]
fn catch_all_plan_falls_back_to_default() {
    let core = sample_core();
    let p = core.plan_catch_all("/unknownproj/file.js").unwrap();
    assert_eq!(p.to_path_string(), "/var/www/html/unknownproj/file.js");
}

#[test]
fn catch_all_plan_rejects_escaping_path() {
    let core = sample_core();
    assert!(core.plan_catch_all("/blog/../../../etc/passwd").is_err());
}

#[test]
fn project_plan_resolves_inside_project() {
    let core = sample_core();
    let p = core.plan_project(&"shop".to_string(), "/item/7").unwrap();
    assert_eq!(p.to_path_string(), "/var/www/shop/item/7");
}

#[test]
fn project_plan_rejects_escaping_path() {
    let core = sample_core();
    assert!(core.plan_project(&"shop".to_string(), "/a/../../../x").is_err());
}

#[test]
fn status_codes_follow_the_request_outcome() {
    assert_eq!(response_status(false, false), 400);
    assert_eq!(response_status(false, true), 400);
    assert_eq!(response_status(true, false), 404);
    assert_eq!(response_status(true, true), 200);
}

#[test]
fn catch_all_project_root_then_index_rule() {
    let core = sample_core();
    let p = core.plan_catch_all("/shop").unwrap();
    assert_eq!(p.to_path_string(), "/var/www/shop");
    let p = core.resolver().apply_index_if_dir(p, true);
    assert_eq!(p.to_path_string(), "/var/www/shop/index.html");
}
