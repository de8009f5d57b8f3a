use engine_z::resolve::PathResolver;

fn sample_resolver() -> PathResolver {
    PathResolver::new("/var/www", "index.html".to_string()).unwrap()
}

#[test]
fn resolve_plain_file_under_project() {
    let resolver = sample_resolver();
    let p = resolver.resolve(&"blog".to_string(), "post1").unwrap();
    assert_eq!(p.to_path_string(), "/var/www/blog/post1");
}

#[test]
fn resolve_empty_path_is_project_root() {
    let resolver = sample_resolver();
    let p = resolver.resolve(&"blog".to_string(), "").unwrap();
    assert_eq!(p.to_path_string(), "/var/www/blog");
}

#[test]
fn resolve_bare_slash_is_project_root() {
    let resolver = sample_resolver();
    let p = resolver.resolve(&"blog".to_string(), "/").unwrap();
    assert_eq!(p.to_path_string(), "/var/www/blog");
}

#[test]
fn resolve_drops_dot_and_empty_segments() {
    let resolver = sample_resolver();
    let p = resolver.resolve(&"blog".to_string(), "a/./b//c").unwrap();
    assert_eq!(p.to_path_string(), "/var/www/blog/a/b/c");
}

#[test]
fn resolve_dotdot_inside_project_stays_inside() {
    let resolver = sample_resolver();
    let p = resolver.resolve(&"blog".to_string(), "a/../b").unwrap();
    assert_eq!(p.to_path_string(), "/var/www/blog/b");
}

#[test]
fn resolve_rejects_escape_from_web_root() {
    let resolver = sample_resolver();
    assert!(resolver.resolve(&"blog".to_string(), "a/../../../etc/passwd").is_err());
}

#[test]
fn resolve_rejects_obfuscated_escape() {
    let resolver = sample_resolver();
    assert!(resolver.resolve(&"blog".to_string(), "a/./../.././../b").is_err());
}

#[test]
fn resolve_rejects_plain_double_dotdot() {
    let resolver = sample_resolver();
    assert!(resolver.resolve(&"blog".to_string(), "../../x").is_err());
}

#[test]
fn resolve_sibling_of_project_stays_under_root() {
    // One `..` leaves the project but not the web root, so the web-root
    // prefix check accepts it.
    let resolver = sample_resolver();
    let p = resolver.resolve(&"blog".to_string(), "../shop/item").unwrap();
    assert_eq!(p.to_path_string(), "/var/www/shop/item");
}

#[test]
fn resolve_twice_gives_identical_path() {
    let resolver = sample_resolver();
    let p1 = resolver.resolve(&"blog".to_string(), "a/./b").unwrap();
    let p2 = resolver.resolve(&"blog".to_string(), "a/./b").unwrap();
    assert_eq!(p1.to_path_string(), p2.to_path_string());
    assert_eq!(p1.segments(), p2.segments());
}

#[test]
fn directory_request_gets_index_file() {
    let resolver = sample_resolver();
    let p = resolver.resolve(&"blog".to_string(), "").unwrap();
    let p = resolver.apply_index_if_dir(p, true);
    assert_eq!(p.to_path_string(), "/var/www/blog/index.html");
}

#[test]
fn file_request_keeps_path_unchanged() {
    let resolver = sample_resolver();
    let p = resolver.resolve(&"blog".to_string(), "post1").unwrap();
    let p = resolver.apply_index_if_dir(p, false);
    assert_eq!(p.to_path_string(), "/var/www/blog/post1");
}

#[test]
fn resolver_rejects_web_root_above_filesystem_root() {
    assert!(PathResolver::new("/var/../../x", "index.html".to_string()).is_none());
}

#[test]
fn resolver_normalizes_web_root() {
    let resolver = PathResolver::new("/var//www/./", "index.html".to_string()).unwrap();
    let p = resolver.resolve(&"blog".to_string(), "f").unwrap();
    assert_eq!(p.to_path_string(), "/var/www/blog/f");
}
