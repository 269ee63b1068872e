use dockpanel_agent::git::{
    check_build, check_clone, check_deploy, check_pre_build_hook, container_name, context_dir,
    default_context, default_dockerfile, default_keep, default_log_lines, is_safe_nginx_domain,
    is_valid_branch, is_valid_image_tag, is_valid_repo_url, scope_of, GitScope,
};

#[test]
fn safe_nginx_domain_blocks_injection_and_traversal() {
    for d in [
        "../../../etc/nginx/conf.d/pwn",
        "x; } server { listen 80 default_server; }",
        "a\"b.com",
        "a$b.com", "a#b.com", "a b.com", "a/b",
        "",
    ] {
        assert!(!is_safe_nginx_domain(d), "{d:?} must be rejected");
    }
}

#[test]
fn safe_nginx_domain_allows_real_and_grandfathered_hosts() {
    for d in ["app.example.com", "feature-login.app.example.com", "my_app.example.com", "a-b_c.example.com"] {
        assert!(is_safe_nginx_domain(d), "{d:?} must be allowed");
    }
}

#[test]
fn repository_urls_and_branches() {
    assert!(is_valid_repo_url("https://github.com/a/b"));
    assert!(is_valid_repo_url("git@github.com:a/b"));
    assert!(!is_valid_repo_url("file:///etc"));
    assert!(!is_valid_repo_url("-uhttps://x"));
    assert!(!is_valid_repo_url("ftp://x"));
    assert!(is_valid_branch("main"));
    assert!(!is_valid_branch("--upload-pack=x"));
    assert!(!is_valid_branch("a..b"));
    assert!(is_valid_image_tag("dockpanel-git-app:abc"));
    assert!(!is_valid_image_tag("dockpanel-git-../x/y"));
    assert!(!is_valid_image_tag("nginx"));
}

#[test]
fn request_checks_answer_in_order() {
    assert_eq!(check_clone("-bad", "", ""), Err("Invalid name".to_string()));
    assert_eq!(check_clone("app", "", "main"), Err("Missing repo_url".to_string()));
    assert_eq!(
        check_clone("app", "ftp://x", "main"),
        Err("Invalid repo_url: must use https://, http://, ssh://, or git@ protocol".to_string())
    );
    assert_eq!(check_clone("app", "https://x", "-x"), Err("Invalid branch name".to_string()));
    assert_eq!(check_clone("app", "https://x", "main"), Ok(()));
    assert_eq!(check_build("app", "/etc/Dockerfile", "."), Err("Invalid dockerfile path".to_string()));
    assert_eq!(check_build("app", "Dockerfile", "../x"), Err("Invalid build_context path".to_string()));
    assert_eq!(check_deploy("app", "dockpanel-git-app", 0, 80, None), Err("Invalid port".to_string()));
    assert_eq!(check_deploy("app", "dockpanel-git-app", 80, 8080, Some("a b")), Err("Invalid domain".to_string()));
    assert_eq!(check_deploy("app", "dockpanel-git-app", 80, 8080, Some("")), Ok(()));
    assert_eq!(check_pre_build_hook("app", "npm ci"), Ok(()));
    assert!(check_pre_build_hook("app", "npm ci; rm -rf /").is_err());
    assert_eq!(check_pre_build_hook("app", ""), Err("Empty command".to_string()));
}

#[test]
fn defaults_and_derived_names() {
    assert_eq!(default_dockerfile(), "Dockerfile");
    assert_eq!(default_context(), ".");
    assert_eq!(default_keep(), 5);
    assert_eq!(default_log_lines(), 200);
    assert_eq!(container_name("app"), "dockpanel-git-app");
    assert_eq!(context_dir("app", "."), "/var/lib/dockpanel/git/app");
    assert_eq!(context_dir("app", "web"), "/var/lib/dockpanel/git/app/web");
    assert!(scope_of("") == GitScope::Deploy);
    assert!(scope_of("anything") == GitScope::Deploy);
    assert!(scope_of("preview") == GitScope::Preview);
}
