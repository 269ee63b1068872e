use dockpanel_agent::site_rules::{
    add_alias_to, auth_block, auth_file_with, check_alias, check_protect, check_redirect, htpasswd_with,
    include_in_site, list_protected, list_redirects, parse_env, protected_path, redirect_rule, remove_alias_from,
    remove_protection, remove_redirect, render_env,
};

#[test]
fn redirect_checks() {
    assert!(check_redirect("ex.com", "/old", "https://ex.com/new", "301").is_ok());
    assert_eq!(check_redirect("", "/old", "x", "301"), Err("Missing fields".to_string()));
    assert_eq!(check_redirect("bad domain", "/old", "x", "301"), Err("Invalid domain format".to_string()));
    assert_eq!(check_redirect("ex.com", "/old", "x", "307"), Err("Type must be 301 or 302".to_string()));
    assert_eq!(check_redirect("ex.com", "old", "x", "301"), Err("Source must start with /".to_string()));
    assert_eq!(check_redirect("ex.com", "/a b", "x", "301"), Err("Invalid source path characters".to_string()));
    assert_eq!(check_redirect("ex.com", "/a", "x; }", "302"), Err("Invalid target URL characters".to_string()));
}

#[test]
fn redirects_round_trip_through_the_file() {
    let rule = redirect_rule("/old", "301", "https://ex.com/new");
    assert_eq!(rule, "location = /old { return 301 https://ex.com/new; }\n");
    let file = format!("{rule}{}", redirect_rule("/blog", "302", "/news"));
    let listed = list_redirects(&file);
    assert_eq!(listed.len(), 2);
    assert_eq!((listed[0].source.as_str(), listed[0].target.as_str(), listed[0].redirect_type.as_str()), ("/old", "https://ex.com/new", "301"));
    assert_eq!((listed[1].source.as_str(), listed[1].target.as_str(), listed[1].redirect_type.as_str()), ("/blog", "/news", "302"));
    let left = remove_redirect(&file, "/old");
    assert_eq!(left, "location = /blog { return 302 /news; }\n");
}

#[test]
fn include_goes_before_the_last_brace_once() {
    let site = "server {\n    listen 80;\n}\n";
    let with = include_in_site(site, "/etc/nginx/redirects/ex.com.conf").unwrap();
    assert_eq!(with, "server {\n    listen 80;\n    include /etc/nginx/redirects/ex.com.conf;\n}\n");
    assert!(include_in_site(&with, "/etc/nginx/redirects/ex.com.conf").is_none());
    assert!(include_in_site("no braces", "/x").is_none());
}

#[test]
fn password_protection() {
    assert!(check_protect("ex.com", "u", "p").is_ok());
    assert_eq!(check_protect("ex.com", "", "p"), Err("Missing fields".to_string()));
    assert_eq!(check_protect("bad domain", "u", "p"), Err("Invalid domain format".to_string()));
    assert_eq!(protected_path(""), Ok("/".to_string()));
    assert_eq!(protected_path("/admin"), Ok("/admin".to_string()));
    assert_eq!(protected_path("admin"), Err("Invalid path format".to_string()));
    assert_eq!(protected_path("/a{"), Err("Invalid path format".to_string()));
    assert_eq!(htpasswd_with("alice:old\nbob:x\n", "alice", "new"), "bob:x\nalice:new\n");
    assert_eq!(htpasswd_with("", "carol", "h"), "carol:h\n");
    let block = auth_block("/admin", "/etc/nginx/htpasswd/ex.com");
    assert!(block.starts_with("location /admin {\n    auth_basic \"Restricted\";\n"));
    let file = auth_file_with("", "/admin", "/etc/nginx/htpasswd/ex.com").unwrap();
    assert_eq!(file, block);
    assert!(auth_file_with(&file, "/admin", "/etc/nginx/htpasswd/ex.com").is_none());
    let (paths, users) = list_protected(&file, "alice:x\n\nbob:y\n");
    assert_eq!(paths, vec!["/admin"]);
    assert_eq!(users, vec!["alice", "bob"]);
}

#[test]
fn removing_protection_drops_the_whole_block() {
    let file = format!(
        "{}{}",
        auth_block("/admin", "/etc/nginx/htpasswd/ex.com"),
        auth_block("/private", "/etc/nginx/htpasswd/ex.com")
    );
    let left = remove_protection(&file, "/admin");
    assert_eq!(left, auth_block("/private", "/etc/nginx/htpasswd/ex.com"));
    assert_eq!(remove_protection(&file, "/nothing"), file);
}

#[test]
fn aliases() {
    assert!(check_alias("ex.com", "www.ex.com").is_ok());
    assert_eq!(check_alias("ex.com", ""), Err("Missing fields".to_string()));
    assert_eq!(check_alias("ex.com", "bad alias"), Err("Invalid alias domain format".to_string()));
    let vhost = "server {\n    server_name ex.com;\n}\n";
    let with = add_alias_to(vhost, "ex.com", "www.ex.com").unwrap();
    assert_eq!(with, "server {\n    server_name ex.com www.ex.com;\n}\n");
    assert_eq!(add_alias_to("server {}", "ex.com", "x.com"), Err("Could not find server_name directive".to_string()));
    assert_eq!(remove_alias_from(&with, "www.ex.com"), vhost);
}

#[test]
fn env_files() {
    let vars = parse_env("# comment\nA=1\n B = \"two words\" \nC='q'\nnoeq\n\n");
    assert_eq!(
        vars,
        vec![("A".to_string(), "1".to_string()), ("B".to_string(), "two words".to_string()), ("C".to_string(), "q".to_string())]
    );
    assert_eq!(render_env(&vars), "A=1\nB=\"two words\"\nC=q\n");
    assert_eq!(render_env(&vec![("".to_string(), "x".to_string())]), "\n");
}
