use dockpanel_agent::containers::{
    action_status, check_model_name, check_new_image, check_registry_login, check_registry_logout, compose_report,
    du_size, is_valid_image_id, listing_head, memory_args, parse_images, parse_models, parse_mounts, snapshot_tag_v,
    stack_action, stack_came_up, stack_expose_port, tool_refusal, ServiceSummary, StackAction,
};

fn service(key: &str, image: &str, ports: Vec<u16>, volumes: bool, restart: &str, env: bool) -> ServiceSummary {
    ServiceSummary {
        key: key.into(),
        image: image.into(),
        host_ports: ports,
        has_volumes: volumes,
        restart: restart.into(),
        has_environment: env,
    }
}

#[test]
fn compose_findings() {
    let ss = vec![
        service("db", "postgres:16", vec![], false, "", false),
        service("web", "nginx", vec![80, 22], true, "unless-stopped", true),
    ];
    let r = compose_report(Ok(ss), "services:\n\tweb:\n");
    assert!(r.valid);
    assert!(r.errors.is_empty());
    let info: Vec<_> = r.info.iter().map(|f| (f.service.clone(), f.message.clone())).collect();
    assert_eq!(info[0], (None, "2 service(s) found".to_string()));
    assert_eq!(info[1].0.as_deref(), Some("db"));
    assert!(info[1].1.starts_with("No restart policy"));
    assert_eq!(info.len(), 2);
    let w: Vec<_> = r.warnings.iter().map(|f| (f.service.clone().unwrap_or_default(), f.message.clone())).collect();
    assert_eq!(
        w,
        vec![
            ("db".to_string(), "Database service without volumes — data will be lost on container restart".to_string()),
            ("db".to_string(), "Database without environment variables — password/root may use defaults".to_string()),
            ("web".to_string(), "Using ':latest' tag — pin to a specific version for reproducible deploys".to_string()),
            ("web".to_string(), "Privileged port 22 — consider using a higher port".to_string()),
            ("".to_string(), "YAML contains tabs — use spaces for indentation to avoid parse errors".to_string()),
        ]
    );
    let r = compose_report(Err("bad yaml".into()), "x: y");
    assert!(!r.valid);
    assert_eq!(r.errors.len(), 1);
    assert_eq!(r.errors[0].message, "bad yaml");
    assert!(r.info.is_empty() && r.warnings.is_empty());
}

#[test]
fn stacks() {
    let ports = vec![vec![], vec![8080, 8443]];
    assert_eq!(stack_expose_port(false, Some(1), &ports), Ok(None));
    assert_eq!(stack_expose_port(true, Some(9000), &ports), Ok(Some(9000)));
    assert_eq!(stack_expose_port(true, None, &ports), Ok(Some(8080)));
    assert!(stack_expose_port(true, None, &vec![vec![]]).unwrap_err().starts_with("This stack publishes no host port"));
    assert!(stack_came_up(&vec!["exited".into(), "running".into()]));
    assert!(!stack_came_up(&vec!["exited".into()]));
    assert_eq!(stack_action("restart"), Ok(StackAction::Restart));
    assert_eq!(stack_action("kill"), Err("Action must be start, stop, restart, or remove".to_string()));
    assert_eq!(action_status(StackAction::Remove, true), "removed");
    assert_eq!(action_status(StackAction::Start, false), "failed");
}

#[test]
fn mounts_sizes_and_listings() {
    let m = parse_mounts("/data|/var/lib/db|volume\nbad line\n/srv|/srv|bind\n");
    assert_eq!(m.len(), 2);
    assert_eq!((m[0].source.as_str(), m[0].destination.as_str(), m[0].kind.as_str()), ("/data", "/var/lib/db", "volume"));
    assert_eq!(du_size("4096\t/var/lib/docker/volumes/x\n"), 4096);
    assert_eq!(du_size(""), 0);
    assert_eq!(du_size("du: cannot access"), 0);
    let listing: String = (0..25).map(|i| format!("f{i}\n")).collect();
    let head = listing_head(&listing);
    assert_eq!(head.lines().count(), 20);
    assert!(head.starts_with("f0\nf1\n") && head.ends_with("f19"));
}

#[test]
fn images_and_snapshots() {
    let imgs = parse_images("nginx|latest|abc123|187MB|2 weeks ago\n\nredis|7|def456|40MB\n");
    assert_eq!(imgs.len(), 2);
    assert_eq!(imgs[0].repository, "nginx");
    assert_eq!(imgs[1].created, "");
    assert!(is_valid_image_id("sha256:abc"));
    assert!(!is_valid_image_id("abc def"));
    assert!(!is_valid_image_id(""));
    assert_eq!(snapshot_tag_v(Some("before upgrade!"), 7), "dockpanel-snapshot:beforeupgrade");
    assert_eq!(snapshot_tag_v(Some("dockpanel-snapshot:v1"), 7), "dockpanel-snapshot:v1");
    assert_eq!(snapshot_tag_v(Some("!!!"), 1700000000), "dockpanel-snapshot:1700000000");
    assert_eq!(snapshot_tag_v(None, 42), "dockpanel-snapshot:42");
    assert_eq!(tool_refusal("docker failed: ", &"e".repeat(300)).len(), "docker failed: ".len() + 200);
    assert_eq!(check_new_image(Some("  nginx:1.27 ")), Ok("nginx:1.27".to_string()));
    assert_eq!(check_new_image(None), Err("image is required".to_string()));
    assert!(check_new_image(Some("-bad")).unwrap_err().starts_with("Invalid image reference"));
    assert_eq!(memory_args(512), vec!["--memory=512m", "--memory-swap=1024m"]);
}

#[test]
fn registries_and_models() {
    assert!(check_registry_login("ghcr.io", "me").is_ok());
    assert_eq!(check_registry_login("", "me"), Err("Server and username required".to_string()));
    assert_eq!(check_registry_login("bad server", "me"), Err("Invalid registry server".to_string()));
    assert_eq!(check_registry_logout(None), Err("Server required".to_string()));
    assert!(check_registry_logout(Some("ghcr.io")).is_ok());
    assert_eq!(check_model_name(Some(" llama3:8b ")), Ok("llama3:8b".to_string()));
    assert_eq!(check_model_name(Some("-x")), Err("Invalid model name".to_string()));
    assert_eq!(check_model_name(None), Err("Invalid model name".to_string()));
    assert_eq!(check_model_name(Some("a b")), Err("Invalid model name characters".to_string()));
    assert_eq!(check_model_name(Some("modèle")), Ok("modèle".to_string()));
    let out = "NAME            ID              SIZE      MODIFIED\nllama3:8b       365c0bd3c000    4.7 GB    2 days ago\n\n";
    let m = parse_models(out);
    assert_eq!(m.len(), 1);
    assert_eq!(m[0].name, "llama3:8b");
    assert_eq!(m[0].id, "365c0bd3c000");
    assert_eq!(m[0].size, "4.7 GB");
    assert_eq!(m[0].modified, "2 days ago");
}
