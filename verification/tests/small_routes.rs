use dockpanel_agent::backups::{entries_to_hand_back, restore_summary_v, DbFailure};
use dockpanel_agent::databases::{candidate_ports, check_create_database, dump_engine, encrypted_name, DumpEngine};
use dockpanel_agent::deploy::{check_deploy_domain, deploy_report, script_to_run, DeployStage};
use dockpanel_agent::files::{content_disposition, creates_directory, file_status, listing_path};
use dockpanel_agent::logs::{
    admit_stream, is_log_stream_purpose, log_query, log_read_status, search_query, search_status, site_log_status,
    site_log_type, stream_log_type, stream_ticket_valid, StreamAdmission, MAX_STREAMS,
};
use dockpanel_agent::security::{check_fix_id, firewall_add_status, firewall_delete_status};

#[test]
fn deploy_checks_and_report() {
    assert!(check_deploy_domain("example.com").is_ok());
    assert_eq!(check_deploy_domain("../x"), Err("Invalid domain".to_string()));
    assert_eq!(script_to_run(Some("  ")), None);
    assert_eq!(script_to_run(Some("make")), Some("make".to_string()));
    assert_eq!(script_to_run(None), None);
    let r = deploy_report(false, "fatal: no repo", Some((true, "x")));
    assert!(!r.success);
    assert_eq!(r.output, "fatal: no repo");
    assert_eq!(r.failed_at, Some(DeployStage::Git));
    let r = deploy_report(true, "ok", Some((false, "boom")));
    assert!(!r.success);
    assert_eq!(r.output, "ok\n--- Deploy Script ---\nboom");
    assert_eq!(r.failed_at, Some(DeployStage::Script));
    let r = deploy_report(true, "ok", None);
    assert!(r.success && r.failed_at.is_none());
}

#[test]
fn database_dump_and_create_rules() {
    assert_eq!(dump_engine("shop", "mariadb"), Ok(DumpEngine::Mysql));
    assert_eq!(dump_engine("shop", "postgresql"), Ok(DumpEngine::Postgres));
    assert_eq!(dump_engine("shop", "mongodb"), Ok(DumpEngine::Mongo));
    assert_eq!(dump_engine("shop", "sqlite"), Err("Unsupported database type".to_string()));
    assert_eq!(dump_engine("shop; drop", "mysql"), Err("Invalid database name".to_string()));
    assert_eq!(encrypted_name("db.sql.gz", Some("k")), Some("db.sql.gz.enc".to_string()));
    assert_eq!(encrypted_name("db.sql.gz", Some("")), None);
    assert_eq!(encrypted_name("db.sql.gz", None), None);
    assert!(check_create_database("shop", "postgres").is_ok());
    assert_eq!(check_create_database("shop", "mssql"), Err("Engine must be mysql, mariadb, or postgres".to_string()));
    assert_eq!(candidate_ports("postgres"), (5433, 5533));
    assert_eq!(candidate_ports("mysql"), (3307, 3407));
}

#[test]
fn file_route_answers() {
    assert_eq!(file_status("File not found: /x"), 404);
    assert_eq!(file_status("Destination already exists"), 409);
    assert_eq!(file_status("File too large (max 2MB)"), 413);
    assert_eq!(file_status("File is binary or not readable as text"), 415);
    assert_eq!(file_status("disk on fire"), 500);
    assert_eq!(content_disposition(Some("a\"b\\c\r\n.txt")), "attachment; filename=\"abc.txt\"");
    assert_eq!(content_disposition(None), "attachment; filename=\"download\"");
    assert_eq!(listing_path(None), "/");
    assert_eq!(listing_path(Some("/var")), "/var");
    assert!(creates_directory(Some("dir")));
    assert!(!creates_directory(Some("file")));
    assert!(!creates_directory(None));
}

#[test]
fn security_route_answers() {
    assert!(check_fix_id("ssh-root-login").is_ok());
    assert_eq!(check_fix_id(""), Err("Invalid fix_id".to_string()));
    assert_eq!(check_fix_id(&"x".repeat(257)), Err("Invalid fix_id".to_string()));
    assert!(check_fix_id(&"x".repeat(256)).is_ok());
    assert_eq!(firewall_add_status("Invalid port"), 400);
    assert_eq!(firewall_add_status("ufw missing"), 500);
    assert_eq!(firewall_delete_status("rule number must be positive"), 400);
    assert_eq!(firewall_delete_status("ufw missing"), 500);
}

#[test]
fn backup_restore_summary() {
    let fs = vec![
        DbFailure { db_name: "shop".into(), error: "access denied".into() },
        DbFailure { db_name: "blog".into(), error: "timeout".into() },
    ];
    assert_eq!(
        restore_summary_v(true, &fs),
        "The site's files were restored, but 2 database(s) were NOT: shop: access denied; blog: timeout"
    );
    let one = vec![DbFailure { db_name: "shop".into(), error: "access denied".into() }];
    assert_eq!(restore_summary_v(false, &one), "Restore failed: shop: access denied");
    let names = vec!["index.php".to_string(), ".git".into(), "wp-content".into()];
    assert_eq!(entries_to_hand_back(&names), vec!["index.php", "wp-content"]);
}

#[test]
fn log_route_answers() {
    assert_eq!(log_read_status("log not found"), 404);
    assert_eq!(log_read_status("Unknown log type: x"), 404);
    assert_eq!(log_read_status("io"), 500);
    assert_eq!(site_log_status("path traversal"), 400);
    assert_eq!(site_log_status("io"), 500);
    assert_eq!(search_status("not found"), 404);
    assert_eq!(search_status("bad regex"), 422);
    assert_eq!(site_log_type(None, "ex.com"), Ok("nginx_access:ex.com".to_string()));
    assert_eq!(site_log_type(Some("error"), "ex.com"), Ok("nginx_error:ex.com".to_string()));
    assert_eq!(
        site_log_type(Some("php"), "ex.com"),
        Err("Invalid site log type: php. Use 'access' or 'error'".to_string())
    );
    assert_eq!(log_query(None, None), ("syslog".to_string(), 100));
    assert_eq!(search_query(None, Some(""), None), Err("Pattern is required".to_string()));
    assert_eq!(search_query(None, Some("GET"), None), Ok(("nginx_access".to_string(), "GET".to_string(), 500)));
    assert_eq!(stream_log_type(Some("error"), Some("ex.com")), "nginx_error:ex.com");
    assert_eq!(stream_log_type(None, None), "nginx_access");
    assert_eq!(stream_log_type(Some("syslog"), Some("ex.com")), "syslog");
}

fn ticket(secret: &str, purpose: &str, exp: i64) -> String {
    let mut claims = serde_json::Map::new();
    claims.insert("sub".into(), serde_json::Value::String("admin".into()));
    claims.insert("purpose".into(), serde_json::Value::String(purpose.into()));
    claims.insert("exp".into(), serde_json::Value::from(exp));
    jsonwebtoken::encode(
        &jsonwebtoken::Header::new(jsonwebtoken::Algorithm::HS256),
        &serde_json::Value::Object(claims),
        &jsonwebtoken::EncodingKey::from_secret(secret.as_bytes()),
    )
    .unwrap()
}

#[test]
fn stream_tickets() {
    let far = 4_000_000_000i64;
    assert!(stream_ticket_valid(Some(&ticket("s3cret", "log_stream", far)), "s3cret"));
    assert!(!stream_ticket_valid(Some(&ticket("s3cret", "log_stream", far)), "other"));
    assert!(!stream_ticket_valid(Some(&ticket("s3cret", "terminal", far)), "s3cret"));
    assert!(!stream_ticket_valid(Some(&ticket("s3cret", "log_stream", 1_000)), "s3cret"));
    assert!(!stream_ticket_valid(None, "s3cret"));
    assert!(is_log_stream_purpose(Some("log_stream")));
    assert!(!is_log_stream_purpose(None));
    assert!(matches!(admit_stream(false, 0, true), StreamAdmission::Refuse { status: 401, .. }));
    assert!(matches!(admit_stream(true, MAX_STREAMS, true), StreamAdmission::Refuse { status: 429, .. }));
    assert!(matches!(admit_stream(true, 0, false), StreamAdmission::Refuse { status: 400, .. }));
    assert!(matches!(admit_stream(true, MAX_STREAMS - 1, true), StreamAdmission::Open));
}
