use dockpanel_agent::remote_backup::{
    check_test, check_upload, select_for_prune, sftp_failure_status, start_prune, Destination, DestinationConfig,
    PruneRequest, PruneStart, TestRequest, UploadRequest,
};

fn config(dtype: &str) -> DestinationConfig {
    DestinationConfig {
        dtype: dtype.into(),
        bucket: None,
        region: None,
        endpoint: None,
        access_key: None,
        secret_key: None,
        path_prefix: None,
        host: None,
        port: None,
        username: None,
        password: None,
        key_path: None,
        remote_path: None,
    }
}

fn s3() -> DestinationConfig {
    DestinationConfig {
        bucket: Some("b".into()),
        endpoint: Some("https://s3.example.com".into()),
        access_key: Some("AK".into()),
        secret_key: Some("SK".into()),
        ..config("s3")
    }
}

#[test]
fn upload_path_must_be_under_the_backup_root() {
    let req = UploadRequest { filepath: "/etc/passwd".into(), destination: s3() };
    assert_eq!(check_upload(&req).err(), Some("Invalid backup filepath".to_string()));
    let req = UploadRequest { filepath: "/var/backups/dockpanel/../x".into(), destination: s3() };
    assert_eq!(check_upload(&req).err(), Some("Invalid backup filepath".to_string()));
}

#[test]
fn s3_defaults_and_missing_fields() {
    let req = UploadRequest { filepath: "/var/backups/dockpanel/a-1.tar.gz".into(), destination: s3() };
    match check_upload(&req).unwrap() {
        Destination::S3 { bucket, region, prefix, .. } => {
            assert_eq!(bucket, "b");
            assert_eq!(region, "us-east-1");
            assert_eq!(prefix, "");
        }
        _ => panic!("expected S3"),
    }
    let no_secret = DestinationConfig { secret_key: None, ..s3() };
    assert_eq!(check_test(&TestRequest { destination: no_secret }).err(), Some("Missing secret_key".to_string()));
    assert_eq!(check_test(&TestRequest { destination: config("ftp") }).err(), Some("Unknown type: ftp".to_string()));
    let req = UploadRequest { filepath: "/var/backups/dockpanel/a".into(), destination: config("ftp") };
    assert_eq!(check_upload(&req).err(), Some("Unknown destination type: ftp".to_string()));
}

#[test]
fn sftp_defaults() {
    let c = DestinationConfig { host: Some("h".into()), username: Some("u".into()), ..config("sftp") };
    match check_test(&TestRequest { destination: c }).unwrap() {
        Destination::Sftp { port, remote_path, password, .. } => {
            assert_eq!(port, 22);
            assert_eq!(remote_path, "/backups");
            assert!(password.is_none());
        }
        _ => panic!("expected SFTP"),
    }
    let c = DestinationConfig { host: Some("h".into()), ..config("sftp") };
    assert_eq!(check_test(&TestRequest { destination: c }).err(), Some("Missing username".to_string()));
    assert_eq!(sftp_failure_status("sshpass missing", "sshpass missing", true), 424);
    assert_eq!(sftp_failure_status("denied", "sshpass missing", true), 500);
    assert_eq!(sftp_failure_status("denied", "sshpass missing", false), 502);
}

#[test]
fn prune_only_for_s3() {
    let req = PruneRequest { destination: config("sftp"), domain: "ex.com".into(), retention: 3 };
    match start_prune(&req) {
        PruneStart::Unsupported(m) => assert_eq!(
            m,
            "Automatic pruning is not supported for sftp destinations. Old backups for 'ex.com' must be pruned manually on the remote server."
        ),
        _ => panic!("expected unsupported"),
    }
    let req = PruneRequest { destination: DestinationConfig { bucket: None, ..s3() }, domain: "ex.com".into(), retention: 3 };
    assert!(matches!(start_prune(&req), PruneStart::Refused(m) if m == "Missing bucket"));
    let req = PruneRequest { destination: s3(), domain: "ex.com".into(), retention: 3 };
    assert!(matches!(start_prune(&req), PruneStart::Listing(Destination::S3 { .. })));
}

#[test]
fn prune_deletes_only_the_older_backups_of_the_domain() {
    let keys: Vec<String> = vec![
        "p/ex.com-20240101.tar.gz".into(),
        "p/ex.com-20240301.tar.gz".into(),
        "p/other.com-20240401.tar.gz".into(),
        "p/ex.com-20240201.tar.gz".into(),
        "p/ex.com-notes.txt".into(),
    ];
    let s = select_for_prune(&keys, "ex.com", 2);
    assert_eq!(s.keep, vec!["p/ex.com-20240301.tar.gz", "p/ex.com-20240201.tar.gz"]);
    assert_eq!(s.delete, vec!["p/ex.com-20240101.tar.gz"]);
    let s = select_for_prune(&keys, "ex.com", 10);
    assert_eq!(s.keep.len(), 3);
    assert!(s.delete.is_empty());
}
