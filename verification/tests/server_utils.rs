use dockpanel_agent::server_utils::{
    authorized_key_entries, authorized_keys_with, authorized_keys_without, auto_updates_enabled,
    auto_upgrades_config_v, check_ssh_key, keys_listable, plan_upload, whitelist_file, whitelist_ips, written_count,
    AddKeyRequest, UploadRequest,
};

const KEY_DATA: &str = "AAAAC3NzaC1lZDI1NTE5AAAAIAABAgMEBQYHCAkKCwwNDg8QERITFBUWFxgZGhscHR4f";
const FINGERPRINT: &str = "SHA256:ZkAslGjFiUHdGf/WUL8rQvkib4PTvQatUV0OUQSncCA";

fn upload(path: &str, content: &str, filename: Option<&str>) -> UploadRequest {
    UploadRequest { path: path.into(), content: content.into(), filename: filename.map(Into::into) }
}

#[test]
fn upload_decodes_and_places_the_file() {
    let p = plan_upload("example.com", &upload("public/img/", "aGVsbG8=", Some("a.txt"))).unwrap();
    assert_eq!(p.target, "public/img/a.txt");
    assert_eq!(p.bytes, b"hello".to_vec());
    let p = plan_upload("example.com", &upload("notes.txt", "", None)).unwrap();
    assert_eq!(p.target, "notes.txt");
    assert!(p.bytes.is_empty());
    let p = plan_upload("example.com", &upload("/", "aGk=", Some("b.bin"))).unwrap();
    assert_eq!(p.target, "b.bin");
}

#[test]
fn upload_refusals() {
    let e = |r: Result<_, (u16, String)>| r.err().unwrap();
    assert_eq!(e(plan_upload("bad domain", &upload("a", "aGk=", None))), (400, "Invalid domain format".into()));
    assert_eq!(e(plan_upload("example.com", &upload("a", "!!!", None))), (400, "Invalid base64 content".into()));
    assert_eq!(e(plan_upload("example.com", &upload("a", "aGk=", Some("../x")))), (400, "Invalid filename".into()));
    assert_eq!(e(plan_upload("example.com", &upload("a", "aGk=", Some("a/b")))), (400, "Invalid filename".into()));
}

#[test]
fn key_listing_shows_type_fingerprint_comment_and_preview() {
    let content = format!("# managed\n\nssh-ed25519 {KEY_DATA} alice@laptop\n");
    assert!(keys_listable(&content));
    let entries = authorized_key_entries(&content);
    assert_eq!(entries.len(), 1);
    assert_eq!(entries[0].key_type, "ssh-ed25519");
    assert_eq!(entries[0].fingerprint, FINGERPRINT);
    assert_eq!(entries[0].comment, "alice@laptop");
    assert_eq!(entries[0].preview, "ssh-ed25519 AAAAC3NzaC1lZDI1NTE5...");
}

#[test]
fn key_checks() {
    let good = format!("  ssh-ed25519 {KEY_DATA} me  ");
    assert_eq!(check_ssh_key(&good), Ok(format!("ssh-ed25519 {KEY_DATA} me")));
    assert_eq!(check_ssh_key("ssh-rsa AAAA\nssh-rsa BBBB"), Err("SSH key must be a single line".into()));
    assert_eq!(check_ssh_key("rsa AAAAAAAAAAAAAAAAAAAA"), Err("Invalid SSH key format".into()));
    assert_eq!(check_ssh_key("ssh-rsa short"), Err("Invalid SSH key: missing key data".into()));
    let opts = format!("ssh-ed25519 {KEY_DATA} command=\"x\"");
    assert_eq!(check_ssh_key(&opts), Err("SSH key options not allowed".into()));
    let req = AddKeyRequest { key: good.clone() };
    assert_eq!(req.checked_key(), check_ssh_key(&good));
}

#[test]
fn added_key_ends_the_file_and_is_added_once() {
    let key = format!("ssh-ed25519 {KEY_DATA} me");
    let out = authorized_keys_with("ssh-rsa AAAA old", &key).unwrap();
    assert_eq!(out, format!("ssh-rsa AAAA old\n{key}\n"));
    assert!(authorized_keys_with(&out, &key).is_none());
    assert_eq!(authorized_keys_with("", &key).unwrap(), format!("{key}\n"));
}

#[test]
fn removed_key_is_gone_and_the_rest_stays() {
    let content = format!("# keep me\nssh-ed25519 {KEY_DATA} me\nssh-rsa AAAAB3NzaC1yc2E other\n");
    let out = authorized_keys_without(&content, FINGERPRINT);
    assert_eq!(out, "# keep me\nssh-rsa AAAAB3NzaC1yc2E other\n");
    assert_eq!(authorized_keys_without(&content, "SHA256:nothing"), content);
}

#[test]
fn automatic_updates() {
    assert!(auto_upgrades_config_v(true).contains("Unattended-Upgrade \"1\""));
    assert!(auto_upgrades_config_v(false).contains("Unattended-Upgrade \"0\""));
    assert!(auto_updates_enabled(true, Some(auto_upgrades_config_v(true))));
    assert!(!auto_updates_enabled(true, Some(auto_upgrades_config_v(false))));
    assert!(!auto_updates_enabled(false, Some(auto_upgrades_config_v(true))));
    assert!(!auto_updates_enabled(true, None));
}

#[test]
fn whitelist_round_trip() {
    let ips = vec![" 10.0.0.1 ".to_string(), "".into(), "fe80::1".into()];
    let file = whitelist_file(&ips).unwrap();
    assert_eq!(file, "10.0.0.1\nfe80::1\n");
    assert_eq!(whitelist_ips(&file), vec!["10.0.0.1", "fe80::1"]);
    assert_eq!(written_count(&ips), 2);
    assert_eq!(whitelist_file(&vec!["localhost".into()]), Err("Invalid IP: localhost".into()));
    assert_eq!(whitelist_ips("# header\n\n 1.2.3.4\n"), vec!["1.2.3.4"]);
}
