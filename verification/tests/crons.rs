use dockpanel_agent::cron::{is_valid_schedule, list_entries, marker_id, plan_remove, plan_sync, CronRequest};

#[test]
fn the_id_is_the_token_after_the_marker() {
    assert_eq!(
        marker_id("*/5 * * * * /bin/true # dockpanel:abc-123 My label"),
        Some("abc-123")
    );
    assert_eq!(marker_id("*/5 * * * * /bin/true # dockpanel:abc-123"), Some("abc-123"));
    assert_eq!(marker_id("0 3 * * * /usr/bin/certbot renew"), None);
    assert_eq!(marker_id("# a plain operator comment"), None);
}

/// A line whose id was NOT sent must survive, whoever owns it.
#[test]
fn a_line_this_sync_does_not_own_is_kept() {
    let crontab = "\
*/15 * * * * php wp-cron.php # dockpanel:site-a-cron WordPress Cron
0 2 * * * /usr/local/bin/backup # dockpanel:site-b-cron Nightly backup
0 4 * * * /usr/bin/certbot renew";
    let owned: std::collections::HashSet<&str> = ["site-a-cron"].into_iter().collect();
    let kept: Vec<&str> = crontab
        .lines()
        .filter(|l| match marker_id(l) {
            Some(id) => !owned.contains(id),
            None => true,
        })
        .collect();
    assert_eq!(kept.len(), 2, "kept: {kept:?}");
    assert!(kept.iter().any(|l| l.contains("site-b-cron")), "another site's cron was removed");
    assert!(kept.iter().any(|l| l.contains("certbot")), "an operator line was removed");
}

/// An id that is a PREFIX of another must not carry it off.
#[test]
fn a_prefix_id_does_not_match_a_longer_one() {
    let line = "*/5 * * * * /bin/true # dockpanel:abc-1234 label";
    assert_ne!(marker_id(line), Some("abc-123"));
    assert_eq!(marker_id(line), Some("abc-1234"));
}

fn cron(id: &str, command: &str, schedule: &str, label: Option<&str>, enabled: bool) -> CronRequest {
    CronRequest {
        id: id.to_string(),
        command: command.to_string(),
        schedule: schedule.to_string(),
        label: label.map(|l| l.to_string()),
        enabled,
    }
}

#[test]
fn schedules_need_five_fields_of_time_characters() {
    assert!(is_valid_schedule("*/5 * * * *"));
    assert!(is_valid_schedule("0 3 1-15 */2 1,3,5"));
    assert!(is_valid_schedule("  0  3 * * *  "));
    assert!(!is_valid_schedule("* * * *"));
    assert!(!is_valid_schedule("* * * * * *"));
    assert!(!is_valid_schedule("@daily"));
    assert!(!is_valid_schedule("0 3 * * MON"));
    assert!(!is_valid_schedule(""));
}

#[test]
fn a_sync_replaces_only_its_own_lines_and_reports_skips() {
    let existing = "0 4 * * * /usr/bin/certbot renew\n\
*/15 * * * * php old.php # dockpanel:site-a WordPress\n\
0 2 * * * /bin/backup # dockpanel:site-b Nightly";
    let crons = vec![
        cron("site-a", "php new.php", "*/10 * * * *", Some("WP"), true),
        cron("site-c", "echo hi", "bad schedule", None, true),
        cron("site-d", "echo off", "* * * * *", None, false),
        cron("site-e", "rm -rf /", "* * * * *", None, true),
    ];
    let plan = plan_sync(existing, &crons, &vec![true, true, true, false]);
    assert_eq!(
        plan.crontab,
        "0 4 * * * /usr/bin/certbot renew\n\
0 2 * * * /bin/backup # dockpanel:site-b Nightly\n\
*/10 * * * * php new.php # dockpanel:site-a WP"
    );
    assert_eq!(plan.skipped, vec!["site-c".to_string(), "site-e".to_string()]);
    assert_eq!(plan.synced, 1);
}

#[test]
fn an_empty_command_is_skipped_and_a_missing_label_leaves_a_trailing_space() {
    let crons = vec![cron("x", "", "* * * * *", None, true), cron("y", "true", "* * * * *", None, true)];
    let plan = plan_sync("", &crons, &vec![true, true]);
    assert_eq!(plan.crontab, "* * * * * true # dockpanel:y ");
    assert_eq!(plan.skipped, vec!["x".to_string()]);
    assert_eq!(plan.synced, 1);
}

#[test]
fn the_line_a_sync_writes_is_attributed_back_to_its_cron() {
    let crons = vec![cron("abc-123", "/bin/true", "*/5 * * * *", Some("My label"), true)];
    let plan = plan_sync("", &crons, &vec![true]);
    assert_eq!(marker_id(&plan.crontab), Some("abc-123"));
}

#[test]
fn removing_a_cron_takes_only_its_lines() {
    let existing = "a # dockpanel:abc-1234 x\nb # dockpanel:abc-123 y\r\nc plain\n";
    assert_eq!(plan_remove(existing, "abc-123"), "a # dockpanel:abc-1234 x\nc plain");
    assert_eq!(plan_remove("", "x"), "");
}

#[test]
fn listing_splits_entry_id_and_label() {
    let list = list_entries("*/5 * * * * /bin/true # dockpanel:abc-123 My label \nplain line\n0 1 * * * x # dockpanel:solo");
    assert_eq!(list.len(), 2);
    assert_eq!(list[0].id, "abc-123");
    assert_eq!(list[0].entry, "*/5 * * * * /bin/true");
    assert_eq!(list[0].label, "My label");
    assert_eq!(list[1].id, "solo");
    assert_eq!(list[1].label, "");
}

#[test]
fn a_written_line_reads_back_its_id_whatever_the_label() {
    let line = format!("{} {} # dockpanel:{} {}", "0 * * * *", "/bin/true", "job-7", "nightly # dockpanel:other x");
    assert_eq!(marker_id(&line), Some("job-7"));
    // An id ending in `#` before a label starting `dockpanel:` spells a second
    // marker across the separator.
    let line = format!("{} {} # dockpanel:{} {}", "0 * * * *", "/bin/true", "ab#", "dockpanel:x");
    assert_eq!(marker_id(&line), Some("ab"));
}
