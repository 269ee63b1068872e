use dockpanel_agent::mail_log::{mail_log_showable, mail_log_summary};

const LOG: &str = "Mar 15 10:00:00 mx postfix/smtp[1]: A1: to=<a@b.c>, status=sent (250 ok)\n\
Mar 15 10:00:01 mx postfix/smtpd[2]: NOQUEUE: reject: RCPT from x\n\
Mar 15 10:00:02 mx dovecot: lmtp(bob@ex.com): saved mail\n\
Mar 15 10:00:03 mx postfix/smtp[1]: B2: status=bounced (user unknown)\n\
plain line\n";

#[test]
fn mail_log_counts_every_line() {
    assert!(mail_log_showable(LOG));
    let s = mail_log_summary(LOG);
    assert_eq!((s.sent, s.received, s.bounced, s.rejected), (1, 1, 1, 1));
}

#[test]
fn mail_log_recent_is_newest_first_with_time_and_message() {
    let s = mail_log_summary(LOG);
    assert_eq!(s.recent.len(), 3);
    assert_eq!(s.recent[0].time, "Mar 15 10:00:03");
    assert_eq!(s.recent[0].message, "mx postfix/smtp[1]: B2: status=bounced (user unknown)");
    assert!(s.recent[0].error);
    assert!(s.recent[1].error);
    assert_eq!(s.recent[2].time, "Mar 15 10:00:00");
    assert!(!s.recent[2].error);
}

#[test]
fn mail_log_recent_keeps_fifty_and_cuts_at_200_bytes() {
    let long = format!("Mar 15 10:00:00 {}status=sent\n", "x".repeat(300));
    let many = long.repeat(60);
    let s = mail_log_summary(&many);
    assert_eq!(s.sent, 60);
    assert_eq!(s.recent.len(), 50);
    assert_eq!(s.recent[0].message.len(), 200 - 16);
    let short = "status=x\n";
    let s = mail_log_summary(short);
    assert_eq!(s.recent[0].time, "");
    assert_eq!(s.recent[0].message, "status=x");
}

#[test]
fn mail_log_lines_cut_inside_a_character_are_refused() {
    let bad = "Mar 15 10:00:0é status=sent\n";
    assert!(!mail_log_showable(bad));
    assert!(mail_log_showable("é status=sent\n"));
}
