use dockpanel_agent::mail_queue::parse_mail_queue;

#[test]
fn empty_queue_reads_as_no_entries() {
    assert!(parse_mail_queue("Mail queue is empty\n").is_empty());
    assert!(parse_mail_queue("   \n").is_empty());
    assert!(parse_mail_queue("").is_empty());
}

#[test]
fn reads_entries_with_their_recipients() {
    let out = "-Queue ID-  --Size-- ----Arrival Time---- -Sender/Recipient-------\n\
A1B2C3D4E5*    1234 Mon Mar 15 10:00:00  sender@example.com\n\
                                         al@ex.org\n\
                                         bob@ex.org\n\
\n\
F6A7B8C9D0!     999 Tue Mar 16 11:30:00  other@example.com\n\
                                         carol@x.y\n\
\n\
-- 2 Kbytes in 2 Requests.\n";
    let q = parse_mail_queue(out);
    assert_eq!(q.len(), 2);
    assert_eq!(q[0].id, "A1B2C3D4E5");
    assert_eq!(q[0].status, "active");
    assert_eq!(q[0].size, "1234");
    assert_eq!(q[0].sender, "sender@example.com");
    assert_eq!(q[0].arrival_time, "Mon Mar 15 10:00:00");
    assert_eq!(q[0].recipients, "al@ex.org, bob@ex.org");
    assert_eq!(q[1].id, "F6A7B8C9D0");
    assert_eq!(q[1].status, "hold");
    assert_eq!(q[1].size, "999");
    assert_eq!(q[1].recipients, "carol@x.y");
}

#[test]
fn deferred_entry_closed_at_end_of_output() {
    let out = "0123456789AB     512 Wed Mar 17 09:15:00  bounce@example.com\n\
    (connect to mx.example.org[1.2.3.4]:25: Connection timed out)\n\
                                         dave@ex.io\n";
    let q = parse_mail_queue(out);
    assert_eq!(q.len(), 1);
    assert_eq!(q[0].id, "0123456789AB");
    assert_eq!(q[0].status, "deferred");
    assert_eq!(q[0].recipients, "dave@ex.io");
}

#[test]
fn a_recipient_line_longer_than_ten_bytes_reads_as_an_id_line_without_fields() {
    // A trimmed line of more than ten bytes that starts with a letter or
    // digit is taken for an id line; with no space in it, it sets nothing.
    let out = "ABCDEF012345  10 Thu Mar 18 08:00:00 a@b.c\n\
                                         alice@example.org\n";
    let q = parse_mail_queue(out);
    assert_eq!(q.len(), 1);
    assert_eq!(q[0].recipients, "");
}

#[test]
fn every_entry_has_an_id_and_a_known_state() {
    let out = "ABCDEF012345*  10 Thu Mar 18 08:00:00 a@b.c\n\
x@y.z\n\
\n\
***** junk\n\
\n";
    let q = parse_mail_queue(out);
    assert!(!q.is_empty());
    for e in &q {
        assert!(!e.id.is_empty());
        assert!(["active", "hold", "deferred"].contains(&e.status.as_str()));
    }
}
