use dockpanel_agent::access_log::{access_log_stats, tally, top_entries};

fn log() -> String {
    [
        r#"1.1.1.1 - - [15/Mar/2025:10:00:00 +0000] "GET /index.html HTTP/1.1" 200 1000 "-" "curl""#,
        r#"2.2.2.2 - - [15/Mar/2025:10:00:01 +0000] "GET /index.html?x=1 HTTP/1.1" 200 500 "-" "curl""#,
        r#"1.1.1.1 - - [15/Mar/2025:10:00:02 +0000] "GET /about HTTP/1.1" 404 20 "-" "curl""#,
        r#"3.3.3.3 - - [15/Mar/2025:10:00:03 +0000] "GET /favicon.ico HTTP/1.1" 200 300 "-" "curl""#,
        r#"3.3.3.3 - - [15/Mar/2025:10:00:04 +0000] "POST /api/login HTTP/1.1" 500 - "-" "curl""#,
        "",
    ]
    .join("\n")
}

#[test]
fn counts_requests_bytes_and_clients() {
    let s = access_log_stats(&log());
    assert_eq!(s.requests, 5);
    assert_eq!(s.bandwidth, 1000 + 500 + 20 + 300);
    assert_eq!(s.unique_ips, 3);
}

#[test]
fn counts_each_status() {
    let s = access_log_stats(&log());
    let get = |code: &str| s.status_codes.iter().find(|(k, _)| k == code).map(|(_, c)| *c);
    assert_eq!(get("200"), Some(3));
    assert_eq!(get("404"), Some(1));
    assert_eq!(get("500"), Some(1));
    assert_eq!(s.status_codes.len(), 3);
}

#[test]
fn top_pages_skip_favicon_and_api_and_drop_the_query() {
    let s = access_log_stats(&log());
    assert_eq!(s.top_pages, vec![("/index.html".to_string(), 2), ("/about".to_string(), 1)]);
}

#[test]
fn empty_log_has_nothing() {
    let s = access_log_stats("");
    assert_eq!(s.requests, 0);
    assert_eq!(s.bandwidth, 0);
    assert_eq!(s.unique_ips, 0);
    assert!(s.top_pages.is_empty());
    assert!(s.status_codes.is_empty());
}

#[test]
fn tally_counts_in_first_seen_order() {
    let items: Vec<Vec<char>> = ["b", "a", "b", "c", "b", "a"].iter().map(|s| s.chars().collect()).collect();
    let t = tally(&items);
    assert_eq!(t, vec![("b".to_string(), 3), ("a".to_string(), 2), ("c".to_string(), 1)]);
}

#[test]
fn top_entries_keeps_the_busiest_in_order() {
    let t: Vec<(String, u32)> = (0..15).map(|i| (format!("/p{i}"), (i % 5) as u32)).collect();
    let top = top_entries(&t, 10);
    assert_eq!(top.len(), 10);
    for w in top.windows(2) {
        assert!(w[0].1 >= w[1].1);
    }
    assert_eq!(top[0], ("/p4".to_string(), 4));
    assert_eq!(top[1], ("/p9".to_string(), 4));
    let least_taken = top.last().unwrap().1;
    for e in &t {
        if !top.iter().any(|x| x.0 == e.0) {
            assert!(e.1 <= least_taken);
        }
    }
    assert_eq!(top_entries(&t[..3].to_vec(), 10).len(), 3);
}
