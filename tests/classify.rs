use bot_detect::clock::{parse_log_time, LogTime};
use bot_detect::nginx::{
    address_family, classify_line, decide, has_colon, parse, rebuild_user_agent, AddrFamily,
    LineError, Trigger,
};
use bot_detect::signatures::{find_signature, signature_from_line, Signature};
use bot_detect::text::{is_space_char, join_from, split_tokens, strip_quotes, trim};

const LINE_A: &str =
    "10.0.0.1 - - [01/Jan/2024:00:00:00 +0000] \"GET /wp-admin/ HTTP/1.1\" 404 100 \"-\" \"curl/7.68.0\"";

fn sig(pattern: &str, name: &str) -> Signature {
    Signature { pattern: pattern.to_string(), name: name.to_string() }
}

fn lines(v: &[&str]) -> Vec<String> {
    v.iter().map(|s| s.to_string()).collect()
}

#[test]
fn scenario_uri_match() {
    let uri = vec![sig("wp-admin", "WPScanner")];
    let ua = vec![sig("Googlebot", "Google")];
    let out = parse(&lines(&[LINE_A]), &uri, &ua).unwrap();
    assert_eq!(out.len(), 1);
    let r = &out[0];
    assert_eq!(r.ip.text, "10.0.0.1");
    assert_eq!(r.ip.family, AddrFamily::V4);
    assert_eq!(r.uri, "/wp-admin/");
    assert_eq!(r.triggered_on, Trigger::UriPath);
    assert_eq!(r.name, "WPScanner");
    assert_eq!(r.user_agent, "curl/7.68.0");
    assert_eq!(r.date, LogTime { utc_seconds: 1704067200, offset_seconds: 0 });
}

#[test]
fn scenario_user_agent_overrides_uri() {
    let uri = vec![sig("wp-admin", "WPScanner")];
    let ua = vec![sig("curl", "CurlBot")];
    let out = parse(&lines(&[LINE_A]), &uri, &ua).unwrap();
    assert_eq!(out.len(), 1);
    assert_eq!(out[0].triggered_on, Trigger::UserAgent);
    assert_eq!(out[0].name, "CurlBot");
    assert_eq!(out[0].uri, "/wp-admin/");
}

#[test]
fn scenario_no_match() {
    let uri = vec![sig("phpmyadmin", "PMA")];
    let ua = vec![sig("Googlebot", "Google")];
    let out = parse(&lines(&[LINE_A]), &uri, &ua).unwrap();
    assert!(out.is_empty());
    let one = classify_line(LINE_A, &uri, &ua).unwrap();
    assert!(one.record.is_none());
    assert_eq!(one.address.text, "10.0.0.1");
}

#[test]
fn scenario_bad_date_fails_whole_run() {
    let bad = "10.0.0.2 - - [not-a-date] \"GET /wp-admin/ HTTP/1.1\" 404 100 \"-\" \"curl/7.68.0\"";
    let uri = vec![sig("wp-admin", "WPScanner")];
    let r = parse(&lines(&[LINE_A, bad, LINE_A]), &uri, &vec![]);
    match r {
        Err(LineError::BadDate { text, .. }) => assert_eq!(text, "[not-a-date] \"GET"),
        other => panic!("unexpected {:?}", other),
    }
}

#[test]
fn truncated_line_is_an_error() {
    let r = classify_line("10.0.0.1 - - [01/Jan/2024:00:00:00 +0000] \"GET", &vec![], &vec![]);
    assert!(matches!(r, Err(LineError::Truncated { tokens: 6 })));
    let r = classify_line("", &vec![], &vec![]);
    assert!(matches!(r, Err(LineError::Truncated { tokens: 0 })));
}

#[test]
fn invalid_pattern_is_an_error() {
    let uri = vec![sig("(", "Broken")];
    match classify_line(LINE_A, &uri, &vec![]) {
        Err(LineError::BadPattern(e)) => assert_eq!(e.pattern, "("),
        other => panic!("unexpected {:?}", other),
    }
}

#[test]
fn records_keep_line_order() {
    let l1 = "1.1.1.1 - - [01/Jan/2024:00:00:01 +0000] \"GET /a HTTP/1.1\" 200 1 \"-\" \"BotOne\"";
    let l2 = "2.2.2.2 - - [01/Jan/2024:00:00:02 +0000] \"GET /b HTTP/1.1\" 200 1 \"-\" \"Human\"";
    let l3 = "::1 - - [01/Jan/2024:00:00:03 +0000] \"GET /c HTTP/1.1\" 200 1 \"-\" \"BotTwo\"";
    let ua = vec![sig("^Bot", "Bot")];
    let out = parse(&lines(&[l1, l2, l3]), &vec![], &ua).unwrap();
    assert_eq!(out.len(), 2);
    assert_eq!(out[0].uri, "/a");
    assert_eq!(out[1].uri, "/c");
    assert_eq!(out[1].ip.family, AddrFamily::V6);
    assert_eq!(out[1].ip.text, "::1");
    assert_eq!(out[1].date.utc_seconds, 1704067203);
}

#[test]
fn user_agent_is_rebuilt_from_tokens() {
    let line = "1.1.1.1 - - [01/Jan/2024:00:00:00 +0000] \"GET / HTTP/1.1\" 200 1 \"-\" \"Mozilla/5.0 (compatible; \"Foo\")\"";
    let toks = split_tokens(line);
    assert_eq!(rebuild_user_agent(&toks), "Mozilla/5.0 (compatible; Foo)");
    let short = split_tokens("a b c d e f g");
    assert_eq!(rebuild_user_agent(&short), "");
    let quotes = split_tokens("0 1 2 3 4 5 6 7 8 9 10 \" x \"");
    assert_eq!(rebuild_user_agent(&quotes), "x");
}

#[test]
fn splits_on_any_white_space() {
    let t = split_tokens("  a\tbb \u{3000}c  ");
    assert_eq!(t, vec!["a".to_string(), "bb".to_string(), "c".to_string()]);
    assert!(split_tokens("   ").is_empty());
    assert!(is_space_char('\u{A0}'));
    assert!(!is_space_char('x'));
}

#[test]
fn strips_trims_and_joins() {
    assert_eq!(strip_quotes("\"a\"b\""), "ab");
    assert_eq!(trim(" \t x y \n"), "x y");
    assert_eq!(trim("   "), "");
    let v = vec!["a".to_string(), "b".to_string(), "c".to_string()];
    assert_eq!(join_from(&v, 0), "a b c");
    assert_eq!(join_from(&v, 1), "b c");
    assert_eq!(join_from(&v, 3), "");
}

#[test]
fn address_family_by_colon() {
    assert!(has_colon("fe80::1"));
    assert!(!has_colon("10.0.0.1"));
    assert_eq!(address_family("2001:db8::1"), AddrFamily::V6);
    assert_eq!(address_family("192.168.0.1"), AddrFamily::V4);
}

#[test]
fn decide_prefers_user_agent() {
    let both = decide(Some("U".to_string()), Some("A".to_string()));
    assert_eq!(both, Some((Trigger::UserAgent, "A".to_string())));
    assert_eq!(decide(Some("U".to_string()), None), Some((Trigger::UriPath, "U".to_string())));
    assert_eq!(decide(None, None), None);
}

#[test]
fn first_signature_wins() {
    let sigs = vec![sig("nomatch", "A"), sig("cur.", "B"), sig("curl", "C")];
    assert_eq!(find_signature(&sigs, "curl/7").unwrap(), Some("B".to_string()));
    assert_eq!(find_signature(&sigs, "wget").unwrap(), None);
    assert_eq!(find_signature(&vec![], "curl").unwrap(), None);
}

#[test]
fn log_time_with_offset() {
    let t = parse_log_time("[01/Jan/2024:01:00:00 +0100]").unwrap();
    assert_eq!(t, LogTime { utc_seconds: 1704067200, offset_seconds: 3600 });
    let t = parse_log_time("[10/Oct/2000:13:55:36 -0700]").unwrap();
    assert_eq!(t, LogTime { utc_seconds: 971211336, offset_seconds: -25200 });
    assert!(parse_log_time("[not-a-date]").is_err());
}

#[test]
fn reads_signature_lines() {
    let s = signature_from_line("wp-admin\tWPScanner").unwrap();
    assert_eq!(s.pattern, "wp-admin");
    assert_eq!(s.name, "WPScanner");
    let s = signature_from_line("a\tb\tc").unwrap();
    assert_eq!(s.pattern, "a");
    assert_eq!(s.name, "b\tc");
    assert!(signature_from_line("no tab here").is_none());
}
