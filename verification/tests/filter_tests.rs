use filter_skimverify::filter::{build_raw_message, insert_auth_header, CommitDecision, FilterState};
use filter_skimverify::verify::{format_auth_results, DkimStatus, SpfStatus, VerificationResult};

fn result(dkim: &'static str, spf: &'static str, aligned: bool) -> VerificationResult {
    VerificationResult {
        dkim: DkimStatus {
            result: dkim,
            domain: Some("example.com".to_string()),
            selector: Some("sel1".to_string()),
            comment: None,
        },
        spf: SpfStatus {
            result: spf,
            smtp_mailfrom: Some("user@example.com".to_string()),
            smtp_helo: None,
        },
        alignment_pass: aligned,
    }
}

fn strings(lines: &[&str]) -> Vec<String> {
    lines.iter().map(|s| s.to_string()).collect()
}

#[test]
fn raw_message_uses_crlf() {
    let raw = build_raw_message(&strings(&["Subject: Hi", "", "Hello"]));
    assert_eq!(raw, b"Subject: Hi\r\n\r\nHello\r\n".to_vec());
    assert_eq!(build_raw_message(&[]), Vec::<u8>::new());
    assert_eq!(build_raw_message(&strings(&["é"])), "é\r\n".as_bytes().to_vec());
}

#[test]
fn raw_message_concatenates() {
    let a = strings(&["A: 1", "B: 2"]);
    let b = strings(&["", "body"]);
    let mut ab = a.clone();
    ab.extend(b.clone());
    let mut expected = build_raw_message(&a);
    expected.extend(build_raw_message(&b));
    assert_eq!(build_raw_message(&ab), expected);
}

#[test]
fn header_goes_before_first_empty_line() {
    let lines = strings(&["From: a@b", "Subject: x", "", "body", "", "more"]);
    let out = insert_auth_header(&lines, &"H".to_string());
    assert_eq!(out, strings(&["From: a@b", "Subject: x", "H", "", "body", "", "more"]));
}

#[test]
fn header_appended_without_empty_line() {
    let lines = strings(&["From: a@b", "Subject: x"]);
    assert_eq!(insert_auth_header(&lines, &"H".to_string()), strings(&["From: a@b", "Subject: x", "H"]));
    assert_eq!(insert_auth_header(&Vec::new(), &"H".to_string()), strings(&["H"]));
}

#[test]
fn headers_only_message_gets_header() {
    let mut state = FilterState::new();
    let r = result("pass", "pass", true);
    let header = format_auth_results("mx", &r);
    let out = state.complete_message(8, &strings(&["Subject: x"]), "mx", r, false);
    assert_eq!(out, vec!["Subject: x".to_string(), header.clone(), ".".to_string()]);
    let out = state.complete_message(8, &Vec::new(), "mx", result("pass", "pass", true), false);
    assert_eq!(out, vec![header, ".".to_string()]);
}

#[test]
fn header_first_when_message_starts_empty() {
    let lines = strings(&["", "body"]);
    assert_eq!(insert_auth_header(&lines, &"H".to_string()), strings(&["H", "", "body"]));
}

#[test]
fn data_lines_are_collected_per_transaction() {
    let mut state = FilterState::new();
    assert!(state.on_data_line(1, "From: a@b").is_none());
    assert!(state.on_data_line(2, "Subject: other").is_none());
    assert!(state.on_data_line(1, "").is_none());
    assert!(state.on_data_line(1, "body").is_none());
    assert_eq!(state.on_data_line(1, "."), Some(strings(&["From: a@b", "", "body"])));
    // a new message for the same transaction starts empty
    assert_eq!(state.on_data_line(1, "."), Some(Vec::new()));
    assert_eq!(state.on_data_line(2, "."), Some(strings(&["Subject: other"])));
}

#[test]
fn completed_message_carries_header_and_dot() {
    let mut state = FilterState::new();
    let lines = strings(&["Subject: x", "", "body"]);
    let r = result("pass", "pass", true);
    let header = format_auth_results("mx.example.com", &r);
    let out = state.complete_message(7, &lines, "mx.example.com", r, false);
    assert_eq!(out, vec!["Subject: x".to_string(), header, "".to_string(), "body".to_string(), ".".to_string()]);
    // nothing was recorded, so the commit proceeds
    assert!(matches!(state.on_commit(7, "550 no"), CommitDecision::Proceed));
}

#[test]
fn failing_message_is_rejected_once() {
    let mut state = FilterState::new();
    state.complete_message(3, &strings(&["A: b", ""]), "mx", result("fail", "pass", true), true);
    match state.on_commit(3, "550 5.7.1 DKIM verification failed") {
        CommitDecision::Reject { code, message, dkim_domain } => {
            assert_eq!(dkim_domain.as_deref(), Some("example.com"));
            assert_eq!(code, 550);
            assert_eq!(message, "550 5.7.1 DKIM verification failed");
        }
        CommitDecision::Proceed => panic!("a failed DKIM check is rejected"),
    }
    assert!(matches!(state.on_commit(3, "x"), CommitDecision::Proceed));
}

#[test]
fn each_failed_check_rejects() {
    for r in [result("pass", "softfail", true), result("pass", "pass", false), result("none", "pass", true)] {
        let mut state = FilterState::new();
        state.complete_message(9, &Vec::new(), "mx", r, true);
        assert!(matches!(state.on_commit(9, "no"), CommitDecision::Reject { .. }));
    }
}

#[test]
fn passing_message_proceeds() {
    let mut state = FilterState::new();
    state.complete_message(4, &Vec::new(), "mx", result("pass", "pass", true), true);
    assert!(matches!(state.on_commit(4, "no"), CommitDecision::Proceed));
}

#[test]
fn disconnect_forgets_transaction() {
    let mut state = FilterState::new();
    state.on_data_line(5, "partial");
    state.complete_message(5, &Vec::new(), "mx", result("fail", "fail", false), true);
    state.on_disconnect(5);
    assert!(matches!(state.on_commit(5, "no"), CommitDecision::Proceed));
    assert_eq!(state.on_data_line(5, "."), Some(Vec::new()));
}

#[test]
fn nothing_rejected_without_reject_on_fail() {
    let mut state = FilterState::new();
    for reqid in 0..4u64 {
        state.on_data_line(reqid, "Subject: x");
        let lines = state.on_data_line(reqid, ".").unwrap();
        state.complete_message(reqid, &lines, "mx", result("fail", "fail", false), false);
        if reqid % 2 == 0 {
            state.on_disconnect(reqid);
        }
        assert!(matches!(state.on_commit(reqid, "no"), CommitDecision::Proceed));
        assert!(matches!(state.on_commit(reqid + 1, "no"), CommitDecision::Proceed));
    }
}
