use filter_skimverify::domain::{domains_align, organizational_domain};
use filter_skimverify::verify::{
    check_dkim_alignment, dkim_status, parse_message, spf_query, spf_result_text, spf_status,
    verification_result, DkimOutcome, DkimStatus, DkimVerdict, SpfVerdict,
};

fn outcome(verdict: DkimVerdict, domain: Option<&str>, selector: Option<&str>) -> DkimOutcome {
    DkimOutcome {
        verdict,
        domain: domain.map(|s| s.to_string()),
        selector: selector.map(|s| s.to_string()),
    }
}

fn dkim_with_domain(domain: Option<&str>) -> DkimStatus {
    DkimStatus {
        result: "pass",
        domain: domain.map(|s| s.to_string()),
        selector: None,
        comment: None,
    }
}

#[test]
fn dkim_status_without_signatures() {
    let status = dkim_status(&Vec::new());
    assert_eq!(status.result, "none");
    assert_eq!(status.domain, None);
    assert_eq!(status.selector, None);
    assert_eq!(status.comment.as_deref(), Some("no signature"));
}

#[test]
fn dkim_status_first_pass_decides() {
    let outs = vec![
        outcome(DkimVerdict::Neutral, Some("a.org"), Some("s0")),
        outcome(DkimVerdict::Pass, Some("example.com"), Some("sel1")),
        outcome(DkimVerdict::Fail("later".to_string()), Some("b.org"), Some("s2")),
    ];
    let status = dkim_status(&outs);
    assert_eq!(status.result, "pass");
    assert_eq!(status.domain.as_deref(), Some("example.com"));
    assert_eq!(status.selector.as_deref(), Some("sel1"));
    assert_eq!(status.comment, None);
}

#[test]
fn dkim_status_first_fail_decides() {
    let outs = vec![
        outcome(DkimVerdict::TempError, None, None),
        outcome(DkimVerdict::Fail("body hash did not verify".to_string()), Some("spoofed.com"), None),
        outcome(DkimVerdict::Pass, Some("example.com"), Some("sel1")),
    ];
    let status = dkim_status(&outs);
    assert_eq!(status.result, "fail");
    assert_eq!(status.domain.as_deref(), Some("spoofed.com"));
    assert_eq!(status.selector, None);
    assert_eq!(status.comment.as_deref(), Some("body hash did not verify"));
}

#[test]
fn dkim_status_no_decisive_signature() {
    let outs = vec![
        outcome(DkimVerdict::Neutral, Some("a.org"), Some("s")),
        outcome(DkimVerdict::PermError, None, None),
        outcome(DkimVerdict::TempError, Some("b.org"), Some("t")),
        outcome(DkimVerdict::NotEvaluated, None, None),
    ];
    let status = dkim_status(&outs);
    assert_eq!(status.result, "none");
    assert_eq!(status.domain, None);
    assert_eq!(status.comment.as_deref(), Some("no valid signature found"));
}

#[test]
fn parse_message_accepts_a_message() {
    let raw = b"From: jdoe@example.org\r\nSubject: Hi\r\n\r\nHello\r\n";
    match parse_message(raw) {
        Ok(message) => assert_eq!(message.raw_message, &raw[..]),
        Err(_) => panic!("a message with headers parses"),
    }
}

#[test]
fn parse_message_reports_parse_failure() {
    match parse_message(b"") {
        Ok(_) => panic!("an empty message has no header"),
        Err(status) => {
            assert_eq!(status.result, "none");
            assert_eq!(status.domain, None);
            assert_eq!(status.comment.as_deref(), Some("message parse failure"));
        }
    }
}

#[test]
fn spf_result_tokens() {
    assert_eq!(spf_result_text(SpfVerdict::Pass), "pass");
    assert_eq!(spf_result_text(SpfVerdict::Fail), "fail");
    assert_eq!(spf_result_text(SpfVerdict::SoftFail), "softfail");
    assert_eq!(spf_result_text(SpfVerdict::Neutral), "neutral");
    assert_eq!(spf_result_text(SpfVerdict::TempError), "temperror");
    assert_eq!(spf_result_text(SpfVerdict::PermError), "permerror");
    assert_eq!(spf_result_text(SpfVerdict::NoRecord), "none");
}

#[test]
fn spf_query_defaults() {
    let q = spf_query(None, None);
    assert_eq!(q.helo, "unknown");
    assert_eq!(q.sender, "postmaster@unknown");
    let q = spf_query(None, Some("mx.example.org"));
    assert_eq!(q.helo, "mx.example.org");
    assert_eq!(q.sender, "postmaster@mx.example.org");
    let q = spf_query(Some("user@example.com"), Some("mx.example.org"));
    assert_eq!(q.sender, "user@example.com");
}

#[test]
fn spf_status_without_client_address() {
    let s = spf_status(Some("user@example.com"), None, None);
    assert_eq!(s.result, "none");
    assert_eq!(s.smtp_mailfrom.as_deref(), Some("user@example.com"));
    assert_eq!(s.smtp_helo, None);
}

#[test]
fn spf_status_after_check() {
    let s = spf_status(None, None, Some(SpfVerdict::SoftFail));
    assert_eq!(s.result, "softfail");
    assert_eq!(s.smtp_mailfrom, None);
    assert_eq!(s.smtp_helo.as_deref(), Some("unknown"));
    let s = spf_status(Some("a@b.org"), Some("mx.b.org"), Some(SpfVerdict::Pass));
    assert_eq!(s.result, "pass");
    assert_eq!(s.smtp_mailfrom.as_deref(), Some("a@b.org"));
    assert_eq!(s.smtp_helo.as_deref(), Some("mx.b.org"));
}

#[test]
fn alignment_ignores_case() {
    let dkim = dkim_with_domain(Some("Mail.EXAMPLE.com"));
    assert!(check_dkim_alignment(&dkim, Some("User@Example.COM")));
}

#[test]
fn alignment_uses_last_at_sign() {
    let dkim = dkim_with_domain(Some("example.com"));
    assert!(check_dkim_alignment(&dkim, Some("\"odd@other.org\"@example.com")));
    assert!(!check_dkim_alignment(&dkim, Some("user@other.org")));
}

#[test]
fn alignment_needs_sender_and_domain() {
    let dkim = dkim_with_domain(Some("example.com"));
    assert!(!check_dkim_alignment(&dkim, None));
    assert!(!check_dkim_alignment(&dkim, Some("no-at-sign.example.com")));
    let unsigned = dkim_with_domain(None);
    assert!(!check_dkim_alignment(&unsigned, Some("user@example.com")));
}

#[test]
fn verification_result_computes_alignment() {
    let dkim = dkim_with_domain(Some("example.com"));
    let spf = spf_status(Some("user@mail.example.com"), None, Some(SpfVerdict::Pass));
    let r = verification_result(dkim, spf, Some("user@mail.example.com"));
    assert!(r.alignment_pass);
    assert_eq!(r.dkim.result, "pass");
    assert_eq!(r.spf.result, "pass");
    let r = verification_result(dkim_with_domain(Some("evil.org")), spf_status(None, None, None), Some("user@example.com"));
    assert!(!r.alignment_pass);
}

#[test]
fn organizational_domain_edge_cases() {
    assert_eq!(organizational_domain("com"), "com");
    assert_eq!(organizational_domain(""), "");
    assert_eq!(organizational_domain(".com"), ".com");
    assert_eq!(organizational_domain("a..com"), ".com");
    assert_eq!(organizational_domain("x.y.z.example.co.uk"), "co.uk");
}

#[test]
fn organizational_domain_is_idempotent() {
    for d in ["a.b.example.com", "example.com", "com", "a..b", ".x.y"] {
        let once = organizational_domain(d);
        assert_eq!(organizational_domain(once), once);
        assert!(d.ends_with(once));
    }
}

#[test]
fn subdomains_align_with_their_parent() {
    assert!(domains_align("deep.sub.example.com", "example.com"));
    assert!(domains_align("example.com", "deep.sub.example.com"));
    assert!(!domains_align("a.com", "com"));
    assert!(domains_align("x.example.co.uk", "y.example.co.uk"));
}
