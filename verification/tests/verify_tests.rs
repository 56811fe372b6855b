use filter_skimverify::domain::{domains_align, organizational_domain};
use filter_skimverify::verify::{format_auth_results, DkimStatus, SpfStatus, VerificationResult};

#[test]
fn test_domains_align_exact() {
    assert!(domains_align("example.com", "example.com"));
}

#[test]
fn test_domains_align_subdomain() {
    assert!(domains_align("mail.example.com", "example.com"));
    assert!(domains_align("example.com", "sub.example.com"));
}

#[test]
fn test_domains_no_align() {
    assert!(!domains_align("example.com", "other.com"));
    assert!(!domains_align("evil-example.com", "example.com"));
}

#[test]
fn test_organizational_domain() {
    assert_eq!(organizational_domain("example.com"), "example.com");
    assert_eq!(organizational_domain("mail.example.com"), "example.com");
    assert_eq!(organizational_domain("a.b.example.com"), "example.com");
}

#[test]
fn test_format_auth_results_pass() {
    let result = VerificationResult {
        dkim: DkimStatus {
            result: "pass",
            domain: Some("example.com".to_string()),
            selector: Some("sel1".to_string()),
            comment: None,
        },
        spf: SpfStatus {
            result: "pass",
            smtp_mailfrom: Some("user@example.com".to_string()),
            smtp_helo: Some("mail.example.com".to_string()),
        },
        alignment_pass: true,
    };
    let header = format_auth_results("mx.example.com", &result);
    assert_eq!(
        header,
        "Authentication-Results: mx.example.com; dkim=pass header.d=example.com header.s=sel1; spf=pass smtp.mailfrom=user@example.com"
    );
}

#[test]
fn test_format_auth_results_fail() {
    let result = VerificationResult {
        dkim: DkimStatus {
            result: "fail",
            domain: Some("spoofed.com".to_string()),
            selector: None,
            comment: Some("body hash did not verify".to_string()),
        },
        spf: SpfStatus {
            result: "none",
            smtp_mailfrom: None,
            smtp_helo: Some("unknown".to_string()),
        },
        alignment_pass: false,
    };
    let header = format_auth_results("mx.example.com", &result);
    assert_eq!(
        header,
        "Authentication-Results: mx.example.com; dkim=fail (body hash did not verify) header.d=spoofed.com; spf=none smtp.helo=unknown"
    );
}
