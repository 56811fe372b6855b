//! The verification outcome of a message and the `Authentication-Results`
//! header that reports it.

use mail_auth::AuthenticatedMessage;
use vstd::prelude::*;

use crate::domain::{domains_align, domains_align_spec};
use crate::text::{
    last_index_of, lowercase, opt_str_view, opt_string_view, rfind_char, to_lowercase,
    to_owned_string,
};

verus! {

/// Outcome of DKIM verification as reported in the header.
#[derive(Debug, Clone)]
pub struct DkimStatus {
    pub result: &'static str,
    pub domain: Option<String>,
    pub selector: Option<String>,
    pub comment: Option<String>,
}

/// Outcome of the SPF check as reported in the header.
#[derive(Debug, Clone)]
pub struct SpfStatus {
    pub result: &'static str,
    pub smtp_mailfrom: Option<String>,
    pub smtp_helo: Option<String>,
}

/// Everything the filter learned about one message.
#[derive(Debug, Clone)]
pub struct VerificationResult {
    pub dkim: DkimStatus,
    pub spf: SpfStatus,
    pub alignment_pass: bool,
}

/// The abstract value of a [`DkimStatus`].
pub struct DkimStatusView {
    pub result: Seq<char>,
    pub domain: Option<Seq<char>>,
    pub selector: Option<Seq<char>>,
    pub comment: Option<Seq<char>>,
}

/// The abstract value of an [`SpfStatus`].
pub struct SpfStatusView {
    pub result: Seq<char>,
    pub smtp_mailfrom: Option<Seq<char>>,
    pub smtp_helo: Option<Seq<char>>,
}

impl View for DkimStatus {
    type V = DkimStatusView;

    open spec fn view(&self) -> DkimStatusView {
        DkimStatusView {
            result: self.result@,
            domain: opt_string_view(self.domain),
            selector: opt_string_view(self.selector),
            comment: opt_string_view(self.comment),
        }
    }
}

impl View for SpfStatus {
    type V = SpfStatusView;

    open spec fn view(&self) -> SpfStatusView {
        SpfStatusView {
            result: self.result@,
            smtp_mailfrom: opt_string_view(self.smtp_mailfrom),
            smtp_helo: opt_string_view(self.smtp_helo),
        }
    }
}

/// `text` behind `prefix` when present, nothing otherwise.
pub open spec fn tagged(prefix: Seq<char>, text: Option<Seq<char>>) -> Seq<char> {
    match text {
        Some(t) => prefix + t,
        None => Seq::empty(),
    }
}

/// The `dkim=` method clause: result, comment, signing domain, selector.
pub open spec fn dkim_clause(d: DkimStatusView) -> Seq<char> {
    "dkim="@ + d.result + match d.comment {
        Some(c) => " ("@ + c + ")"@,
        None => Seq::empty(),
    } + tagged(" header.d="@, d.domain) + tagged(" header.s="@, d.selector)
}

/// The `spf=` method clause: result, then the MAIL FROM identity, or the
/// HELO identity when there is no MAIL FROM.
pub open spec fn spf_clause(s: SpfStatusView) -> Seq<char> {
    "spf="@ + s.result + match s.smtp_mailfrom {
        Some(m) => " smtp.mailfrom="@ + m,
        None => tagged(" smtp.helo="@, s.smtp_helo),
    }
}

/// The whole header line.
pub open spec fn auth_results_header(
    hostname: Seq<char>,
    dkim: DkimStatusView,
    spf: SpfStatusView,
) -> Seq<char> {
    "Authentication-Results: "@ + hostname + "; "@ + dkim_clause(dkim) + "; "@ + spf_clause(spf)
}

/// Appends `prefix` and `text` when `text` is present.
fn append_tagged(out: &mut String, prefix: &str, text: &Option<String>)
    ensures
        final(out)@ == old(out)@ + tagged(prefix@, opt_string_view(*text)),
{
    match text {
        Some(t) => {
            out.append(prefix);
            out.append(t.as_str());
        },
        None => {
            assert(old(out)@ + Seq::<char>::empty() =~= old(out)@);
        },
    }
}

/// The `Authentication-Results` header line (RFC 7601) for `result`, as
/// written by `hostname`.
pub fn format_auth_results(hostname: &str, result: &VerificationResult) -> (header: String)
    ensures
        header@ == auth_results_header(hostname@, result.dkim@, result.spf@),
{
    let mut out = String::from_str("Authentication-Results: ");
    out.append(hostname);
    out.append("; ");
    let ghost start = out@;

    out.append("dkim=");
    out.append(result.dkim.result);
    match &result.dkim.comment {
        Some(comment) => {
            out.append(" (");
            out.append(comment.as_str());
            out.append(")");
        },
        None => {},
    }
    append_tagged(&mut out, " header.d=", &result.dkim.domain);
    append_tagged(&mut out, " header.s=", &result.dkim.selector);
    assert(out@ =~= start + dkim_clause(result.dkim@));
    let ghost after_dkim = out@;

    out.append("; ");
    out.append("spf=");
    out.append(result.spf.result);
    match &result.spf.smtp_mailfrom {
        Some(mailfrom) => {
            out.append(" smtp.mailfrom=");
            out.append(mailfrom.as_str());
        },
        None => {
            append_tagged(&mut out, " smtp.helo=", &result.spf.smtp_helo);
        },
    }
    assert(out@ =~= after_dkim + "; "@ + spf_clause(result.spf@));
    out
}

/// The domain after the last `@` of an address.
pub open spec fn address_domain(addr: Seq<char>) -> Option<Seq<char>> {
    match last_index_of(addr, '@') {
        Some(at) => Some(addr.skip(at + 1)),
        None => None,
    }
}

/// Relaxed DKIM alignment: the DKIM signing domain and the domain of the
/// envelope sender, both lower-cased, align.
pub open spec fn dkim_aligned(dkim_domain: Option<Seq<char>>, mail_from: Option<Seq<char>>) -> bool {
    match (mail_from, dkim_domain) {
        (Some(addr), Some(d)) => match address_domain(addr) {
            Some(from_domain) => domains_align_spec(lowercase(from_domain), lowercase(d)),
            None => false,
        },
        _ => false,
    }
}

/// Whether the DKIM signing domain aligns with the envelope sender's domain.
pub fn check_dkim_alignment(dkim_result: &DkimStatus, mail_from: Option<&str>) -> (aligned: bool)
    ensures
        aligned == dkim_aligned(opt_string_view(dkim_result.domain), opt_str_view(mail_from)),
{
    let mail_from_domain = match mail_from {
        Some(addr) => match rfind_char(addr, '@') {
            Some(at_pos) => {
                proof {
                    crate::text::lemma_last_index_of(addr@, '@');
                }
                let n = crate::text::chars_of(addr).len();
                to_lowercase(addr.substring_char(at_pos + 1, n))
            },
            None => return false,
        },
        None => return false,
    };
    let dkim_domain = match &dkim_result.domain {
        Some(d) => to_lowercase(d.as_str()),
        None => return false,
    };
    domains_align(mail_from_domain.as_str(), dkim_domain.as_str())
}

/// The verdict on one DKIM signature, named as in RFC 8601.
#[derive(Debug, Clone)]
pub enum DkimVerdict {
    Pass,
    Neutral,
    /// The signature is invalid; the text says why.
    Fail(String),
    PermError,
    TempError,
    /// Nothing was evaluated.
    NotEvaluated,
}

/// One checked DKIM signature: the verdict, and the `d=` and `s=` tags of
/// the signature when it could be parsed.
#[derive(Debug, Clone)]
pub struct DkimOutcome {
    pub verdict: DkimVerdict,
    pub domain: Option<String>,
    pub selector: Option<String>,
}

/// A DKIM status with result `none` and the given comment.
pub open spec fn dkim_none(comment: Seq<char>) -> DkimStatusView {
    DkimStatusView { result: "none"@, domain: None, selector: None, comment: Some(comment) }
}

/// The first `pass` or `fail` among the outcomes decides the status; when
/// there is none, the result is `none`.
pub open spec fn dkim_first_decisive(outs: Seq<DkimOutcome>) -> DkimStatusView
    decreases outs.len(),
{
    if outs.len() == 0 {
        dkim_none("no valid signature found"@)
    } else {
        let o = outs[0];
        match o.verdict {
            DkimVerdict::Pass => DkimStatusView {
                result: "pass"@,
                domain: opt_string_view(o.domain),
                selector: opt_string_view(o.selector),
                comment: None,
            },
            DkimVerdict::Fail(e) => DkimStatusView {
                result: "fail"@,
                domain: opt_string_view(o.domain),
                selector: opt_string_view(o.selector),
                comment: Some(e@),
            },
            _ => dkim_first_decisive(outs.drop_first()),
        }
    }
}

/// The DKIM status of a parsed message whose signatures gave `outs`.
pub open spec fn dkim_status_of(outs: Seq<DkimOutcome>) -> DkimStatusView {
    if outs.len() == 0 {
        dkim_none("no signature"@)
    } else {
        dkim_first_decisive(outs)
    }
}

/// A message parsed for authentication checks.
#[verifier::external_type_specification]
#[verifier::external_body]
pub struct ExAuthenticatedMessage<'x>(AuthenticatedMessage<'x>);

/// Whether `AuthenticatedMessage::parse` accepts these bytes, that is,
/// finds at least one header in them.
pub uninterp spec fn message_parses(raw: Seq<u8>) -> bool;

/// The raw bytes a parsed message was parsed from, which
/// `AuthenticatedMessage::parse` keeps in the message.
pub uninterp spec fn message_raw(message: AuthenticatedMessage<'_>) -> Seq<u8>;

/// `mail_auth::AuthenticatedMessage::parse`: parses a raw RFC 5322 message
/// in strict mode. The contract says whether a message comes back and that
/// it holds the bytes it was parsed from; what else the parsed message holds
/// (headers, signatures, body offset) is not stated here.
#[verifier::external_body]
fn parse_authenticated<'x>(raw_message: &'x [u8]) -> (parsed: Option<AuthenticatedMessage<'x>>)
    ensures
        parsed is Some <==> message_parses(raw_message@),
        parsed matches Some(m) ==> message_raw(m) == raw_message@,
{
    AuthenticatedMessage::parse(raw_message)
}

/// Parses a message for DKIM verification. A message that cannot be parsed
/// is given its DKIM status at once: `none`, "message parse failure".
pub fn parse_message<'x>(raw_message: &'x [u8]) -> (parsed: Result<
    AuthenticatedMessage<'x>,
    DkimStatus,
>)
    ensures
        parsed is Ok <==> message_parses(raw_message@),
        parsed matches Ok(m) ==> message_raw(m) == raw_message@,
        parsed matches Err(status) ==> status@ == dkim_unparsable(),
{
    match parse_authenticated(raw_message) {
        Some(message) => Ok(message),
        None => Err(dkim_none_status("message parse failure")),
    }
}

/// The DKIM status of a message that could not be parsed.
pub open spec fn dkim_unparsable() -> DkimStatusView {
    dkim_none("message parse failure"@)
}

fn clone_opt_string(o: &Option<String>) -> (r: Option<String>)
    ensures
        opt_string_view(r) == opt_string_view(*o),
{
    match o {
        Some(s) => Some(s.clone()),
        None => None,
    }
}

fn dkim_none_status(comment: &str) -> (s: DkimStatus)
    ensures
        s@ == dkim_none(comment@),
{
    DkimStatus {
        result: "none",
        domain: None,
        selector: None,
        comment: Some(to_owned_string(comment)),
    }
}

/// The DKIM status reported for a parsed message, from the outcomes of its
/// signatures in the order they were checked.
pub fn dkim_status(outputs: &Vec<DkimOutcome>) -> (status: DkimStatus)
    ensures
        status@ == dkim_status_of(outputs@),
{
    if outputs.len() == 0 {
        return dkim_none_status("no signature");
    }
    let mut i: usize = 0;
    assert(outputs@.skip(0) =~= outputs@);
    while i < outputs.len()
        invariant
            0 <= i <= outputs@.len(),
            dkim_first_decisive(outputs@) == dkim_first_decisive(outputs@.skip(i as int)),
        decreases outputs@.len() - i,
    {
        let output = &outputs[i];
        assert(outputs@.skip(i as int)[0] == outputs@[i as int]);
        assert(outputs@.skip(i as int).drop_first() =~= outputs@.skip(i + 1));
        match &output.verdict {
            DkimVerdict::Pass => {
                return DkimStatus {
                    result: "pass",
                    domain: clone_opt_string(&output.domain),
                    selector: clone_opt_string(&output.selector),
                    comment: None,
                };
            },
            DkimVerdict::Fail(err) => {
                return DkimStatus {
                    result: "fail",
                    domain: clone_opt_string(&output.domain),
                    selector: clone_opt_string(&output.selector),
                    comment: Some(err.clone()),
                };
            },
            _ => {},
        }
        i = i + 1;
    }
    assert(outputs@.skip(i as int).len() == 0);
    dkim_none_status("no valid signature found")
}

/// The result of an SPF check, named as in RFC 7208.
#[derive(Debug, Clone, Copy)]
pub enum SpfVerdict {
    Pass,
    Fail,
    SoftFail,
    Neutral,
    TempError,
    PermError,
    /// No SPF record, or no valid domain to check.
    NoRecord,
}

/// The RFC 7208 token of a verdict.
pub open spec fn spf_result_name(v: SpfVerdict) -> Seq<char> {
    match v {
        SpfVerdict::Pass => "pass"@,
        SpfVerdict::Fail => "fail"@,
        SpfVerdict::SoftFail => "softfail"@,
        SpfVerdict::Neutral => "neutral"@,
        SpfVerdict::TempError => "temperror"@,
        SpfVerdict::PermError => "permerror"@,
        SpfVerdict::NoRecord => "none"@,
    }
}

/// The RFC 7208 token of a verdict.
pub fn spf_result_text(verdict: SpfVerdict) -> (text: &'static str)
    ensures
        text@ == spf_result_name(verdict),
{
    match verdict {
        SpfVerdict::Pass => "pass",
        SpfVerdict::Fail => "fail",
        SpfVerdict::SoftFail => "softfail",
        SpfVerdict::Neutral => "neutral",
        SpfVerdict::TempError => "temperror",
        SpfVerdict::PermError => "permerror",
        SpfVerdict::NoRecord => "none",
    }
}

/// The HELO identity checked: the announced one, or `unknown`.
pub open spec fn spf_helo(helo_domain: Option<Seq<char>>) -> Seq<char> {
    match helo_domain {
        Some(h) => h,
        None => "unknown"@,
    }
}

/// The sender checked: the envelope sender, or `postmaster@` the HELO
/// identity when there is none.
pub open spec fn spf_sender(mail_from: Option<Seq<char>>, helo_domain: Option<Seq<char>>) -> Seq<char> {
    match mail_from {
        Some(m) => m,
        None => "postmaster@"@ + spf_helo(helo_domain),
    }
}

/// The identities an SPF check is run on.
#[derive(Debug, Clone)]
pub struct SpfQuery {
    pub helo: String,
    pub sender: String,
}

/// The HELO identity and sender to check SPF for.
pub fn spf_query(mail_from: Option<&str>, helo_domain: Option<&str>) -> (query: SpfQuery)
    ensures
        query.helo@ == spf_helo(opt_str_view(helo_domain)),
        query.sender@ == spf_sender(opt_str_view(mail_from), opt_str_view(helo_domain)),
{
    let helo = match helo_domain {
        Some(h) => to_owned_string(h),
        None => to_owned_string("unknown"),
    };
    let sender = match mail_from {
        Some(m) => to_owned_string(m),
        None => {
            let mut s = String::from_str("postmaster@");
            s.append(helo.as_str());
            s
        },
    };
    SpfQuery { helo, sender }
}

/// The SPF status reported: `verdict` is the outcome of the check, or
/// `None` when the client address was unknown and no check ran.
pub open spec fn spf_status_of(
    mail_from: Option<Seq<char>>,
    helo_domain: Option<Seq<char>>,
    verdict: Option<SpfVerdict>,
) -> SpfStatusView {
    match verdict {
        None => SpfStatusView { result: "none"@, smtp_mailfrom: mail_from, smtp_helo: helo_domain },
        Some(v) => SpfStatusView {
            result: spf_result_name(v),
            smtp_mailfrom: mail_from,
            smtp_helo: Some(spf_helo(helo_domain)),
        },
    }
}

fn opt_to_string(o: Option<&str>) -> (r: Option<String>)
    ensures
        opt_string_view(r) == opt_str_view(o),
{
    match o {
        Some(s) => Some(to_owned_string(s)),
        None => None,
    }
}

/// The SPF status for a message, given the outcome of the check (`None`
/// when no client address was available to check).
pub fn spf_status(
    mail_from: Option<&str>,
    helo_domain: Option<&str>,
    verdict: Option<SpfVerdict>,
) -> (status: SpfStatus)
    ensures
        status@ == spf_status_of(opt_str_view(mail_from), opt_str_view(helo_domain), verdict),
{
    match verdict {
        None => SpfStatus {
            result: "none",
            smtp_mailfrom: opt_to_string(mail_from),
            smtp_helo: opt_to_string(helo_domain),
        },
        Some(v) => {
            let query = spf_query(mail_from, helo_domain);
            SpfStatus {
                result: spf_result_text(v),
                smtp_mailfrom: opt_to_string(mail_from),
                smtp_helo: Some(query.helo),
            }
        },
    }
}

/// Puts the DKIM and SPF statuses together and checks alignment against the
/// envelope sender.
pub fn verification_result(dkim: DkimStatus, spf: SpfStatus, mail_from: Option<&str>) -> (result:
    VerificationResult)
    ensures
        result.dkim == dkim,
        result.spf == spf,
        result.alignment_pass == dkim_aligned(opt_string_view(dkim.domain), opt_str_view(mail_from)),
{
    let alignment_pass = check_dkim_alignment(&dkim, mail_from);
    VerificationResult { dkim, spf, alignment_pass }
}

/// DKIM is reported as passed only when one of the message's signatures
/// passed.
pub proof fn lemma_dkim_pass_needs_passing_signature(outs: Seq<DkimOutcome>)
    ensures
        dkim_status_of(outs).result == "pass"@ ==> exists|i: int|
            0 <= i < outs.len() && (#[trigger] outs[i]).verdict is Pass,
{
    reveal_strlit("pass");
    reveal_strlit("none");
    lemma_first_decisive_pass(outs);
}

proof fn lemma_first_decisive_pass(outs: Seq<DkimOutcome>)
    ensures
        dkim_first_decisive(outs).result == "pass"@ ==> exists|i: int|
            0 <= i < outs.len() && (#[trigger] outs[i]).verdict is Pass,
    decreases outs.len(),
{
    reveal_strlit("pass");
    reveal_strlit("none");
    reveal_strlit("fail");
    assert("pass"@[0] == 'p');
    if outs.len() > 0 {
        match outs[0].verdict {
            DkimVerdict::Pass => {},
            DkimVerdict::Fail(_) => {
                assert("fail"@[0] == 'f');
            },
            _ => {
                let t = outs.drop_first();
                lemma_first_decisive_pass(t);
                if dkim_first_decisive(outs).result == "pass"@ {
                    let i = choose|i: int| 0 <= i < t.len() && (#[trigger] t[i]).verdict is Pass;
                    assert(outs[i + 1] == t[i]);
                }
            },
        }
    } else {
        assert("none"@[0] == 'n');
    }
}

/// SPF is reported as passed exactly when the check ran and passed.
pub proof fn lemma_spf_pass_exactly_when_checked_pass(
    mail_from: Option<Seq<char>>,
    helo_domain: Option<Seq<char>>,
    verdict: Option<SpfVerdict>,
)
    ensures
        (spf_status_of(mail_from, helo_domain, verdict).result == "pass"@) == (verdict
            == Some(SpfVerdict::Pass)),
{
    reveal_strlit("pass");
    reveal_strlit("fail");
    reveal_strlit("softfail");
    reveal_strlit("neutral");
    reveal_strlit("temperror");
    reveal_strlit("permerror");
    reveal_strlit("none");
    assert("pass"@[0] == 'p');
    assert("permerror"@.len() != "pass"@.len());
}

/// The SPF result reported is the RFC 7208 token of the verdict when the
/// check ran (`pass`, `fail`, `softfail`, `neutral`, `temperror`,
/// `permerror`, `none`) and `none` when it did not; the MAIL FROM identity is
/// reported as given, and the HELO identity as checked (`unknown` when none
/// was announced) or as given when no check ran.
pub proof fn lemma_spf_reported_result(
    mail_from: Option<Seq<char>>,
    helo_domain: Option<Seq<char>>,
    verdict: Option<SpfVerdict>,
)
    ensures
        spf_status_of(mail_from, helo_domain, verdict).result == match verdict {
            None => "none"@,
            Some(SpfVerdict::Pass) => "pass"@,
            Some(SpfVerdict::Fail) => "fail"@,
            Some(SpfVerdict::SoftFail) => "softfail"@,
            Some(SpfVerdict::Neutral) => "neutral"@,
            Some(SpfVerdict::TempError) => "temperror"@,
            Some(SpfVerdict::PermError) => "permerror"@,
            Some(SpfVerdict::NoRecord) => "none"@,
        },
        spf_status_of(mail_from, helo_domain, verdict).smtp_mailfrom == mail_from,
        verdict is None ==> spf_status_of(mail_from, helo_domain, verdict).smtp_helo
            == helo_domain,
        verdict is Some && helo_domain is Some ==> spf_status_of(
            mail_from,
            helo_domain,
            verdict,
        ).smtp_helo == helo_domain,
        verdict is Some && helo_domain is None ==> spf_status_of(
            mail_from,
            helo_domain,
            verdict,
        ).smtp_helo == Some("unknown"@),
{
}

/// The sender checked is the envelope sender when there is one, and
/// otherwise `postmaster@` followed by the HELO identity (`unknown` when
/// none was announced).
pub proof fn lemma_spf_identities(mail_from: Option<Seq<char>>, helo_domain: Option<Seq<char>>)
    ensures
        mail_from matches Some(m) ==> spf_sender(mail_from, helo_domain) == m,
        mail_from is None && helo_domain is Some ==> spf_sender(mail_from, helo_domain)
            == "postmaster@"@ + helo_domain->0,
        mail_from is None && helo_domain is None ==> spf_sender(mail_from, helo_domain)
            == "postmaster@"@ + "unknown"@,
        helo_domain matches Some(h) ==> spf_helo(helo_domain) == h,
        helo_domain is None ==> spf_helo(helo_domain) == "unknown"@,
{
}

/// Whether an outcome decides the DKIM status (it passed or failed).
pub open spec fn decides_dkim(o: DkimOutcome) -> bool {
    o.verdict is Pass || o.verdict is Fail
}

/// The first outcome that passed or failed decides the DKIM status, and its
/// signature's `d=` and `s=` tags are reported as they are, for a failure as
/// well as a pass; a failure carries its reason as the comment.
pub proof fn lemma_dkim_first_decisive_reported(outs: Seq<DkimOutcome>, k: int)
    requires
        0 <= k < outs.len(),
        decides_dkim(outs[k]),
        forall|j: int| 0 <= j < k ==> !decides_dkim(#[trigger] outs[j]),
    ensures
        dkim_status_of(outs).domain == opt_string_view(outs[k].domain),
        dkim_status_of(outs).selector == opt_string_view(outs[k].selector),
        outs[k].verdict is Pass ==> dkim_status_of(outs).result == "pass"@ && dkim_status_of(
            outs,
        ).comment is None,
        outs[k].verdict matches DkimVerdict::Fail(e) ==> dkim_status_of(outs).result == "fail"@
            && dkim_status_of(outs).comment == Some(e@),
    decreases k,
{
    lemma_dkim_first_decisive_at(outs, k);
}

proof fn lemma_dkim_first_decisive_at(outs: Seq<DkimOutcome>, k: int)
    requires
        0 <= k < outs.len(),
        decides_dkim(outs[k]),
        forall|j: int| 0 <= j < k ==> !decides_dkim(#[trigger] outs[j]),
    ensures
        dkim_first_decisive(outs) == dkim_first_decisive(outs.skip(k)),
    decreases k,
{
    if k == 0 {
        assert(outs.skip(0) =~= outs);
    } else {
        let t = outs.drop_first();
        assert(!decides_dkim(outs[0]));
        assert forall|j: int| 0 <= j < k - 1 implies !decides_dkim(#[trigger] t[j]) by {
            assert(t[j] == outs[j + 1]);
        }
        assert(t[k - 1] == outs[k]);
        lemma_dkim_first_decisive_at(t, k - 1);
        assert(t.skip(k - 1) =~= outs.skip(k));
    }
}

/// With no signature the DKIM result is `none` ("no signature"); when no
/// signature passed or failed it is `none` ("no valid signature found");
/// either way no signing domain or selector is reported.
pub proof fn lemma_dkim_none_reported(outs: Seq<DkimOutcome>)
    requires
        forall|j: int| 0 <= j < outs.len() ==> !decides_dkim(#[trigger] outs[j]),
    ensures
        dkim_status_of(outs).result == "none"@,
        dkim_status_of(outs).domain is None,
        dkim_status_of(outs).selector is None,
        outs.len() == 0 ==> dkim_status_of(outs).comment == Some("no signature"@),
        outs.len() > 0 ==> dkim_status_of(outs).comment == Some("no valid signature found"@),
{
    lemma_dkim_no_decisive(outs);
}

proof fn lemma_dkim_no_decisive(outs: Seq<DkimOutcome>)
    requires
        forall|j: int| 0 <= j < outs.len() ==> !decides_dkim(#[trigger] outs[j]),
    ensures
        dkim_first_decisive(outs) == dkim_none("no valid signature found"@),
    decreases outs.len(),
{
    if outs.len() > 0 {
        let t = outs.drop_first();
        assert(!decides_dkim(outs[0]));
        assert forall|j: int| 0 <= j < t.len() implies !decides_dkim(#[trigger] t[j]) by {
            assert(t[j] == outs[j + 1]);
        }
        lemma_dkim_no_decisive(t);
    }
}

/// The sender's domain is what follows the last `@` of the address: the
/// address is some local part, `@`, then the domain, and the domain holds no
/// `@`. An address without `@` has no domain.
pub proof fn lemma_address_domain(addr: Seq<char>)
    ensures
        address_domain(addr) matches Some(d) ==> addr.len() >= d.len() + 1 && addr.skip(
            addr.len() - d.len(),
        ) == d && addr[addr.len() - d.len() - 1] == '@' && !d.contains('@'),
        address_domain(addr) is None ==> !addr.contains('@'),
{
    crate::text::lemma_last_index_of(addr, '@');
    match last_index_of(addr, '@') {
        Some(at) => {
            let d = addr.skip(at + 1);
            assert(addr.skip(addr.len() - d.len()) =~= d);
            if d.contains('@') {
                let j = choose|j: int| 0 <= j < d.len() && d[j] == '@';
                assert(addr[at + 1 + j] == '@');
            }
        },
        None => {
            if addr.contains('@') {
                let j = choose|j: int| 0 <= j < addr.len() && addr[j] == '@';
            }
        },
    }
}

/// The header names the reporting host first, then the DKIM clause, then
/// the SPF clause; the SPF clause names the MAIL FROM identity when there is
/// one and the HELO identity only otherwise.
pub proof fn lemma_header_layout(hostname: Seq<char>, dkim: DkimStatusView, spf: SpfStatusView)
    ensures
        auth_results_header(hostname, dkim, spf).take(
            ("Authentication-Results: "@ + hostname + "; dkim="@ + dkim.result).len() as int,
        ) == "Authentication-Results: "@ + hostname + "; dkim="@ + dkim.result,
        spf.smtp_mailfrom matches Some(m) ==> auth_results_header(hostname, dkim, spf).skip(
            auth_results_header(hostname, dkim, spf).len() - (" smtp.mailfrom="@ + m).len(),
        ) == " smtp.mailfrom="@ + m,
        spf.smtp_mailfrom is None ==> (spf.smtp_helo matches Some(h) ==> auth_results_header(
            hostname,
            dkim,
            spf,
        ).skip(auth_results_header(hostname, dkim, spf).len() - (" smtp.helo="@ + h).len())
            == " smtp.helo="@ + h),
        spf.smtp_mailfrom is None && spf.smtp_helo is None ==> auth_results_header(
            hostname,
            dkim,
            spf,
        ).skip(auth_results_header(hostname, dkim, spf).len() - ("spf="@ + spf.result).len())
            == "spf="@ + spf.result,
{
    reveal_strlit("Authentication-Results: ");
    reveal_strlit("; ");
    reveal_strlit("dkim=");
    reveal_strlit("; dkim=");
    let header = auth_results_header(hostname, dkim, spf);
    let lead = "Authentication-Results: "@ + hostname + "; dkim="@ + dkim.result;
    let rest = match dkim.comment {
        Some(c) => " ("@ + c + ")"@,
        None => Seq::empty(),
    } + tagged(" header.d="@, dkim.domain) + tagged(" header.s="@, dkim.selector) + "; "@
        + spf_clause(spf);
    assert("; dkim="@ =~= "; "@ + "dkim="@);
    assert(header =~= lead + rest);
    assert(header.take(lead.len() as int) =~= lead);
    let front = "Authentication-Results: "@ + hostname + "; "@ + dkim_clause(dkim) + "; "@;
    match spf.smtp_mailfrom {
        Some(m) => {
            assert(header =~= front + "spf="@ + spf.result + " smtp.mailfrom="@ + m);
            assert(header.skip(header.len() - (" smtp.mailfrom="@ + m).len()) =~= " smtp.mailfrom="@
                + m);
        },
        None => match spf.smtp_helo {
            Some(h) => {
                assert(header =~= front + "spf="@ + spf.result + " smtp.helo="@ + h);
                assert(header.skip(header.len() - (" smtp.helo="@ + h).len()) =~= " smtp.helo="@
                    + h);
            },
            None => {
                assert(header =~= front + ("spf="@ + spf.result));
                assert(header.skip(header.len() - ("spf="@ + spf.result).len()) =~= "spf="@
                    + spf.result);
            },
        },
    }
}

/// The header, written out: the reporting host; `dkim=` with the result,
/// the failure reason in parentheses when there is one, ` header.d=` with the
/// signing domain and ` header.s=` with the selector when known; then
/// `spf=` with the result and ` smtp.mailfrom=` with the envelope sender, or,
/// without one, ` smtp.helo=` with the HELO identity when known.
pub proof fn lemma_header_text(hostname: Seq<char>, dkim: DkimStatusView, spf: SpfStatusView)
    ensures
        auth_results_header(hostname, dkim, spf) == "Authentication-Results: "@ + hostname
            + "; "@ + ("dkim="@ + dkim.result + (if dkim.comment is Some {
            " ("@ + dkim.comment->0 + ")"@
        } else {
            Seq::empty()
        }) + (if dkim.domain is Some {
            " header.d="@ + dkim.domain->0
        } else {
            Seq::empty()
        }) + (if dkim.selector is Some {
            " header.s="@ + dkim.selector->0
        } else {
            Seq::empty()
        })) + "; "@ + ("spf="@ + spf.result + (if spf.smtp_mailfrom is Some {
            " smtp.mailfrom="@ + spf.smtp_mailfrom->0
        } else if spf.smtp_helo is Some {
            " smtp.helo="@ + spf.smtp_helo->0
        } else {
            Seq::empty()
        })),
{
}

/// DKIM alignment holds exactly when there is an envelope sender with an
/// `@`, a DKIM signing domain, and the lower-cased domain after the last `@`
/// aligns with the lower-cased signing domain.
pub proof fn lemma_dkim_aligned_meaning(dkim_domain: Option<Seq<char>>, mail_from: Option<Seq<char>>)
    ensures
        dkim_aligned(dkim_domain, mail_from) <==> (mail_from is Some && dkim_domain is Some
            && address_domain(mail_from->0) is Some && domains_align_spec(
            lowercase(address_domain(mail_from->0)->0),
            lowercase(dkim_domain->0),
        )),
{
}

/// A message that cannot be parsed is reported with DKIM result `none`, no
/// signing domain or selector, and the comment "message parse failure".
pub proof fn lemma_unparsable_reported()
    ensures
        dkim_unparsable().result == "none"@,
        dkim_unparsable().domain is None,
        dkim_unparsable().selector is None,
        dkim_unparsable().comment == Some("message parse failure"@),
{
}

/// The views of optional strings keep presence and contents.
pub proof fn lemma_optional_views(s: String, t: &str)
    ensures
        opt_string_view(Some(s)) == Some(s@),
        opt_string_view(None) == None::<Seq<char>>,
        opt_str_view(Some(t)) == Some(t@),
        opt_str_view(None) == None::<Seq<char>>,
{
}

} // verus!
