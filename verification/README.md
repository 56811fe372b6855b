# filter_skimverify

The decision logic of an OpenSMTPD filter that verifies DKIM signatures,
checks SPF and DKIM domain alignment, inserts an `Authentication-Results`
header (RFC 7601) and can reject messages that fail, written in Verus.

- `src/text.rs` — character-level search and comparison on strings.
- `src/domain.rs` — organizational domains and relaxed alignment, with
  proofs that alignment is reflexive and symmetric, that the organizational
  domain is an idempotent suffix, and that subdomains align with their parent.
- `src/verify.rs` — DKIM and SPF statuses from the outcomes of the checks,
  alignment against the envelope sender, and the header line.
- `src/filter.rs` — per-transaction state: collecting message lines,
  placing the header, and answering the commit.
- `src/config.rs` — the settings.
- `app/main.rs` — the program: command line, logging, DNS lookups through
  `mail-auth` on a Tokio runtime, and the filter protocol.
