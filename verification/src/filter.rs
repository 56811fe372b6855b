//! The decisions of the mail filter: collecting message lines per
//! transaction, placing the `Authentication-Results` header, and answering
//! the commit of a transaction.

use std::collections::HashMap;

use vstd::prelude::*;

use crate::text::{opt_string_view, str_eq, strings_view, to_owned_string};
use crate::verify::{auth_results_header, format_auth_results, VerificationResult};

verus! {

broadcast use vstd::std_specs::hash::group_hash_axioms;

/// The bytes of a message made of `lines`: each line in UTF-8 followed by
/// CRLF.
pub open spec fn raw_message_bytes(lines: Seq<Seq<char>>) -> Seq<u8>
    decreases lines.len(),
{
    if lines.len() == 0 {
        Seq::empty()
    } else {
        raw_message_bytes(lines.drop_last()) + vstd::utf8::encode_utf8(lines.last()) + seq![13u8, 10u8]
    }
}

/// The raw message: every line followed by CRLF.
pub fn build_raw_message(lines: &[String]) -> (raw: Vec<u8>)
    ensures
        raw@ == raw_message_bytes(strings_view(lines@)),
{
    let mut raw: Vec<u8> = Vec::new();
    let mut i: usize = 0;
    while i < lines.len()
        invariant
            i <= lines@.len(),
            raw@ == raw_message_bytes(strings_view(lines@.take(i as int))),
        decreases lines@.len() - i,
    {
        let bytes = lines[i].as_str().as_bytes();
        let mut j: usize = 0;
        let ghost before = raw@;
        while j < bytes.len()
            invariant
                j <= bytes@.len(),
                raw@ == before + bytes@.take(j as int),
            decreases bytes@.len() - j,
        {
            raw.push(bytes[j]);
            j = j + 1;
            assert(raw@ =~= before + bytes@.take(j as int));
        }
        raw.push(13u8);
        raw.push(10u8);
        proof {
            let prefix = lines@.take(i + 1);
            assert(strings_view(prefix).drop_last() =~= strings_view(lines@.take(i as int)));
            assert(bytes@.take(bytes@.len() as int) =~= bytes@);
            assert(raw@ =~= before + bytes@ + seq![13u8, 10u8]);
        }
        i = i + 1;
    }
    assert(lines@.take(lines@.len() as int) =~= lines@);
    raw
}

/// Index of the first empty line: the end of the header section.
pub open spec fn first_empty_line(lines: Seq<Seq<char>>) -> Option<int>
    decreases lines.len(),
{
    if lines.len() == 0 {
        None
    } else if lines[0].len() == 0 {
        Some(0)
    } else {
        match first_empty_line(lines.drop_first()) {
            Some(k) => Some(k + 1),
            None => None,
        }
    }
}

/// Where the header goes: at the first empty line (the end of the header
/// section), or after the last line when there is no empty line.
pub open spec fn header_position(lines: Seq<Seq<char>>) -> int {
    match first_empty_line(lines) {
        Some(k) => k,
        None => lines.len() as int,
    }
}

/// `lines` with `header` inserted at `header_position`: every message gets
/// the header exactly once.
pub open spec fn message_with_header(lines: Seq<Seq<char>>, header: Seq<char>) -> Seq<Seq<char>> {
    lines.take(header_position(lines)) + seq![header] + lines.skip(header_position(lines))
}

/// `first_empty_line` finds the first empty line, if there is one.
pub proof fn lemma_first_empty_line(lines: Seq<Seq<char>>)
    ensures
        match first_empty_line(lines) {
            Some(k) => 0 <= k < lines.len() && lines[k].len() == 0 && forall|j: int|
                0 <= j < k ==> lines[j].len() != 0,
            None => forall|j: int| 0 <= j < lines.len() ==> lines[j].len() != 0,
        },
    decreases lines.len(),
{
    if lines.len() > 0 && lines[0].len() != 0 {
        let t = lines.drop_first();
        lemma_first_empty_line(t);
        assert forall|j: int| 0 <= j < t.len() implies t[j] == lines[j + 1] by {}
        match first_empty_line(t) {
            Some(k) => {
                assert forall|j: int| 0 <= j < k + 1 implies lines[j].len() != 0 by {
                    if j > 0 {
                        assert(lines[j] == t[j - 1]);
                    }
                }
            },
            None => {
                assert forall|j: int| 0 <= j < lines.len() implies lines[j].len() != 0 by {
                    if j > 0 {
                        assert(lines[j] == t[j - 1]);
                    }
                }
            },
        }
    }
}

/// The message lines with the header inserted at the end of the header
/// section, or after the last line when the message has no empty line.
pub fn insert_auth_header(lines: &Vec<String>, header: &String) -> (output: Vec<String>)
    ensures
        strings_view(output@) == message_with_header(strings_view(lines@), header@),
{
    let ghost lv = strings_view(lines@);
    let mut output: Vec<String> = Vec::new();
    let mut in_headers = true;
    let ghost mut k: int = 0;
    let mut i: usize = 0;
    while i < lines.len()
        invariant
            lv == strings_view(lines@),
            i <= lines@.len(),
            in_headers ==> (forall|j: int| 0 <= j < i ==> lv[j].len() != 0),
            in_headers ==> strings_view(output@) == lv.take(i as int),
            !in_headers ==> 0 <= k < i && lv[k].len() == 0,
            !in_headers ==> (forall|j: int| 0 <= j < k ==> lv[j].len() != 0),
            !in_headers ==> strings_view(output@) == lv.take(k) + seq![header@] + lv.subrange(
                k,
                i as int,
            ),
        decreases lines@.len() - i,
    {
        let msg_line = &lines[i];
        let ghost before = strings_view(output@);
        if in_headers && msg_line.as_str().is_empty() {
            output.push(header.clone());
            in_headers = false;
            proof {
                k = i as int;
                assert(strings_view(output@) =~= before + seq![header@]);
            }
        }
        let ghost mid = strings_view(output@);
        output.push(msg_line.clone());
        proof {
            assert(strings_view(output@) =~= mid + seq![lv[i as int]]);
            if in_headers {
                assert(lv.take(i + 1) =~= lv.take(i as int) + seq![lv[i as int]]);
            } else {
                assert(lv.subrange(k, i + 1) =~= lv.subrange(k, i as int) + seq![lv[i as int]]);
                assert(strings_view(output@) =~= lv.take(k) + seq![header@] + lv.subrange(
                    k,
                    i + 1,
                ));
            }
        }
        i = i + 1;
    }
    if in_headers {
        let ghost before = strings_view(output@);
        output.push(header.clone());
        proof {
            assert(strings_view(output@) =~= before + seq![header@]);
        }
    }
    proof {
        lemma_first_empty_line(lv);
        assert(lv.take(lv.len() as int) =~= lv);
        assert(lv.skip(lv.len() as int) =~= Seq::<Seq<char>>::empty());
        assert(lv.subrange(k, lv.len() as int) =~= lv.skip(k));
        if !in_headers {
            match first_empty_line(lv) {
                Some(k2) => {
                    assert(k2 == k);
                },
                None => {},
            }
        } else {
            assert(strings_view(output@) =~= message_with_header(lv, header@));
        }
    }
    output
}

/// The answer to the commit of a transaction.
#[derive(Debug, Clone)]
pub enum CommitDecision {
    Proceed,
    Reject {
        code: u16,
        message: String,
        /// The DKIM signing domain of the rejected message, for the log.
        dkim_domain: Option<String>,
    },
}

/// Whether a message passed every check: DKIM, SPF and alignment.
pub open spec fn passes_all(r: VerificationResult) -> bool {
    r.dkim.result@ == "pass"@ && r.spf.result@ == "pass"@ && r.alignment_pass
}

/// Whether the commit of `reqid` is rejected when `pending` holds the
/// recorded results.
pub open spec fn commit_rejects(pending: Map<u64, VerificationResult>, reqid: u64) -> bool {
    pending.contains_key(reqid) && !passes_all(pending[reqid])
}

/// The lines collected so far for `reqid` (none when nothing was collected).
pub open spec fn lines_of(collected: Map<u64, Seq<Seq<char>>>, reqid: u64) -> Seq<Seq<char>> {
    if collected.contains_key(reqid) {
        collected[reqid]
    } else {
        Seq::empty()
    }
}

/// The collected lines after `line` arrives for `reqid`.
pub open spec fn collect_line(
    collected: Map<u64, Seq<Seq<char>>>,
    reqid: u64,
    line: Seq<char>,
) -> Map<u64, Seq<Seq<char>>> {
    collected.insert(reqid, lines_of(collected, reqid).push(line))
}

/// The collected lines after each of `lines` arrives, in order, for `reqid`.
pub open spec fn collect_lines(
    collected: Map<u64, Seq<Seq<char>>>,
    reqid: u64,
    lines: Seq<Seq<char>>,
) -> Map<u64, Seq<Seq<char>>>
    decreases lines.len(),
{
    if lines.len() == 0 {
        collected
    } else {
        collect_line(collect_lines(collected, reqid, lines.drop_last()), reqid, lines.last())
    }
}

proof fn lemma_map_values_insert<K, V, W>(m: Map<K, V>, k: K, v: V, f: spec_fn(V) -> W)
    ensures
        m.insert(k, v).map_values(f) == m.map_values(f).insert(k, f(v)),
{
    assert(m.insert(k, v).map_values(f) =~= m.map_values(f).insert(k, f(v)));
}

/// What happens to a transaction, as far as the recorded results go.
pub enum FilterEvent {
    /// A line of message data arrived.
    DataLine { reqid: u64, line: Seq<char> },
    /// A message was verified; `recorded` says whether its result was kept
    /// for the commit (messages that fail are to be rejected).
    Complete { reqid: u64, result: VerificationResult, recorded: bool },
    /// The transaction is committed.
    Commit { reqid: u64 },
    /// The client disconnected.
    Disconnect { reqid: u64 },
}

/// The recorded results after one event.
pub open spec fn pending_step(
    pending: Map<u64, VerificationResult>,
    event: FilterEvent,
) -> Map<u64, VerificationResult> {
    match event {
        FilterEvent::DataLine { .. } => pending,
        FilterEvent::Complete { reqid, result, recorded } => if recorded {
            pending.insert(reqid, result)
        } else {
            pending
        },
        FilterEvent::Commit { reqid } => pending.remove(reqid),
        FilterEvent::Disconnect { reqid } => pending.remove(reqid),
    }
}

/// The recorded results after a sequence of events.
pub open spec fn pending_after(
    pending: Map<u64, VerificationResult>,
    events: Seq<FilterEvent>,
) -> Map<u64, VerificationResult>
    decreases events.len(),
{
    if events.len() == 0 {
        pending
    } else {
        pending_step(pending_after(pending, events.drop_last()), events.last())
    }
}

/// No verified message in `events` had its result kept: the filter runs
/// without rejection.
pub open spec fn never_records(events: Seq<FilterEvent>) -> bool {
    forall|i: int|
        0 <= i < events.len() ==> !(#[trigger] events[i] matches FilterEvent::Complete {
            recorded,
            ..
        } && recorded)
}

/// Without rejection of failing messages, no result is ever recorded, so
/// whatever sequence of lines, completed messages, commits and disconnects
/// the filter sees from its start, every commit proceeds.
pub proof fn lemma_no_rejection_without_reject_on_fail(events: Seq<FilterEvent>)
    requires
        never_records(events),
    ensures
        pending_after(Map::empty(), events) == Map::<u64, VerificationResult>::empty(),
        forall|i: int, reqid: u64|
            0 <= i <= events.len() ==> !(#[trigger] commit_rejects(
                pending_after(Map::empty(), events.take(i)),
                reqid,
            )),
    decreases events.len(),
{
    if events.len() > 0 {
        let prefix = events.drop_last();
        assert forall|i: int| 0 <= i < prefix.len() implies !(#[trigger] prefix[i] matches FilterEvent::Complete {
            recorded,
            ..
        } && recorded) by {
            assert(prefix[i] == events[i]);
        }
        lemma_no_rejection_without_reject_on_fail(prefix);
        let last = events.last();
        assert(events[events.len() - 1] == last);
        assert(pending_after(Map::empty(), events) =~= Map::<u64, VerificationResult>::empty());
    }
    assert forall|i: int, reqid: u64| 0 <= i <= events.len() implies !(#[trigger] commit_rejects(
        pending_after(Map::empty(), events.take(i)),
        reqid,
    )) by {
        let p = events.take(i);
        assert forall|j: int| 0 <= j < p.len() implies !(#[trigger] p[j] matches FilterEvent::Complete {
            recorded,
            ..
        } && recorded) by {
            assert(p[j] == events[j]);
        }
        if i < events.len() {
            lemma_no_rejection_without_reject_on_fail(p);
        } else {
            assert(p =~= events);
        }
    }
}

/// Per-transaction state of the filter: the lines of the message being
/// received, and the results waiting for the commit of their transaction.
pub struct FilterState {
    message_lines: HashMap<u64, Vec<String>>,
    pending_results: HashMap<u64, VerificationResult>,
}

impl FilterState {
    /// The lines received so far, per transaction.
    pub closed spec fn collected(&self) -> Map<u64, Seq<Seq<char>>> {
        self.message_lines@.map_values(|v: Vec<String>| strings_view(v@))
    }

    /// The results recorded for a later commit, per transaction.
    pub closed spec fn pending(&self) -> Map<u64, VerificationResult> {
        self.pending_results@
    }

    /// A filter with no transaction under way.
    pub fn new() -> (state: Self)
        ensures
            state.collected() == Map::<u64, Seq<Seq<char>>>::empty(),
            state.pending() == Map::<u64, VerificationResult>::empty(),
    {
        let state = FilterState { message_lines: HashMap::new(), pending_results: HashMap::new() };
        assert(state.collected() =~= Map::<u64, Seq<Seq<char>>>::empty());
        state
    }

    fn take_lines(&mut self, reqid: u64) -> (lines: Vec<String>)
        ensures
            strings_view(lines@) == lines_of(old(self).collected(), reqid),
            final(self).collected() == old(self).collected().remove(reqid),
            final(self).pending() == old(self).pending(),
    {
        let lines = match self.message_lines.remove(&reqid) {
            Some(v) => v,
            None => Vec::new(),
        };
        assert(strings_view(Seq::<String>::empty()) =~= Seq::<Seq<char>>::empty());
        assert(self.collected() =~= old(self).collected().remove(reqid));
        lines
    }

    /// One line of message data for transaction `reqid`. Lines are
    /// collected until the line `.`, which ends the message: the collected
    /// lines are then handed back and forgotten.
    pub fn on_data_line(&mut self, reqid: u64, line: &str) -> (complete: Option<Vec<String>>)
        ensures
            line@ != "."@ ==> complete is None && final(self).collected() == collect_line(
                old(self).collected(),
                reqid,
                line@,
            ),
            line@ == "."@ ==> complete is Some && strings_view(complete->0@) == lines_of(
                old(self).collected(),
                reqid,
            ) && final(self).collected() == old(self).collected().remove(reqid),
            final(self).pending() == old(self).pending(),
            final(self).pending() == pending_step(
                old(self).pending(),
                FilterEvent::DataLine { reqid, line: line@ },
            ),
    {
        if !str_eq(line, ".") {
            let mut lines = self.take_lines(reqid);
            let ghost taken = strings_view(lines@);
            lines.push(to_owned_string(line));
            assert(strings_view(lines@) =~= taken.push(line@));
            let ghost new_lines = lines;
            let ghost mid = self.message_lines@;
            self.message_lines.insert(reqid, lines);
            proof {
                let f = |v: Vec<String>| strings_view(v@);
                lemma_map_values_insert(mid, reqid, new_lines, f);
                let oc = old(self).collected();
                assert(oc.remove(reqid).insert(reqid, f(new_lines)) =~= oc.insert(
                    reqid,
                    f(new_lines),
                ));
            }
            assert(self.collected() =~= collect_line(old(self).collected(), reqid, line@));
            return None;
        }
        Some(self.take_lines(reqid))
    }

    /// The message of transaction `reqid` has been verified: the lines to
    /// send back are the message with the header for `result` inserted at
    /// the end of its header section (after the last line when it has no
    /// empty line), then `.`. The result is kept for the
    /// commit when messages that fail are to be rejected.
    pub fn complete_message(
        &mut self,
        reqid: u64,
        lines: &Vec<String>,
        hostname: &str,
        result: VerificationResult,
        reject_on_fail: bool,
    ) -> (output: Vec<String>)
        ensures
            strings_view(output@) == message_with_header(
                strings_view(lines@),
                auth_results_header(hostname@, result.dkim@, result.spf@),
            ).push("."@),
            final(self).pending() == (if reject_on_fail {
                old(self).pending().insert(reqid, result)
            } else {
                old(self).pending()
            }),
            final(self).pending() == pending_step(
                old(self).pending(),
                FilterEvent::Complete { reqid, result, recorded: reject_on_fail },
            ),
            final(self).collected() == old(self).collected(),
    {
        let auth_header = format_auth_results(hostname, &result);
        if reject_on_fail {
            self.pending_results.insert(reqid, result);
        }
        let mut output = insert_auth_header(lines, &auth_header);
        let ghost before = strings_view(output@);
        output.push(to_owned_string("."));
        assert(strings_view(output@) =~= before.push("."@));
        output
    }

    /// The commit of transaction `reqid`: rejected with code 550 and
    /// `reject_message` when a result was recorded for it and a check
    /// failed; the recorded result is then forgotten.
    pub fn on_commit(&mut self, reqid: u64, reject_message: &str) -> (decision: CommitDecision)
        ensures
            match decision {
                CommitDecision::Proceed => !commit_rejects(old(self).pending(), reqid),
                CommitDecision::Reject { code, message, dkim_domain } => commit_rejects(
                    old(self).pending(),
                    reqid,
                ) && code == 550 && message@ == reject_message@ && opt_string_view(dkim_domain)
                    == opt_string_view(old(self).pending()[reqid].dkim.domain),
            },
            (decision is Reject) == (old(self).pending().contains_key(reqid) && (old(
                self,
            ).pending()[reqid].dkim.result@ != "pass"@ || old(self).pending()[reqid].spf.result@
                != "pass"@ || !old(self).pending()[reqid].alignment_pass)),
            final(self).pending() == old(self).pending().remove(reqid),
            final(self).pending() == pending_step(old(self).pending(), FilterEvent::Commit { reqid }),
            final(self).collected() == old(self).collected(),
    {
        if let Some(result) = self.pending_results.remove(&reqid) {
            let dkim_pass = str_eq(result.dkim.result, "pass");
            let spf_pass = str_eq(result.spf.result, "pass");
            if !dkim_pass || !spf_pass || !result.alignment_pass {
                let dkim_domain = match &result.dkim.domain {
                    Some(d) => Some(d.clone()),
                    None => None,
                };
                return CommitDecision::Reject {
                    code: 550,
                    message: to_owned_string(reject_message),
                    dkim_domain,
                };
            }
        }
        CommitDecision::Proceed
    }

    /// The client of transaction `reqid` disconnected: everything kept for
    /// it is dropped.
    pub fn on_disconnect(&mut self, reqid: u64)
        ensures
            final(self).collected() == old(self).collected().remove(reqid),
            final(self).pending() == old(self).pending().remove(reqid),
            final(self).pending() == pending_step(
                old(self).pending(),
                FilterEvent::Disconnect { reqid },
            ),
    {
        self.message_lines.remove(&reqid);
        assert(self.collected() =~= old(self).collected().remove(reqid));
        self.pending_results.remove(&reqid);
    }
}

/// Lines arriving for a transaction are handed back in arrival order,
/// after whatever was collected for it before, and the lines of every other
/// transaction stay as they were.
pub proof fn lemma_lines_come_back_in_order(
    collected: Map<u64, Seq<Seq<char>>>,
    reqid: u64,
    lines: Seq<Seq<char>>,
)
    ensures
        lines_of(collect_lines(collected, reqid, lines), reqid) == lines_of(collected, reqid)
            + lines,
        forall|other: u64|
            other != reqid ==> #[trigger] lines_of(collect_lines(collected, reqid, lines), other)
                == lines_of(collected, other),
        forall|other: u64|
            other != reqid ==> (#[trigger] collect_lines(collected, reqid, lines).contains_key(
                other,
            ) <==> collected.contains_key(other)),
    decreases lines.len(),
{
    if lines.len() == 0 {
        assert(lines_of(collected, reqid) + lines =~= lines_of(collected, reqid));
    } else {
        lemma_lines_come_back_in_order(collected, reqid, lines.drop_last());
        let inner = collect_lines(collected, reqid, lines.drop_last());
        assert forall|other: u64| other != reqid implies #[trigger] lines_of(
            collect_lines(collected, reqid, lines),
            other,
        ) == lines_of(collected, other) by {
            assert(lines_of(inner, other) == lines_of(collected, other));
        }
        assert(lines_of(collected, reqid) + lines.drop_last() + seq![lines.last()] =~= lines_of(
            collected,
            reqid,
        ) + lines);
    }
}

/// Once a result is recorded for a transaction, its commit is rejected
/// exactly when one of the checks failed; a result that passes every check
/// is never rejected.
pub proof fn lemma_commit_rejects_exactly_failures(
    pending: Map<u64, VerificationResult>,
    reqid: u64,
    result: VerificationResult,
)
    ensures
        commit_rejects(pending.insert(reqid, result), reqid) == !passes_all(result),
{
}

/// A recorded result is rejected at commit exactly when its DKIM result is
/// not `pass`, or its SPF result is not `pass`, or alignment failed: each
/// check on its own is enough to reject.
pub proof fn lemma_commit_rejects_any_failed_check(
    pending: Map<u64, VerificationResult>,
    reqid: u64,
)
    ensures
        commit_rejects(pending, reqid) <==> (pending.contains_key(reqid) && (
        pending[reqid].dkim.result@ != "pass"@ || pending[reqid].spf.result@ != "pass"@
            || !pending[reqid].alignment_pass)),
{
}

/// A commit consumes the recorded result: a second commit of the same
/// transaction, or one after a disconnect, proceeds.
pub proof fn lemma_decision_taken_once(pending: Map<u64, VerificationResult>, reqid: u64)
    ensures
        !commit_rejects(pending.remove(reqid), reqid),
{
}

/// Every message gets the header exactly once: right before the first
/// empty line, after every header line, or after the last line when there
/// is no empty line. Removing it gives back the original lines.
pub proof fn lemma_header_placement(lines: Seq<Seq<char>>, header: Seq<char>)
    ensures
        0 <= header_position(lines) <= lines.len(),
        message_with_header(lines, header).len() == lines.len() + 1,
        message_with_header(lines, header)[header_position(lines)] == header,
        message_with_header(lines, header).remove(header_position(lines)) == lines,
        forall|j: int|
            0 <= j < header_position(lines) ==> (#[trigger] message_with_header(
                lines,
                header,
            )[j]).len() != 0,
        header_position(lines) < lines.len() ==> message_with_header(lines, header)[header_position(
            lines,
        ) + 1].len() == 0,
{
    lemma_first_empty_line(lines);
    let p = header_position(lines);
    let m = message_with_header(lines, header);
    assert(m.remove(p) =~= lines);
    if p < lines.len() {
        assert(m[p + 1] == lines[p]);
    }
    assert forall|j: int| 0 <= j < p implies (#[trigger] m[j]).len() != 0 by {
        assert(m[j] == lines[j]);
    }
}

/// The raw form of a single line is exactly its UTF-8 bytes, unchanged,
/// followed by CR LF; with the concatenation law this fixes the raw form of
/// every message.
pub proof fn lemma_raw_message_single_line(line: Seq<char>)
    ensures
        raw_message_bytes(seq![line]) == vstd::utf8::encode_utf8(line) + seq![13u8, 10u8],
{
    let one = seq![line];
    assert(one.len() == 1);
    assert(one.last() == line);
    assert(one.drop_last() =~= Seq::<Seq<char>>::empty());
    assert(raw_message_bytes(one.drop_last()) == Seq::<u8>::empty());
    assert(raw_message_bytes(one) == raw_message_bytes(one.drop_last()) + vstd::utf8::encode_utf8(
        line,
    ) + seq![13u8, 10u8]);
    assert(Seq::<u8>::empty() + vstd::utf8::encode_utf8(line) =~= vstd::utf8::encode_utf8(line));
}

/// The raw form of a message is built line by line: the raw form of two
/// runs of lines is the raw form of the first followed by that of the second.
pub proof fn lemma_raw_message_concat(a: Seq<Seq<char>>, b: Seq<Seq<char>>)
    ensures
        raw_message_bytes(a + b) == raw_message_bytes(a) + raw_message_bytes(b),
    decreases b.len(),
{
    if b.len() == 0 {
        assert(a + b =~= a);
        assert(raw_message_bytes(a) + raw_message_bytes(b) =~= raw_message_bytes(a));
    } else {
        assert((a + b).drop_last() =~= a + b.drop_last());
        lemma_raw_message_concat(a, b.drop_last());
        assert(raw_message_bytes(a + b) =~= raw_message_bytes(a) + raw_message_bytes(b));
    }
}

} // verus!
