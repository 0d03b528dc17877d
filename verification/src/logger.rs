//! The diagnostic log: a bounded ring buffer of timestamped messages,
//! a formatter that renders structured events into one line, and a
//! filtered, newest-first read-out.

use vstd::prelude::*;
use vstd::pervasive::VecAdditionalExecFns;
use vstd::seq_lib::to_multiset_build;
use vstd::seq_lib::to_multiset_insert;
use vstd::utf8::encode_utf8;

use crate::strutil::append_decimal;
use crate::strutil::append_str;
use crate::strutil::contains_subrange;
use crate::strutil::spec_decimal;
use crate::strutil::str_contains_str;
use crate::types::Principal;

verus! {

/// One log line.
#[allow(non_snake_case)]
#[derive(Debug, PartialEq, Eq)]
pub struct LogMessageData {
    pub timeNanos: u64,
    pub message: String,
}

impl Clone for LogMessageData {
    fn clone(&self) -> (r: Self)
        ensures
            r == *self,
    {
        LogMessageData { timeNanos: self.timeNanos, message: self.message.clone() }
    }
}

/// A request for a slice of the log.
#[allow(non_snake_case)]
#[derive(Debug)]
pub struct GetLogMessagesParameters {
    pub count: u32,
    pub filter: Option<GetLogMessagesFilter>,
    pub fromTimeNanos: Option<u64>,
}

/// The optional content filter of a log request.  Only the substring
/// filter is acted on; the pattern field is carried for interface
/// compatibility and ignored.
#[allow(non_snake_case)]
#[derive(Debug)]
pub struct GetLogMessagesFilter {
    pub messageContains: Option<String>,
    pub messageRegex: Option<String>,
}

/// The answer to a log request.
#[allow(non_snake_case)]
#[derive(Debug)]
pub struct CanisterLogMessages {
    pub data: Vec<LogMessageData>,
    pub lastAnalyzedMessageTimeNanos: Option<u64>,
}

/// Whether one log line passes a request's filters.
pub open spec fn log_matches(m: LogMessageData, param: GetLogMessagesParameters) -> bool {
    &&& (param.fromTimeNanos matches Some(t) ==> m.timeNanos >= t)
    &&& (param.filter matches Some(f) ==> (f.messageContains matches Some(s)
        ==> contains_subrange(encode_utf8(m.message@), encode_utf8(s@))))
}

/// The log lines a request selects, in storage order: the ones passing
/// the filters, cut off after the requested count.
/// The filter predicate one request induces.
pub open spec fn log_pred(param: GetLogMessagesParameters) -> spec_fn(LogMessageData) -> bool {
    |m: LogMessageData| log_matches(m, param)
}

pub open spec fn selected_logs(
    q: Seq<LogMessageData>,
    param: GetLogMessagesParameters,
) -> Seq<LogMessageData> {
    let matching = q.filter(log_pred(param));
    if matching.len() <= param.count {
        matching
    } else {
        matching.take(param.count as int)
    }
}

/// Newest first: timestamps never increase along the sequence.
pub open spec fn sorted_newest_first(s: Seq<LogMessageData>) -> bool {
    forall|i: int, j: int|
        0 <= i <= j < s.len() ==> (#[trigger] s[i]).timeNanos >= (#[trigger] s[j]).timeNanos
}

/// The ring buffer of recent log lines.  Until `max_count` lines were
/// stored it grows; afterwards each new line overwrites the oldest.
pub struct LoggerService {
    pub queue: Vec<LogMessageData>,
    pub max_count: usize,
    pub next: usize,
    pub full: bool,
}

impl LoggerService {
    /// The ring's bookkeeping: while not full, `next` is the write end
    /// of the growing buffer; once full, the buffer holds exactly
    /// `max_count` lines and `next` points at the oldest.
    pub open spec fn wf(&self) -> bool {
        if self.full {
            self.next < self.queue@.len() && self.queue@.len() == self.max_count
        } else {
            self.next == self.queue@.len()
        }
    }

    /// Stores one line, overwriting the oldest once the ring is full.
    pub fn store_log_message(&mut self, log_message: LogMessageData)
        requires
            old(self).wf(),
        ensures
            final(self).wf(),
            final(self).max_count == old(self).max_count,
            old(self).full ==> final(self).queue@ == old(self).queue@.update(
                old(self).next as int,
                log_message,
            ),
            !old(self).full ==> final(self).queue@ == old(self).queue@.push(log_message),
            if old(self).next + 1 == old(self).max_count {
                final(self).next == 0 && final(self).full
            } else {
                final(self).next == old(self).next + 1 && final(self).full == old(self).full
            },
    {
        if self.full {
            self.queue.set(self.next, log_message);
        } else {
            self.queue.push(log_message);
        }
        let ghost grown = self.queue@;
        let upper = self.queue.len();
        proof {
            assert(self.next < upper);
        }
        self.next = self.next + 1;
        if self.next == self.max_count {
            self.full = true;
            self.next = 0;
        }
    }

    /// Renders one structured event as a single line and stores it.
    /// The line is the canister, the caller, the method and the
    /// key/value pairs, joined the way [`spec_log_line`] states.
    pub fn log_format_message(
        &mut self,
        canister: String,
        caller: Principal,
        method: String,
        kv: Vec<(String, String)>,
        now: u64,
    )
        requires
            old(self).wf(),
        ensures
            final(self).wf(),
            final(self).max_count == old(self).max_count,
            old(self).full ==> final(self).queue@.len() == old(self).queue@.len() && (forall|
                j: int,
            |
                0 <= j < old(self).queue@.len() && j != old(self).next ==> final(self).queue@[j]
                    == old(self).queue@[j]) && final(self).queue@[old(self).next as int].timeNanos
                == now && final(self).queue@[old(self).next as int].message@ == spec_log_line(
                canister@,
                caller.id,
                method@,
                kv@,
            ),
            !old(self).full ==> final(self).queue@.len() == old(self).queue@.len() + 1 && final(self).queue@.drop_last() == old(self).queue@ && final(self).queue@.last().timeNanos == now
                && final(self).queue@.last().message@ == spec_log_line(
                canister@,
                caller.id,
                method@,
                kv@,
            ),
            if old(self).next + 1 == old(self).max_count {
                final(self).next == 0 && final(self).full
            } else {
                final(self).next == old(self).next + 1 && final(self).full == old(self).full
            },
    {
        let mut message = String::new();
        let ghost pairs = kv@;
        let n = kv.len();
        for i in 0..n
            invariant
                n == pairs.len(),
                kv@ == pairs,
                message@ == spec_kv_line(pairs.take(i as int)),
        {
            append_str(&mut message, kv[i].0.as_str());
            append_str(&mut message, ":");
            append_str(&mut message, kv[i].1.as_str());
            append_str(&mut message, ",");
            proof {
                assert(pairs.take(i + 1).drop_last() =~= pairs.take(i as int));
            }
        }
        proof {
            assert(pairs.take(n as int) =~= pairs);
        }
        let mut line = String::new();
        append_str(&mut line, canister.as_str());
        append_str(&mut line, "||");
        append_decimal(&mut line, caller.id);
        append_str(&mut line, "||");
        append_str(&mut line, method.as_str());
        append_str(&mut line, "||");
        append_str(&mut line, message.as_str());
        proof {
            assert(line@ =~= spec_log_line(canister@, caller.id, method@, kv@));
        }
        self.store_log_message(LogMessageData { timeNanos: now, message: line });
    }

    /// The log lines a request selects, newest first.  The lines passing
    /// the request's filters are gathered in storage order up to the
    /// requested count, then ordered by descending timestamp.
    pub fn get_log_messages(&self, param: GetLogMessagesParameters, now: u64) -> (r:
        CanisterLogMessages)
        ensures
            r.lastAnalyzedMessageTimeNanos == Some(now),
            r.data@.to_multiset() == selected_logs(self.queue@, param).to_multiset(),
            sorted_newest_first(r.data@),
    {
        let ghost q = self.queue@;
        let ghost pred = log_pred(param);
        let count_usize: usize = param.count as usize;
        let mut data: Vec<LogMessageData> = Vec::new();
        let n = self.queue.len();
        let mut i: usize = 0;
        while i < n && data.len() < count_usize
            invariant
                n == q.len(),
                self.queue@ == q,
                count_usize == param.count,
                0 <= i <= n,
                data@.len() <= count_usize,
                pred == log_pred(param),
                data@ == q.take(i as int).filter(pred),
            decreases n - i,
        {
            let matched = log_entry_matches(&self.queue[i], &param);
            proof {
                q.take(i as int).lemma_filter_push(q[i as int], pred);
                assert(q.take(i + 1) =~= q.take(i as int).push(q[i as int]));
                assert(pred(q[i as int]) == log_matches(q[i as int], param));
            }
            if matched {
                data.push(self.queue[i].clone());
            }
            i = i + 1;
        }
        proof {
            let matching = q.filter(pred);
            if i == n as usize {
                assert(q.take(n as int) =~= q);
                assert(data@ == matching);
            } else {
                assert(q.take(i as int).is_prefix_of(q)) by {
                    assert(q.take(i as int) =~= q.subrange(0, i as int));
                }
                q.take(i as int).lemma_filter_monotone(q, pred);
                assert(data@ == matching.take(param.count as int));
                if matching.len() <= param.count {
                    assert(matching.take(param.count as int) =~= matching);
                }
            }
            assert(data@ == selected_logs(q, param));
        }
        let sorted = sort_logs_newest_first(data);
        CanisterLogMessages { data: sorted, lastAnalyzedMessageTimeNanos: Some(now) }
    }
}

impl Default for LoggerService {
    /// An empty ring that keeps the most recent 20000 lines.
    fn default() -> (s: Self)
        ensures
            s.wf(),
            s.queue@.len() == 0,
            s.max_count == 20000,
            s.next == 0,
            !s.full,
    {
        LoggerService { queue: Vec::new(), max_count: 20000, next: 0, full: false }
    }
}

/// The `k:v,` rendering of the key/value pairs, in order.
pub open spec fn spec_kv_line(kv: Seq<(String, String)>) -> Seq<char>
    decreases kv.len(),
{
    if kv.len() == 0 {
        Seq::empty()
    } else {
        spec_kv_line(kv.drop_last()) + kv.last().0@ + ":"@ + kv.last().1@ + ","@
    }
}

/// The full log line: canister, caller and method separated by `||`,
/// then the key/value pairs.
pub open spec fn spec_log_line(
    canister: Seq<char>,
    caller_id: u64,
    method: Seq<char>,
    kv: Seq<(String, String)>,
) -> Seq<char> {
    canister + "||"@ + spec_decimal(caller_id as nat) + "||"@ + method + "||"@ + spec_kv_line(kv)
}

/// Whether one log line passes a request's filters.
fn log_entry_matches(m: &LogMessageData, param: &GetLogMessagesParameters) -> (r: bool)
    ensures
        r == log_matches(*m, *param),
{
    if let Some(t) = param.fromTimeNanos {
        if m.timeNanos < t {
            return false;
        }
    }
    if let Some(f) = &param.filter {
        if let Some(s) = &f.messageContains {
            if !str_contains_str(m.message.as_str(), s.as_str()) {
                return false;
            }
        }
    }
    true
}

/// Orders log lines by descending timestamp (insertion sort; the result
/// holds exactly the given lines).
fn sort_logs_newest_first(input: Vec<LogMessageData>) -> (r: Vec<LogMessageData>)
    ensures
        r@.to_multiset() == input@.to_multiset(),
        sorted_newest_first(r@),
{
    let mut out: Vec<LogMessageData> = Vec::new();
    let n = input.len();
    proof {
        assert(out@ =~= input@.take(0int));
    }
    for idx in 0..n
        invariant
            n == input@.len(),
            out@.to_multiset() == input@.take(idx as int).to_multiset(),
            sorted_newest_first(out@),
    {
        let item = input[idx].clone();
        let mut pos: usize = 0;
        while pos < out.len() && out[pos].timeNanos >= item.timeNanos
            invariant
                0 <= pos <= out@.len(),
                n == input@.len(),
                idx < n,
                item == input@[idx as int],
                sorted_newest_first(out@),
                out@.to_multiset() == input@.take(idx as int).to_multiset(),
                forall|k: int| 0 <= k < pos ==> (#[trigger] out@[k]).timeNanos >= item.timeNanos,
            decreases out@.len() - pos,
        {
            pos = pos + 1;
        }
        let ghost before = out@;
        out.insert(pos, item);
        proof {
            to_multiset_insert(before, pos as int, item);
            to_multiset_build(input@.take(idx as int), input@[idx as int]);
            assert(input@.take(idx + 1) =~= input@.take(idx as int).push(input@[idx as int]));
            assert forall|a: int, b: int| 0 <= a <= b < out@.len() implies (#[trigger] out@[
                a
            ]).timeNanos >= (#[trigger] out@[b]).timeNanos by {
                if a < pos {
                    assert(out@[a] == before[a]);
                } else if a == pos {
                    assert(out@[a] == item);
                } else {
                    assert(out@[a] == before[a - 1]);
                }
                if b < pos {
                    assert(out@[b] == before[b]);
                } else if b == pos {
                    assert(out@[b] == item);
                } else {
                    assert(out@[b] == before[b - 1]);
                }
            }
        }
    }
    proof {
        assert(input@.take(n as int) =~= input@);
    }
    out
}

} // verus!
