//! The request log: a bounded history of handled requests, oldest first.
use vstd::prelude::*;

verus! {

/// How many entries the log keeps; older ones are evicted.
pub const LOG_CAPACITY: usize = 1000;

/// One handled request.
#[derive(Debug, Clone)]
pub struct RequestLog {
    pub timestamp: String,
    pub method: String,
    pub path: String,
    pub status: u16,
    /// Wall-clock time spent on the request, upstream round trip included.
    pub latency_ms: u64,
    /// The request body, when it is valid UTF-8.
    pub request_body: Option<String>,
    /// The response body, when it is valid UTF-8.
    pub response_body: Option<String>,
}

/// A copy of an optional string.
fn clone_opt(s: &Option<String>) -> (r: Option<String>)
    ensures
        r == *s,
{
    match s {
        Some(t) => Some(t.clone()),
        None => None,
    }
}

impl RequestLog {
    /// A copy of the entry, field for field.
    pub fn cloned(&self) -> (r: RequestLog)
        ensures
            r == *self,
    {
        RequestLog {
            timestamp: self.timestamp.clone(),
            method: self.method.clone(),
            path: self.path.clone(),
            status: self.status,
            latency_ms: self.latency_ms,
            request_body: clone_opt(&self.request_body),
            response_body: clone_opt(&self.response_body),
        }
    }
}

/// The last `n` elements of `s`, or all of `s` when it holds no more than `n`.
pub open spec fn keep_last<T>(s: Seq<T>, n: nat) -> Seq<T> {
    if s.len() > n {
        s.subrange(s.len() - n, s.len() as int)
    } else {
        s
    }
}

/// The log after appending each of `es` in turn to an empty log.
pub open spec fn replay_appends(es: Seq<RequestLog>) -> Seq<RequestLog>
    decreases es.len(),
{
    if es.len() == 0 {
        Seq::<RequestLog>::empty()
    } else {
        keep_last(replay_appends(es.drop_last()).push(es.last()), LOG_CAPACITY as nat)
    }
}

/// The entries held, oldest first, never more than `LOG_CAPACITY` of them.
#[derive(Debug, Clone)]
pub struct LogBuffer {
    entries: Vec<RequestLog>,
}

impl View for LogBuffer {
    type V = Seq<RequestLog>;

    closed spec fn view(&self) -> Seq<RequestLog> {
        self.entries@
    }
}

impl LogBuffer {
    /// The buffer holds no more than `LOG_CAPACITY` entries.
    pub open spec fn wf(&self) -> bool {
        self@.len() <= LOG_CAPACITY
    }

    /// An empty log.
    pub fn new() -> (r: LogBuffer)
        ensures
            r@ == Seq::<RequestLog>::empty(),
            r.wf(),
    {
        LogBuffer { entries: Vec::new() }
    }

    /// The number of entries held.
    pub fn len(&self) -> (r: usize)
        ensures
            r == self@.len(),
    {
        self.entries.len()
    }

    /// A snapshot copy of the entries, oldest first.
    pub fn list(&self) -> (r: Vec<RequestLog>)
        ensures
            r@ == self@,
    {
        let mut out: Vec<RequestLog> = Vec::new();
        let mut i: usize = 0;
        while i < self.entries.len()
            invariant
                i <= self@.len(),
                out@ == self@.subrange(0, i as int),
            decreases self@.len() - i,
        {
            out.push(self.entries[i].cloned());
            i = i + 1;
        }
        assert(out@ =~= self@);
        out
    }

    /// Appends an entry; when the log then holds more than `LOG_CAPACITY`
    /// entries, exactly the overflow is removed from the front.
    pub fn append(&mut self, entry: RequestLog)
        requires
            old(self).wf(),
        ensures
            final(self).wf(),
            final(self)@ == keep_last(old(self)@.push(entry), LOG_CAPACITY as nat),
    {
        self.entries.push(entry);
        let ghost full = self@;
        let mut dropped: usize = 0;
        while self.entries.len() > LOG_CAPACITY
            invariant
                full.len() <= LOG_CAPACITY + 1,
                dropped <= full.len(),
                dropped == 0 || full.len() - dropped >= LOG_CAPACITY,
                self@ == full.subrange(dropped as int, full.len() as int),
            decreases self@.len(),
        {
            self.entries.remove(0);
            dropped = dropped + 1;
        }
        assert(self@ =~= keep_last(full, LOG_CAPACITY as nat));
    }
}

/// Relies on `chrono::Utc::now` and `DateTime::to_rfc3339`: the current UTC
/// time as RFC 3339 text. Nothing is promised of the value.
#[verifier::external_body]
fn now_rfc3339() -> (r: String) {
    chrono::Utc::now().to_rfc3339()
}

/// What `String::from_utf8` gives for these bytes: their text, or `None`
/// when they are not valid UTF-8.
pub uninterp spec fn utf8_text(b: Seq<u8>) -> Option<Seq<char>>;

/// Relies on `String::from_utf8`: the bytes as text when they are valid
/// UTF-8; which bytes are valid depends on the bytes alone.
#[verifier::external_body]
pub(crate) fn decode_utf8(b: &Vec<u8>) -> (r: Option<String>)
    ensures
        match r {
            Some(s) => utf8_text(b@) == Some(s@),
            None => utf8_text(b@).is_none(),
        },
{
    String::from_utf8(b.clone()).ok()
}

/// The text of an optional string.
pub open spec fn opt_text(o: Option<String>) -> Option<Seq<char>> {
    match o {
        Some(s) => Some(s@),
        None => None,
    }
}

/// `e` records this request and outcome.
pub open spec fn entry_records(
    e: RequestLog,
    method: Seq<char>,
    path: Seq<char>,
    status: u16,
    latency_ms: u64,
    request_body: Option<Seq<char>>,
    response_body: Option<Seq<char>>,
) -> bool {
    &&& e.method@ == method
    &&& e.path@ == path
    &&& e.status == status
    &&& e.latency_ms == latency_ms
    &&& opt_text(e.request_body) == request_body
    &&& opt_text(e.response_body) == response_body
}

/// The log after `append` of its own last entry: that entry was appended.
pub open spec fn appended_last(old_log: Seq<RequestLog>, new_log: Seq<RequestLog>) -> bool {
    new_log == keep_last(old_log.push(new_log.last()), LOG_CAPACITY as nat)
}

/// Records a handled request, stamped with the current UTC time.
pub fn log_request(
    logs: &mut LogBuffer,
    method: String,
    path: String,
    status: u16,
    latency_ms: u64,
    request_body: Option<String>,
    response_body: Option<String>,
)
    requires
        old(logs).wf(),
    ensures
        final(logs).wf(),
        appended_last(old(logs)@, final(logs)@),
        entry_records(
            final(logs)@.last(),
            method@,
            path@,
            status,
            latency_ms,
            opt_text(request_body),
            opt_text(response_body),
        ),
{
    let entry = RequestLog { timestamp: now_rfc3339(), method, path, status, latency_ms, request_body, response_body };
    logs.append(entry);
}

proof fn lemma_keep_last_push(s: Seq<RequestLog>, e: RequestLog, n: nat)
    requires
        n > 0,
    ensures
        keep_last(keep_last(s, n).push(e), n) == keep_last(s.push(e), n),
{
    assert(keep_last(keep_last(s, n).push(e), n) =~= keep_last(s.push(e), n));
}

/// After any sequence of appends to an empty log, the log holds exactly the
/// last `LOG_CAPACITY` entries appended (all of them if fewer), in append
/// order.
pub proof fn law_log_keeps_last_appended(es: Seq<RequestLog>)
    ensures
        replay_appends(es) == keep_last(es, LOG_CAPACITY as nat),
        replay_appends(es).len() <= LOG_CAPACITY,
        es.len() > LOG_CAPACITY ==> replay_appends(es) == es.subrange(es.len() - LOG_CAPACITY, es.len() as int),
    decreases es.len(),
{
    if es.len() > 0 {
        law_log_keeps_last_appended(es.drop_last());
        lemma_keep_last_push(es.drop_last(), es.last(), LOG_CAPACITY as nat);
        assert(es.drop_last().push(es.last()) =~= es);
    } else {
        assert(replay_appends(es) =~= keep_last(es, LOG_CAPACITY as nat));
    }
}

} // verus!
