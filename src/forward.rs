//! The upstream forwarder: the outbound call that mirrors an inbound request,
//! and what is returned and logged once the upstream has answered or failed.
use vstd::prelude::*;

verus! {

/// An inbound header: its name, and its value when that is valid text.
pub type InboundHeader = (String, Option<String>);

/// An outbound call to make, once.
pub struct OutboundRequest {
    pub method: String,
    pub url: String,
    pub headers: Vec<(String, String)>,
    /// Attached only when the inbound body was not empty.
    pub body: Option<Vec<u8>>,
}

/// The headers of `hs` whose value is text, in order.
pub open spec fn text_headers(hs: Seq<InboundHeader>) -> Seq<(String, String)>
    decreases hs.len(),
{
    if hs.len() == 0 {
        Seq::<(String, String)>::empty()
    } else {
        let rest = text_headers(hs.drop_last());
        match hs.last().1 {
            Some(v) => rest.push((hs.last().0, v)),
            None => rest,
        }
    }
}

/// The body to attach for inbound bytes `b`: none when `b` is empty, else `b`
/// byte for byte.
pub open spec fn body_to_attach(b: Vec<u8>) -> Option<Vec<u8>> {
    if b@.len() == 0 {
        None
    } else {
        Some(b)
    }
}

/// The headers of `hs` whose value is text, in order; the others are dropped.
pub fn keep_text_headers(hs: &Vec<InboundHeader>) -> (r: Vec<(String, String)>)
    ensures
        r@ == text_headers(hs@),
{
    let mut out: Vec<(String, String)> = Vec::new();
    let mut i: usize = 0;
    while i < hs.len()
        invariant
            i <= hs@.len(),
            out@ == text_headers(hs@.subrange(0, i as int)),
        decreases hs@.len() - i,
    {
        assert(hs@.subrange(0, i as int + 1).drop_last() =~= hs@.subrange(0, i as int));
        match &hs[i].1 {
            Some(v) => out.push((hs[i].0.clone(), v.clone())),
            None => {},
        }
        i = i + 1;
    }
    assert(hs@.subrange(0, hs@.len() as int) =~= hs@);
    out
}

/// The outbound call for an inbound request: same method, the upstream base
/// followed verbatim by `target`, the inbound headers whose value is text, and
/// the body only when it is not empty.
pub fn plan_forward(base: &str, target: &str, method: String, headers: &Vec<InboundHeader>, body: Vec<u8>) -> (r: OutboundRequest)
    ensures
        r.method == method,
        r.url@ == base@ + target@,
        r.headers@ == text_headers(headers@),
        r.body == body_to_attach(body),
        body@.len() == 0 ==> r.body is None,
        body@.len() > 0 ==> r.body == Some(body),
{
    let mut url = String::from_str(base);
    url.append(target);
    let body = if body.len() == 0 { None } else { Some(body) };
    OutboundRequest { method, url, headers: keep_text_headers(headers), body }
}

/// What the upstream sent back, relayed to the client as it is.
pub struct UpstreamResponse {
    pub status: u16,
    /// Header names and raw values.
    pub headers: Vec<(String, Vec<u8>)>,
    pub body: Vec<u8>,
}

/// The outcome of one outbound call.
pub enum UpstreamResult {
    Answered(UpstreamResponse),
    /// The call failed before any response (refused, timed out, no such host).
    Failed(String),
}

/// The diagnostic text for a failed upstream call.
pub open spec fn upstream_diagnostic(message: Seq<char>) -> Seq<char> {
    "Bad gateway: "@ + message
}

/// Builds the diagnostic text for a failed upstream call.
pub fn diagnostic_for(message: &str) -> (r: String)
    ensures
        r@ == upstream_diagnostic(message@),
{
    let mut d = String::from_str("Bad gateway: ");
    d.append(message);
    d
}

} // verus!
