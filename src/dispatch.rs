//! Decisions for a request that no fixed endpoint serves: a registered route
//! is answered locally with a fixed JSON acknowledgment or forwarded upstream,
//! and logged; anything else falls back to the single-page-application shell,
//! or to 404 when the shell is missing. The fallback is not logged.
use vstd::prelude::*;
use crate::forward::{
    InboundHeader, OutboundRequest, UpstreamResponse, UpstreamResult, body_to_attach, diagnostic_for,
    plan_forward, text_headers, upstream_diagnostic,
};
use crate::registry::{RouteConfig, RouteMode, RouteRegistry, any_hit, is_first_hit, upper_of};
use crate::request_log::{
    LogBuffer, appended_last, decode_utf8, entry_records, log_request, opt_text, utf8_text,
};

verus! {

/// A response to hand back to the client.
#[derive(Debug, Clone)]
pub struct HttpReply {
    pub status: u16,
    pub content_type: String,
    pub body: String,
}

/// `r` has this status, content type and body.
pub open spec fn reply_is(r: HttpReply, status: u16, content_type: Seq<char>, body: Seq<char>) -> bool {
    r.status == status && r.content_type@ == content_type && r.body@ == body
}

/// What `serde_json` writes for a JSON string value holding `s`.
pub uninterp spec fn json_quoted(s: Seq<char>) -> Seq<char>;

/// Relies on `serde_json::Value::String` and its `Display`: the compact JSON
/// text of a string value, which depends on the characters alone.
#[verifier::external_body]
fn json_quote(s: &str) -> (r: String)
    ensures
        r@ == json_quoted(s@),
{
    serde_json::Value::String(s.to_string()).to_string()
}

/// The acknowledgment body for a matched route, given the JSON text of the
/// method and of the path (keys in sorted order).
pub open spec fn matched_body_of(method_json: Seq<char>, path_json: Seq<char>) -> Seq<char> {
    "{\"message\":\"Dynamic route matched\",\"method\":"@ + method_json + ",\"path\":"@ + path_json + "}"@
}

/// The acknowledgment for a request that a handled route serves.
pub open spec fn matched_reply(r: HttpReply, method: Seq<char>, path: Seq<char>) -> bool {
    reply_is(r, 200, "application/json"@, matched_body_of(json_quoted(method), json_quoted(path)))
}

/// The 404 body sent when the application shell is missing.
pub open spec fn not_found_body() -> Seq<char> {
    "{\"error\":\"Not Found\"}"@
}

/// Builds the acknowledgment body from the JSON text of the method and of the
/// path.
pub fn matched_body_from(method_json: &str, path_json: &str) -> (r: String)
    ensures
        r@ == matched_body_of(method_json@, path_json@),
{
    let mut body = String::from_str("{\"message\":\"Dynamic route matched\",\"method\":");
    body.append(method_json);
    body.append(",\"path\":");
    body.append(path_json);
    body.append("}");
    body
}

/// The acknowledgment body for a matched route: a JSON object with a fixed
/// message and the request's method and path.
pub fn matched_body(method: &str, path: &str) -> (r: String)
    ensures
        r@ == matched_body_of(json_quoted(method@), json_quoted(path@)),
{
    let m = json_quote(method);
    let p = json_quote(path);
    matched_body_from(m.as_str(), p.as_str())
}

/// The reply for a request that no route serves: the application shell with
/// status 200 when its text is at hand, else 404 with a JSON error.
pub fn spa_index(index_html: Option<String>) -> (r: HttpReply)
    ensures
        match index_html {
            Some(html) => reply_is(r, 200, "text/html"@, html@),
            None => reply_is(r, 404, "application/json"@, not_found_body()),
        },
{
    match index_html {
        Some(html) => HttpReply { status: 200, content_type: String::from_str("text/html"), body: html },
        None => HttpReply {
            status: 404,
            content_type: String::from_str("application/json"),
            body: String::from_str("{\"error\":\"Not Found\"}"),
        },
    }
}

/// The upstream path for a request to `path` that `route` serves.
pub open spec fn target_of(route: RouteConfig, path: Seq<char>) -> Seq<char> {
    match route.target_path {
        Some(t) => t@,
        None => path,
    }
}

/// What to do with a request that no fixed endpoint serves.
pub enum Dispatch {
    /// Answered locally; the request is already logged.
    Reply(HttpReply),
    /// Make this call upstream, then hand its outcome to `finish_forward`.
    Forward { call: OutboundRequest, request_text: Option<String> },
    /// No route matched: serve `spa_index`.
    Fallback,
}

/// Serves a request from the registered routes. The first route that matches
/// (method ignoring case, exact path) decides: a handled route is answered
/// with the acknowledgment and logged with status 200; a proxy route gives the
/// call to make to `upstream_base` followed by the route's target path (the
/// request's path when it has none). When no route matches, the log is
/// untouched and the caller falls back to `spa_index`.
pub fn dynamic_route_handler(
    routes: &RouteRegistry,
    logs: &mut LogBuffer,
    upstream_base: &str,
    method: String,
    path: String,
    headers: &Vec<InboundHeader>,
    body: Vec<u8>,
    elapsed_ms: u64,
) -> (r: Dispatch)
    requires
        old(logs).wf(),
    ensures
        final(logs).wf(),
        (r is Fallback) == !any_hit(routes@, upper_of(method@), path@),
        match r {
            Dispatch::Reply(reply) => exists|i: int|
                {
                    &&& is_first_hit(routes@, upper_of(method@), path@, i)
                    &&& routes@[i].mode == RouteMode::Handled
                    &&& matched_reply(reply, method@, path@)
                    &&& appended_last(old(logs)@, final(logs)@)
                    &&& entry_records(
                        final(logs)@.last(),
                        method@,
                        path@,
                        200,
                        elapsed_ms,
                        utf8_text(body@),
                        Some(reply.body@),
                    )
                },
            Dispatch::Forward { call, request_text } => exists|i: int|
                {
                    &&& is_first_hit(routes@, upper_of(method@), path@, i)
                    &&& routes@[i].mode == RouteMode::Proxy
                    &&& call.method == method
                    &&& call.url@ == upstream_base@ + target_of(routes@[i], path@)
                    &&& call.headers@ == text_headers(headers@)
                    &&& call.body == body_to_attach(body)
                    &&& opt_text(request_text) == utf8_text(body@)
                    &&& final(logs)@ == old(logs)@
                },
            Dispatch::Fallback => final(logs)@ == old(logs)@,
        },
{
    match routes.find(method.as_str(), path.as_str()) {
        Some(route) => {
            let request_text = decode_utf8(&body);
            match route.mode {
                RouteMode::Handled => {
                    let ack = matched_body(method.as_str(), path.as_str());
                    let logged = ack.clone();
                    log_request(logs, method, path, 200, elapsed_ms, request_text, Some(logged));
                    Dispatch::Reply(HttpReply { status: 200, content_type: String::from_str("application/json"), body: ack })
                },
                RouteMode::Proxy => {
                    let call = match &route.target_path {
                        Some(t) => plan_forward(upstream_base, t.as_str(), method, headers, body),
                        None => plan_forward(upstream_base, path.as_str(), method, headers, body),
                    };
                    Dispatch::Forward { call, request_text }
                },
            }
        },
        None => Dispatch::Fallback,
    }
}

/// What the client gets for a forwarded request.
pub enum ForwardReply {
    /// The upstream's status, headers and body, as they came.
    Relayed(UpstreamResponse),
    /// The upstream could not be reached.
    BadGateway(HttpReply),
}

/// Ends a forwarded request once the upstream call is over, and logs it. An
/// answer is relayed as it came and logged with its status; a failed call
/// gives the client 502 with a diagnostic that embeds the failure's message,
/// and is logged with status 500 and that same diagnostic as response body.
pub fn finish_forward(
    logs: &mut LogBuffer,
    method: String,
    path: String,
    request_text: Option<String>,
    latency_ms: u64,
    result: UpstreamResult,
) -> (r: ForwardReply)
    requires
        old(logs).wf(),
    ensures
        final(logs).wf(),
        appended_last(old(logs)@, final(logs)@),
        match result {
            UpstreamResult::Answered(resp) => {
                &&& r == ForwardReply::Relayed(resp)
                &&& entry_records(
                    final(logs)@.last(),
                    method@,
                    path@,
                    resp.status,
                    latency_ms,
                    opt_text(request_text),
                    utf8_text(resp.body@),
                )
            },
            UpstreamResult::Failed(message) => {
                &&& r is BadGateway
                &&& reply_is(r->BadGateway_0, 502, "text/plain"@, upstream_diagnostic(message@))
                &&& entry_records(
                    final(logs)@.last(),
                    method@,
                    path@,
                    500,
                    latency_ms,
                    opt_text(request_text),
                    Some(upstream_diagnostic(message@)),
                )
            },
        },
{
    match result {
        UpstreamResult::Answered(resp) => {
            let response_text = decode_utf8(&resp.body);
            log_request(logs, method, path, resp.status, latency_ms, request_text, response_text);
            ForwardReply::Relayed(resp)
        },
        UpstreamResult::Failed(message) => {
            let diagnostic = diagnostic_for(message.as_str());
            let logged = diagnostic.clone();
            log_request(logs, method, path, 500, latency_ms, request_text, Some(logged));
            ForwardReply::BadGateway(
                HttpReply { status: 502, content_type: String::from_str("text/plain"), body: diagnostic },
            )
        },
    }
}

} // verus!
