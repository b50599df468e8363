//! The dynamic reverse proxy: where a request for a workload is forwarded, and
//! what the caller is answered with.
//!
//! The proxy only ever targets the local host. Which port it targets is read
//! from the registry anew for every request; where that read fails, the
//! request is answered with the reason and goes no further.

use crate::registry::{port_of, Ports};
use crate::text::{chars_of, same};
use vstd::prelude::*;
use vstd::string::StringExecFns;

verus! {

/// What to do with a proxied request.
#[derive(Debug, PartialEq, Eq)]
pub enum ProxyPlan {
    /// Answer with `response`; no backend is contacted.
    Respond { response: String },
    /// Send a GET without a body to `url`.
    Get { url: String },
    /// Send a POST with `body` to `url`.
    Post { url: String, body: Vec<u8> },
}

/// A [`ProxyPlan`] as plain text and bytes.
pub enum ProxyPlanView {
    Respond { response: Seq<char> },
    Get { url: Seq<char> },
    Post { url: Seq<char>, body: Seq<u8> },
}

impl View for ProxyPlan {
    type V = ProxyPlanView;

    open spec fn view(&self) -> ProxyPlanView {
        match *self {
            ProxyPlan::Respond { response } => ProxyPlanView::Respond { response: response@ },
            ProxyPlan::Get { url } => ProxyPlanView::Get { url: url@ },
            ProxyPlan::Post { url, body } => ProxyPlanView::Post { url: url@, body: body@ },
        }
    }
}

/// How the backend answered a forwarded request.
#[derive(Debug, PartialEq, Eq)]
pub enum BackendReply {
    /// The backend responded, and this is the text of its body.
    Body(String),
    /// The backend responded, but its body could not be read as text.
    Unreadable,
    /// The request did not get through; the text says why.
    Failed(String),
}

/// The prefix of every target: the proxy forwards to the local host only.
pub open spec fn local_origin() -> Seq<char> {
    "http://127.0.0.1:"@
}

/// The address that a request for `sub_path` is forwarded to when the
/// workload is registered under `port`.
pub open spec fn target_of(port: Seq<char>, sub_path: Seq<char>) -> Seq<char> {
    local_origin() + port + "/"@ + sub_path
}

/// The answer to a request for a workload that is not registered.
pub open spec fn not_found_message(workload_id: Seq<char>) -> Seq<char> {
    "No container found for ID: "@ + workload_id
}

/// The answer to a request whose method is neither GET nor POST.
pub open spec fn unsupported_method_message(method: Seq<char>) -> Seq<char> {
    "Unsupported method: "@ + method
}

/// The answer to a request whose workload could not be looked up, because the
/// registry's store failed the read.
pub open spec fn lookup_failed_message(workload_id: Seq<char>, reason: Seq<char>) -> Seq<char> {
    "Error looking up container "@ + workload_id + ": "@ + reason
}

/// The answer to a request that did not get through to the backend.
pub open spec fn proxy_failed_message(reason: Seq<char>) -> Seq<char> {
    "Error proxying request: "@ + reason
}

/// The answer to a request whose response body could not be read.
pub open spec fn unreadable_body_message() -> Seq<char> {
    "Error reading body"@
}

/// What to do with a request for `workload_id`, given what the registry holds
/// for it.
pub open spec fn plan_of(
    registered: Option<Seq<char>>,
    workload_id: Seq<char>,
    sub_path: Seq<char>,
    method: Seq<char>,
    body: Seq<u8>,
) -> ProxyPlanView {
    match registered {
        None => ProxyPlanView::Respond { response: not_found_message(workload_id) },
        Some(port) => if method == "GET"@ {
            ProxyPlanView::Get { url: target_of(port, sub_path) }
        } else if method == "POST"@ {
            ProxyPlanView::Post { url: target_of(port, sub_path), body }
        } else {
            ProxyPlanView::Respond { response: unsupported_method_message(method) }
        },
    }
}

/// What to do with a request for `workload_id`, given how the lookup in the
/// registry went: its answer, or the reason why the store failed the read.
pub open spec fn routed_plan_of(
    lookup: Result<Option<Seq<char>>, Seq<char>>,
    workload_id: Seq<char>,
    sub_path: Seq<char>,
    method: Seq<char>,
    body: Seq<u8>,
) -> ProxyPlanView {
    match lookup {
        Ok(registered) => plan_of(registered, workload_id, sub_path, method, body),
        Err(reason) => ProxyPlanView::Respond {
            response: lookup_failed_message(workload_id, reason),
        },
    }
}

/// The outcome of a lookup as plain text.
pub open spec fn lookup_of(lookup: Result<Option<String>, String>) -> Result<
    Option<Seq<char>>,
    Seq<char>,
> {
    match lookup {
        Ok(registered) => Ok(chars_of(registered)),
        Err(reason) => Err(reason@),
    }
}

/// What the caller is answered with after the backend replied.
pub open spec fn response_of(reply: BackendReply) -> Seq<char> {
    match reply {
        BackendReply::Body(text) => text@,
        BackendReply::Unreadable => unreadable_body_message(),
        BackendReply::Failed(reason) => proxy_failed_message(reason@),
    }
}

/// Builds the address that a request for `sub_path` is forwarded to when the
/// workload is registered under `port`.
pub fn target_url(port: &str, sub_path: &str) -> (url: String)
    ensures
        url@ == target_of(port@, sub_path@),
{
    String::from_str("http://127.0.0.1:").concat(port).concat("/").concat(sub_path)
}

/// Decides what to do with a request for `workload_id`.
///
/// `lookup` is how the lookup of `workload_id` in the registry went: what the
/// registry holds for it, or the reason why its store failed the read.
/// `sub_path` is the rest of the request's path, `method` its method by name,
/// `body` its body. A failed lookup and a workload that is not registered are
/// answered at once. Otherwise a GET is forwarded without a body, a POST with
/// the request's body, and any other method is answered at once.
pub fn reverse_proxy(
    lookup: Result<Option<String>, String>,
    workload_id: &str,
    sub_path: &str,
    method: &str,
    body: Vec<u8>,
) -> (plan: ProxyPlan)
    ensures
        plan@ == routed_plan_of(lookup_of(lookup), workload_id@, sub_path@, method@, body@),
{
    match lookup {
        Err(reason) => ProxyPlan::Respond {
            response: String::from_str("Error looking up container ").concat(workload_id).concat(
                ": ",
            ).concat(reason.as_str()),
        },
        Ok(None) => ProxyPlan::Respond {
            response: String::from_str("No container found for ID: ").concat(workload_id),
        },
        Ok(Some(port)) => {
            if same(method, "GET") {
                ProxyPlan::Get { url: target_url(port.as_str(), sub_path) }
            } else if same(method, "POST") {
                ProxyPlan::Post { url: target_url(port.as_str(), sub_path), body }
            } else {
                ProxyPlan::Respond {
                    response: String::from_str("Unsupported method: ").concat(method),
                }
            }
        },
    }
}

/// Decides what the caller is answered with after the backend replied: the
/// body as it came, or a line that says what went wrong.
pub fn relay(reply: BackendReply) -> (response: String)
    ensures
        response@ == response_of(reply),
{
    match reply {
        BackendReply::Body(text) => text,
        BackendReply::Unreadable => String::from_str("Error reading body"),
        BackendReply::Failed(reason) => String::from_str("Error proxying request: ").concat(
            reason.as_str(),
        ),
    }
}

/// A request for a workload that the registry does not hold is answered
/// with the not-found message that names the workload, whatever its method,
/// and is not forwarded.
pub proof fn lemma_unregistered_is_not_found(
    ports: Ports,
    workload_id: Seq<char>,
    sub_path: Seq<char>,
    method: Seq<char>,
    body: Seq<u8>,
)
    requires
        !ports.dom().contains(workload_id),
    ensures
        port_of(ports, workload_id) is None,
        plan_of(port_of(ports, workload_id), workload_id, sub_path, method, body)
            == (ProxyPlanView::Respond { response: not_found_message(workload_id) }),
{
}

/// A GET for a registered workload is forwarded, without a body, to the
/// local host at the registered port, with the request's sub-path.
pub proof fn lemma_get_is_forwarded(
    ports: Ports,
    workload_id: Seq<char>,
    sub_path: Seq<char>,
    body: Seq<u8>,
)
    requires
        ports.dom().contains(workload_id),
    ensures
        plan_of(port_of(ports, workload_id), workload_id, sub_path, "GET"@, body)
            == (ProxyPlanView::Get { url: target_of(ports[workload_id], sub_path) }),
{
}

/// A POST for a registered workload is forwarded to the same address as a
/// GET, with the request's body byte for byte.
pub proof fn lemma_post_relays_body(
    ports: Ports,
    workload_id: Seq<char>,
    sub_path: Seq<char>,
    body: Seq<u8>,
)
    requires
        ports.dom().contains(workload_id),
    ensures
        plan_of(port_of(ports, workload_id), workload_id, sub_path, "POST"@, body)
            == (ProxyPlanView::Post { url: target_of(ports[workload_id], sub_path), body }),
{
    reveal_strlit("GET");
    reveal_strlit("POST");
    assert("GET"@.len() != "POST"@.len());
}

/// A request whose method is neither GET nor POST is never forwarded, and
/// where its workload is registered it is answered with the
/// unsupported-method message that names the method.
pub proof fn lemma_other_method_is_not_forwarded(
    registered: Option<Seq<char>>,
    workload_id: Seq<char>,
    sub_path: Seq<char>,
    method: Seq<char>,
    body: Seq<u8>,
)
    requires
        method != "GET"@,
        method != "POST"@,
    ensures
        plan_of(registered, workload_id, sub_path, method, body) is Respond,
        registered is Some ==> plan_of(registered, workload_id, sub_path, method, body)
            == (ProxyPlanView::Respond { response: unsupported_method_message(method) }),
{
}

/// The port written last for a workload is the one that its next request is
/// forwarded to.
pub proof fn lemma_target_follows_registry(
    ports: Ports,
    workload_id: Seq<char>,
    port: Seq<char>,
    sub_path: Seq<char>,
    body: Seq<u8>,
)
    ensures
        plan_of(
            port_of(ports.insert(workload_id, port), workload_id),
            workload_id,
            sub_path,
            "GET"@,
            body,
        ) == (ProxyPlanView::Get { url: target_of(port, sub_path) }),
{
}

/// A request whose lookup failed is answered with the reason, tagged with
/// the workload, whatever its method, and is not forwarded.
pub proof fn lemma_failed_lookup_is_not_forwarded(
    reason: Seq<char>,
    workload_id: Seq<char>,
    sub_path: Seq<char>,
    method: Seq<char>,
    body: Seq<u8>,
)
    ensures
        routed_plan_of(Err(reason), workload_id, sub_path, method, body)
            == (ProxyPlanView::Respond { response: lookup_failed_message(workload_id, reason) }),
        routed_plan_of(Err(reason), workload_id, sub_path, method, body) is Respond,
{
}

/// A target is the local origin, the port, one slash and the sub-path as it
/// was given, with nothing between them: with an empty sub-path it ends in
/// that slash, and with a sub-path that does not begin with a slash no two
/// slashes meet behind the port.
pub proof fn lemma_target_parts(port: Seq<char>, sub_path: Seq<char>)
    ensures
        ({
            let url = target_of(port, sub_path);
            let origin = local_origin().len() as int;
            let slash = origin + port.len();
            &&& url.len() == slash + 1 + sub_path.len()
            &&& url.subrange(0, origin) == local_origin()
            &&& url.subrange(origin, slash) == port
            &&& url[slash] == '/'
            &&& url.subrange(slash + 1, url.len() as int) == sub_path
            &&& sub_path.len() == 0 ==> url == local_origin() + port + "/"@
            &&& sub_path.len() > 0 && sub_path[0] != '/' ==> url[slash + 1] != '/'
        }),
{
    reveal_strlit("/");
    let url = target_of(port, sub_path);
    let origin = local_origin().len() as int;
    let slash = origin + port.len();
    assert("/"@.len() == 1 && "/"@[0] == '/');
    assert(url.subrange(0, origin) =~= local_origin());
    assert(url.subrange(origin, slash) =~= port);
    assert(url.subrange(slash + 1, url.len() as int) =~= sub_path);
    if sub_path.len() == 0 {
        assert(url =~= local_origin() + port + "/"@);
    }
}

} // verus!
