//! The proxy stage: what is sent to the backend for a request, and what is
//! made of the backend's answer. Sending is left to the embedding program.

use crate::json::{text_member, JsonValue, JsonView};
use crate::text::{str_eq, string_from_chars, to_uppercase, uppercase};
use vstd::prelude::*;
use vstd::string::StringExecFns;

verus! {

#[derive(Clone, Copy, Debug, PartialEq, Eq, Structural)]
pub enum HttpMethod {
    Get,
    Post,
    Put,
    Delete,
}

/// A backend service that requests are forwarded to under a fixed route.
#[derive(Clone, Copy, Debug, PartialEq, Eq, Structural)]
pub enum ProxyTarget {
    Nvidia,
    Github,
    Vercel,
}

/// Where a non-success status came from.
#[derive(Clone, Copy, Debug, PartialEq, Eq, Structural)]
pub enum Upstream {
    Backend,
    Target(ProxyTarget),
}

/// One call to the backend. Every call is sent with the content type
/// `application/json`.
pub struct ProxyCall {
    pub method: HttpMethod,
    pub url: String,
    /// The JSON body, for the methods that carry one.
    pub body: Option<JsonValue>,
}

/// The mathematical content of a [`ProxyCall`].
pub struct ProxyCallView {
    pub method: HttpMethod,
    pub url: Seq<char>,
    pub body: Option<JsonView>,
}

impl View for ProxyCall {
    type V = ProxyCallView;

    open spec fn view(&self) -> ProxyCallView {
        ProxyCallView {
            method: self.method,
            url: self.url@,
            body: match self.body {
                Some(b) => Some(b@),
                None => None,
            },
        }
    }
}

#[derive(Debug, PartialEq, Eq)]
pub enum ProxyError {
    /// The request names a method that is not forwarded.
    UnsupportedMethod(String),
    /// The backend answered with a status outside the success range.
    Status(Upstream, u16),
    /// The backend answered with success but its body is not JSON.
    InvalidBody,
    /// The call did not complete.
    Transport(String),
}

/// The mathematical content of a [`ProxyError`].
pub enum ProxyFault {
    UnsupportedMethod(Seq<char>),
    Status(Upstream, u16),
    InvalidBody,
    Transport(Seq<char>),
}

impl View for ProxyError {
    type V = ProxyFault;

    open spec fn view(&self) -> ProxyFault {
        match self {
            ProxyError::UnsupportedMethod(m) => ProxyFault::UnsupportedMethod(m@),
            ProxyError::Status(from, code) => ProxyFault::Status(*from, *code),
            ProxyError::InvalidBody => ProxyFault::InvalidBody,
            ProxyError::Transport(why) => ProxyFault::Transport(why@),
        }
    }
}

/// The decimal digit `d`.
pub open spec fn digit(d: nat) -> char {
    if d == 0 {
        '0'
    } else if d == 1 {
        '1'
    } else if d == 2 {
        '2'
    } else if d == 3 {
        '3'
    } else if d == 4 {
        '4'
    } else if d == 5 {
        '5'
    } else if d == 6 {
        '6'
    } else if d == 7 {
        '7'
    } else if d == 8 {
        '8'
    } else {
        '9'
    }
}

/// `n` in decimal, without leading zeros.
pub open spec fn decimal(n: nat) -> Seq<char>
    decreases n,
{
    if n < 10 {
        seq![digit(n)]
    } else {
        decimal(n / 10).push(digit(n % 10))
    }
}

pub open spec fn upstream_label(from: Upstream) -> Seq<char> {
    match from {
        Upstream::Backend => "Backend error: "@,
        Upstream::Target(ProxyTarget::Nvidia) => "NVIDIA API error: "@,
        Upstream::Target(ProxyTarget::Github) => "GitHub API error: "@,
        Upstream::Target(ProxyTarget::Vercel) => "Vercel API error: "@,
    }
}

impl ProxyFault {
    /// The text shown to the client. A backend's status is passed on as it
    /// came.
    pub open spec fn text(self) -> Seq<char> {
        match self {
            ProxyFault::UnsupportedMethod(m) => "Unsupported HTTP method: "@ + m,
            ProxyFault::Status(from, code) => upstream_label(from) + decimal(code as nat),
            ProxyFault::InvalidBody => "Backend response is not valid JSON"@,
            ProxyFault::Transport(why) => why,
        }
    }
}

/// Appends the decimal digits of `n` to `out`.
pub fn push_decimal(n: u16, out: &mut Vec<char>)
    ensures
        final(out)@ == old(out)@ + decimal(n as nat),
    decreases n,
{
    if n >= 10 {
        push_decimal(n / 10, out);
    }
    let d = n % 10;
    let c = if d == 0 {
        '0'
    } else if d == 1 {
        '1'
    } else if d == 2 {
        '2'
    } else if d == 3 {
        '3'
    } else if d == 4 {
        '4'
    } else if d == 5 {
        '5'
    } else if d == 6 {
        '6'
    } else if d == 7 {
        '7'
    } else if d == 8 {
        '8'
    } else {
        '9'
    };
    out.push(c);
    proof {
        if n >= 10 {
            assert(out@ =~= old(out)@ + decimal((n / 10) as nat).push(digit((n % 10) as nat)));
        } else {
            assert(out@ =~= old(out)@ + seq![digit(n as nat)]);
        }
    }
}

impl ProxyError {
    pub fn message(&self) -> (s: String)
        ensures
            s@ == self@.text(),
    {
        match self {
            ProxyError::UnsupportedMethod(m) => {
                let mut s = String::from_str("Unsupported HTTP method: ");
                s.append(m.as_str());
                s
            },
            ProxyError::Status(from, code) => {
                let mut s = match from {
                    Upstream::Backend => String::from_str("Backend error: "),
                    Upstream::Target(ProxyTarget::Nvidia) => String::from_str("NVIDIA API error: "),
                    Upstream::Target(ProxyTarget::Github) => String::from_str("GitHub API error: "),
                    Upstream::Target(ProxyTarget::Vercel) => String::from_str("Vercel API error: "),
                };
                let mut digits: Vec<char> = Vec::new();
                push_decimal(*code, &mut digits);
                let number = string_from_chars(&digits);
                s.append(number.as_str());
                assert(digits@ =~= decimal(*code as nat));
                s
            },
            ProxyError::InvalidBody => String::from_str("Backend response is not valid JSON"),
            ProxyError::Transport(why) => why.clone(),
        }
    }
}

/// The route that a request names, `/api/status` where it names none.
pub open spec fn request_endpoint(body: JsonView) -> Seq<char> {
    match text_member(body, "endpoint"@) {
        Some(e) => e,
        None => "/api/status"@,
    }
}

/// The method that a request names, `GET` where it names none.
pub open spec fn request_method(body: JsonView) -> Seq<char> {
    match text_member(body, "method"@) {
        Some(m) => m,
        None => "GET"@,
    }
}

/// The method that the upper-case name `name` stands for.
pub open spec fn method_named(name: Seq<char>) -> Option<HttpMethod> {
    if name == "GET"@ {
        Some(HttpMethod::Get)
    } else if name == "POST"@ {
        Some(HttpMethod::Post)
    } else if name == "PUT"@ {
        Some(HttpMethod::Put)
    } else if name == "DELETE"@ {
        Some(HttpMethod::Delete)
    } else {
        None
    }
}

pub open spec fn carries_body(method: HttpMethod) -> bool {
    method == HttpMethod::Post || method == HttpMethod::Put
}

/// The call that forwards the request `body` to the backend at `backend`:
/// the route is appended to the backend's address, the method's name is
/// read without regard to case, and the request's `data` member goes along
/// with the methods that carry a body.
pub open spec fn planned_call(backend: Seq<char>, body: JsonView) -> Result<
    ProxyCallView,
    ProxyFault,
> {
    match method_named(uppercase(request_method(body))) {
        Some(method) => Ok(
            ProxyCallView {
                method,
                url: backend + request_endpoint(body),
                body: if carries_body(method) {
                    body.member("data"@)
                } else {
                    None
                },
            },
        ),
        None => Err(ProxyFault::UnsupportedMethod(request_method(body))),
    }
}

pub open spec fn target_route(target: ProxyTarget) -> Seq<char> {
    match target {
        ProxyTarget::Nvidia => "/api/nvidia/process"@,
        ProxyTarget::Github => "/api/github/process"@,
        ProxyTarget::Vercel => "/api/vercel/process"@,
    }
}

/// A status in the success range.
pub open spec fn success_status(status: u16) -> bool {
    200 <= status < 300
}

/// What is made of the backend's answer: the body of a success, where it
/// is JSON; the status of anything else, as it came.
pub open spec fn response_outcome(from: Upstream, status: u16, body: Option<JsonView>) -> Result<
    JsonView,
    ProxyFault,
> {
    if success_status(status) {
        match body {
            Some(v) => Ok(v),
            None => Err(ProxyFault::InvalidBody),
        }
    } else {
        Err(ProxyFault::Status(from, status))
    }
}

pub open spec fn planned_view(r: Result<ProxyCall, ProxyError>) -> Result<ProxyCallView, ProxyFault> {
    match r {
        Ok(c) => Ok(c@),
        Err(e) => Err(e@),
    }
}

pub open spec fn response_view(r: Result<JsonValue, ProxyError>) -> Result<JsonView, ProxyFault> {
    match r {
        Ok(v) => Ok(v@),
        Err(e) => Err(e@),
    }
}

pub open spec fn body_view(body: Option<JsonValue>) -> Option<JsonView> {
    match body {
        Some(v) => Some(v@),
        None => None,
    }
}

/// The method that an upper-case name stands for.
pub fn method_from_name(name: &str) -> (m: Option<HttpMethod>)
    ensures
        m == method_named(name@),
{
    if str_eq(name, "GET") {
        Some(HttpMethod::Get)
    } else if str_eq(name, "POST") {
        Some(HttpMethod::Post)
    } else if str_eq(name, "PUT") {
        Some(HttpMethod::Put)
    } else if str_eq(name, "DELETE") {
        Some(HttpMethod::Delete)
    } else {
        None
    }
}

pub fn is_success(status: u16) -> (r: bool)
    ensures
        r == success_status(status),
{
    200 <= status && status < 300
}

pub struct ProxyManager {
    pub backend_url: String,
}

impl ProxyManager {
    pub fn new(backend_url: String) -> (m: Self)
        ensures
            m.backend_url@ == backend_url@,
    {
        ProxyManager { backend_url }
    }

    /// `route` at the backend.
    pub fn url_for(&self, route: &str) -> (url: String)
        ensures
            url@ == self.backend_url@ + route@,
    {
        let mut url = self.backend_url.clone();
        url.append(route);
        url
    }

    /// The call for a request whose method, in upper case, is `name`.
    pub fn plan_with_method(&self, body: &JsonValue, name: &str) -> (r: Result<
        ProxyCall,
        ProxyError,
    >)
        ensures
            planned_view(r) == match method_named(name@) {
                Some(method) => Ok::<ProxyCallView, ProxyFault>(
                    ProxyCallView {
                        method,
                        url: self.backend_url@ + request_endpoint(body@),
                        body: if carries_body(method) {
                            body@.member("data"@)
                        } else {
                            None
                        },
                    },
                ),
                None => Err::<ProxyCallView, ProxyFault>(
                    ProxyFault::UnsupportedMethod(request_method(body@)),
                ),
            },
    {
        let endpoint = match body.get_str("endpoint") {
            Some(e) => e,
            None => "/api/status",
        };
        match method_from_name(name) {
            Some(method) => {
                let data = match method {
                    HttpMethod::Post | HttpMethod::Put => match body.get("data") {
                        Some(d) => Some(d.clone()),
                        None => None,
                    },
                    _ => None,
                };
                Ok(ProxyCall { method, url: self.url_for(endpoint), body: data })
            },
            None => {
                let given = match body.get_str("method") {
                    Some(m) => m,
                    None => "GET",
                };
                Err(ProxyError::UnsupportedMethod(given.to_owned()))
            },
        }
    }

    /// The call that forwards the request `body`.
    pub fn forward_request(&self, body: &JsonValue) -> (r: Result<ProxyCall, ProxyError>)
        ensures
            planned_view(r) == planned_call(self.backend_url@, body@),
    {
        let given = match body.get_str("method") {
            Some(m) => m,
            None => "GET",
        };
        let name = to_uppercase(given);
        self.plan_with_method(body, name.as_str())
    }

    /// What is made of the backend's answer to a forwarded request: `body`
    /// is the answer's body where it is JSON.
    pub fn read_response(from: Upstream, status: u16, body: Option<JsonValue>) -> (r: Result<
        JsonValue,
        ProxyError,
    >)
        ensures
            response_view(r) == response_outcome(from, status, body_view(body)),
    {
        if is_success(status) {
            match body {
                Some(v) => Ok(v),
                None => Err(ProxyError::InvalidBody),
            }
        } else {
            Err(ProxyError::Status(from, status))
        }
    }

    /// The address of the backend's health route.
    pub fn health_url(&self) -> (url: String)
        ensures
            url@ == self.backend_url@ + "/health"@,
    {
        self.url_for("/health")
    }

    /// Whether the backend is healthy, from the status that its health
    /// route answered with; a call that did not complete is an error.
    pub fn health_check(reply: Result<u16, String>) -> (r: Result<bool, ProxyError>)
        ensures
            match reply {
                Ok(status) => r == Ok::<bool, ProxyError>(success_status(status)),
                Err(why) => r matches Err(e) && e@ == ProxyFault::Transport(why@),
            },
    {
        match reply {
            Ok(status) => Ok(is_success(status)),
            Err(why) => Err(ProxyError::Transport(why)),
        }
    }

    /// The call that posts `data` to the fixed route of `target`.
    pub fn forward_to(&self, target: ProxyTarget, data: JsonValue) -> (call: ProxyCall)
        ensures
            call@ == (ProxyCallView {
                method: HttpMethod::Post,
                url: self.backend_url@ + target_route(target),
                body: Some(data@),
            }),
    {
        let route = match target {
            ProxyTarget::Nvidia => "/api/nvidia/process",
            ProxyTarget::Github => "/api/github/process",
            ProxyTarget::Vercel => "/api/vercel/process",
        };
        ProxyCall { method: HttpMethod::Post, url: self.url_for(route), body: Some(data) }
    }

    pub fn forward_nvidia_request(&self, nvidia_data: JsonValue) -> (call: ProxyCall)
        ensures
            call@ == (ProxyCallView {
                method: HttpMethod::Post,
                url: self.backend_url@ + target_route(ProxyTarget::Nvidia),
                body: Some(nvidia_data@),
            }),
    {
        self.forward_to(ProxyTarget::Nvidia, nvidia_data)
    }

    pub fn forward_github_request(&self, github_data: JsonValue) -> (call: ProxyCall)
        ensures
            call@ == (ProxyCallView {
                method: HttpMethod::Post,
                url: self.backend_url@ + target_route(ProxyTarget::Github),
                body: Some(github_data@),
            }),
    {
        self.forward_to(ProxyTarget::Github, github_data)
    }

    pub fn forward_vercel_request(&self, vercel_data: JsonValue) -> (call: ProxyCall)
        ensures
            call@ == (ProxyCallView {
                method: HttpMethod::Post,
                url: self.backend_url@ + target_route(ProxyTarget::Vercel),
                body: Some(vercel_data@),
            }),
    {
        self.forward_to(ProxyTarget::Vercel, vercel_data)
    }
}

} // verus!
