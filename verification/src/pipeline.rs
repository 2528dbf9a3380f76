//! The pipeline dispatcher: the stages run in order on one request,
//! and the envelope that every exit path returns.
//!
//! Security scan, rate limit and input validation run here, one after the
//! other, and the first failure ends the request. What the dispatcher hands
//! back is either that failure or the one call to make to the backend; the
//! embedding program makes the call and gives the answer to
//! [`finish_request`].

use crate::auth::{
    claims_judgement, jwt_claims, permission_outcome, AuthManager, Claims, ClaimsView, User,
};
use crate::cache::{default_policy, CacheEntryView, CacheManager};
use crate::clock::elapsed;
use crate::ident::{identifier_text, new_id};
use crate::json::{JsonValue, JsonView};
use crate::proxy::{planned_call, ProxyCall, ProxyCallView, ProxyError, ProxyFault, ProxyManager};
use crate::rate_limit::{
    admitted, call_admitted, law_policy_admits_exactly_max, lemma_calls_run_the_counter,
    lemma_run_within_window, table_after, table_after_calls, RateLimitEntry, RateLimitManager,
    DEFAULT_MAX_REQUESTS, DEFAULT_WINDOW_MS,
};
use crate::security::{default_rules, request_verdict, SecurityIssue, SecurityManager};
use crate::strmap::StringMap;
use crate::validation::{
    default_email_pattern, default_url_pattern, input_verdict, ValidationError, ValidationManager,
};
use vstd::prelude::*;
use vstd::string::StringExecFns;

verus! {

/// The class of status that a response is sent with.
#[derive(Clone, Copy, Debug, PartialEq, Eq, Structural)]
pub enum StatusClass {
    Success,
    BadRequest,
    Unauthorized,
    Forbidden,
    TooManyRequests,
    InternalError,
    UpstreamError,
}

impl StatusClass {
    pub open spec fn spec_code(self) -> u16 {
        match self {
            StatusClass::Success => 200,
            StatusClass::BadRequest => 400,
            StatusClass::Unauthorized => 401,
            StatusClass::Forbidden => 403,
            StatusClass::TooManyRequests => 429,
            StatusClass::InternalError => 500,
            StatusClass::UpstreamError => 500,
        }
    }

    /// The HTTP status code of the class.
    pub fn code(&self) -> (c: u16)
        ensures
            c == self.spec_code(),
    {
        match self {
            StatusClass::Success => 200,
            StatusClass::BadRequest => 400,
            StatusClass::Unauthorized => 401,
            StatusClass::Forbidden => 403,
            StatusClass::TooManyRequests => 429,
            StatusClass::InternalError => 500,
            StatusClass::UpstreamError => 500,
        }
    }
}

/// The uniform envelope of every response.
#[derive(Debug)]
pub struct ApiResponse<T> {
    pub success: bool,
    pub data: Option<T>,
    pub error: Option<String>,
    /// The correlation id of the request.
    pub request_id: String,
}

impl<T> ApiResponse<T> {
    /// The success envelope for `data` under the correlation id
    /// `request_id`.
    pub fn success_with_id(data: T, request_id: String) -> (r: Self)
        ensures
            r.success,
            r.data == Some(data),
            r.error is None,
            r.request_id == request_id,
    {
        ApiResponse { success: true, data: Some(data), error: None, request_id }
    }

    /// The error envelope for `error` under the correlation id
    /// `request_id`.
    pub fn error_with_id(error: String, request_id: String) -> (r: Self)
        ensures
            !r.success,
            r.data is None,
            r.error == Some(error),
            r.request_id == request_id,
    {
        ApiResponse { success: false, data: None, error: Some(error), request_id }
    }

    /// The success envelope for `data` under a fresh correlation id.
    pub fn success(data: T) -> (r: Self)
        ensures
            r.success,
            r.data == Some(data),
            r.error is None,
            identifier_text(r.request_id@),
    {
        Self::success_with_id(data, new_id())
    }

    /// The error envelope for `error` under a fresh correlation id.
    pub fn error(error: String) -> (r: Self)
        ensures
            !r.success,
            r.data is None,
            r.error == Some(error),
            identifier_text(r.request_id@),
    {
        Self::error_with_id(error, new_id())
    }
}

/// What the gateway remembers of a session.
#[derive(Debug)]
pub struct SessionData {
    pub user_id: String,
    pub permissions: Vec<String>,
    pub created_at: u64,
    pub last_accessed: u64,
}

/// The components that a request passes through.
pub struct MiddlewareState {
    pub auth: AuthManager,
    pub proxy: ProxyManager,
    pub security: SecurityManager,
    pub validation: ValidationManager,
    pub cache: CacheManager,
    pub rate_limit: RateLimitManager,
    pub sessions: StringMap<SessionData>,
}

/// How the stages ended.
pub enum GateDecision {
    /// A stage failed: the request ends with this status and message.
    Reject { status: StatusClass, message: String },
    /// Every stage passed: this call is to be made to the backend, once.
    Forward { call: ProxyCall },
}

/// The mathematical content of a [`GateDecision`].
pub enum GateOutcome {
    Reject { status: StatusClass, message: Seq<char> },
    Forward { call: ProxyCallView },
}

impl View for GateDecision {
    type V = GateOutcome;

    open spec fn view(&self) -> GateOutcome {
        match self {
            GateDecision::Reject { status, message } => GateOutcome::Reject {
                status: *status,
                message: message@,
            },
            GateDecision::Forward { call } => GateOutcome::Forward { call: call@ },
        }
    }
}

/// One run of the dispatcher: how the stages ended, under the one
/// correlation id that tags the request in the log and in the response.
pub struct Dispatch {
    pub request_id: String,
    pub decision: GateDecision,
}

/// The identifier under which the dispatcher counts requests.
pub open spec fn gate_identifier() -> Seq<char> {
    "default"@
}

/// How the proxy stage ends, from the call that was planned.
pub open spec fn proxy_stage(planned: Result<ProxyCallView, ProxyFault>) -> GateOutcome {
    match planned {
        Ok(call) => GateOutcome::Forward { call },
        Err(fault) => GateOutcome::Reject {
            status: StatusClass::InternalError,
            message: "Proxy error: "@ + fault.text(),
        },
    }
}

/// How the stages after the security scan end, from what each of them
/// found.
pub open spec fn later_stages(
    admitted: bool,
    validation: Result<(), ValidationError>,
    planned: Result<ProxyCallView, ProxyFault>,
) -> GateOutcome {
    if !admitted {
        GateOutcome::Reject {
            status: StatusClass::TooManyRequests,
            message: "Rate limit exceeded"@,
        }
    } else {
        match validation {
            Err(e) => GateOutcome::Reject {
                status: StatusClass::BadRequest,
                message: "Validation failed: "@ + e.text(),
            },
            Ok(_) => proxy_stage(planned),
        }
    }
}

/// How the stages end, from what each of them found: the first stage
/// that fails decides, in the order security scan, rate limit, input
/// validation, proxy.
pub open spec fn gate_outcome(
    scan: Result<(), SecurityIssue>,
    admitted: bool,
    validation: Result<(), ValidationError>,
    planned: Result<ProxyCallView, ProxyFault>,
) -> GateOutcome {
    match scan {
        Err(issue) => GateOutcome::Reject {
            status: StatusClass::BadRequest,
            message: "Security validation failed: "@ + issue.text(),
        },
        Ok(_) => later_stages(admitted, validation, planned),
    }
}

impl MiddlewareState {
    pub open spec fn wf(&self) -> bool {
        &&& self.auth.wf()
        &&& self.cache.wf()
        &&& self.rate_limit.wf()
        &&& self.sessions.wf()
    }

    /// The components with the default rules and policies, in front of the
    /// backend at `backend_url`, signing tokens with `jwt_secret`.
    pub fn new(jwt_secret: String, backend_url: String) -> (s: Self)
        ensures
            s.wf(),
            s.auth.secret() == jwt_secret@,
            s.auth.accounts() == Map::<Seq<char>, User>::empty(),
            s.proxy.backend_url@ == backend_url@,
            s.security@ == default_rules(),
            s.validation.email_rule() == default_email_pattern(),
            s.validation.url_rule() == default_url_pattern(),
            s.cache.tier() == Map::<Seq<char>, CacheEntryView>::empty(),
            s.cache.ttls() == default_policy(),
            s.rate_limit.table() == Map::<Seq<char>, RateLimitEntry>::empty(),
            s.rate_limit.default_max() == DEFAULT_MAX_REQUESTS,
            s.rate_limit.default_window_ms() == DEFAULT_WINDOW_MS,
            s.sessions@ == Map::<Seq<char>, SessionData>::empty(),
    {
        MiddlewareState {
            auth: AuthManager::new(jwt_secret),
            proxy: ProxyManager::new(backend_url),
            security: SecurityManager::new(),
            validation: ValidationManager::new(),
            cache: CacheManager::new(),
            rate_limit: RateLimitManager::new(),
            sessions: StringMap::new(),
        }
    }
}

/// The rejection of a request with the message `prefix` followed by
/// `detail`.
pub fn reject(status: StatusClass, prefix: &str, detail: &str) -> (d: GateDecision)
    ensures
        d@ == (GateOutcome::Reject { status, message: prefix@ + detail@ }),
{
    let mut message = String::from_str(prefix);
    message.append(detail);
    GateDecision::Reject { status, message }
}

/// Runs the stages on the request `body`, which takes
/// `serialized_len` bytes on the wire, at the instant `now`.
///
/// The stages run strictly in order and the first failure ends the
/// request. A request that the security scan turns away never reaches the
/// rate limiter: no counter moves. A request that passes the scan is
/// counted once, whatever the later stages decide. Nothing else in `state`
/// changes.
pub fn handle_api_request(
    state: &mut MiddlewareState,
    body: &JsonValue,
    serialized_len: usize,
    now: u64,
) -> (run: Dispatch)
    requires
        old(state).wf(),
    ensures
        identifier_text(run.request_id@),
        final(state).wf(),
        final(state).rate_limit.same_policy(&old(state).rate_limit),
        final(state).auth == old(state).auth,
        final(state).proxy == old(state).proxy,
        final(state).security == old(state).security,
        final(state).validation == old(state).validation,
        final(state).cache == old(state).cache,
        final(state).sessions == old(state).sessions,
        ({
            let scan = request_verdict(old(state).security@, body@, serialized_len as nat);
            let limiter = &old(state).rate_limit;
            let passes = admitted(
                limiter.table(),
                gate_identifier(),
                limiter.default_max(),
                limiter.default_window_ms(),
                now,
            );
            &&& run.decision@ == gate_outcome(
                scan,
                passes,
                input_verdict(
                    old(state).validation.email_rule(),
                    old(state).validation.url_rule(),
                    body@,
                ),
                planned_call(old(state).proxy.backend_url@, body@),
            )
            &&& final(state).rate_limit.table() == if scan is Err {
                limiter.table()
            } else {
                table_after(
                    limiter.table(),
                    gate_identifier(),
                    limiter.default_max(),
                    limiter.default_window_ms(),
                    now,
                )
            }
        }),
{
    let request_id = new_id();
    let decision = run_stages(state, body, serialized_len, now);
    Dispatch { request_id, decision }
}

/// The stages of [`handle_api_request`], without the correlation id.
pub fn run_stages(
    state: &mut MiddlewareState,
    body: &JsonValue,
    serialized_len: usize,
    now: u64,
) -> (decision: GateDecision)
    requires
        old(state).wf(),
    ensures
        final(state).wf(),
        final(state).rate_limit.same_policy(&old(state).rate_limit),
        final(state).auth == old(state).auth,
        final(state).proxy == old(state).proxy,
        final(state).security == old(state).security,
        final(state).validation == old(state).validation,
        final(state).cache == old(state).cache,
        final(state).sessions == old(state).sessions,
        ({
            let scan = request_verdict(old(state).security@, body@, serialized_len as nat);
            let limiter = &old(state).rate_limit;
            let passes = admitted(
                limiter.table(),
                gate_identifier(),
                limiter.default_max(),
                limiter.default_window_ms(),
                now,
            );
            &&& decision@ == gate_outcome(
                scan,
                passes,
                input_verdict(
                    old(state).validation.email_rule(),
                    old(state).validation.url_rule(),
                    body@,
                ),
                planned_call(old(state).proxy.backend_url@, body@),
            )
            &&& final(state).rate_limit.table() == if scan is Err {
                limiter.table()
            } else {
                table_after(
                    limiter.table(),
                    gate_identifier(),
                    limiter.default_max(),
                    limiter.default_window_ms(),
                    now,
                )
            }
        }),
{
    match state.security.validate_request(body, serialized_len) {
        Err(e) => {
            let detail = e.message();
            return reject(StatusClass::BadRequest, "Security validation failed: ", detail.as_str());
        },
        Ok(_) => {},
    }
    match state.rate_limit.check_rate_limit("default", now) {
        Err(_) => {
            return GateDecision::Reject {
                status: StatusClass::TooManyRequests,
                message: String::from_str("Rate limit exceeded"),
            };
        },
        Ok(_) => {},
    }
    match state.validation.validate_input(body) {
        Err(e) => {
            let detail = e.message();
            return reject(StatusClass::BadRequest, "Validation failed: ", detail.as_str());
        },
        Ok(_) => {},
    }
    match state.proxy.forward_request(body) {
        Err(e) => {
            let detail = e.message();
            reject(StatusClass::InternalError, "Proxy error: ", detail.as_str())
        },
        Ok(call) => GateDecision::Forward { call },
    }
}

/// How the auth stage ends for a bearer of claims `opened` (what opening
/// the token gave) who asks for `required`: a token that fails to verify,
/// or whose subject is no known user, is unauthorized; a user without the
/// permission is forbidden.
pub open spec fn auth_outcome(
    opened: Option<ClaimsView>,
    users: Seq<User>,
    required: Seq<char>,
    now: u64,
) -> Result<ClaimsView, GateOutcome> {
    match claims_judgement(opened, now) {
        Err(e) => Err(
            GateOutcome::Reject {
                status: StatusClass::Unauthorized,
                message: "Authentication failed: "@ + e.text(),
            },
        ),
        Ok(claims) => match permission_outcome(users, claims.sub, required) {
            Err(e) => Err(
                GateOutcome::Reject {
                    status: StatusClass::Unauthorized,
                    message: "Authentication failed: "@ + e.text(),
                },
            ),
            Ok(false) => Err(
                GateOutcome::Reject { status: StatusClass::Forbidden, message: "Permission denied"@ },
            ),
            Ok(true) => Ok(claims),
        },
    }
}

pub open spec fn auth_view(r: Result<Claims, GateDecision>) -> Result<ClaimsView, GateOutcome> {
    match r {
        Ok(c) => Ok(c@),
        Err(d) => Err(d@),
    }
}

/// The auth stage, for requests that need it: verifies the bearer token
/// at `now` and asks whether its subject holds `required`.
pub fn authorize(auth: &AuthManager, token: &str, required: &str, now: u64) -> (r: Result<
    Claims,
    GateDecision,
>)
    requires
        auth.wf(),
    ensures
        auth_view(r) == auth_outcome(
            jwt_claims(auth.secret(), token@),
            auth.account_list(),
            required@,
            now,
        ),
{
    let claims = match auth.verify_token(token, now) {
        Ok(c) => c,
        Err(e) => {
            let detail = e.message();
            return Err(reject(StatusClass::Unauthorized, "Authentication failed: ", detail.as_str()));
        },
    };
    match auth.validate_permissions(claims.sub.as_str(), required) {
        Err(e) => {
            let detail = e.message();
            Err(reject(StatusClass::Unauthorized, "Authentication failed: ", detail.as_str()))
        },
        Ok(false) => Err(
            GateDecision::Reject {
                status: StatusClass::Forbidden,
                message: String::from_str("Permission denied"),
            },
        ),
        Ok(true) => Ok(claims),
    }
}

/// Requests that pass the scan, the validation and the planning, counted
/// under a policy of `max` per `window` from a state without a counter:
/// while all of them come within `window` of the first, each of the first
/// `max` is forwarded and leaves the counter at its own number, and each
/// one after them is turned away as too many, which is status 429, with
/// the counter left at `max`.
pub proof fn law_requests_forwarded_up_to_the_limit(
    table: Map<Seq<char>, RateLimitEntry>,
    max: u32,
    window: u64,
    times: Seq<u64>,
    k: int,
    scan: Result<(), SecurityIssue>,
    validation: Result<(), ValidationError>,
    call: ProxyCallView,
)
    requires
        !table.contains_key(gate_identifier()),
        0 <= k < times.len(),
        forall|i: int| 0 <= i < times.len() ==> elapsed(#[trigger] times[i], times[0]) <= window,
        scan is Ok,
        validation is Ok,
    ensures
        ({
            let id = gate_identifier();
            let before = table_after_calls(table, id, max, window, times.take(k));
            let passes = admitted(before, id, max, window, times[k]);
            let after = table_after(before, id, max, window, times[k]);
            let outcome = gate_outcome(scan, passes, validation, Ok(call));
            &&& k < max ==> outcome == (GateOutcome::Forward { call }) && after[id].count == k + 1
            &&& k >= max ==> outcome == (GateOutcome::Reject {
                status: StatusClass::TooManyRequests,
                message: "Rate limit exceeded"@,
            }) && after[id].count == max
        }),
        StatusClass::TooManyRequests.spec_code() == 429,
{
    let id = gate_identifier();
    let upto = times.take(k + 1);
    let first = RateLimitEntry::fresh(max, window, times[0]);
    law_policy_admits_exactly_max(table, id, max, window, times, 0);
    assert(upto.drop_last() =~= times.take(k));
    assert(upto.last() == times[k]);
    assert(upto[0] == times[0]);
    lemma_calls_run_the_counter(table, id, max, window, upto);
    assert forall|i: int| 0 <= i < upto.len() implies !first.expired_at(#[trigger] upto[i]) by {
        assert(upto[i] == times[i]);
    }
    lemma_run_within_window(first, upto);
    let before = table_after_calls(table, id, max, window, times.take(k));
    assert(call_admitted(table, id, max, window, times, k) <==> k < max);
    assert(table_after_calls(table, id, max, window, upto) == table_after(
        before,
        id,
        max,
        window,
        times[k],
    ));
}

/// Wraps the answer to a forwarded request in the envelope of the request
/// `request_id`.
pub fn finish_request(result: Result<JsonValue, ProxyError>, request_id: String) -> (r: (
    StatusClass,
    ApiResponse<JsonValue>,
))
    ensures
        r.1.request_id == request_id,
        match result {
            Ok(payload) => {
                &&& r.0 == StatusClass::Success
                &&& r.1.success
                &&& r.1.data == Some(payload)
                &&& r.1.error is None
            },
            Err(e) => {
                &&& r.0 == StatusClass::UpstreamError
                &&& !r.1.success
                &&& r.1.data is None
                &&& r.1.error matches Some(text)
                &&& text@ == "Proxy error: "@ + e@.text()
            },
        },
{
    match result {
        Ok(payload) => (StatusClass::Success, ApiResponse::success_with_id(payload, request_id)),
        Err(e) => {
            let mut text = String::from_str("Proxy error: ");
            let detail = e.message();
            text.append(detail.as_str());
            (StatusClass::UpstreamError, ApiResponse::error_with_id(text, request_id))
        },
    }
}

/// The envelope of a request that a gate stage turned away.
pub fn reject_response(message: String, request_id: String) -> (r: ApiResponse<JsonValue>)
    ensures
        !r.success,
        r.data is None,
        r.error == Some(message),
        r.request_id == request_id,
{
    ApiResponse::error_with_id(message, request_id)
}

/// A fresh correlation id for one request: the text of a random
/// identifier.
pub fn new_request_id() -> (id: String)
    ensures
        identifier_text(id@),
        id@.len() == 36,
{
    new_id()
}

/// The payload of the health route.
pub open spec fn health_view() -> JsonView {
    JsonView::Object(
        seq![
            ("status"@, JsonView::String("healthy"@)),
            ("service"@, JsonView::String("omni-ai-middleware"@)),
            ("version"@, JsonView::String("0.1.0"@)),
        ],
    )
}

/// The payload of the health route.
pub fn health_payload() -> (v: JsonValue)
    ensures
        v@ == health_view(),
{
    let mut members: Vec<(String, JsonValue)> = Vec::new();
    members.push((String::from_str("status"), JsonValue::String(String::from_str("healthy"))));
    members.push(
        (String::from_str("service"), JsonValue::String(String::from_str("omni-ai-middleware"))),
    );
    members.push((String::from_str("version"), JsonValue::String(String::from_str("0.1.0"))));
    let v = JsonValue::Object(members);
    proof {
        v.lemma_object_view();
        assert(v@->Object_0 =~= health_view()->Object_0);
    }
    v
}

} // verus!
