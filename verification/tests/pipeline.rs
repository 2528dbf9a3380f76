use gateway_core::json::JsonValue;
use gateway_core::auth::AuthManager;
use gateway_core::pipeline::{
    authorize, finish_request, handle_api_request, health_payload, new_request_id, reject,
    reject_response, run_stages, ApiResponse, GateDecision, MiddlewareState, StatusClass,
};
use gateway_core::proxy::{HttpMethod, ProxyError, Upstream};
use gateway_core::rate_limit::RateLimitStatus;

fn text(s: &str) -> JsonValue {
    JsonValue::String(s.to_string())
}

fn obj(members: Vec<(&str, JsonValue)>) -> JsonValue {
    JsonValue::Object(members.into_iter().map(|(k, v)| (k.to_string(), v)).collect())
}

fn state() -> MiddlewareState {
    MiddlewareState::new("secret".to_string(), "http://backend".to_string())
}

fn decide(s: &mut MiddlewareState, body: &JsonValue, len: usize, now: u64) -> GateDecision {
    handle_api_request(s, body, len, now).decision
}

fn rejection(d: GateDecision) -> (StatusClass, String) {
    match d {
        GateDecision::Reject { status, message } => (status, message),
        GateDecision::Forward { .. } => panic!("expected a rejection"),
    }
}

#[test]
fn status_codes() {
    assert_eq!(StatusClass::Success.code(), 200);
    assert_eq!(StatusClass::BadRequest.code(), 400);
    assert_eq!(StatusClass::Unauthorized.code(), 401);
    assert_eq!(StatusClass::Forbidden.code(), 403);
    assert_eq!(StatusClass::TooManyRequests.code(), 429);
    assert_eq!(StatusClass::InternalError.code(), 500);
    assert_eq!(StatusClass::UpstreamError.code(), 500);
}

#[test]
fn passing_request_is_forwarded_once() {
    let mut s = state();
    let body = obj(vec![("endpoint", text("/x")), ("method", text("GET"))]);
    match decide(&mut s, &body, 40, 0) {
        GateDecision::Forward { call } => {
            assert_eq!(call.method, HttpMethod::Get);
            assert_eq!(call.url, "http://backend/x");
            assert!(call.body.is_none());
        }
        GateDecision::Reject { message, .. } => panic!("rejected: {}", message),
    }
    assert_eq!(s.rate_limit.get_rate_limit_status("default", 0).unwrap().count, 1);
}

#[test]
fn flagged_request_never_reaches_the_rate_limiter() {
    let mut s = state();
    let body = obj(vec![("endpoint", text("/x")), ("note", text("<script>x</script>"))]);
    for now in 0..5 {
        let (status, message) = rejection(decide(&mut s, &body, 40, now));
        assert_eq!(status, StatusClass::BadRequest);
        assert_eq!(message, "Security validation failed: Potentially dangerous content detected");
    }
    assert_eq!(s.rate_limit.get_rate_limit_status("default", 5), None);
    assert_eq!(s.rate_limit.get_global_stats(5).total_entries, 0);
    let fine = obj(vec![("endpoint", text("/x"))]);
    let _ = decide(&mut s, &fine, 40, 5);
    assert_eq!(
        s.rate_limit.get_rate_limit_status("default", 5),
        Some(RateLimitStatus { count: 1, remaining: 99, reset_in: 60_000 })
    );
}

#[test]
fn oversized_request_is_a_security_failure() {
    let mut s = state();
    let (status, message) =
        rejection(decide(&mut s, &obj(vec![]), 10 * 1024 * 1024 + 1, 0));
    assert_eq!(status, StatusClass::BadRequest);
    assert_eq!(message, "Security validation failed: Request size exceeds maximum allowed");
    assert_eq!(s.rate_limit.get_rate_limit_status("default", 0), None);
}

#[test]
fn hundred_and_first_request_in_a_window_is_refused() {
    let mut s = state();
    let body = obj(vec![("endpoint", text("/x")), ("method", text("GET"))]);
    for i in 0..100u64 {
        let d = decide(&mut s, &body, 40, i * 500);
        assert!(matches!(d, GateDecision::Forward { .. }), "call {}", i);
    }
    let (status, message) = rejection(decide(&mut s, &body, 40, 59_999));
    assert_eq!(status, StatusClass::TooManyRequests);
    assert_eq!(status.code(), 429);
    assert_eq!(message, "Rate limit exceeded");
    assert!(matches!(decide(&mut s, &body, 40, 60_001), GateDecision::Forward { .. }));
    assert_eq!(s.rate_limit.get_rate_limit_status("default", 60_001).unwrap().count, 1);
}

#[test]
fn rate_limit_comes_before_validation() {
    let mut s = state();
    let bad = obj(vec![("password", text("short"))]);
    for _ in 0..100 {
        let (status, message) = rejection(decide(&mut s, &bad, 40, 0));
        assert_eq!(status, StatusClass::BadRequest);
        assert_eq!(message, "Validation failed: Password must be at least 8 characters long");
    }
    assert_eq!(s.rate_limit.get_rate_limit_status("default", 0).unwrap().count, 100);
    let (status, _) = rejection(decide(&mut s, &bad, 40, 0));
    assert_eq!(status, StatusClass::TooManyRequests);
}

#[test]
fn security_comes_before_validation() {
    let mut s = state();
    let both = obj(vec![("password", text("a\0"))]);
    let (status, message) = rejection(decide(&mut s, &both, 40, 0));
    assert_eq!(status, StatusClass::BadRequest);
    assert_eq!(message, "Security validation failed: Null bytes not allowed");
}

#[test]
fn body_that_is_no_object_fails_validation() {
    let mut s = state();
    let (status, message) = rejection(decide(&mut s, &text("hello"), 7, 0));
    assert_eq!(status, StatusClass::BadRequest);
    assert_eq!(message, "Validation failed: Input must be a JSON object");
    assert_eq!(s.rate_limit.get_rate_limit_status("default", 0).unwrap().count, 1);
}

#[test]
fn disallowed_url_is_a_security_failure() {
    let mut s = state();
    let body = obj(vec![("url", text("https://example.com/a"))]);
    let (status, message) = rejection(decide(&mut s, &body, 40, 0));
    assert_eq!(status, StatusClass::BadRequest);
    assert_eq!(
        message,
        "Security validation failed: Domain 'example.com' is not in the allowed list"
    );
}

#[test]
fn unsupported_method_is_an_internal_failure() {
    let mut s = state();
    let body = obj(vec![("method", text("PATCH"))]);
    let (status, message) = rejection(decide(&mut s, &body, 40, 0));
    assert_eq!(status, StatusClass::InternalError);
    assert_eq!(status.code(), 500);
    assert_eq!(message, "Proxy error: Unsupported HTTP method: PATCH");
    assert_eq!(s.rate_limit.get_rate_limit_status("default", 0).unwrap().count, 1);
}

#[test]
fn post_request_forwards_its_data() {
    let mut s = state();
    let body = obj(vec![
        ("endpoint", text("/things")),
        ("method", text("post")),
        ("data", obj(vec![("name", text("thing"))])),
    ]);
    match decide(&mut s, &body, 80, 0) {
        GateDecision::Forward { call } => {
            assert_eq!(call.method, HttpMethod::Post);
            assert_eq!(call.url, "http://backend/things");
            assert!(matches!(call.body, Some(JsonValue::Object(ref m)) if m.len() == 1));
        }
        GateDecision::Reject { message, .. } => panic!("rejected: {}", message),
    }
}

#[test]
fn success_is_wrapped_in_the_envelope() {
    let (status, response) = finish_request(Ok(text("payload")), "rid-1".to_string());
    assert_eq!(status, StatusClass::Success);
    assert!(response.success);
    assert!(matches!(response.data, Some(JsonValue::String(ref s)) if s == "payload"));
    assert_eq!(response.error, None);
    assert_eq!(response.request_id, "rid-1");
}

#[test]
fn upstream_failure_is_passed_on_as_it_came() {
    let (status, response) =
        finish_request(Err(ProxyError::Status(Upstream::Backend, 503)), "rid-2".to_string());
    assert_eq!(status, StatusClass::UpstreamError);
    assert_eq!(status.code(), 500);
    assert!(!response.success);
    assert!(response.data.is_none());
    assert_eq!(response.error, Some("Proxy error: Backend error: 503".to_string()));
    assert_eq!(response.request_id, "rid-2");
    let (_, response) =
        finish_request(Err(ProxyError::Transport("timed out".to_string())), "rid-3".to_string());
    assert_eq!(response.error, Some("Proxy error: timed out".to_string()));
}

#[test]
fn rejection_envelope() {
    let r = reject_response("Rate limit exceeded".to_string(), "rid".to_string());
    assert!(!r.success);
    assert!(r.data.is_none());
    assert_eq!(r.error, Some("Rate limit exceeded".to_string()));
    assert_eq!(r.request_id, "rid");
    let (status, message) = rejection(reject(StatusClass::Forbidden, "a: ", "b"));
    assert_eq!(status, StatusClass::Forbidden);
    assert_eq!(message, "a: b");
}

#[test]
fn envelopes_carry_fresh_correlation_ids() {
    let a = ApiResponse::success(1u32);
    let b = ApiResponse::<u32>::error("bad".to_string());
    assert!(a.success);
    assert_eq!(a.data, Some(1));
    assert_eq!(a.error, None);
    assert!(!b.success);
    assert_eq!(b.data, None);
    assert_eq!(b.error, Some("bad".to_string()));
    assert_eq!(a.request_id.len(), 36);
    assert_eq!(b.request_id.len(), 36);
    assert_ne!(a.request_id, b.request_id);
    assert_ne!(new_request_id(), new_request_id());
}

#[test]
fn envelopes_with_given_ids() {
    let a = ApiResponse::success_with_id("x", "id-a".to_string());
    assert!(a.success);
    assert_eq!(a.data, Some("x"));
    assert_eq!(a.request_id, "id-a");
    let b = ApiResponse::<()>::error_with_id("e".to_string(), "id-b".to_string());
    assert!(!b.success);
    assert_eq!(b.error, Some("e".to_string()));
    assert_eq!(b.request_id, "id-b");
}

#[test]
fn health_payload_is_fixed() {
    match health_payload() {
        JsonValue::Object(members) => {
            let listed: Vec<(String, String)> = members
                .into_iter()
                .map(|(k, v)| match v {
                    JsonValue::String(s) => (k, s),
                    _ => panic!("expected a string"),
                })
                .collect();
            assert_eq!(
                listed,
                vec![
                    ("status".to_string(), "healthy".to_string()),
                    ("service".to_string(), "omni-ai-middleware".to_string()),
                    ("version".to_string(), "0.1.0".to_string()),
                ]
            );
        }
        _ => panic!("expected an object"),
    }
}

#[test]
fn every_run_is_tagged_with_a_fresh_id() {
    let mut s = state();
    let fine = obj(vec![("endpoint", text("/x"))]);
    let flagged = obj(vec![("note", text("<script>x</script>"))]);
    let a = handle_api_request(&mut s, &fine, 20, 0);
    let b = handle_api_request(&mut s, &flagged, 20, 0);
    let c = handle_api_request(&mut s, &fine, 20, 0);
    assert!(matches!(a.decision, GateDecision::Forward { .. }));
    assert!(matches!(b.decision, GateDecision::Reject { .. }));
    assert_eq!(a.request_id.len(), 36);
    assert_ne!(a.request_id, b.request_id);
    assert_ne!(a.request_id, c.request_id);
    let (_, response) = finish_request(Ok(JsonValue::Null), a.request_id.clone());
    assert_eq!(response.request_id, a.request_id);
}

#[test]
fn run_stages_decides_like_the_dispatcher() {
    let mut a = state();
    let mut b = state();
    let body = obj(vec![("password", text("short"))]);
    let (status, message) = rejection(run_stages(&mut a, &body, 30, 7));
    let (status2, message2) = rejection(handle_api_request(&mut b, &body, 30, 7).decision);
    assert_eq!(status, status2);
    assert_eq!(message, message2);
    assert_eq!(
        a.rate_limit.get_rate_limit_status("default", 7),
        b.rate_limit.get_rate_limit_status("default", 7)
    );
}

#[test]
fn auth_stage_tells_unauthorized_from_forbidden() {
    let mut auth = AuthManager::with_cost("k".to_string(), 4);
    let user = auth
        .create_user("ann".to_string(), "a@x.yz".to_string(), "password1".to_string(), 50)
        .unwrap();
    let token = auth.authenticate_user("ann", "password1", 100).unwrap();

    let claims = authorize(&auth, &token, "user", 100).ok().unwrap();
    assert_eq!(claims.sub, user.id);

    let (status, message) = rejection(authorize(&auth, &token, "write", 100).err().unwrap());
    assert_eq!(status, StatusClass::Forbidden);
    assert_eq!(status.code(), 403);
    assert_eq!(message, "Permission denied");

    let (status, message) = rejection(authorize(&auth, "junk", "user", 100).err().unwrap());
    assert_eq!(status, StatusClass::Unauthorized);
    assert_eq!(status.code(), 401);
    assert_eq!(message, "Authentication failed: Invalid token");

    let (status, message) =
        rejection(authorize(&auth, &token, "user", 100 + 86_401).err().unwrap());
    assert_eq!(status, StatusClass::Unauthorized);
    assert_eq!(message, "Authentication failed: Token expired");

    let stranger = auth.issue_token("no-such-user", &vec!["admin".to_string()], 100).unwrap();
    let (status, message) = rejection(authorize(&auth, &stranger, "user", 100).err().unwrap());
    assert_eq!(status, StatusClass::Unauthorized);
    assert_eq!(message, "Authentication failed: User not found");

    assert_eq!(auth.grant_permission("ann", "admin"), Ok(()));
    assert!(authorize(&auth, &token, "write", 100).is_ok());
}
