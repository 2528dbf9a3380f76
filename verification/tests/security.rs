use gateway_core::json::JsonValue;
use gateway_core::security::{be_bytes, escape_and_trim, SecurityError, SecurityManager};

fn text(s: &str) -> JsonValue {
    JsonValue::String(s.to_string())
}

fn obj(members: Vec<(&str, JsonValue)>) -> JsonValue {
    JsonValue::Object(members.into_iter().map(|(k, v)| (k.to_string(), v)).collect())
}

#[test]
fn plain_string_passes() {
    let m = SecurityManager::new();
    assert_eq!(m.validate_string("hello world"), Ok(()));
    assert_eq!(m.validate_string(""), Ok(()));
}

#[test]
fn string_length_limit_is_ten_thousand_bytes() {
    let m = SecurityManager::new();
    assert_eq!(m.validate_string(&"a".repeat(10_000)), Ok(()));
    assert_eq!(m.validate_string(&"a".repeat(10_001)), Err(SecurityError::StringTooLong));
    assert_eq!(m.validate_string(&"é".repeat(5_000)), Ok(()));
    assert_eq!(m.validate_string(&"é".repeat(5_001)), Err(SecurityError::StringTooLong));
}

#[test]
fn length_is_checked_before_content() {
    let m = SecurityManager::new();
    let long = format!("<script>x</script>{}", "a".repeat(10_000));
    assert_eq!(m.validate_string(&long), Err(SecurityError::StringTooLong));
}

#[test]
fn script_content_is_dangerous() {
    let m = SecurityManager::new();
    for s in [
        "<script>alert(1)</script>",
        "<SCRIPT src=x>y</SCRIPT>",
        "click javascript:void(0)",
        "<img onerror=go>",
        "eval (x)",
        "expression(1)",
        "VBScript:msgbox",
        "<!-- hidden -->",
        "<iframe src=a></iframe>",
    ] {
        assert_eq!(m.validate_string(s), Err(SecurityError::DangerousContent), "{}", s);
    }
}

#[test]
fn sql_content_is_rejected() {
    let m = SecurityManager::new();
    for s in [
        "select name from users",
        "DROP TABLE x",
        "a -- comment",
        "color #fff",
        "x /* y",
        "1 or 1=1",
        "' or 'a'='a'",
    ] {
        assert_eq!(m.validate_string(s), Err(SecurityError::SqlPattern), "{}", s);
    }
    assert_eq!(m.validate_string("selection of updates"), Ok(()));
}

#[test]
fn dangerous_content_wins_over_sql() {
    let m = SecurityManager::new();
    assert_eq!(
        m.validate_string("<script>select</script>"),
        Err(SecurityError::DangerousContent)
    );
}

#[test]
fn null_character_is_rejected() {
    let m = SecurityManager::new();
    assert_eq!(m.validate_string("a\0b"), Err(SecurityError::NullByte));
    assert_eq!(m.validate_string("select\0"), Err(SecurityError::SqlPattern));
}

#[test]
fn judge_string_orders_the_checks() {
    assert_eq!(
        SecurityManager::judge_string(11, 10, true, true, true),
        Err(SecurityError::StringTooLong)
    );
    assert_eq!(
        SecurityManager::judge_string(10, 10, true, true, true),
        Err(SecurityError::DangerousContent)
    );
    assert_eq!(
        SecurityManager::judge_string(10, 10, false, true, true),
        Err(SecurityError::SqlPattern)
    );
    assert_eq!(
        SecurityManager::judge_string(10, 10, false, false, true),
        Err(SecurityError::NullByte)
    );
    assert_eq!(SecurityManager::judge_string(10, 10, false, false, false), Ok(()));
}

#[test]
fn unreadable_rule_rejects_everything() {
    let m = SecurityManager::with_rules(100, 100, vec!["(".to_string()], vec![], vec![]);
    assert_eq!(m.validate_string("harmless"), Err(SecurityError::DangerousContent));
    let n = SecurityManager::with_rules(100, 100, vec![], vec!["[".to_string()], vec![]);
    assert_eq!(n.validate_string("harmless"), Err(SecurityError::SqlPattern));
}

#[test]
fn custom_rules_apply() {
    let m = SecurityManager::with_rules(
        100,
        5,
        vec!["foo".to_string()],
        vec!["bar".to_string()],
        vec!["example.org".to_string()],
    );
    assert_eq!(m.validate_string("food"), Err(SecurityError::DangerousContent));
    assert_eq!(m.validate_string("bars"), Err(SecurityError::SqlPattern));
    assert_eq!(m.validate_string("<scr>"), Ok(()));
    assert_eq!(m.validate_string("abcdef"), Err(SecurityError::StringTooLong));
    assert_eq!(m.validate_url("https://example.org/a"), Ok(()));
    assert_eq!(
        m.validate_url("https://github.com/a"),
        Err(SecurityError::DomainNotAllowed("github.com".to_string()))
    );
}

#[test]
fn values_are_scanned_recursively() {
    let m = SecurityManager::new();
    let safe = obj(vec![
        ("a", text("fine")),
        ("n", JsonValue::Number("12".to_string())),
        ("b", JsonValue::Bool(true)),
        ("z", JsonValue::Null),
        ("list", JsonValue::Array(vec![text("x"), obj(vec![("deep", text("y"))])])),
    ]);
    assert_eq!(m.validate_value(&safe), Ok(()));
    let bad = obj(vec![
        ("a", text("fine")),
        ("list", JsonValue::Array(vec![text("x"), obj(vec![("deep", text("a\0"))])])),
    ]);
    assert_eq!(m.validate_value(&bad), Err(SecurityError::NullByte));
}

#[test]
fn first_failing_string_decides() {
    let m = SecurityManager::new();
    let v = JsonValue::Array(vec![text("ok"), text("drop it"), text("<script>a</script>")]);
    assert_eq!(m.validate_value(&v), Err(SecurityError::SqlPattern));
    let w = JsonValue::Array(vec![text("<script>a</script>"), text("drop it")]);
    assert_eq!(m.validate_value(&w), Err(SecurityError::DangerousContent));
}

#[test]
fn object_keys_are_not_scanned() {
    let m = SecurityManager::new();
    assert_eq!(m.validate_value(&obj(vec![("select", text("fine"))])), Ok(()));
}

#[test]
fn request_size_limit_is_ten_mebibytes() {
    let m = SecurityManager::new();
    let r = obj(vec![("a", text("b"))]);
    assert_eq!(m.validate_request(&r, 10 * 1024 * 1024), Ok(()));
    assert_eq!(m.validate_request(&r, 10 * 1024 * 1024 + 1), Err(SecurityError::RequestTooLarge));
}

#[test]
fn request_size_is_checked_first() {
    let m = SecurityManager::new();
    let r = obj(vec![("a", text("<script>x</script>"))]);
    assert_eq!(m.validate_request(&r, usize::MAX), Err(SecurityError::RequestTooLarge));
    assert_eq!(m.validate_request(&r, 10), Err(SecurityError::DangerousContent));
}

#[test]
fn request_url_must_be_allowed() {
    let m = SecurityManager::new();
    let ok = obj(vec![("url", text("https://api.github.com/repos"))]);
    assert_eq!(m.validate_request(&ok, 50), Ok(()));
    let other = obj(vec![("url", text("https://evil.example.com/"))]);
    assert_eq!(
        m.validate_request(&other, 50),
        Err(SecurityError::DomainNotAllowed("evil.example.com".to_string()))
    );
    let not_text = obj(vec![("url", JsonValue::Number("5".to_string()))]);
    assert_eq!(m.validate_request(&not_text, 50), Ok(()));
    let nested = obj(vec![("inner", obj(vec![("url", text("https://evil.example.com/"))]))]);
    assert_eq!(m.validate_request(&nested, 50), Ok(()));
}

#[test]
fn url_rules() {
    let m = SecurityManager::new();
    assert_eq!(m.validate_url("https://github.com/a/b"), Ok(()));
    assert_eq!(m.validate_url("http://api.openai.com"), Ok(()));
    assert_eq!(m.validate_url("https://PINECONE.io/x"), Ok(()));
    assert_eq!(m.validate_url("not a url"), Err(SecurityError::InvalidUrl));
    assert_eq!(m.validate_url(""), Err(SecurityError::InvalidUrl));
    assert_eq!(m.validate_url("ftp://github.com/a"), Err(SecurityError::SchemeNotAllowed));
    assert_eq!(m.validate_url("mailto:a@github.com"), Err(SecurityError::SchemeNotAllowed));
    assert_eq!(m.validate_url("http://127.0.0.1/x"), Err(SecurityError::NoDomain));
    assert_eq!(m.validate_url("http://[::1]/x"), Err(SecurityError::NoDomain));
    assert_eq!(
        m.validate_url("https://sub.github.com/"),
        Err(SecurityError::DomainNotAllowed("sub.github.com".to_string()))
    );
}

#[test]
fn judge_url_from_given_parts() {
    let m = SecurityManager::new();
    assert_eq!(m.judge_url(None), Err(SecurityError::InvalidUrl));
    assert_eq!(
        m.judge_url(Some(("ws".to_string(), Some("github.com".to_string())))),
        Err(SecurityError::SchemeNotAllowed)
    );
    assert_eq!(m.judge_url(Some(("http".to_string(), None))), Err(SecurityError::NoDomain));
    assert_eq!(m.judge_url(Some(("https".to_string(), Some("vercel.com".to_string())))), Ok(()));
    assert_eq!(
        m.judge_url(Some(("https".to_string(), Some("x.org".to_string())))),
        Err(SecurityError::DomainNotAllowed("x.org".to_string()))
    );
}

#[test]
fn allowed_domains_table() {
    let m = SecurityManager::new();
    for d in [
        "github.com",
        "api.github.com",
        "vercel.com",
        "api.vercel.com",
        "developer.nvidia.com",
        "api.nvidia.com",
        "openai.com",
        "api.openai.com",
        "pinecone.io",
        "api.pinecone.io",
    ] {
        assert!(m.domain_allowed(d), "{}", d);
    }
    assert!(!m.domain_allowed("nvidia.com"));
    assert!(!m.domain_allowed(""));
}

#[test]
fn security_messages() {
    assert_eq!(SecurityError::RequestTooLarge.message(), "Request size exceeds maximum allowed");
    assert_eq!(SecurityError::StringTooLong.message(), "String length exceeds maximum allowed");
    assert_eq!(SecurityError::DangerousContent.message(), "Potentially dangerous content detected");
    assert_eq!(SecurityError::SqlPattern.message(), "Potentially malicious SQL pattern detected");
    assert_eq!(SecurityError::NullByte.message(), "Null bytes not allowed");
    assert_eq!(SecurityError::InvalidUrl.message(), "Invalid URL format");
    assert_eq!(SecurityError::SchemeNotAllowed.message(), "Only HTTP and HTTPS URLs are allowed");
    assert_eq!(
        SecurityError::DomainNotAllowed("a.b".to_string()).message(),
        "Domain 'a.b' is not in the allowed list"
    );
    assert_eq!(SecurityError::NoDomain.message(), "URL must have a valid domain");
    assert_eq!(SecurityError::InvalidCsrfFormat.message(), "Invalid CSRF token format");
    assert_eq!(SecurityError::InvalidCsrfLength.message(), "Invalid CSRF token length");
}

#[test]
fn sanitize_escapes_markup() {
    let m = SecurityManager::new();
    assert_eq!(m.sanitize_string("<b>hi</b>"), "&lt;b&gt;hi&lt;/b&gt;");
    assert_eq!(m.sanitize_string("a & b"), "a &amp; b");
    assert_eq!(m.sanitize_string("say \"x\" and 'y'"), "say &quot;x&quot; and &#x27;y&#x27;");
    assert_eq!(m.sanitize_string("&lt;"), "&amp;lt;");
}

#[test]
fn sanitize_removes_dangerous_patterns() {
    let m = SecurityManager::new();
    assert_eq!(m.sanitize_string("<script>alert(1)</script>hello"), "hello");
    assert_eq!(m.sanitize_string("a javascript:b"), "a b");
    assert_eq!(m.sanitize_string("<a onclick=\"x\">"), "&lt;a &quot;x&quot;&gt;");
    assert_eq!(m.sanitize_string("x<!-- c -->y"), "xy");
}

#[test]
fn sanitize_drops_nulls_and_trims() {
    let m = SecurityManager::new();
    assert_eq!(m.sanitize_string("  padded \t\n"), "padded");
    assert_eq!(m.sanitize_string("a\0b"), "ab");
    assert_eq!(m.sanitize_string(" \0 x \0 "), "x");
    assert_eq!(m.sanitize_string("   "), "");
    assert_eq!(m.sanitize_string(""), "");
    assert_eq!(m.sanitize_string("\u{a0}x\u{2003}"), "x");
}

#[test]
fn sanitize_skips_unreadable_rule() {
    let m = SecurityManager::with_rules(10, 10, vec!["(".to_string(), "b+".to_string()], vec![], vec![]);
    assert_eq!(m.sanitize_string("abbbc<"), "ac&lt;");
}

#[test]
fn escape_and_trim_exact() {
    assert_eq!(escape_and_trim(" <&> "), "&lt;&amp;&gt;");
    assert_eq!(escape_and_trim("keep  inner  gaps"), "keep  inner  gaps");
    assert_eq!(escape_and_trim("\0"), "");
}

#[test]
fn csrf_token_round_trip() {
    let m = SecurityManager::new();
    let token = m.generate_csrf_token();
    assert_eq!(token.len(), 43);
    assert!(token.chars().all(|c| c.is_ascii_alphanumeric() || c == '-' || c == '_'));
    assert_eq!(m.validate_csrf_token(&token), Ok(()));
    assert_ne!(token, m.generate_csrf_token());
}

#[test]
fn csrf_token_is_a_function_of_time_and_random_bytes() {
    let random = vec![7u8; 16];
    let a = SecurityManager::csrf_token_from(1_700_000_000, &random);
    let b = SecurityManager::csrf_token_from(1_700_000_000, &random);
    let c = SecurityManager::csrf_token_from(1_700_000_001, &random);
    let d = SecurityManager::csrf_token_from(1_700_000_000, &vec![8u8; 16]);
    assert_eq!(a, b);
    assert_ne!(a, c);
    assert_ne!(a, d);
    assert_eq!(a.len(), 43);
}

#[test]
fn csrf_token_known_value() {
    // A zero timestamp and no random part hash eight zero bytes, whose
    // SHA-256 digest starts af5570f5.
    let token = SecurityManager::csrf_token_from(0, &vec![]);
    assert_eq!(token, "r1Vw9aGBC3r3jK9LxwpmDw31HkK6-R1N5bIyjeDoPfw");
}

#[test]
fn csrf_token_format_is_checked() {
    let m = SecurityManager::new();
    assert_eq!(m.validate_csrf_token("!!!"), Err(SecurityError::InvalidCsrfFormat));
    assert_eq!(m.validate_csrf_token("abc="), Err(SecurityError::InvalidCsrfFormat));
    assert_eq!(m.validate_csrf_token("YWJj"), Err(SecurityError::InvalidCsrfLength));
    assert_eq!(m.validate_csrf_token(""), Err(SecurityError::InvalidCsrfLength));
    assert_eq!(
        m.validate_csrf_token("r1Vw9aGBC3r3jK9LxwpmDw31HkK6-R1N5bIyjeDoPfw"),
        Ok(())
    );
}

#[test]
fn judge_csrf_from_decoded_bytes() {
    assert_eq!(SecurityManager::judge_csrf(None), Err(SecurityError::InvalidCsrfFormat));
    assert_eq!(SecurityManager::judge_csrf(Some(vec![0; 31])), Err(SecurityError::InvalidCsrfLength));
    assert_eq!(SecurityManager::judge_csrf(Some(vec![0; 33])), Err(SecurityError::InvalidCsrfLength));
    assert_eq!(SecurityManager::judge_csrf(Some(vec![0; 32])), Ok(()));
}

#[test]
fn timestamps_are_written_big_endian() {
    assert_eq!(be_bytes(0), vec![0, 0, 0, 0, 0, 0, 0, 0]);
    assert_eq!(be_bytes(0x0102030405060708), vec![1, 2, 3, 4, 5, 6, 7, 8]);
    assert_eq!(be_bytes(1_700_000_000), 1_700_000_000i64.to_be_bytes().to_vec());
    assert_eq!(be_bytes(u64::MAX), vec![255; 8]);
}

#[test]
fn trimming_takes_off_every_white_space_character() {
    for n in 0..=0x10ffffu32 {
        let c = match char::from_u32(n) {
            Some(c) => c,
            None => continue,
        };
        if c == '&' || c == '<' || c == '>' || c == '"' || c == '\'' || c == '\0' {
            continue;
        }
        let white = (0x09..=0x0d).contains(&n)
            || [0x20, 0x85, 0xa0, 0x1680, 0x2028, 0x2029, 0x202f, 0x205f, 0x3000].contains(&n)
            || (0x2000..=0x200a).contains(&n);
        let got = escape_and_trim(&format!("{}x{}", c, c));
        let expected = if white { "x".to_string() } else { format!("{}x{}", c, c) };
        assert_eq!(got, expected, "U+{:04X}", n);
    }
}
