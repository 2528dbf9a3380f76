//! The security scan: content rules for every string of a request, and the
//! allow-list for the URL it may carry.

use crate::json::{lemma_items_view, lemma_members_view, items_view, members_view, text_member, JsonValue, JsonView};
use crate::clock::unix_now;
use crate::ident::random_bytes;
use crate::pattern::{pattern_texts, regex_replace_all, regex_replaced, violates_any, violates_any_of};
use crate::text::{byte_len, chars_of, contains_char, is_whitespace, str_eq, string_from_chars, utf8_len, whitespace};
use vstd::prelude::*;
use vstd::string::StringExecFns;

verus! {

/// Why the security scan turned a request away.
#[derive(Debug, PartialEq, Eq)]
pub enum SecurityError {
    RequestTooLarge,
    StringTooLong,
    DangerousContent,
    SqlPattern,
    NullByte,
    InvalidUrl,
    SchemeNotAllowed,
    DomainNotAllowed(String),
    NoDomain,
    InvalidCsrfFormat,
    InvalidCsrfLength,
}

/// The mathematical content of a [`SecurityError`].
pub enum SecurityIssue {
    RequestTooLarge,
    StringTooLong,
    DangerousContent,
    SqlPattern,
    NullByte,
    InvalidUrl,
    SchemeNotAllowed,
    DomainNotAllowed(Seq<char>),
    NoDomain,
    InvalidCsrfFormat,
    InvalidCsrfLength,
}

impl View for SecurityError {
    type V = SecurityIssue;

    open spec fn view(&self) -> SecurityIssue {
        match self {
            SecurityError::RequestTooLarge => SecurityIssue::RequestTooLarge,
            SecurityError::StringTooLong => SecurityIssue::StringTooLong,
            SecurityError::DangerousContent => SecurityIssue::DangerousContent,
            SecurityError::SqlPattern => SecurityIssue::SqlPattern,
            SecurityError::NullByte => SecurityIssue::NullByte,
            SecurityError::InvalidUrl => SecurityIssue::InvalidUrl,
            SecurityError::SchemeNotAllowed => SecurityIssue::SchemeNotAllowed,
            SecurityError::DomainNotAllowed(d) => SecurityIssue::DomainNotAllowed(d@),
            SecurityError::NoDomain => SecurityIssue::NoDomain,
            SecurityError::InvalidCsrfFormat => SecurityIssue::InvalidCsrfFormat,
            SecurityError::InvalidCsrfLength => SecurityIssue::InvalidCsrfLength,
        }
    }
}

/// The outcome of a scan, with its error taken by its view.
pub open spec fn outcome(r: Result<(), SecurityError>) -> Result<(), SecurityIssue> {
    match r {
        Ok(_) => Ok(()),
        Err(e) => Err(e@),
    }
}

impl SecurityIssue {
    /// The text shown to the client.
    pub open spec fn text(self) -> Seq<char> {
        match self {
            SecurityIssue::RequestTooLarge => "Request size exceeds maximum allowed"@,
            SecurityIssue::StringTooLong => "String length exceeds maximum allowed"@,
            SecurityIssue::DangerousContent => "Potentially dangerous content detected"@,
            SecurityIssue::SqlPattern => "Potentially malicious SQL pattern detected"@,
            SecurityIssue::NullByte => "Null bytes not allowed"@,
            SecurityIssue::InvalidUrl => "Invalid URL format"@,
            SecurityIssue::SchemeNotAllowed => "Only HTTP and HTTPS URLs are allowed"@,
            SecurityIssue::DomainNotAllowed(d) => "Domain '"@ + d + "' is not in the allowed list"@,
            SecurityIssue::NoDomain => "URL must have a valid domain"@,
            SecurityIssue::InvalidCsrfFormat => "Invalid CSRF token format"@,
            SecurityIssue::InvalidCsrfLength => "Invalid CSRF token length"@,
        }
    }
}

impl SecurityError {
    pub fn message(&self) -> (s: String)
        ensures
            s@ == self@.text(),
    {
        match self {
            SecurityError::RequestTooLarge => String::from_str(
                "Request size exceeds maximum allowed",
            ),
            SecurityError::StringTooLong => String::from_str(
                "String length exceeds maximum allowed",
            ),
            SecurityError::DangerousContent => String::from_str(
                "Potentially dangerous content detected",
            ),
            SecurityError::SqlPattern => String::from_str(
                "Potentially malicious SQL pattern detected",
            ),
            SecurityError::NullByte => String::from_str("Null bytes not allowed"),
            SecurityError::InvalidUrl => String::from_str("Invalid URL format"),
            SecurityError::SchemeNotAllowed => String::from_str(
                "Only HTTP and HTTPS URLs are allowed",
            ),
            SecurityError::DomainNotAllowed(d) => {
                let mut s = String::from_str("Domain '");
                s.append(d.as_str());
                s.append("' is not in the allowed list");
                s
            },
            SecurityError::NoDomain => String::from_str("URL must have a valid domain"),
            SecurityError::InvalidCsrfFormat => String::from_str("Invalid CSRF token format"),
            SecurityError::InvalidCsrfLength => String::from_str("Invalid CSRF token length"),
        }
    }
}

/// The rules a scan applies.
pub struct SecurityRules {
    pub max_request_size: nat,
    pub max_string_length: nat,
    /// Patterns of script and markup injection; a string must match none.
    pub dangerous: Seq<Seq<char>>,
    /// Patterns of SQL injection; a string must match none.
    pub sql: Seq<Seq<char>>,
    /// The domains a request's URL may point to.
    pub domains: Seq<Seq<char>>,
}

pub const MAX_REQUEST_SIZE: usize = 10485760;

pub const MAX_STRING_LENGTH: usize = 10000;

pub open spec fn default_dangerous_rules() -> Seq<Seq<char>> {
    seq![
        "(?i)<script[^>]*>.*?</script>"@,
        "(?i)javascript:"@,
        "(?i)on\\w+\\s*="@,
        "(?i)eval\\s*\\("@,
        "(?i)expression\\s*\\("@,
        "(?i)vbscript:"@,
        "(?i)<!--.*?-->"@,
        "(?i)<iframe[^>]*>.*?</iframe>"@,
    ]
}

pub open spec fn default_sql_rules() -> Seq<Seq<char>> {
    seq![
        "(?i)\\b(union|select|insert|update|delete|drop|create|alter|exec|execute)\\b"@,
        "(?i)(\\-\\-|\\#|\\/\\*|\\*\\/)"@,
        "(?i)(\\bor\\b|\\band\\b)\\s+\\d+\\s*=\\s*\\d+"@,
        "(?i)'\\s*or\\s*'[^']*'\\s*=\\s*'[^']*'"@,
    ]
}

pub open spec fn default_domains() -> Seq<Seq<char>> {
    seq![
        "github.com"@,
        "api.github.com"@,
        "vercel.com"@,
        "api.vercel.com"@,
        "developer.nvidia.com"@,
        "api.nvidia.com"@,
        "openai.com"@,
        "api.openai.com"@,
        "pinecone.io"@,
        "api.pinecone.io"@,
    ]
}

pub open spec fn default_rules() -> SecurityRules {
    SecurityRules {
        max_request_size: MAX_REQUEST_SIZE as nat,
        max_string_length: MAX_STRING_LENGTH as nat,
        dangerous: default_dangerous_rules(),
        sql: default_sql_rules(),
        domains: default_domains(),
    }
}

/// The verdict on a string of `len` bytes, given whether it violates a
/// dangerous-content rule, whether it violates an SQL rule and whether it
/// holds a null character. The checks are made in that order.
pub open spec fn string_judgement(
    len: nat,
    max_len: nat,
    dangerous: bool,
    sql: bool,
    nul: bool,
) -> Result<(), SecurityIssue> {
    if len > max_len {
        Err(SecurityIssue::StringTooLong)
    } else if dangerous {
        Err(SecurityIssue::DangerousContent)
    } else if sql {
        Err(SecurityIssue::SqlPattern)
    } else if nul {
        Err(SecurityIssue::NullByte)
    } else {
        Ok(())
    }
}

/// The verdict on the string `s`.
pub open spec fn string_verdict(rules: SecurityRules, s: Seq<char>) -> Result<(), SecurityIssue> {
    string_judgement(
        utf8_len(s),
        rules.max_string_length,
        violates_any(rules.dangerous, s),
        violates_any(rules.sql, s),
        s.contains('\0'),
    )
}

/// The verdict on a value: that of the first string in it, in document
/// order, that fails; numbers, booleans and null pass.
pub open spec fn value_verdict(rules: SecurityRules, v: JsonView) -> Result<(), SecurityIssue>
    decreases v, 0nat,
{
    match v {
        JsonView::String(s) => string_verdict(rules, s),
        JsonView::Array(items) => items_scan(rules, items, 0),
        JsonView::Object(members) => members_scan(rules, members, 0),
        _ => Ok(()),
    }
}

/// The first failure among `items[from..]`.
pub open spec fn items_scan(rules: SecurityRules, items: Seq<JsonView>, from: int) -> Result<
    (),
    SecurityIssue,
>
    decreases items, items.len() - from,
{
    if 0 <= from < items.len() {
        match value_verdict(rules, items[from]) {
            Err(e) => Err(e),
            Ok(_) => items_scan(rules, items, from + 1),
        }
    } else {
        Ok(())
    }
}

/// The first failure among the values of `members[from..]`.
pub open spec fn members_scan(
    rules: SecurityRules,
    members: Seq<(Seq<char>, JsonView)>,
    from: int,
) -> Result<(), SecurityIssue>
    decreases members, members.len() - from,
{
    if 0 <= from < members.len() {
        match value_verdict(rules, members[from].1) {
            Err(e) => Err(e),
            Ok(_) => members_scan(rules, members, from + 1),
        }
    } else {
        Ok(())
    }
}

/// What the `url` crate makes of a URL: `None` where `Url::parse` rejects
/// the text; otherwise the scheme, and the host where the host is a domain
/// name (not an IP address, and not missing).
pub uninterp spec fn url_parts(url: Seq<char>) -> Option<(Seq<char>, Option<Seq<char>>)>;

/// The parts of a parsed URL, taken by their views.
pub open spec fn parts_view(parts: Option<(String, Option<String>)>) -> Option<
    (Seq<char>, Option<Seq<char>>),
> {
    match parts {
        None => None,
        Some((scheme, None)) => Some((scheme@, None)),
        Some((scheme, Some(domain))) => Some((scheme@, Some(domain@))),
    }
}

/// The verdict on a URL whose parts are `parts`.
pub open spec fn url_judgement(
    domains: Seq<Seq<char>>,
    parts: Option<(Seq<char>, Option<Seq<char>>)>,
) -> Result<(), SecurityIssue> {
    match parts {
        None => Err(SecurityIssue::InvalidUrl),
        Some((scheme, domain)) => if scheme != "http"@ && scheme != "https"@ {
            Err(SecurityIssue::SchemeNotAllowed)
        } else {
            match domain {
                None => Err(SecurityIssue::NoDomain),
                Some(d) => if domains.contains(d) {
                    Ok(())
                } else {
                    Err(SecurityIssue::DomainNotAllowed(d))
                },
            }
        },
    }
}

/// The verdict on the URL `url`.
pub open spec fn url_verdict(rules: SecurityRules, url: Seq<char>) -> Result<(), SecurityIssue> {
    url_judgement(rules.domains, url_parts(url))
}

/// The verdict on a request that takes `serialized_len` bytes on the wire:
/// its size is checked first, then every string in it, then its `url`
/// member where that is a string.
pub open spec fn request_verdict(rules: SecurityRules, request: JsonView, serialized_len: nat) -> Result<
    (),
    SecurityIssue,
> {
    if serialized_len > rules.max_request_size {
        Err(SecurityIssue::RequestTooLarge)
    } else {
        match value_verdict(rules, request) {
            Err(e) => Err(e),
            Ok(_) => match text_member(request, "url"@) {
                Some(url) => url_verdict(rules, url),
                None => Ok(()),
            },
        }
    }
}

/// Parses `url` with `url::Url::parse` and reads `scheme()` and `domain()`
/// off the result. The contract only names what the crate answers.
#[verifier::external_body]
pub(crate) fn parse_url(url: &str) -> (parts: Option<(String, Option<String>)>)
    ensures
        parts_view(parts) == url_parts(url@),
{
    match url::Url::parse(url) {
        Ok(u) => Some((u.scheme().to_string(), u.domain().map(|d| d.to_string()))),
        Err(_) => None,
    }
}

/// `s` with every match of `pattern` taken out. A pattern that the engine
/// does not accept takes nothing out.
pub open spec fn strip_one(pattern: Seq<char>, s: Seq<char>) -> Seq<char> {
    match regex_replaced(pattern, s, ""@) {
        Some(t) => t,
        None => s,
    }
}

/// `s` after the matches of `patterns[from..]` have been taken out, one
/// pattern after the other.
pub open spec fn stripped(patterns: Seq<Seq<char>>, s: Seq<char>, from: int) -> Seq<char>
    decreases patterns.len() - from,
{
    if 0 <= from < patterns.len() {
        stripped(patterns, strip_one(patterns[from], s), from + 1)
    } else {
        s
    }
}

/// What stands for `c` in escaped text: the HTML entity of a character that
/// is special in markup, nothing for the null character, `c` itself
/// otherwise.
pub open spec fn entity(c: char) -> Seq<char> {
    if c == '&' {
        seq!['&', 'a', 'm', 'p', ';']
    } else if c == '<' {
        seq!['&', 'l', 't', ';']
    } else if c == '>' {
        seq!['&', 'g', 't', ';']
    } else if c == '"' {
        seq!['&', 'q', 'u', 'o', 't', ';']
    } else if c == '\'' {
        seq!['&', '#', 'x', '2', '7', ';']
    } else if c == '\0' {
        Seq::empty()
    } else {
        seq![c]
    }
}

/// `s` with each character replaced by its [`entity`].
pub open spec fn escaped(s: Seq<char>) -> Seq<char>
    decreases s.len(),
{
    if s.len() == 0 {
        s
    } else {
        escaped(s.drop_last()) + entity(s.last())
    }
}

/// `s` without the white space at its end.
pub open spec fn trim_end(s: Seq<char>) -> Seq<char>
    decreases s.len(),
{
    if s.len() > 0 && whitespace(s.last()) {
        trim_end(s.drop_last())
    } else {
        s
    }
}

/// `s` without the white space at its start.
pub open spec fn trim_start(s: Seq<char>) -> Seq<char>
    decreases s.len(),
{
    if s.len() > 0 && whitespace(s.first()) {
        trim_start(s.drop_first())
    } else {
        s
    }
}

/// `s` without the white space at either end.
pub open spec fn trimmed(s: Seq<char>) -> Seq<char> {
    trim_start(trim_end(s))
}

/// The text that [`SecurityManager::sanitize_string`] makes of `s`.
pub open spec fn sanitized_string(rules: SecurityRules, s: Seq<char>) -> Seq<char> {
    trimmed(escaped(stripped(rules.dangerous, s, 0)))
}

/// The SHA-256 digest of `data`, as the `sha2` crate computes it.
pub uninterp spec fn sha256_digest(data: Seq<u8>) -> Seq<u8>;

/// `data` in the URL-safe base64 alphabet without padding, as the `base64`
/// crate writes it.
pub uninterp spec fn base64url_encoded(data: Seq<u8>) -> Seq<char>;

/// The bytes that `text` stands for in the URL-safe base64 alphabet without
/// padding; `None` where the `base64` crate rejects `text`.
pub uninterp spec fn base64url_decoded(text: Seq<char>) -> Option<Seq<u8>>;

/// The eight bytes of `t`, most significant first.
pub open spec fn timestamp_bytes(t: u64) -> Seq<u8> {
    Seq::new(8, |i: int| ((t >> ((56 - 8 * i) as u64)) & 0xff) as u8)
}

/// The token made at `timestamp` from the random bytes `random`.
pub open spec fn csrf_token(timestamp: u64, random: Seq<u8>) -> Seq<char> {
    base64url_encoded(sha256_digest(timestamp_bytes(timestamp) + random))
}

/// The verdict on what a token decodes to: it has to decode, and to 32
/// bytes.
pub open spec fn csrf_judgement(decoded: Option<Seq<u8>>) -> Result<(), SecurityIssue> {
    match decoded {
        None => Err(SecurityIssue::InvalidCsrfFormat),
        Some(bytes) => if bytes.len() != 32 {
            Err(SecurityIssue::InvalidCsrfLength)
        } else {
            Ok(())
        },
    }
}

/// The verdict on the token `token`.
pub open spec fn csrf_verdict(token: Seq<char>) -> Result<(), SecurityIssue> {
    csrf_judgement(base64url_decoded(token))
}

/// Bytes decoded from a token, taken by their view.
pub open spec fn bytes_view(decoded: Option<Vec<u8>>) -> Option<Seq<u8>> {
    match decoded {
        Some(bytes) => Some(bytes@),
        None => None,
    }
}

/// Hashes `data` with `sha2::Sha256`. The digest is named, not restated;
/// that it has 32 bytes is the one fact taken from the crate.
#[verifier::external_body]
pub(crate) fn sha256(data: &Vec<u8>) -> (digest: Vec<u8>)
    ensures
        digest@ == sha256_digest(data@),
        digest@.len() == 32,
{
    <sha2::Sha256 as sha2::Digest>::digest(data.as_slice()).to_vec()
}

/// Encodes `data` with `base64`'s `URL_SAFE_NO_PAD` engine. The text is
/// named; the one fact taken from the crate is that decoding it with the
/// same engine gives `data` back.
#[verifier::external_body]
pub(crate) fn base64url_encode(data: &Vec<u8>) -> (text: String)
    ensures
        text@ == base64url_encoded(data@),
        base64url_decoded(text@) == Some(data@),
{
    base64::Engine::encode(&base64::engine::general_purpose::URL_SAFE_NO_PAD, data)
}

/// Decodes `text` with `base64`'s `URL_SAFE_NO_PAD` engine; `None` where
/// the engine reports an error.
#[verifier::external_body]
pub(crate) fn base64url_decode(text: &str) -> (decoded: Option<Vec<u8>>)
    ensures
        bytes_view(decoded) == base64url_decoded(text@),
{
    base64::Engine::decode(&base64::engine::general_purpose::URL_SAFE_NO_PAD, text).ok()
}

/// The bytes of `t`, most significant first.
pub fn be_bytes(t: u64) -> (bytes: Vec<u8>)
    ensures
        bytes@ == timestamp_bytes(t),
{
    let mut bytes: Vec<u8> = Vec::new();
    let mut i: u64 = 0;
    while i < 8
        invariant
            i <= 8,
            bytes@.len() == i,
            forall|j: int| 0 <= j < i ==> #[trigger] bytes@[j] == timestamp_bytes(t)[j],
        decreases 8 - i,
    {
        let shift: u64 = 56 - 8 * i;
        let b: u64 = (t >> shift) & 0xff;
        assert(b <= 0xff) by (bit_vector)
            requires
                b == (t >> shift) & 0xff,
        ;
        bytes.push(b as u8);
        i += 1;
    }
    assert(bytes@ =~= timestamp_bytes(t));
    bytes
}

/// Escapes markup in `text`, drops null characters and trims white space at
/// both ends.
pub fn escape_and_trim(text: &str) -> (r: String)
    ensures
        r@ == trimmed(escaped(text@)),
{
    let chars = chars_of(text);
    let mut out: Vec<char> = Vec::new();
    let mut i: usize = 0;
    while i < chars.len()
        invariant
            i <= chars.len(),
            out@ == escaped(chars@.take(i as int)),
        decreases chars.len() - i,
    {
        proof {
            assert(chars@.take(i + 1).drop_last() =~= chars@.take(i as int));
        }
        let ghost before = out@;
        let c = chars[i];
        if c == '&' {
            out.push('&');
            out.push('a');
            out.push('m');
            out.push('p');
            out.push(';');
        } else if c == '<' {
            out.push('&');
            out.push('l');
            out.push('t');
            out.push(';');
        } else if c == '>' {
            out.push('&');
            out.push('g');
            out.push('t');
            out.push(';');
        } else if c == '"' {
            out.push('&');
            out.push('q');
            out.push('u');
            out.push('o');
            out.push('t');
            out.push(';');
        } else if c == '\'' {
            out.push('&');
            out.push('#');
            out.push('x');
            out.push('2');
            out.push('7');
            out.push(';');
        } else if c != '\0' {
            out.push(c);
        }
        proof {
            assert(out@ =~= before + entity(c));
        }
        i += 1;
    }
    proof {
        assert(chars@.take(chars.len() as int) =~= chars@);
    }
    let mut end: usize = out.len();
    proof {
        assert(out@.take(end as int) =~= out@);
    }
    while end > 0 && is_whitespace(out[end - 1])
        invariant
            end <= out.len(),
            trim_end(out@) == trim_end(out@.take(end as int)),
        decreases end,
    {
        proof {
            assert(out@.take(end as int).drop_last() =~= out@.take(end - 1));
        }
        end -= 1;
    }
    let mut start: usize = 0;
    while start < end && is_whitespace(out[start])
        invariant
            start <= end <= out.len(),
            trim_start(out@.take(end as int)) == trim_start(out@.subrange(start as int, end as int)),
        decreases end - start,
    {
        proof {
            assert(out@.subrange(start as int, end as int).drop_first() =~= out@.subrange(
                start + 1,
                end as int,
            ));
        }
        start += 1;
    }
    let mut kept: Vec<char> = Vec::new();
    let mut k: usize = start;
    while k < end
        invariant
            start <= k <= end <= out.len(),
            kept@ == out@.subrange(start as int, k as int),
        decreases end - k,
    {
        kept.push(out[k]);
        proof {
            assert(kept@ =~= out@.subrange(start as int, k + 1));
        }
        k += 1;
    }
    proof {
        let body = out@.take(end as int);
        assert(trim_end(out@) == body) by {
            if end > 0 {
                assert(body.last() == out@[end - 1]);
            }
        }
        let core = out@.subrange(start as int, end as int);
        assert(trim_start(body) == core) by {
            if start < end {
                assert(core.first() == out@[start as int]);
            }
        }
    }
    string_from_chars(&kept)
}

pub struct SecurityManager {
    max_request_size: usize,
    max_string_length: usize,
    dangerous_patterns: Vec<String>,
    sql_patterns: Vec<String>,
    allowed_domains: Vec<String>,
}

impl View for SecurityManager {
    type V = SecurityRules;

    closed spec fn view(&self) -> SecurityRules {
        SecurityRules {
            max_request_size: self.max_request_size as nat,
            max_string_length: self.max_string_length as nat,
            dangerous: pattern_texts(self.dangerous_patterns@),
            sql: pattern_texts(self.sql_patterns@),
            domains: pattern_texts(self.allowed_domains@),
        }
    }
}

/// Owned copies of `texts`.
pub fn table_of(texts: &[&str]) -> (table: Vec<String>)
    ensures
        table@.len() == texts@.len(),
        forall|i: int| 0 <= i < texts@.len() ==> #[trigger] table@[i]@ == texts@[i]@,
{
    let mut table: Vec<String> = Vec::new();
    let mut i: usize = 0;
    while i < texts.len()
        invariant
            i <= texts.len(),
            table@.len() == i,
            forall|j: int| 0 <= j < i ==> #[trigger] table@[j]@ == texts@[j]@,
        decreases texts.len() - i,
    {
        table.push(String::from_str(texts[i]));
        i += 1;
    }
    table
}

impl SecurityManager {
    pub fn new() -> (m: Self)
        ensures
            m@ == default_rules(),
    {
        let dangerous = [
            "(?i)<script[^>]*>.*?</script>",
            "(?i)javascript:",
            "(?i)on\\w+\\s*=",
            "(?i)eval\\s*\\(",
            "(?i)expression\\s*\\(",
            "(?i)vbscript:",
            "(?i)<!--.*?-->",
            "(?i)<iframe[^>]*>.*?</iframe>",
        ];
        let sql = [
            "(?i)\\b(union|select|insert|update|delete|drop|create|alter|exec|execute)\\b",
            "(?i)(\\-\\-|\\#|\\/\\*|\\*\\/)",
            "(?i)(\\bor\\b|\\band\\b)\\s+\\d+\\s*=\\s*\\d+",
            "(?i)'\\s*or\\s*'[^']*'\\s*=\\s*'[^']*'",
        ];
        let domains = [
            "github.com",
            "api.github.com",
            "vercel.com",
            "api.vercel.com",
            "developer.nvidia.com",
            "api.nvidia.com",
            "openai.com",
            "api.openai.com",
            "pinecone.io",
            "api.pinecone.io",
        ];
        let m = SecurityManager {
            max_request_size: MAX_REQUEST_SIZE,
            max_string_length: MAX_STRING_LENGTH,
            dangerous_patterns: table_of(&dangerous),
            sql_patterns: table_of(&sql),
            allowed_domains: table_of(&domains),
        };
        proof {
            assert(m@.dangerous =~= default_dangerous_rules());
            assert(m@.sql =~= default_sql_rules());
            assert(m@.domains =~= default_domains());
        }
        m
    }

    /// A manager with rule tables and limits of the caller's choosing.
    pub fn with_rules(
        max_request_size: usize,
        max_string_length: usize,
        dangerous_patterns: Vec<String>,
        sql_patterns: Vec<String>,
        allowed_domains: Vec<String>,
    ) -> (m: Self)
        ensures
            m@ == (SecurityRules {
                max_request_size: max_request_size as nat,
                max_string_length: max_string_length as nat,
                dangerous: pattern_texts(dangerous_patterns@),
                sql: pattern_texts(sql_patterns@),
                domains: pattern_texts(allowed_domains@),
            }),
    {
        SecurityManager {
            max_request_size,
            max_string_length,
            dangerous_patterns,
            sql_patterns,
            allowed_domains,
        }
    }

    /// Judges a string of `len` bytes from what the rule tables answered.
    pub fn judge_string(len: usize, max_len: usize, dangerous: bool, sql: bool, nul: bool) -> (r:
        Result<(), SecurityError>)
        ensures
            outcome(r) == string_judgement(len as nat, max_len as nat, dangerous, sql, nul),
    {
        if len > max_len {
            Err(SecurityError::StringTooLong)
        } else if dangerous {
            Err(SecurityError::DangerousContent)
        } else if sql {
            Err(SecurityError::SqlPattern)
        } else if nul {
            Err(SecurityError::NullByte)
        } else {
            Ok(())
        }
    }

    pub fn validate_string(&self, s: &str) -> (r: Result<(), SecurityError>)
        ensures
            outcome(r) == string_verdict(self@, s@),
    {
        let len = byte_len(s);
        if len > self.max_string_length {
            return Err(SecurityError::StringTooLong);
        }
        let dangerous = violates_any_of(&self.dangerous_patterns, s);
        if dangerous {
            return Err(SecurityError::DangerousContent);
        }
        let sql = violates_any_of(&self.sql_patterns, s);
        let nul = contains_char(s, '\0');
        Self::judge_string(len, self.max_string_length, dangerous, sql, nul)
    }

    /// Scans every string of `value`.
    pub fn validate_value(&self, value: &JsonValue) -> (r: Result<(), SecurityError>)
        ensures
            outcome(r) == value_verdict(self@, value@),
        decreases value,
    {
        match value {
            JsonValue::String(s) => self.validate_string(s.as_str()),
            JsonValue::Array(items) => {
                proof {
                    lemma_items_view(items@);
                }
                let ghost listed = items_view(items@);
                let mut i: usize = 0;
                while i < items.len()
                    invariant
                        i <= items.len(),
                        value@ == JsonView::Array(listed),
                        listed.len() == items@.len(),
                        forall|j: int| 0 <= j < items@.len() ==> #[trigger] listed[j] == items@[j]@,
                        forall|j: int|
                            0 <= j < items@.len() ==> decreases_to!(value => #[trigger] items@[j]),
                        items_scan(self@, listed, 0) == items_scan(self@, listed, i as int),
                    decreases items.len() - i,
                {
                    assert(listed[i as int] == items@[i as int]@);
                    match self.validate_value(&items[i]) {
                        Err(e) => {
                            return Err(e);
                        },
                        Ok(_) => {},
                    }
                    i += 1;
                }
                Ok(())
            },
            JsonValue::Object(members) => {
                proof {
                    lemma_members_view(members@);
                }
                let ghost listed = members_view(members@);
                let mut i: usize = 0;
                while i < members.len()
                    invariant
                        i <= members.len(),
                        value@ == JsonView::Object(listed),
                        listed.len() == members@.len(),
                        forall|j: int|
                            0 <= j < members@.len() ==> #[trigger] listed[j] == (
                                members@[j].0@,
                                members@[j].1@,
                            ),
                        forall|j: int|
                            0 <= j < members@.len() ==> decreases_to!(value => #[trigger] members@[j]),
                        members_scan(self@, listed, 0) == members_scan(self@, listed, i as int),
                    decreases members.len() - i,
                {
                    assert(listed[i as int] == (members@[i as int].0@, members@[i as int].1@));
                    assert(decreases_to!(value => members@[i as int]));
                    match self.validate_value(&members[i].1) {
                        Err(e) => {
                            return Err(e);
                        },
                        Ok(_) => {},
                    }
                    i += 1;
                }
                Ok(())
            },
            _ => Ok(()),
        }
    }

    /// Whether `domain` is on the allow-list.
    pub fn domain_allowed(&self, domain: &str) -> (r: bool)
        ensures
            r == self@.domains.contains(domain@),
    {
        let mut i: usize = 0;
        while i < self.allowed_domains.len()
            invariant
                i <= self.allowed_domains.len(),
                forall|j: int| 0 <= j < i ==> self@.domains[j] != domain@,
            decreases self.allowed_domains.len() - i,
        {
            if str_eq(self.allowed_domains[i].as_str(), domain) {
                assert(self@.domains[i as int] == domain@);
                return true;
            }
            i += 1;
        }
        false
    }

    /// Judges a URL from the parts that parsing gave.
    pub fn judge_url(&self, parts: Option<(String, Option<String>)>) -> (r: Result<
        (),
        SecurityError,
    >)
        ensures
            outcome(r) == url_judgement(self@.domains, parts_view(parts)),
    {
        match parts {
            None => Err(SecurityError::InvalidUrl),
            Some((scheme, domain)) => {
                if !str_eq(scheme.as_str(), "http") && !str_eq(scheme.as_str(), "https") {
                    return Err(SecurityError::SchemeNotAllowed);
                }
                match domain {
                    None => Err(SecurityError::NoDomain),
                    Some(d) => {
                        if self.domain_allowed(d.as_str()) {
                            Ok(())
                        } else {
                            Err(SecurityError::DomainNotAllowed(d))
                        }
                    },
                }
            },
        }
    }

    pub fn validate_url(&self, url: &str) -> (r: Result<(), SecurityError>)
        ensures
            outcome(r) == url_verdict(self@, url@),
    {
        self.judge_url(parse_url(url))
    }

    /// The security scan of a request that takes `serialized_len` bytes on
    /// the wire.
    pub fn validate_request(&self, request: &JsonValue, serialized_len: usize) -> (r: Result<
        (),
        SecurityError,
    >)
        ensures
            outcome(r) == request_verdict(self@, request@, serialized_len as nat),
    {
        if serialized_len > self.max_request_size {
            return Err(SecurityError::RequestTooLarge);
        }
        match self.validate_value(request) {
            Err(e) => {
                return Err(e);
            },
            Ok(_) => {},
        }
        match request.get_str("url") {
            Some(url) => self.validate_url(url),
            None => Ok(()),
        }
    }
    /// Takes the matches of the dangerous-content rules out of `input`, then
    /// escapes markup, drops null characters and trims.
    pub fn sanitize_string(&self, input: &str) -> (r: String)
        ensures
            r@ == sanitized_string(self@, input@),
    {
        let mut current = input.to_owned();
        let mut i: usize = 0;
        while i < self.dangerous_patterns.len()
            invariant
                i <= self.dangerous_patterns.len(),
                stripped(self@.dangerous, input@, 0) == stripped(self@.dangerous, current@, i as int),
            decreases self.dangerous_patterns.len() - i,
        {
            match regex_replace_all(self.dangerous_patterns[i].as_str(), current.as_str(), "") {
                Some(next) => {
                    current = next;
                },
                None => {},
            }
            i += 1;
        }
        escape_and_trim(current.as_str())
    }

    /// Judges a token from what decoding it gave.
    pub fn judge_csrf(decoded: Option<Vec<u8>>) -> (r: Result<(), SecurityError>)
        ensures
            outcome(r) == csrf_judgement(bytes_view(decoded)),
    {
        match decoded {
            None => Err(SecurityError::InvalidCsrfFormat),
            Some(bytes) => {
                if bytes.len() != 32 {
                    Err(SecurityError::InvalidCsrfLength)
                } else {
                    Ok(())
                }
            },
        }
    }

    /// Checks the form of a token: URL-safe base64 of 32 bytes.
    pub fn validate_csrf_token(&self, token: &str) -> (r: Result<(), SecurityError>)
        ensures
            outcome(r) == csrf_verdict(token@),
    {
        Self::judge_csrf(base64url_decode(token))
    }

    /// The token for the instant `timestamp` and the random bytes `random`.
    pub fn csrf_token_from(timestamp: u64, random: &Vec<u8>) -> (token: String)
        ensures
            token@ == csrf_token(timestamp, random@),
            csrf_verdict(token@) is Ok,
    {
        let mut data = be_bytes(timestamp);
        let mut i: usize = 0;
        while i < random.len()
            invariant
                i <= random.len(),
                data@ == timestamp_bytes(timestamp) + random@.take(i as int),
            decreases random.len() - i,
        {
            data.push(random[i]);
            proof {
                assert(random@.take(i + 1) =~= random@.take(i as int).push(random@[i as int]));
                assert(data@ =~= timestamp_bytes(timestamp) + random@.take(i + 1));
            }
            i += 1;
        }
        proof {
            assert(random@.take(random.len() as int) =~= random@);
        }
        let digest = sha256(&data);
        base64url_encode(&digest)
    }

    /// A fresh token from the current time and sixteen random bytes. Whatever
    /// the clock and the generator give, the token passes
    /// [`Self::validate_csrf_token`].
    pub fn generate_csrf_token(&self) -> (token: String)
        ensures
            exists|now: u64, random: Seq<u8>|
                random.len() == 16 && token@ == #[trigger] csrf_token(now, random),
            csrf_verdict(token@) is Ok,
    {
        let now = unix_now();
        let random = random_bytes();
        let token = Self::csrf_token_from(now, &random);
        assert(random@.len() == 16 && token@ == csrf_token(now, random@));
        token
    }
}

} // verus!