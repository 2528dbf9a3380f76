//! Input validation: the shape rules for the fields of a request body.

use crate::json::{members_view, lemma_members_view, text_member, JsonValue, JsonView};
use crate::pattern::{matches_rule, satisfies};
use crate::text::{
    alphanumeric, byte_len, chars_of, control, is_alphanumeric, is_control, is_whitespace, str_eq,
    string_from_chars, utf8_len, whitespace,
};
use vstd::prelude::*;
use vstd::string::StringExecFns;

verus! {

/// The rule that a field falls under, decided by its name alone.
#[derive(Clone, Copy, Debug, PartialEq, Eq, Structural)]
pub enum FieldKind {
    Email,
    Url,
    Credential,
    Username,
    Password,
    Name,
    /// No rule of its own; objects and arrays under it are searched for
    /// fields that have one.
    Other,
}

/// A field that a vendor configuration has to carry.
#[derive(Clone, Copy, Debug, PartialEq, Eq, Structural)]
pub enum RequiredField {
    DeviceId,
    SessionId,
    RepoName,
    Owner,
    ProjectName,
}

#[derive(Clone, Copy, Debug, PartialEq, Eq, Structural)]
pub enum ValidationError {
    NotAnObject,
    InvalidEmail,
    InvalidUrl,
    ApiKeyTooShort,
    ApiKeyTooLong,
    UsernameLength,
    UsernameCharacters,
    PasswordTooShort,
    NameLength,
    NameCharacters,
    MissingField(RequiredField),
    InvalidQuality,
    InvalidVisibility,
    InvalidFramework,
}

impl RequiredField {
    pub open spec fn name(self) -> Seq<char> {
        match self {
            RequiredField::DeviceId => "device_id"@,
            RequiredField::SessionId => "session_id"@,
            RequiredField::RepoName => "repo_name"@,
            RequiredField::Owner => "owner"@,
            RequiredField::ProjectName => "project_name"@,
        }
    }

    pub fn as_str(&self) -> (s: &'static str)
        ensures
            s@ == self.name(),
    {
        match self {
            RequiredField::DeviceId => "device_id",
            RequiredField::SessionId => "session_id",
            RequiredField::RepoName => "repo_name",
            RequiredField::Owner => "owner",
            RequiredField::ProjectName => "project_name",
        }
    }
}

impl ValidationError {
    /// The text shown to the client.
    pub open spec fn text(self) -> Seq<char> {
        match self {
            ValidationError::NotAnObject => "Input must be a JSON object"@,
            ValidationError::InvalidEmail => "Invalid email format"@,
            ValidationError::InvalidUrl => "Invalid URL format"@,
            ValidationError::ApiKeyTooShort => "API key too short"@,
            ValidationError::ApiKeyTooLong => "API key too long"@,
            ValidationError::UsernameLength => "Username must be between 3 and 50 characters"@,
            ValidationError::UsernameCharacters => "Username can only contain alphanumeric characters, underscores, and hyphens"@,
            ValidationError::PasswordTooShort => "Password must be at least 8 characters long"@,
            ValidationError::NameLength => "Name must be between 1 and 100 characters"@,
            ValidationError::NameCharacters => "Name can only contain alphanumeric characters, underscores, hyphens, and dots"@,
            ValidationError::MissingField(f) => "Missing required field: "@ + f.name(),
            ValidationError::InvalidQuality => "Invalid quality setting"@,
            ValidationError::InvalidVisibility => "Invalid repository visibility"@,
            ValidationError::InvalidFramework => "Invalid framework selection"@,
        }
    }

    pub fn message(&self) -> (s: String)
        ensures
            s@ == self.text(),
    {
        match self {
            ValidationError::NotAnObject => String::from_str("Input must be a JSON object"),
            ValidationError::InvalidEmail => String::from_str("Invalid email format"),
            ValidationError::InvalidUrl => String::from_str("Invalid URL format"),
            ValidationError::ApiKeyTooShort => String::from_str("API key too short"),
            ValidationError::ApiKeyTooLong => String::from_str("API key too long"),
            ValidationError::UsernameLength => String::from_str(
                "Username must be between 3 and 50 characters",
            ),
            ValidationError::UsernameCharacters => String::from_str(
                "Username can only contain alphanumeric characters, underscores, and hyphens",
            ),
            ValidationError::PasswordTooShort => String::from_str(
                "Password must be at least 8 characters long",
            ),
            ValidationError::NameLength => String::from_str(
                "Name must be between 1 and 100 characters",
            ),
            ValidationError::NameCharacters => String::from_str(
                "Name can only contain alphanumeric characters, underscores, hyphens, and dots",
            ),
            ValidationError::MissingField(f) => {
                let mut s = String::from_str("Missing required field: ");
                s.append(f.as_str());
                s
            },
            ValidationError::InvalidQuality => String::from_str("Invalid quality setting"),
            ValidationError::InvalidVisibility => String::from_str("Invalid repository visibility"),
            ValidationError::InvalidFramework => String::from_str("Invalid framework selection"),
        }
    }
}

pub open spec fn field_kind(key: Seq<char>) -> FieldKind {
    if key == "email"@ {
        FieldKind::Email
    } else if key == "url"@ || key == "repository_url"@ || key == "webhook_url"@ {
        FieldKind::Url
    } else if key == "api_key"@ || key == "token"@ || key == "access_token"@ {
        FieldKind::Credential
    } else if key == "username"@ {
        FieldKind::Username
    } else if key == "password"@ {
        FieldKind::Password
    } else if key == "repo_name"@ || key == "project_name"@ {
        FieldKind::Name
    } else {
        FieldKind::Other
    }
}

pub fn classify_key(key: &str) -> (kind: FieldKind)
    ensures
        kind == field_kind(key@),
{
    if str_eq(key, "email") {
        FieldKind::Email
    } else if str_eq(key, "url") || str_eq(key, "repository_url") || str_eq(key, "webhook_url") {
        FieldKind::Url
    } else if str_eq(key, "api_key") || str_eq(key, "token") || str_eq(key, "access_token") {
        FieldKind::Credential
    } else if str_eq(key, "username") {
        FieldKind::Username
    } else if str_eq(key, "password") {
        FieldKind::Password
    } else if str_eq(key, "repo_name") || str_eq(key, "project_name") {
        FieldKind::Name
    } else {
        FieldKind::Other
    }
}

/// A character allowed in a user name.
pub open spec fn word_char(c: char) -> bool {
    alphanumeric(c) || c == '_' || c == '-'
}

/// A character allowed in a repository or project name.
pub open spec fn name_char(c: char) -> bool {
    word_char(c) || c == '.'
}

/// Whether every character of `s` is allowed in a field of this kind.
pub open spec fn charset_ok(kind: FieldKind, s: Seq<char>) -> bool {
    match kind {
        FieldKind::Username => forall|i: int| 0 <= i < s.len() ==> word_char(#[trigger] s[i]),
        FieldKind::Name => forall|i: int| 0 <= i < s.len() ==> name_char(#[trigger] s[i]),
        _ => true,
    }
}

/// Whether `s` has the form that a field of this kind must have.
pub open spec fn form_ok(email: Seq<char>, url: Seq<char>, kind: FieldKind, s: Seq<char>) -> bool {
    match kind {
        FieldKind::Email => matches_rule(email, s),
        FieldKind::Url => matches_rule(url, s),
        _ => true,
    }
}

/// The verdict on a text of `len` bytes in a field of this kind, given
/// whether it has the required form and whether its characters are allowed.
pub open spec fn text_judgement(kind: FieldKind, len: nat, form: bool, charset: bool) -> Result<
    (),
    ValidationError,
> {
    match kind {
        FieldKind::Email => if form {
            Ok(())
        } else {
            Err(ValidationError::InvalidEmail)
        },
        FieldKind::Url => if form {
            Ok(())
        } else {
            Err(ValidationError::InvalidUrl)
        },
        FieldKind::Credential => if len < 16 {
            Err(ValidationError::ApiKeyTooShort)
        } else if len > 500 {
            Err(ValidationError::ApiKeyTooLong)
        } else {
            Ok(())
        },
        FieldKind::Username => if len < 3 || len > 50 {
            Err(ValidationError::UsernameLength)
        } else if !charset {
            Err(ValidationError::UsernameCharacters)
        } else {
            Ok(())
        },
        FieldKind::Password => if len < 8 {
            Err(ValidationError::PasswordTooShort)
        } else {
            Ok(())
        },
        FieldKind::Name => if len < 1 || len > 100 {
            Err(ValidationError::NameLength)
        } else if !charset {
            Err(ValidationError::NameCharacters)
        } else {
            Ok(())
        },
        FieldKind::Other => Ok(()),
    }
}

/// The verdict on the text `s` in a field of this kind.
pub open spec fn text_verdict(email: Seq<char>, url: Seq<char>, kind: FieldKind, s: Seq<char>) -> Result<
    (),
    ValidationError,
> {
    text_judgement(kind, utf8_len(s), form_ok(email, url, kind, s), charset_ok(kind, s))
}

/// The verdict on the field `key` with value `value`. A field with a rule
/// is judged only where its value is a string. A field without one is
/// searched: the members of an object, and the members of each object in an
/// array, are fields in turn, and the first failure in document order is the
/// verdict.
pub open spec fn field_verdict(email: Seq<char>, url: Seq<char>, key: Seq<char>, value: JsonView) -> Result<
    (),
    ValidationError,
>
    decreases value, 0nat,
{
    let kind = field_kind(key);
    if kind != FieldKind::Other {
        match value {
            JsonView::String(s) => text_verdict(email, url, kind, s),
            _ => Ok(()),
        }
    } else {
        match value {
            JsonView::Object(members) => members_verdict(email, url, members, 0),
            JsonView::Array(items) => items_verdict(email, url, items, 0),
            _ => Ok(()),
        }
    }
}

/// The first failure among the fields `members[from..]`.
pub open spec fn members_verdict(
    email: Seq<char>,
    url: Seq<char>,
    members: Seq<(Seq<char>, JsonView)>,
    from: int,
) -> Result<(), ValidationError>
    decreases members, members.len() - from,
{
    if 0 <= from < members.len() {
        match field_verdict(email, url, members[from].0, members[from].1) {
            Err(e) => Err(e),
            Ok(_) => members_verdict(email, url, members, from + 1),
        }
    } else {
        Ok(())
    }
}

/// The first failure among the objects in `items[from..]`.
pub open spec fn items_verdict(email: Seq<char>, url: Seq<char>, items: Seq<JsonView>, from: int) -> Result<
    (),
    ValidationError,
>
    decreases items, items.len() - from,
{
    if 0 <= from < items.len() {
        match items[from] {
            JsonView::Object(members) => match members_verdict(email, url, members, 0) {
                Err(e) => Err(e),
                Ok(_) => items_verdict(email, url, items, from + 1),
            },
            _ => items_verdict(email, url, items, from + 1),
        }
    } else {
        Ok(())
    }
}

/// The verdict on a request body: it has to be an object, and its members
/// are judged as fields.
pub open spec fn input_verdict(email: Seq<char>, url: Seq<char>, data: JsonView) -> Result<
    (),
    ValidationError,
> {
    match data {
        JsonView::Object(members) => members_verdict(email, url, members, 0),
        _ => Err(ValidationError::NotAnObject),
    }
}

/// Judges a text of `len` bytes in a field of kind `kind`.
pub fn judge_text(kind: FieldKind, len: usize, form: bool, charset: bool) -> (r: Result<
    (),
    ValidationError,
>)
    ensures
        r == text_judgement(kind, len as nat, form, charset),
{
    match kind {
        FieldKind::Email => if form {
            Ok(())
        } else {
            Err(ValidationError::InvalidEmail)
        },
        FieldKind::Url => if form {
            Ok(())
        } else {
            Err(ValidationError::InvalidUrl)
        },
        FieldKind::Credential => if len < 16 {
            Err(ValidationError::ApiKeyTooShort)
        } else if len > 500 {
            Err(ValidationError::ApiKeyTooLong)
        } else {
            Ok(())
        },
        FieldKind::Username => if len < 3 || len > 50 {
            Err(ValidationError::UsernameLength)
        } else if !charset {
            Err(ValidationError::UsernameCharacters)
        } else {
            Ok(())
        },
        FieldKind::Password => if len < 8 {
            Err(ValidationError::PasswordTooShort)
        } else {
            Ok(())
        },
        FieldKind::Name => if len < 1 || len > 100 {
            Err(ValidationError::NameLength)
        } else if !charset {
            Err(ValidationError::NameCharacters)
        } else {
            Ok(())
        },
        FieldKind::Other => Ok(()),
    }
}

/// Whether every character of `s` is allowed in a field of kind `kind`.
pub fn check_charset(kind: FieldKind, s: &str) -> (r: bool)
    ensures
        r == charset_ok(kind, s@),
{
    let dots = match kind {
        FieldKind::Username => false,
        FieldKind::Name => true,
        _ => {
            return true;
        },
    };
    let chars = chars_of(s);
    let mut i: usize = 0;
    while i < chars.len()
        invariant
            chars@ == s@,
            i <= chars.len(),
            kind == FieldKind::Username || kind == FieldKind::Name,
            dots == (kind == FieldKind::Name),
            forall|j: int| 0 <= j < i ==> (if dots {
                name_char(#[trigger] chars@[j])
            } else {
                word_char(chars@[j])
            }),
        decreases chars.len() - i,
    {
        let c = chars[i];
        let ok = is_alphanumeric(c) || c == '_' || c == '-' || (dots && c == '.');
        if !ok {
            return false;
        }
        i += 1;
    }
    true
}

/// Whether the configuration `config` carries a member named as `field`.
pub open spec fn has_field(config: JsonView, field: RequiredField) -> bool {
    config.member(field.name()) is Some
}

pub open spec fn quality_allowed(q: Seq<char>) -> bool {
    q == "low"@ || q == "medium"@ || q == "high"@ || q == "ultra"@ || q == "rtx_enabled"@
}

pub open spec fn visibility_allowed(v: Seq<char>) -> bool {
    v == "public"@ || v == "private"@
}

pub open spec fn framework_allowed(f: Seq<char>) -> bool {
    f == "nextjs"@ || f == "react"@ || f == "vue"@ || f == "svelte"@ || f == "nuxtjs"@ || f
        == "gatsby"@ || f == "static"@
}

/// A streaming configuration names its device and session; its quality,
/// where given as a string, is one of the known settings.
pub open spec fn nvidia_verdict(config: JsonView) -> Result<(), ValidationError> {
    if !has_field(config, RequiredField::DeviceId) {
        Err(ValidationError::MissingField(RequiredField::DeviceId))
    } else if !has_field(config, RequiredField::SessionId) {
        Err(ValidationError::MissingField(RequiredField::SessionId))
    } else {
        match text_member(config, "quality"@) {
            Some(q) => if quality_allowed(q) {
                Ok(())
            } else {
                Err(ValidationError::InvalidQuality)
            },
            None => Ok(()),
        }
    }
}

/// A repository configuration names the repository and its owner; its
/// visibility, where given as a string, is public or private.
pub open spec fn github_verdict(config: JsonView) -> Result<(), ValidationError> {
    if !has_field(config, RequiredField::RepoName) {
        Err(ValidationError::MissingField(RequiredField::RepoName))
    } else if !has_field(config, RequiredField::Owner) {
        Err(ValidationError::MissingField(RequiredField::Owner))
    } else {
        match text_member(config, "visibility"@) {
            Some(v) => if visibility_allowed(v) {
                Ok(())
            } else {
                Err(ValidationError::InvalidVisibility)
            },
            None => Ok(()),
        }
    }
}

/// A deployment configuration names its project; its framework, where given
/// as a string, is one of the known ones.
pub open spec fn vercel_verdict(config: JsonView) -> Result<(), ValidationError> {
    if !has_field(config, RequiredField::ProjectName) {
        Err(ValidationError::MissingField(RequiredField::ProjectName))
    } else {
        match text_member(config, "framework"@) {
            Some(f) => if framework_allowed(f) {
                Ok(())
            } else {
                Err(ValidationError::InvalidFramework)
            },
            None => Ok(()),
        }
    }
}

/// A line break or tab reads as a blank.
pub open spec fn blanked(c: char) -> char {
    if c == '\n' || c == '\r' || c == '\t' {
        ' '
    } else {
        c
    }
}

/// `s` with line breaks and tabs turned into blanks and every other control
/// character left out.
pub open spec fn visible(s: Seq<char>) -> Seq<char>
    decreases s.len(),
{
    if s.len() == 0 {
        s
    } else if control(blanked(s.last())) {
        visible(s.drop_last())
    } else {
        visible(s.drop_last()).push(blanked(s.last()))
    }
}

/// The words of `s`, its maximal runs of characters that are not white
/// space, joined by single blanks.
pub open spec fn squeezed(s: Seq<char>) -> Seq<char>
    decreases s.len(),
{
    if s.len() == 0 {
        s
    } else {
        let head = squeezed(s.drop_last());
        if whitespace(s.last()) {
            head
        } else if head.len() > 0 && s.len() >= 2 && whitespace(s[s.len() - 2]) {
            head.push(' ').push(s.last())
        } else {
            head.push(s.last())
        }
    }
}

/// The text that [`ValidationManager::sanitize_input`] makes of `s`.
pub open spec fn sanitized_input(s: Seq<char>) -> Seq<char> {
    squeezed(visible(s))
}

pub struct ValidationManager {
    email_pattern: String,
    url_pattern: String,
    api_key_pattern: String,
}

/// The form of an e-mail address.
pub open spec fn default_email_pattern() -> Seq<char> {
    "^[a-zA-Z0-9._%+-]+@[a-zA-Z0-9.-]+\\.[a-zA-Z]{2,}$"@
}

/// The form of an HTTP or HTTPS URL.
pub open spec fn default_url_pattern() -> Seq<char> {
    "^https?://[^\\s/$.?#].[^\\s]*$"@
}

/// The form of an API key.
pub open spec fn default_api_key_pattern() -> Seq<char> {
    "^[a-zA-Z0-9_-]{16,}$"@
}

impl ValidationManager {
    pub closed spec fn email_rule(&self) -> Seq<char> {
        self.email_pattern@
    }

    pub closed spec fn url_rule(&self) -> Seq<char> {
        self.url_pattern@
    }

    pub closed spec fn api_key_rule(&self) -> Seq<char> {
        self.api_key_pattern@
    }

    pub fn new() -> (m: Self)
        ensures
            m.email_rule() == default_email_pattern(),
            m.url_rule() == default_url_pattern(),
            m.api_key_rule() == default_api_key_pattern(),
    {
        ValidationManager {
            email_pattern: String::from_str("^[a-zA-Z0-9._%+-]+@[a-zA-Z0-9.-]+\\.[a-zA-Z]{2,}$"),
            url_pattern: String::from_str("^https?://[^\\s/$.?#].[^\\s]*$"),
            api_key_pattern: String::from_str("^[a-zA-Z0-9_-]{16,}$"),
        }
    }

    /// Judges a request body.
    pub fn validate_input(&self, data: &JsonValue) -> (r: Result<(), ValidationError>)
        ensures
            r == input_verdict(self.email_rule(), self.url_rule(), data@),
    {
        match data {
            JsonValue::Object(members) => self.validate_members(members),
            _ => Err(ValidationError::NotAnObject),
        }
    }

    /// Judges the string `text` held by a field of kind `kind`.
    pub fn validate_text(&self, kind: FieldKind, text: &str) -> (r: Result<(), ValidationError>)
        ensures
            r == text_verdict(self.email_rule(), self.url_rule(), kind, text@),
    {
        let form = match kind {
            FieldKind::Email => satisfies(self.email_pattern.as_str(), text),
            FieldKind::Url => satisfies(self.url_pattern.as_str(), text),
            _ => true,
        };
        let charset = check_charset(kind, text);
        judge_text(kind, byte_len(text), form, charset)
    }

    /// Judges one field.
    pub fn validate_field(&self, key: &str, value: &JsonValue) -> (r: Result<(), ValidationError>)
        ensures
            r == field_verdict(self.email_rule(), self.url_rule(), key@, value@),
        decreases value, 0nat,
    {
        let kind = classify_key(key);
        if kind != FieldKind::Other {
            match value {
                JsonValue::String(s) => self.validate_text(kind, s.as_str()),
                _ => Ok(()),
            }
        } else {
            match value {
                JsonValue::Object(members) => self.validate_members(members),
                JsonValue::Array(items) => {
                    proof {
                        value.lemma_array_view();
                    }
                    let ghost listed = value@->Array_0;
                    let mut i: usize = 0;
                    while i < items.len()
                        invariant
                            i <= items.len(),
                            field_kind(key@) == FieldKind::Other,
                            value@ == JsonView::Array(listed),
                            listed.len() == items@.len(),
                            forall|j: int|
                                0 <= j < items@.len() ==> #[trigger] listed[j] == items@[j]@,
                            forall|j: int|
                                0 <= j < items@.len() ==> decreases_to!(value => #[trigger] items@[j]),
                            items_verdict(self.email_rule(), self.url_rule(), listed, 0)
                                == items_verdict(
                                self.email_rule(),
                                self.url_rule(),
                                listed,
                                i as int,
                            ),
                        decreases items.len() - i,
                    {
                        assert(listed[i as int] == items@[i as int]@);
                        match &items[i] {
                            JsonValue::Object(members) => {
                                match self.validate_members(members) {
                                    Err(e) => {
                                        return Err(e);
                                    },
                                    Ok(_) => {},
                                }
                            },
                            _ => {},
                        }
                        i += 1;
                    }
                    Ok(())
                },
                _ => Ok(()),
            }
        }
    }

    /// Judges the members of an object, in order, up to the first failure.
    pub fn validate_members(&self, members: &Vec<(String, JsonValue)>) -> (r: Result<
        (),
        ValidationError,
    >)
        ensures
            r == members_verdict(self.email_rule(), self.url_rule(), members_view(members@), 0),
        decreases members, 1nat,
    {
        proof {
            lemma_members_view(members@);
        }
        let ghost listed = members_view(members@);
        let mut i: usize = 0;
        while i < members.len()
            invariant
                i <= members.len(),
                listed == members_view(members@),
                listed.len() == members@.len(),
                forall|j: int|
                    0 <= j < members@.len() ==> #[trigger] listed[j] == (
                        members@[j].0@,
                        members@[j].1@,
                    ),
                forall|j: int|
                    0 <= j < members@.len() ==> decreases_to!(members => #[trigger] members@[j]),
                members_verdict(self.email_rule(), self.url_rule(), listed, 0) == members_verdict(
                    self.email_rule(),
                    self.url_rule(),
                    listed,
                    i as int,
                ),
            decreases members.len() - i,
        {
            assert(listed[i as int] == (members@[i as int].0@, members@[i as int].1@));
            assert(decreases_to!(members => members@[i as int]));
            match self.validate_field(members[i].0.as_str(), &members[i].1) {
                Err(e) => {
                    return Err(e);
                },
                Ok(_) => {},
            }
            i += 1;
        }
        Ok(())
    }
    /// Whether `config` carries the member that `field` names.
    pub fn has_required(config: &JsonValue, field: RequiredField) -> (r: bool)
        ensures
            r == has_field(config@, field),
    {
        config.get(field.as_str()).is_some()
    }

    pub fn validate_nvidia_config(&self, config: &JsonValue) -> (r: Result<(), ValidationError>)
        ensures
            r == nvidia_verdict(config@),
    {
        if !Self::has_required(config, RequiredField::DeviceId) {
            return Err(ValidationError::MissingField(RequiredField::DeviceId));
        }
        if !Self::has_required(config, RequiredField::SessionId) {
            return Err(ValidationError::MissingField(RequiredField::SessionId));
        }
        match config.get_str("quality") {
            Some(q) => {
                if str_eq(q, "low") || str_eq(q, "medium") || str_eq(q, "high") || str_eq(
                    q,
                    "ultra",
                ) || str_eq(q, "rtx_enabled") {
                    Ok(())
                } else {
                    Err(ValidationError::InvalidQuality)
                }
            },
            None => Ok(()),
        }
    }

    pub fn validate_github_config(&self, config: &JsonValue) -> (r: Result<(), ValidationError>)
        ensures
            r == github_verdict(config@),
    {
        if !Self::has_required(config, RequiredField::RepoName) {
            return Err(ValidationError::MissingField(RequiredField::RepoName));
        }
        if !Self::has_required(config, RequiredField::Owner) {
            return Err(ValidationError::MissingField(RequiredField::Owner));
        }
        match config.get_str("visibility") {
            Some(v) => {
                if str_eq(v, "public") || str_eq(v, "private") {
                    Ok(())
                } else {
                    Err(ValidationError::InvalidVisibility)
                }
            },
            None => Ok(()),
        }
    }

    pub fn validate_vercel_config(&self, config: &JsonValue) -> (r: Result<(), ValidationError>)
        ensures
            r == vercel_verdict(config@),
    {
        if !Self::has_required(config, RequiredField::ProjectName) {
            return Err(ValidationError::MissingField(RequiredField::ProjectName));
        }
        match config.get_str("framework") {
            Some(f) => {
                if str_eq(f, "nextjs") || str_eq(f, "react") || str_eq(f, "vue") || str_eq(
                    f,
                    "svelte",
                ) || str_eq(f, "nuxtjs") || str_eq(f, "gatsby") || str_eq(f, "static") {
                    Ok(())
                } else {
                    Err(ValidationError::InvalidFramework)
                }
            },
            None => Ok(()),
        }
    }

    /// Flattens free text to one line: control characters go (line breaks
    /// and tabs count as blanks), and the words that remain are joined by
    /// single blanks.
    pub fn sanitize_input(&self, input: &str) -> (r: String)
        ensures
            r@ == sanitized_input(input@),
    {
        let chars = chars_of(input);
        let mut shown: Vec<char> = Vec::new();
        let mut i: usize = 0;
        while i < chars.len()
            invariant
                i <= chars.len(),
                shown@ == visible(chars@.take(i as int)),
            decreases chars.len() - i,
        {
            proof {
                assert(chars@.take(i + 1).drop_last() =~= chars@.take(i as int));
            }
            let c = chars[i];
            let b = if c == '\n' || c == '\r' || c == '\t' {
                ' '
            } else {
                c
            };
            if !is_control(b) {
                shown.push(b);
            }
            i += 1;
        }
        proof {
            assert(chars@.take(chars.len() as int) =~= chars@);
        }
        let mut out: Vec<char> = Vec::new();
        let mut after_gap = false;
        let mut j: usize = 0;
        while j < shown.len()
            invariant
                j <= shown.len(),
                out@ == squeezed(shown@.take(j as int)),
                after_gap == (j > 0 && whitespace(shown@[j - 1])),
            decreases shown.len() - j,
        {
            proof {
                assert(shown@.take(j + 1).drop_last() =~= shown@.take(j as int));
            }
            let c = shown[j];
            let gap = is_whitespace(c);
            if !gap {
                if after_gap && out.len() > 0 {
                    out.push(' ');
                }
                out.push(c);
            }
            after_gap = gap;
            j += 1;
        }
        proof {
            assert(shown@.take(shown.len() as int) =~= shown@);
        }
        string_from_chars(&out)
    }
}

} // verus!