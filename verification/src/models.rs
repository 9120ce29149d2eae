//! The workspace data that the panels read and edit: requests, folders,
//! collections, key/value rows, variables, bodies and auth settings.
use vstd::prelude::*;

verus! {

// ---------------------------------------------------------------------------
// Identifiers
// ---------------------------------------------------------------------------

/// A lower-case hexadecimal digit.
pub open spec fn is_lower_hex(c: char) -> bool {
    ('0' <= c && c <= '9') || ('a' <= c && c <= 'f')
}

/// The hyphenated text form of a UUID: 36 characters, hyphens at positions
/// 8, 13, 18 and 23, lower-case hexadecimal digits elsewhere.
pub open spec fn is_hyphenated_uuid(s: Seq<char>) -> bool {
    &&& s.len() == 36
    &&& forall|i: int|
        0 <= i < 36 ==> if i == 8 || i == 13 || i == 18 || i == 23 {
            s[i] == '-'
        } else {
            is_lower_hex(#[trigger] s[i])
        }
}

/// A fresh random identifier: `uuid::Uuid::new_v4().to_string()`.
///
/// The value is random; the contract states only its shape, which the
/// crate's hyphenated formatter fixes. The crate panics when the operating
/// system's random source fails; nothing here rules that out.
#[verifier::external_body]
pub(crate) fn new_id() -> (r: String)
    ensures
        is_hyphenated_uuid(r@),
{
    uuid::Uuid::new_v4().to_string()
}

// ---------------------------------------------------------------------------
// Plain enumerations
// ---------------------------------------------------------------------------

/// The HTTP methods that a request can use.
#[derive(Clone, Copy, Debug, PartialEq, Eq, Structural)]
pub enum HttpMethod {
    GET,
    POST,
    PUT,
    PATCH,
    DELETE,
}

pub open spec fn method_text(m: HttpMethod) -> Seq<char> {
    match m {
        HttpMethod::GET => seq!['G', 'E', 'T'],
        HttpMethod::POST => seq!['P', 'O', 'S', 'T'],
        HttpMethod::PUT => seq!['P', 'U', 'T'],
        HttpMethod::PATCH => seq!['P', 'A', 'T', 'C', 'H'],
        HttpMethod::DELETE => seq!['D', 'E', 'L', 'E', 'T', 'E'],
    }
}

impl HttpMethod {
    /// The method's name, as sent on the wire.
    pub fn as_str(&self) -> (r: &'static str)
        ensures
            r@ == method_text(*self),
    {
        proof {
            reveal_strlit("GET");
            reveal_strlit("POST");
            reveal_strlit("PUT");
            reveal_strlit("PATCH");
            reveal_strlit("DELETE");
        }
        match self {
            HttpMethod::GET => "GET",
            HttpMethod::POST => "POST",
            HttpMethod::PUT => "PUT",
            HttpMethod::PATCH => "PATCH",
            HttpMethod::DELETE => "DELETE",
        }
    }
}

/// How a request body is encoded.
#[derive(Clone, Copy, Debug, PartialEq, Eq, Structural)]
pub enum BodyType {
    NoBody,
    Json,
    Raw,
    FormData,
    UrlEncoded,
    BinaryFile,
}

/// The authentication scheme of a request or folder.
#[derive(Clone, Copy, Debug, PartialEq, Eq, Structural)]
pub enum AuthType {
    NoAuth,
    ApiKey,
    AwsV4,
    Basic,
    Bearer,
    Jwt,
    OAuth2,
}

/// Whether a multipart field carries text or names a file.
#[derive(Clone, Copy, Debug, PartialEq, Eq, Structural)]
pub enum FormDataPartKind {
    Text,
    File,
}

// ---------------------------------------------------------------------------
// Rows
// ---------------------------------------------------------------------------

/// One query parameter, header or url-encoded field.
pub struct KeyValue {
    pub id: String,
    pub key: String,
    pub value: String,
    pub enabled: bool,
    pub description: String,
}

impl Clone for KeyValue {
    fn clone(&self) -> (r: Self)
        ensures
            r == *self,
    {
        KeyValue {
            id: self.id.clone(),
            key: self.key.clone(),
            value: self.value.clone(),
            enabled: self.enabled,
            description: self.description.clone(),
        }
    }
}

impl KeyValue {
    /// An enabled row with a fresh id and no description.
    pub fn new(key: &str, value: &str) -> (r: KeyValue)
        ensures
            r.key@ == key@,
            r.value@ == value@,
            r.enabled,
            r.description@.len() == 0,
            is_hyphenated_uuid(r.id@),
    {
        KeyValue {
            id: new_id(),
            key: key.to_owned(),
            value: value.to_owned(),
            enabled: true,
            description: String::new(),
        }
    }

    /// An enabled row with an empty key and value.
    pub fn empty() -> (r: KeyValue)
        ensures
            r.key@.len() == 0,
            r.value@.len() == 0,
            r.enabled,
            r.description@.len() == 0,
            is_hyphenated_uuid(r.id@),
    {
        KeyValue {
            id: new_id(),
            key: String::new(),
            value: String::new(),
            enabled: true,
            description: String::new(),
        }
    }
}

/// A named variable of the workspace, a collection or a folder.
pub struct Variable {
    pub id: String,
    pub name: String,
    pub value: String,
    pub enabled: bool,
}

impl Clone for Variable {
    fn clone(&self) -> (r: Self)
        ensures
            r == *self,
    {
        Variable {
            id: self.id.clone(),
            name: self.name.clone(),
            value: self.value.clone(),
            enabled: self.enabled,
        }
    }
}

impl Variable {
    /// An enabled variable with a fresh id.
    pub fn new(name: &str, value: &str) -> (r: Variable)
        ensures
            r.name@ == name@,
            r.value@ == value@,
            r.enabled,
            is_hyphenated_uuid(r.id@),
    {
        Variable { id: new_id(), name: name.to_owned(), value: value.to_owned(), enabled: true }
    }
}

/// One field of a multipart body.
pub struct FormDataPart {
    pub id: String,
    pub name: String,
    pub value: String,
    pub enabled: bool,
    pub kind: FormDataPartKind,
    pub content_type: String,
}

impl Clone for FormDataPart {
    fn clone(&self) -> (r: Self)
        ensures
            r == *self,
    {
        FormDataPart {
            id: self.id.clone(),
            name: self.name.clone(),
            value: self.value.clone(),
            enabled: self.enabled,
            kind: self.kind,
            content_type: self.content_type.clone(),
        }
    }
}

impl FormDataPart {
    /// An enabled, empty text field with a fresh id.
    pub fn empty() -> (r: FormDataPart)
        ensures
            r.name@.len() == 0,
            r.value@.len() == 0,
            r.enabled,
            r.kind == FormDataPartKind::Text,
            r.content_type@.len() == 0,
            is_hyphenated_uuid(r.id@),
    {
        FormDataPart {
            id: new_id(),
            name: String::new(),
            value: String::new(),
            enabled: true,
            kind: FormDataPartKind::Text,
            content_type: String::new(),
        }
    }
}

// ---------------------------------------------------------------------------
// Request body and authentication
// ---------------------------------------------------------------------------

/// The body of a request in all of its editable forms.
pub struct RequestBody {
    pub body_type: BodyType,
    pub content: String,
    pub urlencoded: Vec<KeyValue>,
    pub form_data: Vec<FormDataPart>,
}

impl Clone for RequestBody {
    fn clone(&self) -> (r: Self)
        ensures
            r.body_type == self.body_type,
            r.content == self.content,
            r.urlencoded@ == self.urlencoded@,
            r.form_data@ == self.form_data@,
    {
        let urlencoded = self.urlencoded.clone();
        let form_data = self.form_data.clone();
        assert(urlencoded@ =~= self.urlencoded@);
        assert(form_data@ =~= self.form_data@);
        RequestBody { body_type: self.body_type, content: self.content.clone(), urlencoded, form_data }
    }
}

/// Authentication settings; every scheme keeps its own fields.
pub struct AuthConfig {
    pub enabled: bool,
    pub auth_type: AuthType,
    pub bearer_token: String,
    pub bearer_prefix: String,
    pub basic_username: String,
    pub basic_password: String,
    pub api_key_name: String,
    pub api_key_value: String,
    pub api_key_in_header: bool,
    pub aws_access_key_id: String,
    pub aws_secret_access_key: String,
    pub aws_service: String,
    pub aws_region: String,
    pub aws_session_token: String,
    pub jwt_secret: String,
    pub jwt_secret_base64: bool,
    pub jwt_algorithm: String,
    pub jwt_payload: String,
    pub oauth_grant_type: String,
    pub oauth_client_id: String,
    pub oauth_client_secret: String,
    pub oauth_authorization_url: String,
    pub oauth_access_token_url: String,
    pub oauth_redirect_uri: String,
    pub oauth_state: String,
    pub oauth_audience: String,
    pub oauth_username: String,
    pub oauth_password: String,
    pub oauth_scope: String,
    pub oauth_token_target: String,
    pub oauth_response_type: String,
    pub oauth_header_name: String,
    pub oauth_header_prefix: String,
    pub oauth_send_credentials: String,
    pub oauth_use_pkce: bool,
}

impl Clone for AuthConfig {
    fn clone(&self) -> (r: Self)
        ensures
            r == *self,
    {
        AuthConfig {
            enabled: self.enabled,
            auth_type: self.auth_type,
            bearer_token: self.bearer_token.clone(),
            bearer_prefix: self.bearer_prefix.clone(),
            basic_username: self.basic_username.clone(),
            basic_password: self.basic_password.clone(),
            api_key_name: self.api_key_name.clone(),
            api_key_value: self.api_key_value.clone(),
            api_key_in_header: self.api_key_in_header,
            aws_access_key_id: self.aws_access_key_id.clone(),
            aws_secret_access_key: self.aws_secret_access_key.clone(),
            aws_service: self.aws_service.clone(),
            aws_region: self.aws_region.clone(),
            aws_session_token: self.aws_session_token.clone(),
            jwt_secret: self.jwt_secret.clone(),
            jwt_secret_base64: self.jwt_secret_base64,
            jwt_algorithm: self.jwt_algorithm.clone(),
            jwt_payload: self.jwt_payload.clone(),
            oauth_grant_type: self.oauth_grant_type.clone(),
            oauth_client_id: self.oauth_client_id.clone(),
            oauth_client_secret: self.oauth_client_secret.clone(),
            oauth_authorization_url: self.oauth_authorization_url.clone(),
            oauth_access_token_url: self.oauth_access_token_url.clone(),
            oauth_redirect_uri: self.oauth_redirect_uri.clone(),
            oauth_state: self.oauth_state.clone(),
            oauth_audience: self.oauth_audience.clone(),
            oauth_username: self.oauth_username.clone(),
            oauth_password: self.oauth_password.clone(),
            oauth_scope: self.oauth_scope.clone(),
            oauth_token_target: self.oauth_token_target.clone(),
            oauth_response_type: self.oauth_response_type.clone(),
            oauth_header_name: self.oauth_header_name.clone(),
            oauth_header_prefix: self.oauth_header_prefix.clone(),
            oauth_send_credentials: self.oauth_send_credentials.clone(),
            oauth_use_pkce: self.oauth_use_pkce,
        }
    }
}

// ---------------------------------------------------------------------------
// Requests, folders and collections
// ---------------------------------------------------------------------------

/// A saved HTTP request.
pub struct ApiRequest {
    pub id: String,
    pub name: String,
    pub method: HttpMethod,
    pub url: String,
    pub params: Vec<KeyValue>,
    pub headers: Vec<KeyValue>,
    pub body: RequestBody,
    pub auth: AuthConfig,
}

/// A folder of requests and sub-folders, with its own headers, variables
/// and auth settings.
pub struct Folder {
    pub id: String,
    pub name: String,
    pub description: String,
    pub items: Vec<CollectionItem>,
    pub headers: Vec<KeyValue>,
    pub variables: Vec<Variable>,
    pub auth: AuthConfig,
}

/// An entry of a collection or folder.
pub enum CollectionItem {
    Request(ApiRequest),
    Folder(Folder),
}

/// A top-level collection.
pub struct Collection {
    pub id: String,
    pub name: String,
    pub items: Vec<CollectionItem>,
    pub variables: Vec<Variable>,
}

} // verus!
