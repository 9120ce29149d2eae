//! Authentication settings: the defaults every scheme falls back to, the
//! labels the editor shows, and the text fields that edit a configuration.
use vstd::prelude::*;

use crate::models::{AuthConfig, AuthType};
use crate::text::{own, same_text};

verus! {

/// `v`, or `d` when `v` is empty.
pub open spec fn or_default(v: Seq<char>, d: Seq<char>) -> Seq<char> {
    if v.len() == 0 {
        d
    } else {
        v
    }
}

/// `value`, or `default` when `value` is empty.
pub fn default_if_empty(value: &str, default: &str) -> (r: String)
    ensures
        r@ == or_default(value@, default@),
{
    if value.is_empty() {
        own(default)
    } else {
        own(value)
    }
}

pub open spec fn bearer_default() -> Seq<char> {
    "Bearer"@
}

pub open spec fn aws_service_default() -> Seq<char> {
    "sts"@
}

pub open spec fn aws_region_default() -> Seq<char> {
    "us-east-1"@
}

pub open spec fn jwt_algorithm_default() -> Seq<char> {
    "HS256"@
}

pub open spec fn jwt_payload_default() -> Seq<char> {
    "{\n  \"foo\": \"bar\"\n}"@
}

pub open spec fn authorization_url_default() -> Seq<char> {
    "https://github.com/login/oauth/authorize"@
}

pub open spec fn access_token_url_default() -> Seq<char> {
    "https://github.com/login/oauth/access_token"@
}

pub open spec fn token_target_default() -> Seq<char> {
    "access_token"@
}

pub open spec fn response_type_default() -> Seq<char> {
    "Access Token"@
}

pub open spec fn header_name_default() -> Seq<char> {
    "Authorization"@
}

pub open spec fn send_credentials_default() -> Seq<char> {
    "In Request Body"@
}

pub open spec fn authorization_code() -> Seq<char> {
    "Authorization Code"@
}

pub open spec fn password_grant() -> Seq<char> {
    "Resource Owner Password Credential"@
}

pub open spec fn basic_auth_credentials() -> Seq<char> {
    "As Basic Authentication"@
}

/// The grant type with its default, and the legacy name `Password` mapped
/// to the current one.
pub open spec fn grant_type_defaulted(v: Seq<char>) -> Seq<char> {
    if v.len() == 0 {
        authorization_code()
    } else if v == "Password"@ {
        password_grant()
    } else {
        v
    }
}

/// Where client credentials go, with its default and the legacy name
/// `As Basic Auth Header` mapped to the current one.
pub open spec fn send_credentials_defaulted(v: Seq<char>) -> Seq<char> {
    if v.len() == 0 {
        send_credentials_default()
    } else if v == "As Basic Auth Header"@ {
        basic_auth_credentials()
    } else {
        v
    }
}

/// The fields that have defaults all hold usable values.
pub open spec fn defaults_in_place(a: AuthConfig) -> bool {
    &&& a.bearer_prefix@.len() > 0
    &&& a.aws_service@.len() > 0
    &&& a.aws_region@.len() > 0
    &&& a.jwt_algorithm@.len() > 0
    &&& a.jwt_payload@.len() > 0
    &&& a.oauth_grant_type@ == grant_type_defaulted(a.oauth_grant_type@)
    &&& a.oauth_authorization_url@.len() > 0
    &&& a.oauth_access_token_url@.len() > 0
    &&& a.oauth_token_target@.len() > 0
    &&& a.oauth_response_type@.len() > 0
    &&& a.oauth_header_name@.len() > 0
    &&& a.oauth_header_prefix@.len() > 0
    &&& a.oauth_send_credentials@ == send_credentials_defaulted(a.oauth_send_credentials@)
}

/// `b` is `a` with the defaults filled in; no other field differs.
pub open spec fn with_auth_defaults(a: AuthConfig, b: AuthConfig) -> bool {
    &&& b.bearer_prefix@ == or_default(a.bearer_prefix@, bearer_default())
    &&& b.aws_service@ == or_default(a.aws_service@, aws_service_default())
    &&& b.aws_region@ == or_default(a.aws_region@, aws_region_default())
    &&& b.jwt_algorithm@ == or_default(a.jwt_algorithm@, jwt_algorithm_default())
    &&& b.jwt_payload@ == or_default(a.jwt_payload@, jwt_payload_default())
    &&& b.oauth_grant_type@ == grant_type_defaulted(a.oauth_grant_type@)
    &&& b.oauth_authorization_url@ == or_default(a.oauth_authorization_url@, authorization_url_default())
    &&& b.oauth_access_token_url@ == or_default(a.oauth_access_token_url@, access_token_url_default())
    &&& b.oauth_token_target@ == or_default(a.oauth_token_target@, token_target_default())
    &&& b.oauth_response_type@ == or_default(a.oauth_response_type@, response_type_default())
    &&& b.oauth_header_name@ == or_default(a.oauth_header_name@, header_name_default())
    &&& b.oauth_header_prefix@ == or_default(a.oauth_header_prefix@, bearer_default())
    &&& b.oauth_send_credentials@ == send_credentials_defaulted(a.oauth_send_credentials@)
    &&& b.enabled == a.enabled
    &&& b.auth_type == a.auth_type
    &&& b.bearer_token == a.bearer_token
    &&& b.basic_username == a.basic_username
    &&& b.basic_password == a.basic_password
    &&& b.api_key_name == a.api_key_name
    &&& b.api_key_value == a.api_key_value
    &&& b.api_key_in_header == a.api_key_in_header
    &&& b.aws_access_key_id == a.aws_access_key_id
    &&& b.aws_secret_access_key == a.aws_secret_access_key
    &&& b.aws_session_token == a.aws_session_token
    &&& b.jwt_secret == a.jwt_secret
    &&& b.jwt_secret_base64 == a.jwt_secret_base64
    &&& b.oauth_client_id == a.oauth_client_id
    &&& b.oauth_client_secret == a.oauth_client_secret
    &&& b.oauth_redirect_uri == a.oauth_redirect_uri
    &&& b.oauth_state == a.oauth_state
    &&& b.oauth_audience == a.oauth_audience
    &&& b.oauth_username == a.oauth_username
    &&& b.oauth_password == a.oauth_password
    &&& b.oauth_scope == a.oauth_scope
    &&& b.oauth_use_pkce == a.oauth_use_pkce
}

/// `a` and `b` agree on every field that has a default.
pub open spec fn same_default_fields(a: AuthConfig, b: AuthConfig) -> bool {
    &&& b.bearer_prefix@ == a.bearer_prefix@
    &&& b.aws_service@ == a.aws_service@
    &&& b.aws_region@ == a.aws_region@
    &&& b.jwt_algorithm@ == a.jwt_algorithm@
    &&& b.jwt_payload@ == a.jwt_payload@
    &&& b.oauth_grant_type@ == a.oauth_grant_type@
    &&& b.oauth_authorization_url@ == a.oauth_authorization_url@
    &&& b.oauth_access_token_url@ == a.oauth_access_token_url@
    &&& b.oauth_token_target@ == a.oauth_token_target@
    &&& b.oauth_response_type@ == a.oauth_response_type@
    &&& b.oauth_header_name@ == a.oauth_header_name@
    &&& b.oauth_header_prefix@ == a.oauth_header_prefix@
    &&& b.oauth_send_credentials@ == a.oauth_send_credentials@
}

/// The default texts are all non-empty, and no legacy name is a default.
pub proof fn lemma_default_texts()
    ensures
        bearer_default().len() > 0,
        aws_service_default().len() > 0,
        aws_region_default().len() > 0,
        jwt_algorithm_default().len() > 0,
        jwt_payload_default().len() > 0,
        authorization_url_default().len() > 0,
        access_token_url_default().len() > 0,
        token_target_default().len() > 0,
        response_type_default().len() > 0,
        header_name_default().len() > 0,
        send_credentials_default().len() > 0,
        authorization_code() != "Password"@,
        password_grant() != "Password"@,
        authorization_code().len() > 0,
        password_grant().len() > 0,
        basic_auth_credentials() != "As Basic Auth Header"@,
        send_credentials_default() != "As Basic Auth Header"@,
        basic_auth_credentials().len() > 0,
{
    reveal_strlit("Bearer");
    reveal_strlit("sts");
    reveal_strlit("us-east-1");
    reveal_strlit("HS256");
    reveal_strlit("{\n  \"foo\": \"bar\"\n}");
    reveal_strlit("https://github.com/login/oauth/authorize");
    reveal_strlit("https://github.com/login/oauth/access_token");
    reveal_strlit("access_token");
    reveal_strlit("Access Token");
    reveal_strlit("Authorization");
    reveal_strlit("In Request Body");
    reveal_strlit("Authorization Code");
    reveal_strlit("Resource Owner Password Credential");
    reveal_strlit("As Basic Authentication");
    reveal_strlit("Password");
    reveal_strlit("As Basic Auth Header");
    assert(authorization_code().len() != "Password"@.len());
    assert(password_grant().len() != "Password"@.len());
    assert(basic_auth_credentials().len() != "As Basic Auth Header"@.len());
    assert(send_credentials_default().len() != "As Basic Auth Header"@.len());
}

/// Replaces an empty text by `d`.
fn fill_default(field: &mut String, d: &str)
    ensures
        final(field)@ == or_default(old(field)@, d@),
{
    if field.as_str().is_empty() {
        *field = own(d);
    }
}

/// Fills in every empty field that has a default and renames the legacy
/// grant type `Password` and credential mode `As Basic Auth Header`.
/// Afterwards all defaults are in place; when they already were, no field
/// changes.
pub fn ensure_auth_defaults(auth: &mut AuthConfig)
    ensures
        with_auth_defaults(*old(auth), *final(auth)),
        defaults_in_place(*final(auth)),
        defaults_in_place(*old(auth)) ==> same_default_fields(*old(auth), *final(auth)),
{
    proof {
        lemma_default_texts();
    }
    fill_default(&mut auth.bearer_prefix, "Bearer");
    fill_default(&mut auth.aws_service, "sts");
    fill_default(&mut auth.aws_region, "us-east-1");
    fill_default(&mut auth.jwt_algorithm, "HS256");
    fill_default(&mut auth.jwt_payload, "{\n  \"foo\": \"bar\"\n}");
    let password = own("Password");
    if auth.oauth_grant_type.as_str().is_empty() {
        auth.oauth_grant_type = own("Authorization Code");
    } else if auth.oauth_grant_type == password {
        auth.oauth_grant_type = own("Resource Owner Password Credential");
    }
    fill_default(&mut auth.oauth_authorization_url, "https://github.com/login/oauth/authorize");
    fill_default(&mut auth.oauth_access_token_url, "https://github.com/login/oauth/access_token");
    fill_default(&mut auth.oauth_token_target, "access_token");
    fill_default(&mut auth.oauth_response_type, "Access Token");
    fill_default(&mut auth.oauth_header_name, "Authorization");
    fill_default(&mut auth.oauth_header_prefix, "Bearer");
    let legacy_basic = own("As Basic Auth Header");
    if auth.oauth_send_credentials.as_str().is_empty() {
        auth.oauth_send_credentials = own("In Request Body");
    } else if auth.oauth_send_credentials == legacy_basic {
        auth.oauth_send_credentials = own("As Basic Authentication");
    }
}

// ---------------------------------------------------------------------------
// Labels
// ---------------------------------------------------------------------------

/// The short name of an auth scheme, as the request editor's tab shows it.
pub open spec fn auth_type_text(t: AuthType) -> Seq<char> {
    match t {
        AuthType::ApiKey => "API Key"@,
        AuthType::AwsV4 => "AWS v4"@,
        AuthType::Basic => "Basic"@,
        AuthType::Bearer => "Bearer"@,
        AuthType::Jwt => "JWT"@,
        AuthType::OAuth2 => "OAuth 2"@,
        AuthType::NoAuth => "No Auth"@,
    }
}

/// The long name of an auth scheme, as the folder settings list it.
pub open spec fn auth_type_long_text(t: AuthType) -> Seq<char> {
    match t {
        AuthType::NoAuth => "No Auth"@,
        AuthType::ApiKey => "API Key"@,
        AuthType::AwsV4 => "AWS Signature"@,
        AuthType::Basic => "Basic Auth"@,
        AuthType::Bearer => "Bearer Token"@,
        AuthType::Jwt => "JWT Bearer"@,
        AuthType::OAuth2 => "OAuth 2.0"@,
    }
}

/// The grant type shown for a stored value: the four known grants, with
/// `Password` read as the password grant and anything else as
/// `Authorization Code`.
pub open spec fn grant_label_text(v: Seq<char>) -> Seq<char> {
    if v == "Implicit"@ {
        "Implicit"@
    } else if v == password_grant() || v == "Password"@ {
        password_grant()
    } else if v == "Client Credentials"@ {
        "Client Credentials"@
    } else {
        authorization_code()
    }
}

pub fn auth_type_label(auth_type: &AuthType) -> (r: &'static str)
    ensures
        r@ == auth_type_text(*auth_type),
{
    match auth_type {
        AuthType::ApiKey => "API Key",
        AuthType::AwsV4 => "AWS v4",
        AuthType::Basic => "Basic",
        AuthType::Bearer => "Bearer",
        AuthType::Jwt => "JWT",
        AuthType::OAuth2 => "OAuth 2",
        AuthType::NoAuth => "No Auth",
    }
}

pub fn auth_type_long_label(auth_type: &AuthType) -> (r: &'static str)
    ensures
        r@ == auth_type_long_text(*auth_type),
{
    match auth_type {
        AuthType::NoAuth => "No Auth",
        AuthType::ApiKey => "API Key",
        AuthType::AwsV4 => "AWS Signature",
        AuthType::Basic => "Basic Auth",
        AuthType::Bearer => "Bearer Token",
        AuthType::Jwt => "JWT Bearer",
        AuthType::OAuth2 => "OAuth 2.0",
    }
}

pub fn oauth_grant_label(value: &str) -> (r: &'static str)
    ensures
        r@ == grant_label_text(value@),
{
    if same_text(value, "Implicit") {
        "Implicit"
    } else if same_text(value, "Resource Owner Password Credential") || same_text(value, "Password") {
        "Resource Owner Password Credential"
    } else if same_text(value, "Client Credentials") {
        "Client Credentials"
    } else {
        "Authorization Code"
    }
}

// ---------------------------------------------------------------------------
// The auth text fields
// ---------------------------------------------------------------------------

/// The texts of the auth editor's input fields.
pub struct AuthInputs {
    pub bearer_token: String,
    pub bearer_prefix: String,
    pub basic_username: String,
    pub basic_password: String,
    pub api_key_name: String,
    pub api_key_value: String,
    pub aws_access_key_id: String,
    pub aws_secret_access_key: String,
    pub aws_service: String,
    pub aws_region: String,
    pub aws_session_token: String,
    pub jwt_secret: String,
    pub jwt_payload: String,
    pub oauth_client_id: String,
    pub oauth_client_secret: String,
    pub oauth_authorization_url: String,
    pub oauth_access_token_url: String,
    pub oauth_redirect_uri: String,
    pub oauth_state: String,
    pub oauth_audience: String,
    pub oauth_username: String,
    pub oauth_password: String,
    pub oauth_scope: String,
    pub oauth_header_name: String,
    pub oauth_header_prefix: String,
}

impl AuthInputs {
    /// The texts of every field, in the editor's order.
    pub open spec fn all_texts(&self) -> Seq<Seq<char>> {
        seq![
            self.bearer_token@,
            self.bearer_prefix@,
            self.basic_username@,
            self.basic_password@,
            self.api_key_name@,
            self.api_key_value@,
            self.aws_access_key_id@,
            self.aws_secret_access_key@,
            self.aws_service@,
            self.aws_region@,
            self.aws_session_token@,
            self.jwt_secret@,
            self.jwt_payload@,
            self.oauth_client_id@,
            self.oauth_client_secret@,
            self.oauth_authorization_url@,
            self.oauth_access_token_url@,
            self.oauth_redirect_uri@,
            self.oauth_state@,
            self.oauth_audience@,
            self.oauth_username@,
            self.oauth_password@,
            self.oauth_scope@,
            self.oauth_header_name@,
            self.oauth_header_prefix@,
        ]
    }

    /// Every field, in the editor's order.
    pub fn all(&self) -> (r: Vec<String>)
        ensures
            r@.len() == 25,
            r@[0] == self.bearer_token,
            r@[1] == self.bearer_prefix,
            r@[2] == self.basic_username,
            r@[3] == self.basic_password,
            r@[4] == self.api_key_name,
            r@[5] == self.api_key_value,
            r@[6] == self.aws_access_key_id,
            r@[7] == self.aws_secret_access_key,
            r@[8] == self.aws_service,
            r@[9] == self.aws_region,
            r@[10] == self.aws_session_token,
            r@[11] == self.jwt_secret,
            r@[12] == self.jwt_payload,
            r@[13] == self.oauth_client_id,
            r@[14] == self.oauth_client_secret,
            r@[15] == self.oauth_authorization_url,
            r@[16] == self.oauth_access_token_url,
            r@[17] == self.oauth_redirect_uri,
            r@[18] == self.oauth_state,
            r@[19] == self.oauth_audience,
            r@[20] == self.oauth_username,
            r@[21] == self.oauth_password,
            r@[22] == self.oauth_scope,
            r@[23] == self.oauth_header_name,
            r@[24] == self.oauth_header_prefix,
    {
        let mut v: Vec<String> = Vec::new();
        v.push(self.bearer_token.clone());
        v.push(self.bearer_prefix.clone());
        v.push(self.basic_username.clone());
        v.push(self.basic_password.clone());
        v.push(self.api_key_name.clone());
        v.push(self.api_key_value.clone());
        v.push(self.aws_access_key_id.clone());
        v.push(self.aws_secret_access_key.clone());
        v.push(self.aws_service.clone());
        v.push(self.aws_region.clone());
        v.push(self.aws_session_token.clone());
        v.push(self.jwt_secret.clone());
        v.push(self.jwt_payload.clone());
        v.push(self.oauth_client_id.clone());
        v.push(self.oauth_client_secret.clone());
        v.push(self.oauth_authorization_url.clone());
        v.push(self.oauth_access_token_url.clone());
        v.push(self.oauth_redirect_uri.clone());
        v.push(self.oauth_state.clone());
        v.push(self.oauth_audience.clone());
        v.push(self.oauth_username.clone());
        v.push(self.oauth_password.clone());
        v.push(self.oauth_scope.clone());
        v.push(self.oauth_header_name.clone());
        v.push(self.oauth_header_prefix.clone());
        v
    }
}

/// The editor shows `auth`: every field its text, the fields with a
/// default their default when empty.
pub open spec fn shows_auth(auth: AuthConfig, i: AuthInputs) -> bool {
    &&& i.bearer_token@ == auth.bearer_token@
    &&& i.bearer_prefix@ == or_default(auth.bearer_prefix@, bearer_default())
    &&& i.basic_username@ == auth.basic_username@
    &&& i.basic_password@ == auth.basic_password@
    &&& i.api_key_name@ == auth.api_key_name@
    &&& i.api_key_value@ == auth.api_key_value@
    &&& i.aws_access_key_id@ == auth.aws_access_key_id@
    &&& i.aws_secret_access_key@ == auth.aws_secret_access_key@
    &&& i.aws_service@ == or_default(auth.aws_service@, aws_service_default())
    &&& i.aws_region@ == or_default(auth.aws_region@, aws_region_default())
    &&& i.aws_session_token@ == auth.aws_session_token@
    &&& i.jwt_secret@ == auth.jwt_secret@
    &&& i.jwt_payload@ == or_default(auth.jwt_payload@, jwt_payload_default())
    &&& i.oauth_client_id@ == auth.oauth_client_id@
    &&& i.oauth_client_secret@ == auth.oauth_client_secret@
    &&& i.oauth_authorization_url@ == or_default(auth.oauth_authorization_url@, authorization_url_default())
    &&& i.oauth_access_token_url@ == or_default(auth.oauth_access_token_url@, access_token_url_default())
    &&& i.oauth_redirect_uri@ == auth.oauth_redirect_uri@
    &&& i.oauth_state@ == auth.oauth_state@
    &&& i.oauth_audience@ == auth.oauth_audience@
    &&& i.oauth_username@ == auth.oauth_username@
    &&& i.oauth_password@ == auth.oauth_password@
    &&& i.oauth_scope@ == auth.oauth_scope@
    &&& i.oauth_header_name@ == or_default(auth.oauth_header_name@, header_name_default())
    &&& i.oauth_header_prefix@ == or_default(auth.oauth_header_prefix@, bearer_default())
}

/// `b` is `a` with the editor's texts written into it.
pub open spec fn takes_inputs(a: AuthConfig, i: AuthInputs, b: AuthConfig) -> bool {
    &&& b.bearer_token == i.bearer_token
    &&& b.bearer_prefix == i.bearer_prefix
    &&& b.basic_username == i.basic_username
    &&& b.basic_password == i.basic_password
    &&& b.api_key_name == i.api_key_name
    &&& b.api_key_value == i.api_key_value
    &&& b.aws_access_key_id == i.aws_access_key_id
    &&& b.aws_secret_access_key == i.aws_secret_access_key
    &&& b.aws_service == i.aws_service
    &&& b.aws_region == i.aws_region
    &&& b.aws_session_token == i.aws_session_token
    &&& b.jwt_secret == i.jwt_secret
    &&& b.jwt_payload == i.jwt_payload
    &&& b.oauth_client_id == i.oauth_client_id
    &&& b.oauth_client_secret == i.oauth_client_secret
    &&& b.oauth_authorization_url == i.oauth_authorization_url
    &&& b.oauth_access_token_url == i.oauth_access_token_url
    &&& b.oauth_redirect_uri == i.oauth_redirect_uri
    &&& b.oauth_state == i.oauth_state
    &&& b.oauth_audience == i.oauth_audience
    &&& b.oauth_username == i.oauth_username
    &&& b.oauth_password == i.oauth_password
    &&& b.oauth_scope == i.oauth_scope
    &&& b.oauth_header_name == i.oauth_header_name
    &&& b.oauth_header_prefix == i.oauth_header_prefix
    &&& b.enabled == a.enabled
    &&& b.auth_type == a.auth_type
    &&& b.api_key_in_header == a.api_key_in_header
    &&& b.jwt_secret_base64 == a.jwt_secret_base64
    &&& b.jwt_algorithm == a.jwt_algorithm
    &&& b.oauth_grant_type == a.oauth_grant_type
    &&& b.oauth_token_target == a.oauth_token_target
    &&& b.oauth_response_type == a.oauth_response_type
    &&& b.oauth_send_credentials == a.oauth_send_credentials
    &&& b.oauth_use_pkce == a.oauth_use_pkce
}

/// Showing a configuration whose defaults are in place and writing the
/// shown texts back leaves every text of it as it was.
pub proof fn law_auth_inputs_round_trip(a: AuthConfig, i: AuthInputs, b: AuthConfig)
    requires
        defaults_in_place(a),
        shows_auth(a, i),
        takes_inputs(a, i, b),
    ensures
        b.bearer_token@ == a.bearer_token@,
        b.bearer_prefix@ == a.bearer_prefix@,
        b.basic_username@ == a.basic_username@,
        b.basic_password@ == a.basic_password@,
        b.api_key_name@ == a.api_key_name@,
        b.api_key_value@ == a.api_key_value@,
        b.aws_access_key_id@ == a.aws_access_key_id@,
        b.aws_secret_access_key@ == a.aws_secret_access_key@,
        b.aws_service@ == a.aws_service@,
        b.aws_region@ == a.aws_region@,
        b.aws_session_token@ == a.aws_session_token@,
        b.jwt_secret@ == a.jwt_secret@,
        b.jwt_payload@ == a.jwt_payload@,
        b.oauth_client_id@ == a.oauth_client_id@,
        b.oauth_client_secret@ == a.oauth_client_secret@,
        b.oauth_authorization_url@ == a.oauth_authorization_url@,
        b.oauth_access_token_url@ == a.oauth_access_token_url@,
        b.oauth_redirect_uri@ == a.oauth_redirect_uri@,
        b.oauth_state@ == a.oauth_state@,
        b.oauth_audience@ == a.oauth_audience@,
        b.oauth_username@ == a.oauth_username@,
        b.oauth_password@ == a.oauth_password@,
        b.oauth_scope@ == a.oauth_scope@,
        b.oauth_header_name@ == a.oauth_header_name@,
        b.oauth_header_prefix@ == a.oauth_header_prefix@,
        b.enabled == a.enabled,
        b.auth_type == a.auth_type,
{
}

/// The editor's texts for `auth`.
pub fn load_auth_inputs(auth: &AuthConfig) -> (r: AuthInputs)
    ensures
        shows_auth(*auth, r),
{
    AuthInputs {
        bearer_token: auth.bearer_token.clone(),
        bearer_prefix: default_if_empty(auth.bearer_prefix.as_str(), "Bearer"),
        basic_username: auth.basic_username.clone(),
        basic_password: auth.basic_password.clone(),
        api_key_name: auth.api_key_name.clone(),
        api_key_value: auth.api_key_value.clone(),
        aws_access_key_id: auth.aws_access_key_id.clone(),
        aws_secret_access_key: auth.aws_secret_access_key.clone(),
        aws_service: default_if_empty(auth.aws_service.as_str(), "sts"),
        aws_region: default_if_empty(auth.aws_region.as_str(), "us-east-1"),
        aws_session_token: auth.aws_session_token.clone(),
        jwt_secret: auth.jwt_secret.clone(),
        jwt_payload: default_if_empty(auth.jwt_payload.as_str(), "{\n  \"foo\": \"bar\"\n}"),
        oauth_client_id: auth.oauth_client_id.clone(),
        oauth_client_secret: auth.oauth_client_secret.clone(),
        oauth_authorization_url: default_if_empty(auth.oauth_authorization_url.as_str(), "https://github.com/login/oauth/authorize"),
        oauth_access_token_url: default_if_empty(auth.oauth_access_token_url.as_str(), "https://github.com/login/oauth/access_token"),
        oauth_redirect_uri: auth.oauth_redirect_uri.clone(),
        oauth_state: auth.oauth_state.clone(),
        oauth_audience: auth.oauth_audience.clone(),
        oauth_username: auth.oauth_username.clone(),
        oauth_password: auth.oauth_password.clone(),
        oauth_scope: auth.oauth_scope.clone(),
        oauth_header_name: default_if_empty(auth.oauth_header_name.as_str(), "Authorization"),
        oauth_header_prefix: default_if_empty(auth.oauth_header_prefix.as_str(), "Bearer"),
    }
}

/// Writes the editor's texts into `auth`.
pub fn sync_auth_inputs_to_config(inputs: &AuthInputs, auth: &mut AuthConfig)
    ensures
        takes_inputs(*old(auth), *inputs, *final(auth)),
{
    auth.bearer_token = inputs.bearer_token.clone();
    auth.bearer_prefix = inputs.bearer_prefix.clone();
    auth.basic_username = inputs.basic_username.clone();
    auth.basic_password = inputs.basic_password.clone();
    auth.api_key_name = inputs.api_key_name.clone();
    auth.api_key_value = inputs.api_key_value.clone();
    auth.aws_access_key_id = inputs.aws_access_key_id.clone();
    auth.aws_secret_access_key = inputs.aws_secret_access_key.clone();
    auth.aws_service = inputs.aws_service.clone();
    auth.aws_region = inputs.aws_region.clone();
    auth.aws_session_token = inputs.aws_session_token.clone();
    auth.jwt_secret = inputs.jwt_secret.clone();
    auth.jwt_payload = inputs.jwt_payload.clone();
    auth.oauth_client_id = inputs.oauth_client_id.clone();
    auth.oauth_client_secret = inputs.oauth_client_secret.clone();
    auth.oauth_authorization_url = inputs.oauth_authorization_url.clone();
    auth.oauth_access_token_url = inputs.oauth_access_token_url.clone();
    auth.oauth_redirect_uri = inputs.oauth_redirect_uri.clone();
    auth.oauth_state = inputs.oauth_state.clone();
    auth.oauth_audience = inputs.oauth_audience.clone();
    auth.oauth_username = inputs.oauth_username.clone();
    auth.oauth_password = inputs.oauth_password.clone();
    auth.oauth_scope = inputs.oauth_scope.clone();
    auth.oauth_header_name = inputs.oauth_header_name.clone();
    auth.oauth_header_prefix = inputs.oauth_header_prefix.clone();
}

// ---------------------------------------------------------------------------
// Edits from the auth editor's controls
// ---------------------------------------------------------------------------

/// A change made by one of the auth editor's switches and menus.
pub enum AuthChange {
    /// The "Enabled" checkbox.
    Enabled(bool),
    /// The scheme menu of a request.
    Scheme(AuthType),
    /// The scheme menu of a folder: enabled or inherited, and the scheme.
    FolderScheme(bool, AuthType),
    /// Where an API key goes: header (`true`) or query.
    ApiKeyInHeader(bool),
    JwtAlgorithm(String),
    JwtSecretBase64(bool),
    GrantType(String),
    TokenTarget(String),
    ResponseType(String),
    SendCredentials(String),
    UsePkce(bool),
}

/// `a` with the change applied, before defaults are filled in.
pub open spec fn auth_changed(a: AuthConfig, c: AuthChange) -> AuthConfig {
    match c {
        AuthChange::Enabled(b) => AuthConfig { enabled: b, ..a },
        AuthChange::Scheme(t) => AuthConfig { auth_type: t, ..a },
        AuthChange::FolderScheme(b, t) => AuthConfig { enabled: b, auth_type: t, ..a },
        AuthChange::ApiKeyInHeader(b) => AuthConfig { api_key_in_header: b, ..a },
        AuthChange::JwtAlgorithm(s) => AuthConfig { jwt_algorithm: s, ..a },
        AuthChange::JwtSecretBase64(b) => AuthConfig { jwt_secret_base64: b, ..a },
        AuthChange::GrantType(s) => AuthConfig { oauth_grant_type: s, ..a },
        AuthChange::TokenTarget(s) => AuthConfig { oauth_token_target: s, ..a },
        AuthChange::ResponseType(s) => AuthConfig { oauth_response_type: s, ..a },
        AuthChange::SendCredentials(s) => AuthConfig { oauth_send_credentials: s, ..a },
        AuthChange::UsePkce(b) => AuthConfig { oauth_use_pkce: b, ..a },
    }
}

/// Applies a change from the auth editor, then fills in the defaults.
pub fn update_auth_config(auth: &mut AuthConfig, change: AuthChange)
    ensures
        with_auth_defaults(auth_changed(*old(auth), change), *final(auth)),
        defaults_in_place(*final(auth)),
{
    match change {
        AuthChange::Enabled(b) => {
            auth.enabled = b;
        },
        AuthChange::Scheme(t) => {
            auth.auth_type = t;
        },
        AuthChange::FolderScheme(b, t) => {
            auth.enabled = b;
            auth.auth_type = t;
        },
        AuthChange::ApiKeyInHeader(b) => {
            auth.api_key_in_header = b;
        },
        AuthChange::JwtAlgorithm(s) => {
            auth.jwt_algorithm = s;
        },
        AuthChange::JwtSecretBase64(b) => {
            auth.jwt_secret_base64 = b;
        },
        AuthChange::GrantType(s) => {
            auth.oauth_grant_type = s;
        },
        AuthChange::TokenTarget(s) => {
            auth.oauth_token_target = s;
        },
        AuthChange::ResponseType(s) => {
            auth.oauth_response_type = s;
        },
        AuthChange::SendCredentials(s) => {
            auth.oauth_send_credentials = s;
        },
        AuthChange::UsePkce(b) => {
            auth.oauth_use_pkce = b;
        },
    }
    ensure_auth_defaults(auth);
}

/// Empty settings: every text empty, every switch off, no scheme.
pub open spec fn blank_auth(a: AuthConfig) -> bool {
    &&& !a.enabled
    &&& a.auth_type == AuthType::NoAuth
    &&& !a.api_key_in_header
    &&& !a.jwt_secret_base64
    &&& !a.oauth_use_pkce
    &&& a.bearer_token@.len() == 0
    &&& a.bearer_prefix@.len() == 0
    &&& a.basic_username@.len() == 0
    &&& a.basic_password@.len() == 0
    &&& a.api_key_name@.len() == 0
    &&& a.api_key_value@.len() == 0
    &&& a.aws_access_key_id@.len() == 0
    &&& a.aws_secret_access_key@.len() == 0
    &&& a.aws_service@.len() == 0
    &&& a.aws_region@.len() == 0
    &&& a.aws_session_token@.len() == 0
    &&& a.jwt_secret@.len() == 0
    &&& a.jwt_algorithm@.len() == 0
    &&& a.jwt_payload@.len() == 0
    &&& a.oauth_grant_type@.len() == 0
    &&& a.oauth_client_id@.len() == 0
    &&& a.oauth_client_secret@.len() == 0
    &&& a.oauth_authorization_url@.len() == 0
    &&& a.oauth_access_token_url@.len() == 0
    &&& a.oauth_redirect_uri@.len() == 0
    &&& a.oauth_state@.len() == 0
    &&& a.oauth_audience@.len() == 0
    &&& a.oauth_username@.len() == 0
    &&& a.oauth_password@.len() == 0
    &&& a.oauth_scope@.len() == 0
    &&& a.oauth_token_target@.len() == 0
    &&& a.oauth_response_type@.len() == 0
    &&& a.oauth_header_name@.len() == 0
    &&& a.oauth_header_prefix@.len() == 0
    &&& a.oauth_send_credentials@.len() == 0
}

impl Default for AuthConfig {
    fn default() -> (r: AuthConfig)
        ensures
            blank_auth(r),
    {
        AuthConfig {
            enabled: false,
            auth_type: AuthType::NoAuth,
            bearer_token: String::new(),
            bearer_prefix: String::new(),
            basic_username: String::new(),
            basic_password: String::new(),
            api_key_name: String::new(),
            api_key_value: String::new(),
            api_key_in_header: false,
            aws_access_key_id: String::new(),
            aws_secret_access_key: String::new(),
            aws_service: String::new(),
            aws_region: String::new(),
            aws_session_token: String::new(),
            jwt_secret: String::new(),
            jwt_secret_base64: false,
            jwt_algorithm: String::new(),
            jwt_payload: String::new(),
            oauth_grant_type: String::new(),
            oauth_client_id: String::new(),
            oauth_client_secret: String::new(),
            oauth_authorization_url: String::new(),
            oauth_access_token_url: String::new(),
            oauth_redirect_uri: String::new(),
            oauth_state: String::new(),
            oauth_audience: String::new(),
            oauth_username: String::new(),
            oauth_password: String::new(),
            oauth_scope: String::new(),
            oauth_token_target: String::new(),
            oauth_response_type: String::new(),
            oauth_header_name: String::new(),
            oauth_header_prefix: String::new(),
            oauth_send_credentials: String::new(),
            oauth_use_pkce: false,
        }
    }
}

/// `base` with the scheme switches and the editor's texts written in.
pub open spec fn with_inputs(base: AuthConfig, enabled: bool, auth_type: AuthType, i: AuthInputs) -> AuthConfig {
    AuthConfig {
        enabled,
        auth_type,
        bearer_token: i.bearer_token,
        bearer_prefix: i.bearer_prefix,
        basic_username: i.basic_username,
        basic_password: i.basic_password,
        api_key_name: i.api_key_name,
        api_key_value: i.api_key_value,
        aws_access_key_id: i.aws_access_key_id,
        aws_secret_access_key: i.aws_secret_access_key,
        aws_service: i.aws_service,
        aws_region: i.aws_region,
        aws_session_token: i.aws_session_token,
        jwt_secret: i.jwt_secret,
        jwt_payload: i.jwt_payload,
        oauth_client_id: i.oauth_client_id,
        oauth_client_secret: i.oauth_client_secret,
        oauth_authorization_url: i.oauth_authorization_url,
        oauth_access_token_url: i.oauth_access_token_url,
        oauth_redirect_uri: i.oauth_redirect_uri,
        oauth_state: i.oauth_state,
        oauth_audience: i.oauth_audience,
        oauth_username: i.oauth_username,
        oauth_password: i.oauth_password,
        oauth_scope: i.oauth_scope,
        oauth_header_name: i.oauth_header_name,
        oauth_header_prefix: i.oauth_header_prefix,
        ..base
    }
}

/// Writing the texts into settings with the scheme already set gives
/// `with_inputs`.
pub proof fn lemma_takes_inputs(a: AuthConfig, i: AuthInputs, b: AuthConfig)
    requires
        takes_inputs(a, i, b),
    ensures
        b == with_inputs(a, a.enabled, a.auth_type, i),
{
}

} // verus!
