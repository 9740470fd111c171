//! AWS Lambda client creation and configuration.
//!
//! This module decides how Lambda clients are configured: their credentials, region, endpoint, and
//! retry behavior.

use vstd::prelude::*;

verus! {

/// The credentials that the environment holds, as far as it does.
pub struct EnvironmentCredentials {
    /// `AWS_ACCESS_KEY_ID`
    pub access_key: Option<String>,
    /// `AWS_SECRET_ACCESS_KEY`
    pub secret_key: Option<String>,
    /// `AWS_SESSION_TOKEN`
    pub session_token: Option<String>,
}

/// Where a client takes its credentials from.
pub enum CredentialSource {
    /// The standard AWS credential chain
    Chain,
    /// The credentials given here
    Fixed {
        access_key: String,
        secret_key: String,
        session_token: Option<String>,
        provider_name: &'static str,
    },
}

/// How a Lambda client is configured.
pub struct ClientSettings {
    pub region: String,
    pub credentials: CredentialSource,
    /// How often a call is tried, where the default does not stand
    pub max_attempts: Option<u32>,
    pub endpoint_url: Option<String>,
}

/// The text of a variable, or nothing where it is not set.
pub open spec fn text_or_empty(variable: Option<String>) -> Seq<char> {
    match variable {
        Some(text) => text@,
        None => seq![],
    }
}

/// Whether credentials are the ones to use: those of the environment for a custom endpoint, the
/// chain otherwise.
pub open spec fn right_credentials(
    source: CredentialSource,
    custom_endpoint: bool,
    environment: EnvironmentCredentials,
) -> bool {
    match source {
        CredentialSource::Chain => !custom_endpoint,
        CredentialSource::Fixed { access_key, secret_key, session_token, provider_name } => {
            &&& custom_endpoint
            &&& access_key@ == text_or_empty(environment.access_key)
            &&& secret_key@ == text_or_empty(environment.secret_key)
            &&& session_token == environment.session_token
            &&& provider_name@ == "custom-endpoint"@
        },
    }
}

fn or_empty(variable: Option<String>) -> (text: String)
    ensures
        text@ == text_or_empty(variable),
{
    match variable {
        Some(text) => text,
        None => String::new(),
    }
}

/// Decides how a Lambda client is configured.
///
/// # Configuration
/// - For custom endpoints (e.g., LocalStack): uses credentials from environment variables
/// - For production: uses standard AWS credential chain
/// - Retries are as the SDK has them
pub fn client_settings(
    region: String,
    endpoint_url: Option<String>,
    environment: EnvironmentCredentials,
) -> (settings: ClientSettings)
    ensures
        settings.region == region,
        settings.endpoint_url == endpoint_url,
        settings.max_attempts is None,
        right_credentials(settings.credentials, endpoint_url is Some, environment),
{
    let credentials = if endpoint_url.is_some() {
        // Custom endpoint configuration: use credentials from environment if available
        CredentialSource::Fixed {
            access_key: or_empty(environment.access_key),
            secret_key: or_empty(environment.secret_key),
            session_token: environment.session_token,
            provider_name: "custom-endpoint",
        }
    } else {
        // Production configuration: use real credentials from environment
        CredentialSource::Chain
    };
    ClientSettings { region, credentials, max_attempts: None, endpoint_url }
}

/// Decides how the Lambda clients of a pool are configured: as any other, but with SDK retries
/// disabled, to let Varnish handle retry logic at a higher level. This prevents worker threads from
/// being blocked during exponential backoff and ensures metrics (inflight, throttled, fail) are
/// accurate.
pub fn pooled_client_settings(
    region: String,
    endpoint_url: Option<String>,
    environment: EnvironmentCredentials,
) -> (settings: ClientSettings)
    ensures
        settings.region == region,
        settings.endpoint_url == endpoint_url,
        settings.max_attempts == Some(1u32),
        right_credentials(settings.credentials, endpoint_url is Some, environment),
{
    let mut settings = client_settings(region, endpoint_url, environment);
    settings.max_attempts = Some(1);
    settings
}

/// A client for a custom endpoint uses what the environment holds, and nothing in place of what it
/// does not hold; any other client uses the credential chain.
pub proof fn law_endpoint_decides_credentials(
    source: CredentialSource,
    custom_endpoint: bool,
    environment: EnvironmentCredentials,
)
    requires
        right_credentials(source, custom_endpoint, environment),
    ensures
        source is Fixed <==> custom_endpoint,
        source is Fixed && environment.access_key is Some ==> source->access_key@
            == environment.access_key->0@,
        source is Fixed && environment.access_key is None ==> source->access_key@.len() == 0,
        source is Fixed && environment.secret_key is Some ==> source->secret_key@
            == environment.secret_key->0@,
        source is Fixed && environment.secret_key is None ==> source->secret_key@.len() == 0,
        source is Fixed ==> source->session_token == environment.session_token
            && source->provider_name@ == "custom-endpoint"@,
{
}

} // verus!
