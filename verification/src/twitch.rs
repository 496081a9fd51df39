//! Twitch OAuth plumbing: credentials, the authorization URL they
//! produce, the callback query, and the token payload.
//!
//! The HTTP exchanges themselves happen outside the library; the value
//! handling and URL construction live here with exact contracts.

use vstd::prelude::*;

verus! {

use vstd::string::StringExecFns;

/// A user as the identity provider reports it.
#[derive(Debug, Clone)]
pub struct TwitchUser {
    pub login: String,
}

/// The application's OAuth credentials. Deliberately not printable:
/// the secret must not reach a log line.
#[derive(Clone)]
pub struct TwitchCredentials {
    pub client_id: String,
    pub client_secret: String,
    pub redirect_uri: String,
}

/// The authorization URL for given credentials and scope.
pub open spec fn spec_auth_url(
    base: Seq<char>,
    client_id: Seq<char>,
    redirect_uri: Seq<char>,
    scope: Seq<char>,
) -> Seq<char> {
    base + "/authorize?client_id="@ + client_id + "&redirect_uri="@ + redirect_uri
        + "&response_type=code&scope="@ + scope
}

/// Build an authorization URL from its parts.
fn build_auth_url(base: &str, client_id: &str, redirect_uri: &str, scope: &str) -> (r: String)
    ensures
        r@ == spec_auth_url(base@, client_id@, redirect_uri@, scope@),
{
    let mut url = base.to_owned();
    url.append("/authorize?client_id=");
    url.append(client_id);
    url.append("&redirect_uri=");
    url.append(redirect_uri);
    url.append("&response_type=code&scope=");
    url.append(scope);
    proof {
        assert(url@ =~= spec_auth_url(base@, client_id@, redirect_uri@, scope@));
    }
    url
}

impl TwitchCredentials {
    /// The authorization URL on the public identity endpoint for these
    /// credentials and the given scope.
    pub fn into_auth_url(&self, scope: &str) -> (r: String)
        ensures
            r@ == spec_auth_url(
                "https://id.twitch.tv/oauth2"@,
                self.client_id@,
                self.redirect_uri@,
                scope@,
            ),
    {
        build_auth_url("https://id.twitch.tv/oauth2", self.client_id.as_str(),
            self.redirect_uri.as_str(), scope)
    }
}

/// A failure reported while exchanging tokens or fetching the user.
#[derive(Debug)]
pub struct TwitchAuthenticatorError(pub String);

/// The authenticator bound to concrete API endpoints. The HTTP requests
/// it drives run outside the library; the URL construction is here.
pub struct TwitchHttpAuthenticator {
    pub twitch_oauth_api_url: String,
    pub twitch_helix_api_url: String,
    pub credentials: TwitchCredentials,
}

impl TwitchHttpAuthenticator {
    pub fn new(twitch_id_api_url: String, twitch_helix_api_url: String,
        credentials: TwitchCredentials) -> (r: Self)
        ensures
            r.twitch_oauth_api_url == twitch_id_api_url,
            r.twitch_helix_api_url == twitch_helix_api_url,
            r.credentials == credentials,
    {
        Self { twitch_oauth_api_url: twitch_id_api_url, twitch_helix_api_url, credentials }
    }

    /// The authorization URL on the configured identity endpoint.
    pub fn create_auth_url(&self, scope: &str) -> (r: String)
        ensures
            r@ == spec_auth_url(
                self.twitch_oauth_api_url@,
                self.credentials.client_id@,
                self.credentials.redirect_uri@,
                scope@,
            ),
    {
        build_auth_url(self.twitch_oauth_api_url.as_str(), self.credentials.client_id.as_str(),
            self.credentials.redirect_uri.as_str(), scope)
    }
}

/// The token payload the identity provider returns.
#[derive(Debug, Clone)]
pub struct TwitchUserTokens {
    pub access_token: String,
    pub refresh_token: Option<String>,
    pub expires_in: u64,
    pub scope: Vec<String>,
    pub token_type: String,
}

/// The query half of the OAuth callback: a success carries a code, a
/// failure carries an error and its description.
pub struct AuthCallbackQuery {
    pub code: Option<String>,
    pub error: Option<String>,
    pub error_description: Option<String>,
}

pub struct AuthCallbackSuccessQuery {
    pub code: String,
}

#[derive(Debug)]
pub struct AuthCallbackFailureQuery {
    pub error: String,
    pub error_description: String,
}

impl AuthCallbackQuery {
    /// Read the query as a success. The caller must have seen a code.
    pub fn as_success(&self) -> (r: AuthCallbackSuccessQuery)
        requires
            self.code is Some,
        ensures
            r.code == self.code->0,
    {
        match &self.code {
            Some(code) => AuthCallbackSuccessQuery { code: code.clone() },
            None => unreached(),
        }
    }

    /// Read the query as a failure. The caller must have seen an error.
    pub fn as_failure(&self) -> (r: AuthCallbackFailureQuery)
        requires
            self.error is Some,
            self.error_description is Some,
        ensures
            r.error == self.error->0,
            r.error_description == self.error_description->0,
    {
        match (&self.error, &self.error_description) {
            (Some(error), Some(description)) => AuthCallbackFailureQuery {
                error: error.clone(),
                error_description: description.clone(),
            },
            _ => unreached(),
        }
    }
}

/// Where a login request is sent: back into the app for a known user,
/// to the identity provider otherwise.
#[derive(Debug)]
pub struct LoginRedirect(pub String);

impl LoginRedirect {
    /// The redirect for a session: a logged-in user goes to the reader
    /// page for their own channel, anyone else to the authorization URL
    /// asking to read their email.
    pub fn new(user: Option<&TwitchUser>, credentials: &TwitchCredentials) -> (r: Self)
        ensures
            user is Some ==> r.0@ == "/read.html#"@ + user->0.login@,
            user is None ==> r.0@ == spec_auth_url(
                "https://id.twitch.tv/oauth2"@,
                credentials.client_id@,
                credentials.redirect_uri@,
                "user:read:email"@,
            ),
    {
        match user {
            Some(u) => {
                let mut target = "/read.html#".to_owned();
                target.append(u.login.as_str());
                Self(target)
            },
            None => Self(credentials.into_auth_url("user:read:email")),
        }
    }
}

} // verus!
