//! What the chat platform sends when a user authorizes the service.

use vstd::prelude::*;

verus! {

/// The user who authorized, and the secret granted to act for them.
#[derive(Debug)]
pub struct SlackAuthedUser {
    pub id: String,
    pub scope: String,
    pub access_token: String,
    pub token_type: String,
}

/// The fields of a token reply that describe the user.
#[derive(Debug)]
pub struct SlackTokenFields {
    pub authed_user: SlackAuthedUser,
}

/// The answer of the user's browser: the code to trade for a secret, and the
/// token that tells whose answer it is.
#[derive(Debug)]
pub struct OauthCode {
    pub code: String,
    pub state: String,
}

/// Where a user is sent to authorize the service.
pub const AUTHORIZE_URL: &'static str = "https://slack.com/oauth/v2/authorize";

/// Where a code is traded for a secret.
pub const TOKEN_URL: &'static str = "https://slack.com/api/oauth.v2.access";

/// Where the user's browser is sent back to.
pub const REDIRECT_URL: &'static str = "https://slackfm.wobbl.in/auth";

} // verus!
