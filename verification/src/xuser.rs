//! The bodies of the service's messages.

use vstd::prelude::*;

verus! {

/// Asks for a user token on behalf of a client id.
pub struct MSATokenRequest {
    pub client_id: String,
    pub allow_ui: bool,
    pub msa_full_trust: bool,
}

pub struct MSATokenRequestView {
    pub client_id: Seq<char>,
    pub allow_ui: bool,
    pub msa_full_trust: bool,
}

impl View for MSATokenRequest {
    type V = MSATokenRequestView;

    open spec fn view(&self) -> MSATokenRequestView {
        MSATokenRequestView {
            client_id: self.client_id@,
            allow_ui: self.allow_ui,
            msa_full_trust: self.msa_full_trust,
        }
    }
}

/// The user token, and the device token where there is one.
pub struct MSATokenResponse {
    pub token: String,
    pub expiry: i64,
    pub device_rps: String,
    pub device_expiry: i64,
}

pub struct MSATokenResponseView {
    pub token: Seq<char>,
    pub expiry: i64,
    pub device_rps: Seq<char>,
    pub device_expiry: i64,
}

impl View for MSATokenResponse {
    type V = MSATokenResponseView;

    open spec fn view(&self) -> MSATokenResponseView {
        MSATokenResponseView {
            token: self.token@,
            expiry: self.expiry,
            device_rps: self.device_rps@,
            device_expiry: self.device_expiry,
        }
    }
}

/// Why a request failed.
pub struct ErrorResponse {
    pub message: String,
}

/// Identity of the signed-in user. A field whose claim is absent is empty.
pub struct UserIdentityResponse {
    pub xuid: String,
    pub gamertag: String,
    pub modern_gamertag: String,
    pub user_hash: String,
    /// Unix timestamp after which the claims should be asked for again.
    pub expiry: i64,
}

pub struct UserIdentityResponseView {
    pub xuid: Seq<char>,
    pub gamertag: Seq<char>,
    pub modern_gamertag: Seq<char>,
    pub user_hash: Seq<char>,
    pub expiry: i64,
}

impl View for UserIdentityResponse {
    type V = UserIdentityResponseView;

    open spec fn view(&self) -> UserIdentityResponseView {
        UserIdentityResponseView {
            xuid: self.xuid@,
            gamertag: self.gamertag@,
            modern_gamertag: self.modern_gamertag@,
            user_hash: self.user_hash@,
            expiry: self.expiry,
        }
    }
}

impl Default for UserIdentityResponse {
    fn default() -> (r: UserIdentityResponse)
        ensures
            r@ == (UserIdentityResponseView {
                xuid: Seq::empty(),
                gamertag: Seq::empty(),
                modern_gamertag: Seq::empty(),
                user_hash: Seq::empty(),
                expiry: 0,
            }),
    {
        UserIdentityResponse {
            xuid: String::new(),
            gamertag: String::new(),
            modern_gamertag: String::new(),
            user_hash: String::new(),
            expiry: 0,
        }
    }
}

/// Requests and responses are what their fields hold.
pub proof fn law_fields_are_seen_as_they_are(
    request: MSATokenRequest,
    response: MSATokenResponse,
    identity: UserIdentityResponse,
)
    ensures
        request@.client_id == request.client_id@,
        request@.allow_ui == request.allow_ui,
        request@.msa_full_trust == request.msa_full_trust,
        response@.token == response.token@,
        response@.expiry == response.expiry,
        response@.device_rps == response.device_rps@,
        response@.device_expiry == response.device_expiry,
        identity@.xuid == identity.xuid@,
        identity@.gamertag == identity.gamertag@,
        identity@.modern_gamertag == identity.modern_gamertag@,
        identity@.user_hash == identity.user_hash@,
        identity@.expiry == identity.expiry,
{
}

} // verus!
