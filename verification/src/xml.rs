//! The XML transport: how a request is answered, step by step.
//!
//! A [`Session`] says what has to be done next outside of this library; the
//! [`Event`] that comes of it takes the session to its next step. Once it is
//! finished, [`handle`] frames the answer.

use vstd::prelude::*;
use vstd::string::*;

use crate::ipc;
use crate::message::XodusMessageType;
use crate::outside;
use crate::path;
use crate::text;
use crate::token;
use crate::token::{
    DeviceExchange, DeviceExchangeView, ExchangeOutcome, ExchangeOutcomeView, LegacyToken, LegacyTokenView, Policy,
    SecurityToken, SecurityTokenView, Target, TargetView, Token, TokenView, UserExchange,
    UserExchangeView,
};
use crate::xuser::{
    ErrorResponse, MSATokenRequest, MSATokenRequestView, MSATokenResponse, MSATokenResponseView,
    UserIdentityResponse, UserIdentityResponseView,
};

verus! {

broadcast use vstd::string::group_string_axioms;

/// What the token for the Xbox services says about the user.
pub struct XstsClaims {
    pub xuid: Option<String>,
    pub gamertag: Option<String>,
    pub modern_gamertag: Option<String>,
    pub user_hash: Option<String>,
    /// Unix timestamp until which the token holds.
    pub not_after: i64,
}

pub struct XstsClaimsView {
    pub xuid: Option<Seq<char>>,
    pub gamertag: Option<Seq<char>>,
    pub modern_gamertag: Option<Seq<char>>,
    pub user_hash: Option<Seq<char>>,
    pub not_after: i64,
}

impl View for XstsClaims {
    type V = XstsClaimsView;

    open spec fn view(&self) -> XstsClaimsView {
        XstsClaimsView {
            xuid: token::opt_text(self.xuid),
            gamertag: token::opt_text(self.gamertag),
            modern_gamertag: token::opt_text(self.modern_gamertag),
            user_hash: token::opt_text(self.user_hash),
            not_after: self.not_after,
        }
    }
}

/// A device token with the timestamp of its expiry.
pub type DeviceRps = Option<(String, i64)>;

pub open spec fn rps_view(device: DeviceRps) -> Option<(Seq<char>, i64)> {
    match device {
        Some((rps, expiry)) => Some((rps@, expiry)),
        None => None,
    }
}

/// How far the handling of one request has come, and what has to be done next.
#[allow(inconsistent_fields)]
pub enum Session {
    /// Read the request out of this XML text.
    ParseRequest { text: String, device: LegacyToken },
    /// Load the stored token of the user; without a request, for the identity.
    LoadUserToken { request: Option<MSATokenRequest>, device: LegacyToken },
    /// Exchange the device's token.
    ExchangeDevice { own: DeviceExchange, request: MSATokenRequest, user: LegacyToken },
    /// Exchange the user's token.
    ExchangeUser { exchange: UserExchange, rps: DeviceRps },
    /// Store the user's token that came back; go on whether or not that works.
    SaveToken { address: String, saved: Token, rest: Vec<SecurityToken>, rps: DeviceRps },
    /// Write the response as XML.
    EncodeToken { response: MSATokenResponse },
    /// Get the claims about the user, as `xbox::run` says.
    ResolveIdentity { device: LegacyToken, user: LegacyToken, relying_party: String },
    /// Write the response as XML.
    EncodeIdentity { response: UserIdentityResponse },
    /// The payload of the answer, or why there is none.
    Finished { result: Result<Vec<u8>, String> },
}

#[allow(inconsistent_fields)]
pub enum SessionView {
    ParseRequest { text: Seq<char>, device: LegacyTokenView },
    LoadUserToken { request: Option<MSATokenRequestView>, device: LegacyTokenView },
    ExchangeDevice {
        own: DeviceExchangeView,
        request: MSATokenRequestView,
        user: LegacyTokenView,
    },
    ExchangeUser { exchange: UserExchangeView, rps: Option<(Seq<char>, i64)> },
    SaveToken {
        address: Seq<char>,
        saved: TokenView,
        rest: Seq<SecurityTokenView>,
        rps: Option<(Seq<char>, i64)>,
    },
    EncodeToken { response: MSATokenResponseView },
    ResolveIdentity { device: LegacyTokenView, user: LegacyTokenView, relying_party: Seq<char> },
    EncodeIdentity { response: UserIdentityResponseView },
    Finished { result: Result<Seq<u8>, Seq<char>> },
}

pub open spec fn request_view(request: Option<MSATokenRequest>) -> Option<MSATokenRequestView> {
    match request {
        Some(request) => Some(request@),
        None => None,
    }
}

impl View for Session {
    type V = SessionView;

    open spec fn view(&self) -> SessionView {
        match self {
            Session::ParseRequest { text, device } => SessionView::ParseRequest {
                text: text@,
                device: device@,
            },
            Session::LoadUserToken { request, device } => SessionView::LoadUserToken {
                request: request_view(*request),
                device: device@,
            },
            Session::ExchangeDevice { own, request, user } => SessionView::ExchangeDevice {
                own: own@,
                request: request@,
                user: user@,
            },
            Session::ExchangeUser { exchange, rps } => SessionView::ExchangeUser {
                exchange: exchange@,
                rps: rps_view(*rps),
            },
            Session::SaveToken { address, saved, rest, rps } => SessionView::SaveToken {
                address: address@,
                saved: saved@,
                rest: token::token_views(rest@),
                rps: rps_view(*rps),
            },
            Session::EncodeToken { response } => SessionView::EncodeToken { response: response@ },
            Session::ResolveIdentity { device, user, relying_party } => SessionView::ResolveIdentity {
                device: device@,
                user: user@,
                relying_party: relying_party@,
            },
            Session::EncodeIdentity { response } => SessionView::EncodeIdentity {
                response: response@,
            },
            Session::Finished { result } => SessionView::Finished {
                result: token::bytes_view(*result),
            },
        }
    }
}

/// What came of the last step.
pub enum Event {
    /// The request out of the XML text.
    Request(Result<MSATokenRequest, String>),
    /// The stored token of the user.
    UserToken(Result<Token, String>),
    /// The device token, where the exchange brought one.
    DeviceToken(Option<SecurityToken>),
    /// The answer to the exchange of the user's token.
    Exchanged(Result<ExchangeOutcome, String>),
    /// The attempt to store the token is over.
    Saved,
    /// The response as XML.
    Encoded(Result<String, String>),
    /// The claims about the user.
    Identity(Result<XstsClaims, String>),
}

pub enum EventView {
    Request(Result<MSATokenRequestView, Seq<char>>),
    UserToken(Result<TokenView, Seq<char>>),
    DeviceToken(Option<SecurityTokenView>),
    Exchanged(Result<ExchangeOutcomeView, Seq<char>>),
    Saved,
    Encoded(Result<Seq<char>, Seq<char>>),
    Identity(Result<XstsClaimsView, Seq<char>>),
}

impl View for Event {
    type V = EventView;

    open spec fn view(&self) -> EventView {
        match self {
            Event::Request(Ok(r)) => EventView::Request(Ok(r@)),
            Event::Request(Err(e)) => EventView::Request(Err(e@)),
            Event::UserToken(r) => EventView::UserToken(token::token_view(*r)),
            Event::DeviceToken(Some(t)) => EventView::DeviceToken(Some(t@)),
            Event::DeviceToken(None) => EventView::DeviceToken(None),
            Event::Exchanged(r) => EventView::Exchanged(token::outcome_view(*r)),
            Event::Saved => EventView::Saved,
            Event::Encoded(r) => EventView::Encoded(token::text_view(*r)),
            Event::Identity(Ok(c)) => EventView::Identity(Ok(c@)),
            Event::Identity(Err(e)) => EventView::Identity(Err(e@)),
        }
    }
}

/// A session that has failed with a message.
pub open spec fn failed(message: Seq<char>) -> SessionView {
    SessionView::Finished { result: Err(message) }
}

fn fail(message: String) -> (r: Session)
    ensures
        r@ == failed(message@),
{
    Session::Finished { result: Err(message) }
}

fn fail_with(head: &str, tail: &str) -> (r: Session)
    ensures
        r@ == failed(head@ + tail@),
{
    fail(text::concat(head, tail))
}

/// How the handling of a request begins: a ping is answered with its payload,
/// the two other requests take further steps, and nothing else is answered.
pub open spec fn begun(
    device: LegacyTokenView,
    message_type: XodusMessageType,
    payload: Seq<u8>,
) -> SessionView {
    match message_type {
        XodusMessageType::Ping => SessionView::Finished { result: Ok(payload) },
        XodusMessageType::MsaTokenRequest => if vstd::utf8::valid_utf8(payload) {
            SessionView::ParseRequest { text: vstd::utf8::decode_utf8(payload), device }
        } else {
            failed(outside::utf8_error_text(payload))
        },
        XodusMessageType::UserIdentityRequest => SessionView::LoadUserToken {
            request: None,
            device,
        },
        _ => failed("Unimplemented"@),
    }
}

/// Begins the handling of a request on the device that has this token.
pub fn parse_message(
    device: LegacyToken,
    message_type: XodusMessageType,
    payload: Vec<u8>,
) -> (r: Session)
    ensures
        r@ == begun(device@, message_type, payload@),
{
    match message_type {
        XodusMessageType::Ping => Session::Finished { result: Ok(payload) },
        XodusMessageType::MsaTokenRequest => match outside::utf8_text(payload.as_slice()) {
            Ok(text) => Session::ParseRequest { text, device },
            Err(e) => fail(e),
        },
        XodusMessageType::UserIdentityRequest => Session::LoadUserToken { request: None, device },
        _ => fail("Unimplemented".to_owned()),
    }
}

/// The scope that is asked for on behalf of a client.
pub open spec fn scope_of(msa_full_trust: bool) -> Seq<char> {
    if msa_full_trust {
        "service::user.auth.xboxlive.com::MBI_SSL"@
    } else {
        "xboxlive.signin"@
    }
}

/// The exchange of the user's token that answers a request: a token for the
/// client's scope, and the user's own token anew.
pub open spec fn user_exchange_of(
    request: MSATokenRequestView,
    user: LegacyTokenView,
    device: LegacyTokenView,
) -> UserExchangeView {
    UserExchangeView {
        user,
        device,
        user_name: "USERNAME"@,
        flow: "Silent"@,
        client_id: request.client_id,
        targets: seq![
            TargetView {
                address: "scope="@ + scope_of(request.msa_full_trust)
                    + "&api-version=2.0&clientid="@ + request.client_id,
                policy: Some(Policy::TokenBroker),
            },
            TargetView { address: "http://Passport.NET/tb"@, policy: None },
        ],
    }
}

/// The exchange of the device's token that goes with a token request.
pub open spec fn device_exchange_of(device: LegacyTokenView) -> DeviceExchangeView {
    DeviceExchangeView {
        device,
        client_id: "{28C08266-F973-4AE6-FFE4-409B249F138F}"@,
        scope: "scope=service::user.auth.xboxlive.com::MBI_SSL"@,
        policy: Policy::TokenBroker,
    }
}

/// The exchange of the device's token that goes with a token request.
pub fn device_exchange(device: LegacyToken) -> (r: DeviceExchange)
    ensures
        r@ == device_exchange_of(device@),
{
    DeviceExchange {
        device,
        client_id: "{28C08266-F973-4AE6-FFE4-409B249F138F}".to_owned(),
        scope: "scope=service::user.auth.xboxlive.com::MBI_SSL".to_owned(),
        policy: Policy::TokenBroker,
    }
}

/// The exchange of the user's token that answers a request.
pub fn user_exchange(
    request: &MSATokenRequest,
    user: LegacyToken,
    device: LegacyToken,
) -> (r: UserExchange)
    ensures
        r@ == user_exchange_of(request@, user@, device@),
{
    let mut address = String::new();
    address.append("scope=");
    if request.msa_full_trust {
        address.append("service::user.auth.xboxlive.com::MBI_SSL");
    } else {
        address.append("xboxlive.signin");
    }
    address.append("&api-version=2.0&clientid=");
    address.append(request.client_id.as_str());
    assert(address@ =~= "scope="@ + scope_of(request.msa_full_trust)
        + "&api-version=2.0&clientid="@ + request.client_id@);
    let mut targets: Vec<Target> = Vec::new();
    targets.push(Target { address, policy: Some(Policy::TokenBroker) });
    targets.push(Target { address: "http://Passport.NET/tb".to_owned(), policy: None });
    let r = UserExchange {
        user,
        device,
        user_name: "USERNAME".to_owned(),
        flow: "Silent".to_owned(),
        client_id: request.client_id.clone(),
        targets,
    };
    assert(r@.targets =~= user_exchange_of(request@, user@, device@).targets);
    r
}

/// The device token is passed on where it is compact and its expiry is known.
pub open spec fn device_rps_of(
    issued: TokenView,
    expiry: Result<i64, Seq<char>>,
) -> Option<(Seq<char>, i64)> {
    match (issued, expiry) {
        (TokenView::Compact(rps), Ok(t)) => Some((rps, t)),
        _ => None,
    }
}

/// The device token that is passed on to the client.
pub fn device_rps(issued: Token, expiry: Result<i64, String>) -> (r: DeviceRps)
    ensures
        rps_view(r) == device_rps_of(issued@, outside::timestamp_view(expiry)),
{
    match issued {
        Token::Compact(rps) => match expiry {
            Ok(t) => Some((rps, t)),
            Err(_) => None,
        },
        Token::Legacy(_) => None,
    }
}

/// Where a token is stored: under the name of its key, or under the address it
/// was issued for where it has no such name.
pub open spec fn save_address_of(issued: SecurityTokenView) -> Seq<char> {
    match issued.token {
        TokenView::Legacy(LegacyTokenView { key_name: Some(name), .. }) => name,
        _ => issued.address,
    }
}

/// The answer to a token request: the token must be compact, and its expiry
/// known. An expiry that cannot be read is reported first.
pub open spec fn token_response_of(
    issued: TokenView,
    expiry: Result<i64, Seq<char>>,
    device: Option<(Seq<char>, i64)>,
) -> Result<MSATokenResponseView, Seq<char>> {
    match expiry {
        Err(e) => Err(e),
        Ok(expiry) => match issued {
            TokenView::Legacy(_) => Err("token exchange returned a non-compact user token"@),
            TokenView::Compact(user_token) => Ok(
                MSATokenResponseView {
                    token: user_token,
                    expiry,
                    device_rps: match device {
                        Some((rps, _)) => rps,
                        None => Seq::empty(),
                    },
                    device_expiry: match device {
                        Some((_, t)) => t,
                        None => 0,
                    },
                },
            ),
        },
    }
}

/// The view of a response or of the reason why there is none.
pub open spec fn response_view(r: Result<MSATokenResponse, String>) -> Result<
    MSATokenResponseView,
    Seq<char>,
> {
    match r {
        Ok(response) => Ok(response@),
        Err(e) => Err(e@),
    }
}

/// The answer to a token request, from the token, its expiry and the device
/// token.
pub fn token_response(issued: Token, expiry: Result<i64, String>, device: DeviceRps) -> (r: Result<
    MSATokenResponse,
    String,
>)
    ensures
        response_view(r) == token_response_of(
            issued@,
            outside::timestamp_view(expiry),
            rps_view(device),
        ),
{
    let expiry: i64 = match expiry {
        Ok(t) => t,
        Err(e) => {
            return Err(e);
        },
    };
    match issued {
        Token::Legacy(_) => Err("token exchange returned a non-compact user token".to_owned()),
        Token::Compact(user_token) => {
            match device {
                Some((rps, t)) => Ok(
                    MSATokenResponse {
                        token: user_token,
                        expiry,
                        device_rps: rps,
                        device_expiry: t,
                    },
                ),
                None => Ok(
                    MSATokenResponse {
                        token: user_token,
                        expiry,
                        device_rps: String::new(),
                        device_expiry: 0,
                    },
                ),
            }
        },
    }
}

pub open spec fn or_empty(s: Option<Seq<char>>) -> Seq<char> {
    match s {
        Some(s) => s,
        None => Seq::empty(),
    }
}

/// The answer to an identity request: a claim that is absent is empty.
pub open spec fn identity_of(claims: XstsClaimsView) -> UserIdentityResponseView {
    UserIdentityResponseView {
        xuid: or_empty(claims.xuid),
        gamertag: or_empty(claims.gamertag),
        modern_gamertag: or_empty(claims.modern_gamertag),
        user_hash: or_empty(claims.user_hash),
        expiry: claims.not_after,
    }
}

fn text_or_empty(s: Option<String>) -> (r: String)
    ensures
        r@ == or_empty(token::opt_text(s)),
{
    match s {
        Some(s) => s,
        None => String::new(),
    }
}

/// The answer to an identity request.
pub fn identity(claims: XstsClaims) -> (r: UserIdentityResponse)
    ensures
        r@ == identity_of(claims@),
{
    UserIdentityResponse {
        xuid: text_or_empty(claims.xuid),
        gamertag: text_or_empty(claims.gamertag),
        modern_gamertag: text_or_empty(claims.modern_gamertag),
        user_hash: text_or_empty(claims.user_hash),
        expiry: claims.not_after,
    }
}

/// The step after the user's token was loaded.
pub open spec fn after_user_token(
    request: Option<MSATokenRequestView>,
    device: LegacyTokenView,
    loaded: Result<TokenView, Seq<char>>,
) -> SessionView {
    match loaded {
        Err(e) => failed("no user is logged in (run `xodus-cli login` first): "@ + e),
        Ok(TokenView::Compact(_)) => failed("stored user STS token has an unsupported format"@),
        Ok(TokenView::Legacy(user)) => match request {
            Some(request) => SessionView::ExchangeDevice {
                own: device_exchange_of(device),
                request,
                user,
            },
            None => SessionView::ResolveIdentity {
                device,
                user,
                relying_party: "http://xboxlive.com"@,
            },
        },
    }
}

/// The step after the device's token was exchanged, or could not be.
pub open spec fn after_device_token(
    request: MSATokenRequestView,
    user: LegacyTokenView,
    device: LegacyTokenView,
    issued: Option<SecurityTokenView>,
) -> SessionView {
    SessionView::ExchangeUser {
        exchange: user_exchange_of(request, user, device),
        rps: match issued {
            Some(issued) => device_rps_of(
                issued.token,
                outside::rfc3339_timestamp(issued.expires),
            ),
            None => None,
        },
    }
}

/// The step after the user's token was exchanged: the last token that came back
/// is the user's own, to be stored, and the first one answers the request.
pub open spec fn after_exchange(
    rps: Option<(Seq<char>, i64)>,
    outcome: Result<ExchangeOutcomeView, Seq<char>>,
) -> SessionView {
    match outcome {
        Err(e) => failed(e),
        Ok(ExchangeOutcomeView::Fault { fault }) => failed(
            "token exchange returned a fault: "@ + fault,
        ),
        Ok(ExchangeOutcomeView::Collection { tokens, .. }) => if tokens.len() == 0 {
            failed("token exchange returned too few security tokens"@)
        } else {
            SessionView::SaveToken {
                address: save_address_of(tokens.last()),
                saved: tokens.last().token,
                rest: tokens.drop_last(),
                rps,
            }
        },
        Ok(ExchangeOutcomeView::Single { shown, .. }) => failed(
            "unexpected token exchange outcome: "@ + shown,
        ),
        Ok(ExchangeOutcomeView::Other { shown }) => failed(
            "unexpected token exchange outcome: "@ + shown,
        ),
    }
}

/// The step after the user's own token was stored, or could not be.
pub open spec fn after_save(
    rest: Seq<SecurityTokenView>,
    rps: Option<(Seq<char>, i64)>,
) -> SessionView {
    if rest.len() == 0 {
        failed("token exchange returned too few security tokens"@)
    } else {
        match token_response_of(
            rest[0].token,
            outside::rfc3339_timestamp(rest[0].expires),
            rps,
        ) {
            Ok(response) => SessionView::EncodeToken { response },
            Err(e) => failed(e),
        }
    }
}

/// The step that an event leads to. An event that a session does not wait for
/// leaves it as it is.
pub open spec fn next(session: SessionView, event: EventView) -> SessionView {
    match (session, event) {
        (SessionView::ParseRequest { device, .. }, EventView::Request(Ok(request))) => {
            SessionView::LoadUserToken { request: Some(request), device }
        },
        (SessionView::ParseRequest { .. }, EventView::Request(Err(e))) => failed(e),
        (SessionView::LoadUserToken { request, device }, EventView::UserToken(loaded)) => {
            after_user_token(request, device, loaded)
        },
        (SessionView::ExchangeDevice { own, request, user }, EventView::DeviceToken(issued)) => {
            after_device_token(request, user, own.device, issued)
        },
        (SessionView::ExchangeUser { rps, .. }, EventView::Exchanged(outcome)) => after_exchange(
            rps,
            outcome,
        ),
        (SessionView::SaveToken { rest, rps, .. }, EventView::Saved) => after_save(rest, rps),
        (SessionView::EncodeToken { .. }, EventView::Encoded(Ok(xml))) => SessionView::Finished {
            result: Ok(path::bytes_of(xml)),
        },
        (SessionView::EncodeToken { .. }, EventView::Encoded(Err(e))) => failed(e),
        (SessionView::ResolveIdentity { .. }, EventView::Identity(Ok(claims))) => {
            SessionView::EncodeIdentity { response: identity_of(claims) }
        },
        (SessionView::ResolveIdentity { .. }, EventView::Identity(Err(e))) => failed(e),
        (SessionView::EncodeIdentity { .. }, EventView::Encoded(Ok(xml))) => SessionView::Finished {
            result: Ok(path::bytes_of(xml)),
        },
        (SessionView::EncodeIdentity { .. }, EventView::Encoded(Err(e))) => failed(e),
        _ => session,
    }
}

fn user_token_loaded(
    request: Option<MSATokenRequest>,
    device: LegacyToken,
    loaded: Result<Token, String>,
) -> (r: Session)
    ensures
        r@ == after_user_token(request_view(request), device@, token::token_view(loaded)),
{
    match loaded {
        Err(e) => fail_with("no user is logged in (run `xodus-cli login` first): ", e.as_str()),
        Ok(Token::Compact(_)) => fail("stored user STS token has an unsupported format".to_owned()),
        Ok(Token::Legacy(user)) => match request {
            Some(request) => Session::ExchangeDevice {
                own: device_exchange(device),
                request,
                user,
            },
            None => Session::ResolveIdentity {
                device,
                user,
                relying_party: "http://xboxlive.com".to_owned(),
            },
        },
    }
}

fn device_exchanged(
    request: MSATokenRequest,
    user: LegacyToken,
    device: LegacyToken,
    issued: Option<SecurityToken>,
) -> (r: Session)
    ensures
        r@ == after_device_token(
            request@,
            user@,
            device@,
            match issued {
                Some(issued) => Some(issued@),
                None => None,
            },
        ),
{
    let rps = match issued {
        Some(issued) => {
            let expiry = outside::parse_rfc3339(issued.expires.as_str());
            device_rps(issued.token, expiry)
        },
        None => None,
    };
    Session::ExchangeUser { exchange: user_exchange(&request, user, device), rps }
}

/// Where a token is stored.
pub fn save_address(issued: &SecurityToken) -> (r: String)
    ensures
        r@ == save_address_of(issued@),
{
    match &issued.token {
        Token::Legacy(legacy) => match &legacy.key_name {
            Some(name) => name.clone(),
            None => issued.address.clone(),
        },
        Token::Compact(_) => issued.address.clone(),
    }
}

fn user_exchanged(rps: DeviceRps, outcome: Result<ExchangeOutcome, String>) -> (r: Session)
    ensures
        r@ == after_exchange(rps_view(rps), token::outcome_view(outcome)),
{
    match outcome {
        Err(e) => fail(e),
        Ok(ExchangeOutcome::Fault { fault }) => fail_with(
            "token exchange returned a fault: ",
            fault.as_str(),
        ),
        Ok(ExchangeOutcome::Collection { tokens, shown: _ }) => {
            let mut rest = tokens;
            match rest.pop() {
                None => fail("token exchange returned too few security tokens".to_owned()),
                Some(last) => {
                    let address = save_address(&last);
                    assert(token::token_views(rest@) =~= token::token_views(tokens@).drop_last());
                    assert(token::token_views(tokens@).last() == last@);
                    Session::SaveToken { address, saved: last.token, rest, rps }
                },
            }
        },
        Ok(ExchangeOutcome::Single { token: _, shown }) => fail_with(
            "unexpected token exchange outcome: ",
            shown.as_str(),
        ),
        Ok(ExchangeOutcome::Other { shown }) => fail_with(
            "unexpected token exchange outcome: ",
            shown.as_str(),
        ),
    }
}

fn token_saved(rest: Vec<SecurityToken>, rps: DeviceRps) -> (r: Session)
    ensures
        r@ == after_save(token::token_views(rest@), rps_view(rps)),
{
    if rest.len() == 0 {
        return fail("token exchange returned too few security tokens".to_owned());
    }
    let mut rest = rest;
    let first = rest.remove(0);
    let expiry = outside::parse_rfc3339(first.expires.as_str());
    match token_response(first.token, expiry, rps) {
        Ok(response) => Session::EncodeToken { response },
        Err(e) => fail(e),
    }
}

fn encoded(xml: Result<String, String>) -> (r: Session)
    ensures
        r@ == (match token::text_view(xml) {
            Ok(xml) => SessionView::Finished { result: Ok(path::bytes_of(xml)) },
            Err(e) => failed(e),
        }),
{
    match xml {
        Ok(xml) => Session::Finished { result: Ok(path::copy_bytes(xml.as_str().as_bytes())) },
        Err(e) => fail(e),
    }
}

impl Session {
    /// Takes the session to its next step.
    pub fn advance(self, event: Event) -> (r: Session)
        ensures
            r@ == next(self@, event@),
    {
        match (self, event) {
            (Session::ParseRequest { text: _, device }, Event::Request(Ok(request))) => {
                Session::LoadUserToken { request: Some(request), device }
            },
            (Session::ParseRequest { text: _, device: _ }, Event::Request(Err(e))) => fail(e),
            (Session::LoadUserToken { request, device }, Event::UserToken(loaded)) => {
                user_token_loaded(request, device, loaded)
            },
            (Session::ExchangeDevice { own, request, user }, Event::DeviceToken(issued)) => {
                device_exchanged(request, user, own.device, issued)
            },
            (Session::ExchangeUser { exchange: _, rps }, Event::Exchanged(outcome)) => {
                user_exchanged(rps, outcome)
            },
            (Session::SaveToken { address: _, saved: _, rest, rps }, Event::Saved) => token_saved(
                rest,
                rps,
            ),
            (Session::EncodeToken { response: _ }, Event::Encoded(xml)) => encoded(xml),
            (
                Session::ResolveIdentity { device: _, user: _, relying_party: _ },
                Event::Identity(Ok(claims)),
            ) => Session::EncodeIdentity { response: identity(claims) },
            (
                Session::ResolveIdentity { device: _, user: _, relying_party: _ },
                Event::Identity(Err(e)),
            ) => fail(e),
            (Session::EncodeIdentity { response: _ }, Event::Encoded(xml)) => encoded(xml),
            (session, _) => session,
        }
    }
}

/// The frame of a successful answer: the request's type plus one.
pub open spec fn success_frame(message_type: XodusMessageType, payload: Seq<u8>) -> Seq<u8> {
    ipc::frame(ipc::XML_MAGIC, (message_type.spec_code() + 1) as u16, payload)
}

/// What a failure carries: the XML of its message, or nothing where that could
/// not be written or does not fit into a frame.
pub open spec fn failure_payload(xml: Option<Seq<char>>) -> Seq<u8> {
    match xml {
        Some(xml) => if path::bytes_of(xml).len() <= ipc::MAX_PAYLOAD {
            path::bytes_of(xml)
        } else {
            Seq::empty()
        },
        None => Seq::empty(),
    }
}

/// The frame of a failure.
pub open spec fn failure_frame(xml: Option<Seq<char>>) -> Seq<u8> {
    ipc::frame(
        ipc::XML_MAGIC,
        XodusMessageType::ErrorResponse.spec_code(),
        failure_payload(xml),
    )
}

/// What is to be done with the result of a session.
pub enum Reply {
    /// Send this frame.
    Send(Vec<u8>),
    /// Write the error as XML and send the frame of [`error_frame`].
    Report(ErrorResponse),
}

pub enum ReplyView {
    Send(Seq<u8>),
    Report(Seq<char>),
}

impl View for Reply {
    type V = ReplyView;

    open spec fn view(&self) -> ReplyView {
        match self {
            Reply::Send(bytes) => ReplyView::Send(bytes@),
            Reply::Report(error) => ReplyView::Report(error.message@),
        }
    }
}

/// The answer to a request: the frame of the payload, or an error, which is also
/// what becomes of a payload that does not fit into a frame.
pub open spec fn reply_of(
    message_type: XodusMessageType,
    result: Result<Seq<u8>, Seq<char>>,
) -> ReplyView {
    match result {
        Ok(payload) => if payload.len() <= ipc::MAX_PAYLOAD {
            ReplyView::Send(success_frame(message_type, payload))
        } else {
            ReplyView::Report("the response does not fit into a frame"@)
        },
        Err(e) => ReplyView::Report(e),
    }
}

/// Turns the result of a session into an answer. A failed request is answered
/// with a frame of its own type instead of an empty payload, so that a client
/// can tell "failed" from "empty".
pub fn handle(message_type: XodusMessageType, result: Result<Vec<u8>, String>) -> (r: Reply)
    ensures
        r@ == reply_of(message_type, token::bytes_view(result)),
{
    match result {
        Ok(payload) => {
            if payload.len() <= ipc::MAX_PAYLOAD {
                Reply::Send(
                    ipc::encode_frame(
                        ipc::XML_MAGIC,
                        message_type.code() + 1,
                        payload.as_slice(),
                    ),
                )
            } else {
                Reply::Report(
                    ErrorResponse { message: "the response does not fit into a frame".to_owned() },
                )
            }
        },
        Err(e) => Reply::Report(ErrorResponse { message: e }),
    }
}

/// The frame that reports an error, from the XML of the error, where it could
/// be written. XML that does not fit into a frame is left out.
pub fn error_frame(xml: Option<String>) -> (r: Vec<u8>)
    ensures
        r@ == failure_frame(token::opt_text(xml)),
{
    let none: Vec<u8> = Vec::new();
    assert(none@ =~= Seq::<u8>::empty());
    let payload = match xml {
        Some(xml) => {
            let bytes = path::copy_bytes(xml.as_str().as_bytes());
            if bytes.len() <= ipc::MAX_PAYLOAD {
                bytes
            } else {
                none
            }
        },
        None => none,
    };
    ipc::encode_frame(
        ipc::XML_MAGIC,
        XodusMessageType::ErrorResponse.code(),
        payload.as_slice(),
    )
}

/// Whether a session waits for an event.
pub open spec fn awaits(session: SessionView, event: EventView) -> bool {
    match session {
        SessionView::ParseRequest { .. } => event is Request,
        SessionView::LoadUserToken { .. } => event is UserToken,
        SessionView::ExchangeDevice { .. } => event is DeviceToken,
        SessionView::ExchangeUser { .. } => event is Exchanged,
        SessionView::SaveToken { .. } => event is Saved,
        SessionView::EncodeToken { .. } => event is Encoded,
        SessionView::ResolveIdentity { .. } => event is Identity,
        SessionView::EncodeIdentity { .. } => event is Encoded,
        SessionView::Finished { .. } => false,
    }
}

/// How many steps a session can still take.
pub open spec fn steps_left(session: SessionView) -> nat {
    match session {
        SessionView::ParseRequest { .. } => 6,
        SessionView::LoadUserToken { .. } => 5,
        SessionView::ExchangeDevice { .. } => 4,
        SessionView::ExchangeUser { .. } => 3,
        SessionView::SaveToken { .. } => 2,
        SessionView::EncodeToken { .. } => 1,
        SessionView::ResolveIdentity { .. } => 2,
        SessionView::EncodeIdentity { .. } => 1,
        SessionView::Finished { .. } => 0,
    }
}

/// Every event that a session waits for brings it closer to its end, any other
/// event changes nothing, and only a finished session waits for nothing: each
/// request is answered after six steps at most.
pub proof fn law_every_session_ends(session: SessionView, event: EventView)
    ensures
        awaits(session, event) ==> steps_left(next(session, event)) < steps_left(session),
        !awaits(session, event) ==> next(session, event) == session,
        steps_left(session) == 0 <==> session is Finished,
        steps_left(session) <= 6,
{
}

/// A request that the service does not know is answered with an error.
pub proof fn law_unknown_requests_fail(
    device: LegacyTokenView,
    message_type: XodusMessageType,
    payload: Seq<u8>,
)
    requires
        !message_type.is_request(),
    ensures
        begun(device, message_type, payload) == failed("Unimplemented"@),
{
}

/// A ping is answered at once, with a `Pong` that echoes its payload: whoever
/// reads the answer finds the XML magic, the type `Pong`, the length of the
/// payload and the payload.
pub proof fn law_ping_is_echoed(device: LegacyTokenView, payload: Seq<u8>)
    requires
        payload.len() <= ipc::MAX_PAYLOAD,
    ensures
        begun(device, XodusMessageType::Ping, payload) == (SessionView::Finished {
            result: Ok(payload),
        }),
        ({
            let answer = success_frame(XodusMessageType::Ping, payload);
            &&& reply_of(XodusMessageType::Ping, Ok(payload)) == ReplyView::Send(answer)
            &&& ipc::header_of(answer).magic == ipc::XML_MAGIC
            &&& ipc::header_of(answer).msg_type == XodusMessageType::Pong.spec_code()
            &&& ipc::header_of(answer).size == payload.len()
            &&& answer.skip(8) == payload
        }),
{
    ipc::law_frame_reads_back(ipc::XML_MAGIC, XodusMessageType::Pong.spec_code(), payload);
}

/// The liveness probe succeeds against the service: the probe's frame holds a
/// `Ping`, and the frame that answers its payload is the `Pong` that
/// [`ipc::ping`] accepts.
pub proof fn law_probe_succeeds_against_service(device: LegacyTokenView)
    ensures
        ({
            let probe = ipc::frame(
                ipc::XML_MAGIC,
                XodusMessageType::Ping.spec_code(),
                ipc::ping_payload(),
            );
            let answer = success_frame(XodusMessageType::Ping, probe.skip(8));
            &&& ipc::header_of(probe).magic == ipc::XML_MAGIC
            &&& ipc::header_of(probe).msg_type == XodusMessageType::Ping.spec_code()
            &&& ipc::header_of(probe).size == probe.skip(8).len()
            &&& begun(device, XodusMessageType::Ping, probe.skip(8)) == (SessionView::Finished {
                result: Ok(probe.skip(8)),
            })
            &&& reply_of(XodusMessageType::Ping, Ok(probe.skip(8))) == ReplyView::Send(answer)
            &&& ipc::header_of(answer).size == answer.skip(8).len()
            &&& ipc::is_pong(
                ipc::header_of(answer).magic,
                ipc::header_of(answer).msg_type,
                answer.skip(8),
            )
        }),
{
    let payload = ipc::ping_payload();
    ipc::lemma_ping_payload_fits();
    ipc::law_frame_reads_back(ipc::XML_MAGIC, XodusMessageType::Ping.spec_code(), payload);
    law_ping_is_echoed(device, payload);
}

/// Every frame that the service sends, in success and in failure, says in its
/// header how many bytes follow: no client loses the stream over it.
pub proof fn law_answers_are_sized(
    message_type: XodusMessageType,
    result: Result<Seq<u8>, Seq<char>>,
    xml: Option<Seq<char>>,
)
    ensures
        reply_of(message_type, result) matches ReplyView::Send(bytes) ==> bytes.len() >= 8
            && ipc::header_of(bytes).size == bytes.len() - 8,
        failure_frame(xml).len() >= 8,
        ipc::header_of(failure_frame(xml)).size == failure_frame(xml).len() - 8,
{
    match result {
        Ok(payload) => {
            if payload.len() <= ipc::MAX_PAYLOAD {
                ipc::law_frame_reads_back(
                    ipc::XML_MAGIC,
                    (message_type.spec_code() + 1) as u16,
                    payload,
                );
            }
        },
        Err(_) => {},
    }
    ipc::law_frame_reads_back(
        ipc::XML_MAGIC,
        XodusMessageType::ErrorResponse.spec_code(),
        failure_payload(xml),
    );
}

/// A failure reads back as an `ErrorResponse`, whatever the request was: by its
/// type it is no success of any request, so no client takes it for one.
pub proof fn law_failure_is_told_from_success(
    xml: Option<Seq<char>>,
    request: XodusMessageType,
    payload: Seq<u8>,
)
    requires
        request.is_request(),
        payload.len() <= ipc::MAX_PAYLOAD,
    ensures
        ipc::header_of(failure_frame(xml)).msg_type == XodusMessageType::ErrorResponse.spec_code(),
        ipc::header_of(failure_frame(xml)).msg_type != ipc::header_of(
            success_frame(request, payload),
        ).msg_type,
        failure_frame(xml).skip(8) == failure_payload(xml),
{
    ipc::law_frame_reads_back(
        ipc::XML_MAGIC,
        XodusMessageType::ErrorResponse.spec_code(),
        failure_payload(xml),
    );
    ipc::law_frame_reads_back(ipc::XML_MAGIC, (request.spec_code() + 1) as u16, payload);
}

/// Both requests that need a user fail without one, and the message says so.
pub proof fn law_login_is_required(session: SessionView, e: Seq<char>)
    requires
        session is LoadUserToken,
    ensures
        next(session, EventView::UserToken(Err(e))) is Finished,
        next(session, EventView::UserToken(Err(e)))->result is Err,
        "no user is logged in (run `xodus-cli login` first): "@.is_prefix_of(
            next(session, EventView::UserToken(Err(e)))->result->Err_0,
        ),
{
    let head = "no user is logged in (run `xodus-cli login` first): "@;
    assert((head + e).subrange(0, head.len() as int) =~= head);
}

/// Every token request loads the user's token before anything is exchanged, and
/// so does every identity request before the claims are asked for.
pub proof fn law_user_token_comes_first(session: SessionView, event: EventView)
    ensures
        next(session, event) is ExchangeDevice && !(session is ExchangeDevice)
            ==> session is LoadUserToken && event matches EventView::UserToken(
            Ok(TokenView::Legacy(_)),
        ),
        next(session, event) is ResolveIdentity && !(session is ResolveIdentity)
            ==> session is LoadUserToken && event matches EventView::UserToken(
            Ok(TokenView::Legacy(_)),
        ),
        next(session, event) is ExchangeUser && !(session is ExchangeUser)
            ==> session is ExchangeDevice,
{
}

/// The device's token that a session still has use for.
pub open spec fn device_of(session: SessionView) -> Option<LegacyTokenView> {
    match session {
        SessionView::ParseRequest { device, .. } => Some(device),
        SessionView::LoadUserToken { device, .. } => Some(device),
        SessionView::ExchangeDevice { own, .. } => Some(own.device),
        SessionView::ExchangeUser { exchange, .. } => Some(exchange.device),
        SessionView::ResolveIdentity { device, .. } => Some(device),
        _ => None,
    }
}

/// Whatever a session does for the device, it does with the device's token that
/// it began with.
pub proof fn law_device_token_is_kept(
    device: LegacyTokenView,
    message_type: XodusMessageType,
    payload: Seq<u8>,
    session: SessionView,
    event: EventView,
)
    ensures
        device_of(begun(device, message_type, payload)) matches Some(d) ==> d == device,
        device_of(next(session, event)) matches Some(d) ==> device_of(session) == Some(d),
{
}

/// What a token request is answered with when everything works: the XML of a
/// response that holds the first token that came back, its expiry, and the
/// device token where there is one; the last token is stored.
pub proof fn law_token_request_is_answered(
    device: LegacyTokenView,
    payload: Seq<u8>,
    request: MSATokenRequestView,
    user: LegacyTokenView,
    issued: Option<SecurityTokenView>,
    tokens: Seq<SecurityTokenView>,
    shown: Seq<char>,
    user_token: Seq<char>,
    expiry: i64,
    xml: Seq<char>,
)
    requires
        vstd::utf8::valid_utf8(payload),
        tokens.len() >= 2,
        tokens[0].token == TokenView::Compact(user_token),
        outside::rfc3339_timestamp(tokens[0].expires) == Ok::<i64, Seq<char>>(expiry),
    ensures
        ({
            let parsed = begun(device, XodusMessageType::MsaTokenRequest, payload);
            let loading = next(parsed, EventView::Request(Ok(request)));
            let device_step = next(loading, EventView::UserToken(Ok(TokenView::Legacy(user))));
            let user_step = next(device_step, EventView::DeviceToken(issued));
            let saving = next(
                user_step,
                EventView::Exchanged(Ok(ExchangeOutcomeView::Collection { tokens, shown })),
            );
            let encoding = next(saving, EventView::Saved);
            let rps = match issued {
                Some(t) => device_rps_of(t.token, outside::rfc3339_timestamp(t.expires)),
                None => None,
            };
            &&& parsed == (SessionView::ParseRequest {
                text: vstd::utf8::decode_utf8(payload),
                device,
            })
            &&& device_step == (SessionView::ExchangeDevice {
                own: device_exchange_of(device),
                request,
                user,
            })
            &&& user_step == (SessionView::ExchangeUser {
                exchange: user_exchange_of(request, user, device),
                rps,
            })
            &&& saving is SaveToken
            &&& saving->address == save_address_of(tokens.last())
            &&& saving->saved == tokens.last().token
            &&& encoding == (SessionView::EncodeToken {
                response: MSATokenResponseView {
                    token: user_token,
                    expiry,
                    device_rps: match rps {
                        Some((t, _)) => t,
                        None => Seq::empty(),
                    },
                    device_expiry: match rps {
                        Some((_, t)) => t,
                        None => 0,
                    },
                },
            })
            &&& next(encoding, EventView::Encoded(Ok(xml))) == (SessionView::Finished {
                result: Ok(path::bytes_of(xml)),
            })
        }),
{
}

/// A user's own token that came back is stored even where the request fails
/// after that, and whether storing it worked does not change the answer.
pub proof fn law_refreshed_token_is_stored(
    exchange: UserExchangeView,
    rps: Option<(Seq<char>, i64)>,
    tokens: Seq<SecurityTokenView>,
    shown: Seq<char>,
)
    requires
        tokens.len() > 0,
    ensures
        ({
            let saving = next(
                SessionView::ExchangeUser { exchange, rps },
                EventView::Exchanged(Ok(ExchangeOutcomeView::Collection { tokens, shown })),
            );
            &&& saving is SaveToken
            &&& saving->saved == tokens.last().token
            &&& next(saving, EventView::Saved) == after_save(tokens.drop_last(), rps)
        }),
{
}

/// What an identity request is answered with when everything works.
pub proof fn law_identity_request_is_answered(
    device: LegacyTokenView,
    payload: Seq<u8>,
    user: LegacyTokenView,
    claims: XstsClaimsView,
    xml: Seq<char>,
)
    ensures
        ({
            let loading = begun(device, XodusMessageType::UserIdentityRequest, payload);
            let resolving = next(loading, EventView::UserToken(Ok(TokenView::Legacy(user))));
            let encoding = next(resolving, EventView::Identity(Ok(claims)));
            &&& resolving == (SessionView::ResolveIdentity {
                device,
                user,
                relying_party: "http://xboxlive.com"@,
            })
            &&& encoding == (SessionView::EncodeIdentity { response: identity_of(claims) })
            &&& next(encoding, EventView::Encoded(Ok(xml))) == (SessionView::Finished {
                result: Ok(path::bytes_of(xml)),
            })
        }),
{
}

/// The full-trust flag of a request alone decides the scope that is asked for, and
/// the rest of the exchange is the same for every request: the client's id, the
/// user's own token anew, and a silent flow with the tokens of user and device.
pub proof fn law_full_trust_alone_decides_the_scope(
    own: DeviceExchangeView,
    request: MSATokenRequestView,
    user: LegacyTokenView,
    issued: Option<SecurityTokenView>,
)
    ensures
        ({
            let asking = next(
                SessionView::ExchangeDevice { own, request, user },
                EventView::DeviceToken(issued),
            );
            let exchange = asking->exchange;
            &&& asking is ExchangeUser
            &&& exchange.targets.len() == 2
            &&& !request.msa_full_trust ==> exchange.targets[0].address
                == "scope=xboxlive.signin&api-version=2.0&clientid="@ + request.client_id
            &&& request.msa_full_trust ==> exchange.targets[0].address
                == "scope=service::user.auth.xboxlive.com::MBI_SSL&api-version=2.0&clientid="@
                + request.client_id
            &&& exchange.targets[0].policy == Some(Policy::TokenBroker)
            &&& exchange.targets[1].address == "http://Passport.NET/tb"@
            &&& exchange.targets[1].policy is None
            &&& exchange.client_id == request.client_id
            &&& exchange.user == user
            &&& exchange.device == own.device
            &&& exchange.user_name == "USERNAME"@
            &&& exchange.flow == "Silent"@
        }),
{
    reveal_strlit("scope=");
    reveal_strlit("xboxlive.signin");
    reveal_strlit("service::user.auth.xboxlive.com::MBI_SSL");
    reveal_strlit("&api-version=2.0&clientid=");
    reveal_strlit("scope=xboxlive.signin&api-version=2.0&clientid=");
    reveal_strlit("scope=service::user.auth.xboxlive.com::MBI_SSL&api-version=2.0&clientid=");
    let id = request.client_id;
    assert("scope="@ + "xboxlive.signin"@ + "&api-version=2.0&clientid="@ + id
        =~= "scope=xboxlive.signin&api-version=2.0&clientid="@ + id);
    assert("scope="@ + "service::user.auth.xboxlive.com::MBI_SSL"@ + "&api-version=2.0&clientid="@
        + id =~= "scope=service::user.auth.xboxlive.com::MBI_SSL&api-version=2.0&clientid="@ + id);
}

/// Two requests that differ in nothing but whether a user interface is allowed are
/// handled in the same way from the exchange on.
pub proof fn law_user_interface_changes_nothing(
    own: DeviceExchangeView,
    request: MSATokenRequestView,
    other: MSATokenRequestView,
    user: LegacyTokenView,
    issued: Option<SecurityTokenView>,
)
    requires
        request.client_id == other.client_id,
        request.msa_full_trust == other.msa_full_trust,
    ensures
        next(
            SessionView::ExchangeDevice { own, request, user },
            EventView::DeviceToken(issued),
        ) == next(
            SessionView::ExchangeDevice { own, request: other, user },
            EventView::DeviceToken(issued),
        ),
{
    law_full_trust_alone_decides_the_scope(own, request, user, issued);
    law_full_trust_alone_decides_the_scope(own, other, user, issued);
    let a = next(
        SessionView::ExchangeDevice { own, request, user },
        EventView::DeviceToken(issued),
    );
    let b = next(
        SessionView::ExchangeDevice { own, request: other, user },
        EventView::DeviceToken(issued),
    );
    assert(a->exchange.targets =~= b->exchange.targets);
}

/// The request as it was read, the user's token as it was loaded and the device's
/// token go on unchanged, and the device's token is exchanged for one of the Xbox
/// user service under the broker's policy.
pub proof fn law_request_goes_on_unchanged(
    text: Seq<char>,
    device: LegacyTokenView,
    request: MSATokenRequestView,
    user: LegacyTokenView,
)
    ensures
        ({
            let loading = next(
                SessionView::ParseRequest { text, device },
                EventView::Request(Ok(request)),
            );
            let asking = next(loading, EventView::UserToken(Ok(TokenView::Legacy(user))));
            &&& loading == (SessionView::LoadUserToken { request: Some(request), device })
            &&& asking is ExchangeDevice
            &&& asking->ExchangeDevice_request == request
            &&& asking->ExchangeDevice_user == user
            &&& asking->own.device == device
            &&& asking->own.client_id == "{28C08266-F973-4AE6-FFE4-409B249F138F}"@
            &&& asking->own.scope == "scope=service::user.auth.xboxlive.com::MBI_SSL"@
            &&& asking->own.policy == Policy::TokenBroker
        }),
{
}

/// The device token that came back is passed on with the time of its own expiry
/// where it is compact and that time can be read, and in no other case.
pub proof fn law_device_token_is_passed_on(
    own: DeviceExchangeView,
    request: MSATokenRequestView,
    user: LegacyTokenView,
    issued: Option<SecurityTokenView>,
)
    ensures
        ({
            let asking = next(
                SessionView::ExchangeDevice { own, request, user },
                EventView::DeviceToken(issued),
            );
            &&& asking is ExchangeUser
            &&& asking->ExchangeUser_rps matches Some((rps, expiry)) ==> {
                &&& issued is Some
                &&& issued->0.token == TokenView::Compact(rps)
                &&& outside::rfc3339_timestamp(issued->0.expires) == Ok::<i64, Seq<char>>(expiry)
            }
            &&& asking->ExchangeUser_rps is None ==> {
                ||| issued is None
                ||| issued->0.token is Legacy
                ||| outside::rfc3339_timestamp(issued->0.expires) is Err
            }
        }),
{
}

/// Of the tokens that came back the last one is stored, under the name of its key
/// or, where it has none, under its address; all others stay, in their order, and
/// so does the device token.
pub proof fn law_last_token_is_stored(
    exchange: UserExchangeView,
    rps: Option<(Seq<char>, i64)>,
    tokens: Seq<SecurityTokenView>,
    last: SecurityTokenView,
    shown: Seq<char>,
)
    ensures
        ({
            let saving = next(
                SessionView::ExchangeUser { exchange, rps },
                EventView::Exchanged(
                    Ok(ExchangeOutcomeView::Collection { tokens: tokens.push(last), shown }),
                ),
            );
            &&& saving is SaveToken
            &&& saving->saved == last.token
            &&& saving->rest == tokens
            &&& saving->SaveToken_rps == rps
            &&& last.token matches TokenView::Compact(_) ==> saving->address == last.address
            &&& last.token matches TokenView::Legacy(legacy) ==> {
                &&& legacy.key_name matches Some(name) ==> saving->address == name
                &&& legacy.key_name is None ==> saving->address == last.address
            }
        }),
{
    assert(tokens.push(last).drop_last() =~= tokens);
    assert(tokens.push(last).last() == last);
}

/// The first of the other tokens answers the request: its text, the time of its own
/// expiry, and the device token with its time, or an empty text and 0 where there
/// is none.
pub proof fn law_first_token_answers(
    address: Seq<char>,
    saved: TokenView,
    first: SecurityTokenView,
    others: Seq<SecurityTokenView>,
    rps: Option<(Seq<char>, i64)>,
)
    ensures
        ({
            let answering = next(
                SessionView::SaveToken { address, saved, rest: seq![first] + others, rps },
                EventView::Saved,
            );
            match outside::rfc3339_timestamp(first.expires) {
                Err(e) => answering == (SessionView::Finished { result: Err(e) }),
                Ok(expiry) => match first.token {
                    TokenView::Legacy(_) => answering == (SessionView::Finished {
                        result: Err("token exchange returned a non-compact user token"@),
                    }),
                    TokenView::Compact(user_token) => {
                        &&& answering is EncodeToken
                        &&& answering->EncodeToken_response.token == user_token
                        &&& answering->EncodeToken_response.expiry == expiry
                        &&& rps matches Some((t, at)) ==> answering->EncodeToken_response.device_rps
                            == t && answering->EncodeToken_response.device_expiry == at
                        &&& rps is None ==> answering->EncodeToken_response.device_rps.len() == 0
                            && answering->EncodeToken_response.device_expiry == 0
                    },
                },
            }
        }),
        next(
            SessionView::SaveToken { address, saved, rest: Seq::empty(), rps },
            EventView::Saved,
        ) == (SessionView::Finished {
            result: Err("token exchange returned too few security tokens"@),
        }),
{
    assert((seq![first] + others)[0] == first);
}

/// A claim as it is found in a field of the answer.
pub open spec fn holds_claim(field: Seq<char>, claim: Option<Seq<char>>) -> bool {
    match claim {
        Some(s) => field == s,
        None => field.len() == 0,
    }
}

/// Each field of the identity answer holds its own claim, whatever the other claims
/// are, and is empty where that claim is absent; the expiry is that of the token.
pub proof fn law_each_field_holds_its_own_claim(
    device: LegacyTokenView,
    user: LegacyTokenView,
    relying_party: Seq<char>,
    claims: XstsClaimsView,
)
    ensures
        ({
            let answering = next(
                SessionView::ResolveIdentity { device, user, relying_party },
                EventView::Identity(Ok(claims)),
            );
            let response = answering->EncodeIdentity_response;
            &&& answering is EncodeIdentity
            &&& holds_claim(response.xuid, claims.xuid)
            &&& holds_claim(response.gamertag, claims.gamertag)
            &&& holds_claim(response.modern_gamertag, claims.modern_gamertag)
            &&& holds_claim(response.user_hash, claims.user_hash)
            &&& response.expiry == claims.not_after
        }),
{
}

/// The written response is the payload, byte for byte in UTF-8, of a token request
/// and of an identity request alike.
pub proof fn law_written_response_is_the_payload(
    token_response: MSATokenResponseView,
    identity_response: UserIdentityResponseView,
    xml: Seq<char>,
    e: Seq<char>,
)
    ensures
        next(
            SessionView::EncodeToken { response: token_response },
            EventView::Encoded(Ok(xml)),
        ) == (SessionView::Finished { result: Ok(vstd::utf8::encode_utf8(xml)) }),
        next(
            SessionView::EncodeIdentity { response: identity_response },
            EventView::Encoded(Ok(xml)),
        ) == (SessionView::Finished { result: Ok(vstd::utf8::encode_utf8(xml)) }),
        next(
            SessionView::EncodeToken { response: token_response },
            EventView::Encoded(Err(e)),
        ) == (SessionView::Finished { result: Err(e) }),
        next(
            SessionView::EncodeIdentity { response: identity_response },
            EventView::Encoded(Err(e)),
        ) == (SessionView::Finished { result: Err(e) }),
{
}

/// What a request that fails on its way is answered with.
pub proof fn law_failed_requests_say_why(
    device: LegacyTokenView,
    request: Option<MSATokenRequestView>,
    text: Seq<char>,
    exchange: UserExchangeView,
    rps: Option<(Seq<char>, i64)>,
    user: LegacyTokenView,
    relying_party: Seq<char>,
    compact: Seq<char>,
    issued: SecurityTokenView,
    shown: Seq<char>,
    e: Seq<char>,
)
    ensures
        next(SessionView::ParseRequest { text, device }, EventView::Request(Err(e))) == (
        SessionView::Finished { result: Err(e) }),
        next(SessionView::LoadUserToken { request, device }, EventView::UserToken(Err(e))) == (
        SessionView::Finished {
            result: Err("no user is logged in (run `xodus-cli login` first): "@ + e),
        }),
        next(
            SessionView::LoadUserToken { request, device },
            EventView::UserToken(Ok(TokenView::Compact(compact))),
        ) == (SessionView::Finished {
            result: Err("stored user STS token has an unsupported format"@),
        }),
        next(SessionView::ExchangeUser { exchange, rps }, EventView::Exchanged(Err(e))) == (
        SessionView::Finished { result: Err(e) }),
        next(
            SessionView::ExchangeUser { exchange, rps },
            EventView::Exchanged(Ok(ExchangeOutcomeView::Fault { fault: shown })),
        ) == (SessionView::Finished {
            result: Err("token exchange returned a fault: "@ + shown),
        }),
        next(
            SessionView::ExchangeUser { exchange, rps },
            EventView::Exchanged(Ok(ExchangeOutcomeView::Single { token: issued, shown })),
        ) == (SessionView::Finished {
            result: Err("unexpected token exchange outcome: "@ + shown),
        }),
        next(
            SessionView::ExchangeUser { exchange, rps },
            EventView::Exchanged(Ok(ExchangeOutcomeView::Other { shown })),
        ) == (SessionView::Finished {
            result: Err("unexpected token exchange outcome: "@ + shown),
        }),
        next(
            SessionView::ExchangeUser { exchange, rps },
            EventView::Exchanged(
                Ok(ExchangeOutcomeView::Collection { tokens: Seq::empty(), shown }),
            ),
        ) == (SessionView::Finished {
            result: Err("token exchange returned too few security tokens"@),
        }),
        next(
            SessionView::ResolveIdentity { device, user, relying_party },
            EventView::Identity(Err(e)),
        ) == (SessionView::Finished { result: Err(e) }),
{
}

/// How every kind of request begins, by its code on the wire: 1 is answered with its
/// own payload, 3 is read as text, 6 loads the user's token, whatever its payload,
/// and no other is known.
pub proof fn law_requests_begin_by_their_code(
    device: LegacyTokenView,
    message_type: XodusMessageType,
    payload: Seq<u8>,
)
    ensures
        ({
            let session = begun(device, message_type, payload);
            let code = message_type.spec_code();
            &&& code == 1 ==> session == (SessionView::Finished { result: Ok(payload) })
            &&& code == 3 && vstd::utf8::valid_utf8(payload) ==> session == (
            SessionView::ParseRequest { text: vstd::utf8::decode_utf8(payload), device })
            &&& code == 3 && !vstd::utf8::valid_utf8(payload) ==> session == (
            SessionView::Finished { result: Err(outside::utf8_error_text(payload)) })
            &&& code == 6 ==> session == (SessionView::LoadUserToken { request: None, device })
            &&& code != 1 && code != 3 && code != 6 ==> session == (SessionView::Finished {
                result: Err("Unimplemented"@),
            })
        }),
{
}

/// The bytes of every answer: the magic of XML, the request's code plus one or the
/// code 5 of an error, the length of what follows, and what follows.
pub proof fn law_bytes_of_every_answer(
    message_type: XodusMessageType,
    payload: Seq<u8>,
    e: Seq<char>,
    xml: Seq<char>,
)
    ensures
        payload.len() <= 65535 ==> (reply_of(message_type, Ok(payload)) matches ReplyView::Send(
            bytes,
        ) && ipc::is_frame(bytes, 0x58445358, message_type.spec_code() + 1, payload)),
        payload.len() > 65535 ==> reply_of(message_type, Ok(payload)) is Report,
        reply_of(message_type, Err(e)) == ReplyView::Report(e),
        vstd::utf8::encode_utf8(xml).len() <= 65535 ==> ipc::is_frame(
            failure_frame(Some(xml)),
            0x58445358,
            5,
            vstd::utf8::encode_utf8(xml),
        ),
        vstd::utf8::encode_utf8(xml).len() > 65535 ==> ipc::is_frame(
            failure_frame(Some(xml)),
            0x58445358,
            5,
            Seq::empty(),
        ),
        ipc::is_frame(failure_frame(None), 0x58445358, 5, Seq::empty()),
{
    if payload.len() <= 65535 {
        ipc::law_frame_is_byte_by_byte(
            ipc::XML_MAGIC,
            (message_type.spec_code() + 1) as u16,
            payload,
        );
    }
    ipc::law_frame_is_byte_by_byte(
        ipc::XML_MAGIC,
        XodusMessageType::ErrorResponse.spec_code(),
        failure_payload(Some(xml)),
    );
    ipc::law_frame_is_byte_by_byte(
        ipc::XML_MAGIC,
        XodusMessageType::ErrorResponse.spec_code(),
        Seq::empty(),
    );
}

/// Claims and device tokens are what their fields hold.
pub proof fn law_claims_are_seen_as_they_are(claims: XstsClaims, rps: String, expiry: i64)
    ensures
        claims@.xuid == token::opt_text(claims.xuid),
        claims@.gamertag == token::opt_text(claims.gamertag),
        claims@.modern_gamertag == token::opt_text(claims.modern_gamertag),
        claims@.user_hash == token::opt_text(claims.user_hash),
        claims@.not_after == claims.not_after,
        rps_view(Some((rps, expiry))) == Some((rps@, expiry)),
        rps_view(None) is None,
{
}

} // verus!
