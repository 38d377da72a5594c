//! Security tokens, and what is asked of the token service.

use vstd::prelude::*;
use vstd::string::*;

use crate::path;

verus! {

broadcast use vstd::string::group_string_axioms;

/// A token with its own key: what the key is called, and the token itself,
/// which is of no concern here.
pub struct LegacyToken {
    pub key_name: Option<String>,
    pub data: Vec<u8>,
}

pub struct LegacyTokenView {
    pub key_name: Option<Seq<char>>,
    pub data: Seq<u8>,
}

impl View for LegacyToken {
    type V = LegacyTokenView;

    open spec fn view(&self) -> LegacyTokenView {
        LegacyTokenView { key_name: opt_text(self.key_name), data: self.data@ }
    }
}

impl Clone for LegacyToken {
    fn clone(&self) -> (r: LegacyToken)
        ensures
            r@ == self@,
    {
        let key_name = match &self.key_name {
            Some(name) => Some(name.clone()),
            None => None,
        };
        LegacyToken { key_name, data: path::copy_bytes(self.data.as_slice()) }
    }
}

/// What a string that may be absent holds.
pub open spec fn opt_text(s: Option<String>) -> Option<Seq<char>> {
    match s {
        Some(s) => Some(s@),
        None => None,
    }
}

/// A token in one of its two formats.
pub enum Token {
    Legacy(LegacyToken),
    Compact(String),
}

pub enum TokenView {
    Legacy(LegacyTokenView),
    Compact(Seq<char>),
}

impl View for Token {
    type V = TokenView;

    open spec fn view(&self) -> TokenView {
        match self {
            Token::Legacy(token) => TokenView::Legacy(token@),
            Token::Compact(token) => TokenView::Compact(token@),
        }
    }
}

/// A token as it was issued: for which address, until when.
pub struct SecurityToken {
    pub address: String,
    pub expires: String,
    pub token: Token,
}

pub struct SecurityTokenView {
    pub address: Seq<char>,
    pub expires: Seq<char>,
    pub token: TokenView,
}

impl View for SecurityToken {
    type V = SecurityTokenView;

    open spec fn view(&self) -> SecurityTokenView {
        SecurityTokenView {
            address: self.address@,
            expires: self.expires@,
            token: self.token@,
        }
    }
}

pub open spec fn token_views(tokens: Seq<SecurityToken>) -> Seq<SecurityTokenView> {
    tokens.map_values(|t: SecurityToken| t@)
}

/// What the token service answered. `Fault` holds the fault as text, the other
/// ones the whole answer as text, for messages.
pub enum ExchangeOutcome {
    Fault { fault: String },
    Collection { tokens: Vec<SecurityToken>, shown: String },
    Single { token: SecurityToken, shown: String },
    Other { shown: String },
}

pub enum ExchangeOutcomeView {
    Fault { fault: Seq<char> },
    Collection { tokens: Seq<SecurityTokenView>, shown: Seq<char> },
    Single { token: SecurityTokenView, shown: Seq<char> },
    Other { shown: Seq<char> },
}

impl View for ExchangeOutcome {
    type V = ExchangeOutcomeView;

    open spec fn view(&self) -> ExchangeOutcomeView {
        match self {
            ExchangeOutcome::Fault { fault } => ExchangeOutcomeView::Fault { fault: fault@ },
            ExchangeOutcome::Collection { tokens, shown } => ExchangeOutcomeView::Collection {
                tokens: token_views(tokens@),
                shown: shown@,
            },
            ExchangeOutcome::Single { token, shown } => ExchangeOutcomeView::Single {
                token: token@,
                shown: shown@,
            },
            ExchangeOutcome::Other { shown } => ExchangeOutcomeView::Other { shown: shown@ },
        }
    }
}

/// Under which policy a token is asked for.
#[derive(Clone, Copy, Debug, PartialEq, Eq, Structural)]
pub enum Policy {
    TokenBroker,
    MbiSsl,
}

/// A token that is asked for.
pub struct Target {
    pub address: String,
    pub policy: Option<Policy>,
}

pub struct TargetView {
    pub address: Seq<char>,
    pub policy: Option<Policy>,
}

impl View for Target {
    type V = TargetView;

    open spec fn view(&self) -> TargetView {
        TargetView { address: self.address@, policy: self.policy }
    }
}

/// An exchange of the user's token for others, on this device.
pub struct UserExchange {
    pub user: LegacyToken,
    pub device: LegacyToken,
    pub user_name: String,
    pub flow: String,
    pub client_id: String,
    pub targets: Vec<Target>,
}

pub struct UserExchangeView {
    pub user: LegacyTokenView,
    pub device: LegacyTokenView,
    pub user_name: Seq<char>,
    pub flow: Seq<char>,
    pub client_id: Seq<char>,
    pub targets: Seq<TargetView>,
}

impl View for UserExchange {
    type V = UserExchangeView;

    open spec fn view(&self) -> UserExchangeView {
        UserExchangeView {
            user: self.user@,
            device: self.device@,
            user_name: self.user_name@,
            flow: self.flow@,
            client_id: self.client_id@,
            targets: self.targets@.map_values(|t: Target| t@),
        }
    }
}

/// An exchange of the device's token for another.
pub struct DeviceExchange {
    pub device: LegacyToken,
    pub client_id: String,
    pub scope: String,
    pub policy: Policy,
}

pub struct DeviceExchangeView {
    pub device: LegacyTokenView,
    pub client_id: Seq<char>,
    pub scope: Seq<char>,
    pub policy: Policy,
}

impl View for DeviceExchange {
    type V = DeviceExchangeView;

    open spec fn view(&self) -> DeviceExchangeView {
        DeviceExchangeView {
            device: self.device@,
            client_id: self.client_id@,
            scope: self.scope@,
            policy: self.policy,
        }
    }
}

/// What came back, or the message of the error.
pub open spec fn outcome_view(r: Result<ExchangeOutcome, String>) -> Result<
    ExchangeOutcomeView,
    Seq<char>,
> {
    match r {
        Ok(outcome) => Ok(outcome@),
        Err(e) => Err(e@),
    }
}

/// Text, or the message of the error.
pub open spec fn text_view(r: Result<String, String>) -> Result<Seq<char>, Seq<char>> {
    match r {
        Ok(s) => Ok(s@),
        Err(e) => Err(e@),
    }
}

/// Bytes, or the message of the error.
pub open spec fn bytes_view(r: Result<Vec<u8>, String>) -> Result<Seq<u8>, Seq<char>> {
    match r {
        Ok(b) => Ok(b@),
        Err(e) => Err(e@),
    }
}

/// A token, or the message of the error.
pub open spec fn token_view(r: Result<Token, String>) -> Result<TokenView, Seq<char>> {
    match r {
        Ok(t) => Ok(t@),
        Err(e) => Err(e@),
    }
}

/// A value that is there is not taken for one that is absent, even where it is empty,
/// and neither is a result for an error.
pub proof fn law_values_are_seen_as_they_are(s: String, e: String, bytes: Vec<u8>)
    ensures
        opt_text(Some(s)) == Some(s@),
        opt_text(None) is None,
        text_view(Ok(s)) == Ok::<Seq<char>, Seq<char>>(s@),
        text_view(Err(e)) == Err::<Seq<char>, Seq<char>>(e@),
        bytes_view(Ok(bytes)) == Ok::<Seq<u8>, Seq<char>>(bytes@),
        bytes_view(Err(e)) == Err::<Seq<u8>, Seq<char>>(e@),
{
}

/// Tokens and exchanges are what their fields hold.
pub proof fn law_fields_are_seen_as_they_are(
    legacy: LegacyToken,
    issued: SecurityToken,
    target: Target,
    exchange: UserExchange,
    own: DeviceExchange,
    tokens: Seq<SecurityToken>,
)
    ensures
        legacy@.data == legacy.data@,
        legacy@.key_name == opt_text(legacy.key_name),
        issued@.address == issued.address@,
        issued@.expires == issued.expires@,
        issued@.token == issued.token@,
        Token::Legacy(legacy)@ == TokenView::Legacy(legacy@),
        Token::Compact(issued.address)@ == TokenView::Compact(issued.address@),
        target@.address == target.address@,
        target@.policy == target.policy,
        exchange@.user == exchange.user@,
        exchange@.device == exchange.device@,
        exchange@.user_name == exchange.user_name@,
        exchange@.flow == exchange.flow@,
        exchange@.client_id == exchange.client_id@,
        exchange@.targets.len() == exchange.targets@.len(),
        forall|i: int|
            0 <= i < exchange.targets@.len() ==> #[trigger] exchange@.targets[i]
                == exchange.targets@[i]@,
        own@.device == own.device@,
        own@.client_id == own.client_id@,
        own@.scope == own.scope@,
        own@.policy == own.policy,
        token_views(tokens).len() == tokens.len(),
        forall|i: int| 0 <= i < tokens.len() ==> #[trigger] token_views(tokens)[i] == tokens[i]@,
{
}

} // verus!
