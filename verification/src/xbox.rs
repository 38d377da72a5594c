//! From the user's stored token to the claims about the user: a token for the
//! Xbox user service, a sign-in there, and a token for a relying party.

use vstd::prelude::*;
use vstd::string::*;

use crate::text;
use crate::token;
use crate::token::{
    ExchangeOutcome, ExchangeOutcomeView, LegacyToken, LegacyTokenView, Policy, SecurityTokenView,
    Target, TargetView, Token, TokenView, UserExchange, UserExchangeView,
};
use crate::xml::{XstsClaims, XstsClaimsView};

verus! {

broadcast use vstd::string::group_string_axioms;

/// How far the way to the claims has come, and what has to be done next.
pub enum Resolution {
    /// Exchange the user's token.
    ExchangeUser { exchange: UserExchange, relying_party: String },
    /// Sign in to Xbox with this token.
    Authenticate { user_token: String, relying_party: String },
    /// Ask for a token for the relying party with this one.
    RequestXsts { xbox_token: String, relying_party: String },
    /// The claims, or why there are none.
    Finished { result: Result<XstsClaims, String> },
}

pub enum ResolutionView {
    ExchangeUser { exchange: UserExchangeView, relying_party: Seq<char> },
    Authenticate { user_token: Seq<char>, relying_party: Seq<char> },
    RequestXsts { xbox_token: Seq<char>, relying_party: Seq<char> },
    Finished { result: Result<XstsClaimsView, Seq<char>> },
}

/// The claims, or the message of the error.
pub open spec fn claims_view(r: Result<XstsClaims, String>) -> Result<XstsClaimsView, Seq<char>> {
    match r {
        Ok(claims) => Ok(claims@),
        Err(e) => Err(e@),
    }
}

impl View for Resolution {
    type V = ResolutionView;

    open spec fn view(&self) -> ResolutionView {
        match self {
            Resolution::ExchangeUser { exchange, relying_party } => ResolutionView::ExchangeUser {
                exchange: exchange@,
                relying_party: relying_party@,
            },
            Resolution::Authenticate { user_token, relying_party } => ResolutionView::Authenticate {
                user_token: user_token@,
                relying_party: relying_party@,
            },
            Resolution::RequestXsts { xbox_token, relying_party } => ResolutionView::RequestXsts {
                xbox_token: xbox_token@,
                relying_party: relying_party@,
            },
            Resolution::Finished { result } => ResolutionView::Finished {
                result: claims_view(*result),
            },
        }
    }
}

/// What came of the last step.
pub enum ResolutionEvent {
    /// The answer to the exchange of the user's token.
    Exchanged(Result<ExchangeOutcome, String>),
    /// The Xbox token that signing in gave.
    Authenticated(Result<String, String>),
    /// The claims in the token for the relying party.
    Received(Result<XstsClaims, String>),
}

pub enum ResolutionEventView {
    Exchanged(Result<ExchangeOutcomeView, Seq<char>>),
    Authenticated(Result<Seq<char>, Seq<char>>),
    Received(Result<XstsClaimsView, Seq<char>>),
}

impl View for ResolutionEvent {
    type V = ResolutionEventView;

    open spec fn view(&self) -> ResolutionEventView {
        match self {
            ResolutionEvent::Exchanged(r) => ResolutionEventView::Exchanged(
                token::outcome_view(*r),
            ),
            ResolutionEvent::Authenticated(r) => ResolutionEventView::Authenticated(
                token::text_view(*r),
            ),
            ResolutionEvent::Received(r) => ResolutionEventView::Received(claims_view(*r)),
        }
    }
}

/// The exchange of the user's token for one of the Xbox user service.
pub open spec fn xbox_exchange_of(
    device: LegacyTokenView,
    user: LegacyTokenView,
) -> UserExchangeView {
    UserExchangeView {
        user,
        device,
        user_name: "USERNAME"@,
        flow: "Silent"@,
        client_id: "{d6d5a677-0872-4ab0-9442-bb792fce85c5}"@,
        targets: seq![
            TargetView { address: "user.auth.xboxlive.com"@, policy: Some(Policy::MbiSsl) },
        ],
    }
}

/// Begins the way to the claims about a user on this device.
pub fn run(device: LegacyToken, user: LegacyToken, relying_party: String) -> (r: Resolution)
    ensures
        r@ == (ResolutionView::ExchangeUser {
            exchange: xbox_exchange_of(device@, user@),
            relying_party: relying_party@,
        }),
{
    let mut targets: Vec<Target> = Vec::new();
    targets.push(
        Target { address: "user.auth.xboxlive.com".to_owned(), policy: Some(Policy::MbiSsl) },
    );
    let exchange = UserExchange {
        user,
        device,
        user_name: "USERNAME".to_owned(),
        flow: "Silent".to_owned(),
        client_id: "{d6d5a677-0872-4ab0-9442-bb792fce85c5}".to_owned(),
        targets,
    };
    assert(exchange@.targets =~= xbox_exchange_of(device@, user@).targets);
    Resolution::ExchangeUser { exchange, relying_party }
}

pub open spec fn compact_of(issued: TokenView) -> Result<Seq<char>, Seq<char>> {
    match issued {
        TokenView::Compact(t) => Ok(t),
        TokenView::Legacy(_) => Err("MS token exchange returned a non-compact token"@),
    }
}

/// The token to sign in with: the only one that came back, or the first of
/// several, and it must be compact.
pub open spec fn user_token_of(outcome: ExchangeOutcomeView) -> Result<Seq<char>, Seq<char>> {
    match outcome {
        ExchangeOutcomeView::Fault { fault } => Err(
            "MS token exchange returned a fault: "@ + fault,
        ),
        ExchangeOutcomeView::Collection { tokens, .. } => if tokens.len() == 0 {
            Err("MS token exchange returned no security tokens"@)
        } else {
            compact_of(tokens[0].token)
        },
        ExchangeOutcomeView::Single { token, .. } => compact_of(token.token),
        ExchangeOutcomeView::Other { shown } => Err(
            "unexpected MS token exchange outcome: "@ + shown,
        ),
    }
}

fn compact(issued: Token) -> (r: Result<String, String>)
    ensures
        token::text_view(r) == compact_of(issued@),
{
    match issued {
        Token::Compact(t) => Ok(t),
        Token::Legacy(_) => Err("MS token exchange returned a non-compact token".to_owned()),
    }
}

/// The token to sign in with, out of the answer to the exchange.
pub fn user_token(outcome: ExchangeOutcome) -> (r: Result<String, String>)
    ensures
        token::text_view(r) == user_token_of(outcome@),
{
    match outcome {
        ExchangeOutcome::Fault { fault } => Err(
            text::concat("MS token exchange returned a fault: ", fault.as_str()),
        ),
        ExchangeOutcome::Collection { tokens, shown: _ } => {
            if tokens.len() == 0 {
                return Err("MS token exchange returned no security tokens".to_owned());
            }
            let mut tokens = tokens;
            let first = tokens.remove(0);
            compact(first.token)
        },
        ExchangeOutcome::Single { token, shown: _ } => compact(token.token),
        ExchangeOutcome::Other { shown } => Err(
            text::concat("unexpected MS token exchange outcome: ", shown.as_str()),
        ),
    }
}

/// The step that an event leads to. An event that is not waited for changes
/// nothing.
pub open spec fn next(state: ResolutionView, event: ResolutionEventView) -> ResolutionView {
    match (state, event) {
        (
            ResolutionView::ExchangeUser { relying_party, .. },
            ResolutionEventView::Exchanged(Ok(outcome)),
        ) => match user_token_of(outcome) {
            Ok(user_token) => ResolutionView::Authenticate { user_token, relying_party },
            Err(e) => ResolutionView::Finished { result: Err(e) },
        },
        (ResolutionView::ExchangeUser { .. }, ResolutionEventView::Exchanged(Err(e))) => {
            ResolutionView::Finished { result: Err(e) }
        },
        (
            ResolutionView::Authenticate { relying_party, .. },
            ResolutionEventView::Authenticated(Ok(xbox_token)),
        ) => ResolutionView::RequestXsts { xbox_token, relying_party },
        (ResolutionView::Authenticate { .. }, ResolutionEventView::Authenticated(Err(e))) => {
            ResolutionView::Finished { result: Err(e) }
        },
        (ResolutionView::RequestXsts { .. }, ResolutionEventView::Received(result)) => {
            ResolutionView::Finished { result }
        },
        _ => state,
    }
}

impl Resolution {
    /// Takes the way to the claims one step on.
    pub fn advance(self, event: ResolutionEvent) -> (r: Resolution)
        ensures
            r@ == next(self@, event@),
    {
        match (self, event) {
            (
                Resolution::ExchangeUser { exchange: _, relying_party },
                ResolutionEvent::Exchanged(Ok(outcome)),
            ) => match user_token(outcome) {
                Ok(user_token) => Resolution::Authenticate { user_token, relying_party },
                Err(e) => Resolution::Finished { result: Err(e) },
            },
            (
                Resolution::ExchangeUser { exchange: _, relying_party: _ },
                ResolutionEvent::Exchanged(Err(e)),
            ) => Resolution::Finished { result: Err(e) },
            (
                Resolution::Authenticate { user_token: _, relying_party },
                ResolutionEvent::Authenticated(Ok(xbox_token)),
            ) => Resolution::RequestXsts { xbox_token, relying_party },
            (
                Resolution::Authenticate { user_token: _, relying_party: _ },
                ResolutionEvent::Authenticated(Err(e)),
            ) => Resolution::Finished { result: Err(e) },
            (
                Resolution::RequestXsts { xbox_token: _, relying_party: _ },
                ResolutionEvent::Received(result),
            ) => Resolution::Finished { result },
            (state, _) => state,
        }
    }
}

/// When everything works, the token that came back signs the user in, the Xbox
/// token asks for the relying party's, and the claims in that one are the
/// result; the relying party is the one that was given.
pub proof fn law_claims_are_resolved(
    device: LegacyTokenView,
    user: LegacyTokenView,
    relying_party: Seq<char>,
    outcome: ExchangeOutcomeView,
    user_token: Seq<char>,
    xbox_token: Seq<char>,
    result: Result<XstsClaimsView, Seq<char>>,
)
    requires
        user_token_of(outcome) == Ok::<Seq<char>, Seq<char>>(user_token),
    ensures
        ({
            let first = ResolutionView::ExchangeUser {
                exchange: xbox_exchange_of(device, user),
                relying_party,
            };
            let second = next(first, ResolutionEventView::Exchanged(Ok(outcome)));
            let third = next(second, ResolutionEventView::Authenticated(Ok(xbox_token)));
            &&& second == (ResolutionView::Authenticate { user_token, relying_party })
            &&& third == (ResolutionView::RequestXsts { xbox_token, relying_party })
            &&& next(third, ResolutionEventView::Received(result)) == (ResolutionView::Finished {
                result,
            })
        }),
{
}

/// What is asked for on the way to the claims: a token of the Xbox user service, in a
/// silent flow, for the user and the device that were given.
pub proof fn law_xbox_user_service_is_asked(device: LegacyTokenView, user: LegacyTokenView)
    ensures
        ({
            let exchange = xbox_exchange_of(device, user);
            &&& exchange.user == user
            &&& exchange.device == device
            &&& exchange.user_name == "USERNAME"@
            &&& exchange.flow == "Silent"@
            &&& exchange.client_id == "{d6d5a677-0872-4ab0-9442-bb792fce85c5}"@
            &&& exchange.targets.len() == 1
            &&& exchange.targets[0].address == "user.auth.xboxlive.com"@
            &&& exchange.targets[0].policy == Some(Policy::MbiSsl)
        }),
{
}

/// The token that signs the user in is the first one that came back, whatever comes
/// after it, or the only one; it has to be compact, and every other answer fails
/// with a message of its own.
pub proof fn law_first_compact_token_signs_in(
    exchange: UserExchangeView,
    relying_party: Seq<char>,
    first: SecurityTokenView,
    others: Seq<SecurityTokenView>,
    shown: Seq<char>,
    e: Seq<char>,
)
    ensures
        ({
            let start = ResolutionView::ExchangeUser { exchange, relying_party };
            let several = next(
                start,
                ResolutionEventView::Exchanged(
                    Ok(ExchangeOutcomeView::Collection { tokens: seq![first] + others, shown }),
                ),
            );
            let single = next(
                start,
                ResolutionEventView::Exchanged(
                    Ok(ExchangeOutcomeView::Single { token: first, shown }),
                ),
            );
            &&& single == several
            &&& first.token matches TokenView::Compact(t) ==> single == (
            ResolutionView::Authenticate { user_token: t, relying_party })
            &&& first.token is Legacy ==> single == (ResolutionView::Finished {
                result: Err("MS token exchange returned a non-compact token"@),
            })
            &&& next(
                start,
                ResolutionEventView::Exchanged(
                    Ok(ExchangeOutcomeView::Collection { tokens: Seq::empty(), shown }),
                ),
            ) == (ResolutionView::Finished {
                result: Err("MS token exchange returned no security tokens"@),
            })
            &&& next(
                start,
                ResolutionEventView::Exchanged(Ok(ExchangeOutcomeView::Fault { fault: shown })),
            ) == (ResolutionView::Finished {
                result: Err("MS token exchange returned a fault: "@ + shown),
            })
            &&& next(
                start,
                ResolutionEventView::Exchanged(Ok(ExchangeOutcomeView::Other { shown })),
            ) == (ResolutionView::Finished {
                result: Err("unexpected MS token exchange outcome: "@ + shown),
            })
            &&& next(start, ResolutionEventView::Exchanged(Err(e))) == (
            ResolutionView::Finished { result: Err(e) })
        }),
{
    assert((seq![first] + others)[0] == first);
}

/// A failure on the way is the result.
pub proof fn law_failures_on_the_way_are_the_result(
    user_token: Seq<char>,
    xbox_token: Seq<char>,
    relying_party: Seq<char>,
    e: Seq<char>,
)
    ensures
        next(
            ResolutionView::Authenticate { user_token, relying_party },
            ResolutionEventView::Authenticated(Err(e)),
        ) == (ResolutionView::Finished { result: Err(e) }),
        next(
            ResolutionView::RequestXsts { xbox_token, relying_party },
            ResolutionEventView::Received(Err(e)),
        ) == (ResolutionView::Finished { result: Err(e) }),
{
}

/// An event that is not waited for changes nothing.
pub proof fn law_only_awaited_events_lead_on(state: ResolutionView, event: ResolutionEventView)
    ensures
        state is ExchangeUser && !(event is Exchanged) ==> next(state, event) == state,
        state is Authenticate && !(event is Authenticated) ==> next(state, event) == state,
        state is RequestXsts && !(event is Received) ==> next(state, event) == state,
        state is Finished ==> next(state, event) == state,
{
}

} // verus!
