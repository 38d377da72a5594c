use xodus::token::{ExchangeOutcome, LegacyToken, Policy, SecurityToken, Token};
use xodus::xbox::{run, user_token, Resolution, ResolutionEvent};
use xodus::xml::XstsClaims;

fn device() -> LegacyToken {
    LegacyToken {
        key_name: Some("device".to_string()),
        data: vec![5],
    }
}

fn legacy() -> LegacyToken {
    LegacyToken {
        key_name: None,
        data: vec![4],
    }
}

fn issued(token: Token) -> SecurityToken {
    SecurityToken {
        address: "a".to_string(),
        expires: "e".to_string(),
        token,
    }
}

fn compact(token: &str) -> SecurityToken {
    issued(Token::Compact(token.to_string()))
}

fn collection(tokens: Vec<SecurityToken>) -> ExchangeOutcome {
    ExchangeOutcome::Collection {
        tokens,
        shown: "S".to_string(),
    }
}

fn failure(resolution: Resolution) -> String {
    match resolution {
        Resolution::Finished { result: Err(e) } => e,
        _ => panic!("the resolution has not failed"),
    }
}

#[test]
fn the_claims_are_resolved() {
    let first = run(device(), legacy(), "http://party".to_string());
    match &first {
        Resolution::ExchangeUser { exchange, relying_party } => {
            assert_eq!(exchange.user.data, vec![4]);
            assert_eq!(exchange.device.data, vec![5]);
            assert_eq!(exchange.device.key_name.as_deref(), Some("device"));
            assert_eq!(exchange.user_name, "USERNAME");
            assert_eq!(exchange.flow, "Silent");
            assert_eq!(exchange.client_id, "{d6d5a677-0872-4ab0-9442-bb792fce85c5}");
            assert_eq!(exchange.targets.len(), 1);
            assert_eq!(exchange.targets[0].address, "user.auth.xboxlive.com");
            assert_eq!(exchange.targets[0].policy, Some(Policy::MbiSsl));
            assert_eq!(relying_party, "http://party");
        }
        _ => panic!("the token is not exchanged"),
    }
    let second = first.advance(ResolutionEvent::Exchanged(Ok(collection(vec![
        compact("one"),
        compact("two"),
    ]))));
    match &second {
        Resolution::Authenticate { user_token, .. } => assert_eq!(user_token, "one"),
        _ => panic!("the user does not sign in"),
    }
    let third = second.advance(ResolutionEvent::Authenticated(Ok("xbox".to_string())));
    match &third {
        Resolution::RequestXsts { xbox_token, relying_party } => {
            assert_eq!(xbox_token, "xbox");
            assert_eq!(relying_party, "http://party");
        }
        _ => panic!("no token is asked for"),
    }
    match third.advance(ResolutionEvent::Received(Ok(XstsClaims {
        xuid: Some("x".to_string()),
        gamertag: None,
        modern_gamertag: None,
        user_hash: None,
        not_after: 8,
    }))) {
        Resolution::Finished { result: Ok(claims) } => {
            assert_eq!(claims.xuid.as_deref(), Some("x"));
            assert_eq!(claims.not_after, 8);
        }
        _ => panic!("there are no claims"),
    }
}

#[test]
fn the_token_to_sign_in_with_is_the_first_and_compact() {
    assert_eq!(user_token(collection(vec![compact("a"), issued(Token::Legacy(legacy()))])), Ok("a".to_string()));
    assert_eq!(
        user_token(ExchangeOutcome::Single { token: compact("b"), shown: "S".to_string() }),
        Ok("b".to_string())
    );
    assert_eq!(
        user_token(collection(vec![issued(Token::Legacy(legacy())), compact("a")])),
        Err("MS token exchange returned a non-compact token".to_string())
    );
    assert_eq!(
        user_token(ExchangeOutcome::Single {
            token: issued(Token::Legacy(legacy())),
            shown: "S".to_string(),
        }),
        Err("MS token exchange returned a non-compact token".to_string())
    );
    assert_eq!(
        user_token(collection(vec![])),
        Err("MS token exchange returned no security tokens".to_string())
    );
    assert_eq!(
        user_token(ExchangeOutcome::Fault { fault: "F".to_string() }),
        Err("MS token exchange returned a fault: F".to_string())
    );
    assert_eq!(
        user_token(ExchangeOutcome::Other { shown: "S".to_string() }),
        Err("unexpected MS token exchange outcome: S".to_string())
    );
}

#[test]
fn every_step_can_fail() {
    let start = || run(device(), legacy(), "p".to_string());
    assert_eq!(failure(start().advance(ResolutionEvent::Exchanged(Err("e1".to_string())))), "e1");
    let second = || start().advance(ResolutionEvent::Exchanged(Ok(collection(vec![compact("t")]))));
    assert_eq!(failure(second().advance(ResolutionEvent::Authenticated(Err("e2".to_string())))), "e2");
    let third = second().advance(ResolutionEvent::Authenticated(Ok("x".to_string())));
    assert_eq!(failure(third.advance(ResolutionEvent::Received(Err("e3".to_string())))), "e3");
    assert!(matches!(
        start().advance(ResolutionEvent::Authenticated(Ok("early".to_string()))),
        Resolution::ExchangeUser { .. }
    ));
}
