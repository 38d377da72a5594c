use xodus::ipc::{decode_header, encode_frame, ping, ping_frame, XML_MAGIC};
use xodus::message::XodusMessageType;
use xodus::proto;
use xodus::token::{ExchangeOutcome, LegacyToken, Policy, SecurityToken, Token, UserExchange};
use xodus::xml::{
    device_exchange, device_rps, error_frame, handle, identity, parse_message, save_address,
    token_response, user_exchange, Event, Reply, Session, XstsClaims,
};
use xodus::xuser::{MSATokenRequest, UserIdentityResponse};

fn legacy(key_name: Option<&str>) -> LegacyToken {
    LegacyToken {
        key_name: key_name.map(str::to_string),
        data: vec![1, 2, 3],
    }
}

fn device_token() -> LegacyToken {
    LegacyToken {
        key_name: Some("device".to_string()),
        data: vec![8, 9],
    }
}

fn request(full_trust: bool) -> MSATokenRequest {
    MSATokenRequest {
        client_id: "client".to_string(),
        allow_ui: false,
        msa_full_trust: full_trust,
    }
}

fn issued(address: &str, expires: &str, token: Token) -> SecurityToken {
    SecurityToken {
        address: address.to_string(),
        expires: expires.to_string(),
        token,
    }
}

fn compact(token: &str) -> Token {
    Token::Compact(token.to_string())
}

fn failure(session: Session) -> String {
    match session {
        Session::Finished { result: Err(e) } => e,
        _ => panic!("the session has not failed"),
    }
}

fn success(session: Session) -> Vec<u8> {
    match session {
        Session::Finished { result: Ok(payload) } => payload,
        _ => panic!("the session has not succeeded"),
    }
}

fn at_user_exchange(full_trust: bool, device: Option<SecurityToken>) -> Session {
    parse_message(device_token(), XodusMessageType::MsaTokenRequest, b"<MSATokenRequest/>".to_vec())
        .advance(Event::Request(Ok(request(full_trust))))
        .advance(Event::UserToken(Ok(Token::Legacy(legacy(None)))))
        .advance(Event::DeviceToken(device))
}

fn exchanged(tokens: Vec<SecurityToken>, device: Option<SecurityToken>) -> Session {
    at_user_exchange(false, device).advance(Event::Exchanged(Ok(ExchangeOutcome::Collection {
        tokens,
        shown: "shown".to_string(),
    })))
}

#[test]
fn a_ping_is_echoed() {
    let payload = success(parse_message(device_token(), XodusMessageType::Ping, vec![0xff, 0, 7]));
    assert_eq!(payload, vec![0xff, 0, 7]);
    match handle(XodusMessageType::Ping, Ok(payload)) {
        Reply::Send(frame) => assert_eq!(frame, encode_frame(XML_MAGIC, 2, &[0xff, 0, 7])),
        Reply::Report(_) => panic!("a ping has failed"),
    }
}

#[test]
fn the_probe_succeeds_against_the_service() {
    let probe = ping_frame();
    let header = decode_header(&probe).unwrap();
    assert_eq!(header.magic, XML_MAGIC);
    assert_eq!(header.size as usize, probe.len() - 8);
    let message_type = XodusMessageType::from_code(header.msg_type);
    let payload = success(parse_message(device_token(), message_type, probe[8..].to_vec()));
    match handle(message_type, Ok(payload)) {
        Reply::Send(answer) => {
            let header = decode_header(&answer).unwrap();
            assert_eq!(header.size as usize, answer.len() - 8);
            assert_eq!(ping(header.magic, header.msg_type, &answer[8..]), Ok(()));
        }
        Reply::Report(_) => panic!("the probe has failed"),
    }
}

#[test]
fn unknown_requests_fail() {
    for message_type in [
        XodusMessageType::Unspecified,
        XodusMessageType::Pong,
        XodusMessageType::MsaTokenResponse,
        XodusMessageType::ErrorResponse,
        XodusMessageType::UserIdentityResponse,
    ] {
        assert_eq!(failure(parse_message(device_token(), message_type, vec![])), "Unimplemented");
    }
}

#[test]
fn a_failure_is_an_error_response() {
    match handle(XodusMessageType::MsaTokenRequest, Err("no".to_string())) {
        Reply::Report(error) => assert_eq!(error.message, "no"),
        Reply::Send(_) => panic!("a failure was sent as a success"),
    }
    let xml = "<ErrorResponse><Message>no</Message></ErrorResponse>";
    let frame = error_frame(Some(xml.to_string()));
    assert_eq!(frame, encode_frame(XML_MAGIC, 5, xml.as_bytes()));
    assert_eq!(error_frame(None), encode_frame(XML_MAGIC, 5, b""));
}

#[test]
fn a_success_has_the_request_type_plus_one() {
    for (request, response) in [
        (XodusMessageType::MsaTokenRequest, 4),
        (XodusMessageType::UserIdentityRequest, 7),
    ] {
        match handle(request, Ok(b"x".to_vec())) {
            Reply::Send(frame) => assert_eq!(frame, encode_frame(XML_MAGIC, response, b"x")),
            Reply::Report(_) => panic!("a success was reported as a failure"),
        }
    }
}

#[test]
fn a_request_that_is_no_text_fails() {
    let bytes = vec![b'<', 0xff, b'>'];
    let expected = std::str::from_utf8(&bytes).unwrap_err().to_string();
    assert_eq!(
        failure(parse_message(device_token(), XodusMessageType::MsaTokenRequest, bytes.clone())),
        expected
    );
}

#[test]
fn a_request_is_read_as_text() {
    match parse_message(device_token(), XodusMessageType::MsaTokenRequest, "<\u{e9}/>".as_bytes().to_vec()) {
        Session::ParseRequest { text, .. } => assert_eq!(text, "<\u{e9}/>"),
        _ => panic!("the request is not parsed"),
    }
}

#[test]
fn a_request_that_does_not_parse_fails() {
    let session = parse_message(device_token(), XodusMessageType::MsaTokenRequest, b"x".to_vec())
        .advance(Event::Request(Err("no XML".to_string())));
    assert_eq!(failure(session), "no XML");
}

#[test]
fn login_is_required() {
    let expected = "no user is logged in (run `xodus-cli login` first): nothing stored";
    let session = parse_message(device_token(), XodusMessageType::MsaTokenRequest, b"x".to_vec())
        .advance(Event::Request(Ok(request(false))))
        .advance(Event::UserToken(Err("nothing stored".to_string())));
    assert_eq!(failure(session), expected);
    let session = parse_message(device_token(), XodusMessageType::UserIdentityRequest, vec![])
        .advance(Event::UserToken(Err("nothing stored".to_string())));
    assert_eq!(failure(session), expected);
}

#[test]
fn a_compact_user_token_is_unsupported() {
    let session = parse_message(device_token(), XodusMessageType::UserIdentityRequest, vec![])
        .advance(Event::UserToken(Ok(compact("t"))));
    assert_eq!(
        failure(session),
        "stored user STS token has an unsupported format"
    );
}

#[test]
fn the_user_token_is_exchanged_for_the_scope_of_the_client() {
    let exchange: UserExchange = user_exchange(&request(false), legacy(Some("k")), device_token());
    assert_eq!(exchange.user_name, "USERNAME");
    assert_eq!(exchange.flow, "Silent");
    assert_eq!(exchange.client_id, "client");
    assert_eq!(exchange.user.key_name.as_deref(), Some("k"));
    assert_eq!(exchange.user.data, vec![1, 2, 3]);
    assert_eq!(exchange.device.data, vec![8, 9]);
    assert_eq!(exchange.device.key_name.as_deref(), Some("device"));
    assert_eq!(exchange.targets.len(), 2);
    assert_eq!(
        exchange.targets[0].address,
        "scope=xboxlive.signin&api-version=2.0&clientid=client"
    );
    assert_eq!(exchange.targets[0].policy, Some(Policy::TokenBroker));
    assert_eq!(exchange.targets[1].address, "http://Passport.NET/tb");
    assert_eq!(exchange.targets[1].policy, None);
    assert_eq!(
        user_exchange(&request(true), legacy(None), device_token()).targets[0].address,
        "scope=service::user.auth.xboxlive.com::MBI_SSL&api-version=2.0&clientid=client"
    );
}

#[test]
fn the_device_token_is_exchanged_as_a_broker() {
    let exchange = device_exchange(device_token());
    assert_eq!(exchange.device.data, vec![8, 9]);
    assert_eq!(exchange.client_id, "{28C08266-F973-4AE6-FFE4-409B249F138F}");
    assert_eq!(exchange.scope, "scope=service::user.auth.xboxlive.com::MBI_SSL");
    assert_eq!(exchange.policy, Policy::TokenBroker);
}

#[test]
fn a_device_token_is_passed_on_where_it_is_compact_and_dated() {
    let device = |session: Session| match session {
        Session::ExchangeUser { rps, .. } => rps,
        _ => panic!("the user's token is not exchanged"),
    };
    let at = "2030-01-01T00:00:00Z";
    assert_eq!(
        device(at_user_exchange(false, Some(issued("a", at, compact("rps"))))),
        Some(("rps".to_string(), 1893456000))
    );
    assert_eq!(
        device(at_user_exchange(false, Some(issued("a", "soon", compact("rps"))))),
        None
    );
    assert_eq!(
        device(at_user_exchange(false, Some(issued("a", at, Token::Legacy(legacy(None)))))),
        None
    );
    assert_eq!(device(at_user_exchange(false, None)), None);
    assert_eq!(device_rps(compact("t"), Ok(5)), Some(("t".to_string(), 5)));
    assert_eq!(device_rps(compact("t"), Err("e".to_string())), None);
    assert_eq!(device_rps(Token::Legacy(legacy(None)), Ok(5)), None);
}

#[test]
fn a_token_request_is_answered() {
    let saving = exchanged(
        vec![
            issued("first", "2030-01-01T01:00:00+01:00", compact("user")),
            issued("middle", "", compact("unused")),
            issued("last", "", Token::Legacy(legacy(Some("key")))),
        ],
        Some(issued("d", "1970-01-01T00:00:01.5Z", compact("rps"))),
    );
    match &saving {
        Session::SaveToken { address, saved, rest, .. } => {
            assert_eq!(address, "key");
            assert!(matches!(saved, Token::Legacy(token) if token.data == vec![1, 2, 3]));
            assert_eq!(rest.len(), 2);
        }
        _ => panic!("the token is not stored"),
    }
    let encoding = saving.advance(Event::Saved);
    match &encoding {
        Session::EncodeToken { response } => {
            assert_eq!(response.token, "user");
            assert_eq!(response.expiry, 1893456000);
            assert_eq!(response.device_rps, "rps");
            assert_eq!(response.device_expiry, 1);
        }
        _ => panic!("the response is not encoded"),
    }
    let finished = encoding.advance(Event::Encoded(Ok("<MSATokenResponse/>".to_string())));
    assert_eq!(success(finished), b"<MSATokenResponse/>");
}

#[test]
fn a_response_without_a_device_token_has_it_empty() {
    let response = token_response(compact("t"), Ok(-3), None).ok().unwrap();
    assert_eq!(response.expiry, -3);
    assert_eq!(response.device_rps, "");
    assert_eq!(response.device_expiry, 0);
}

#[test]
fn an_expiry_that_cannot_be_read_fails_the_request() {
    let expected = chrono::DateTime::parse_from_rfc3339("soon").unwrap_err().to_string();
    let session = exchanged(
        vec![
            issued("first", "soon", Token::Legacy(legacy(None))),
            issued("last", "", compact("own")),
        ],
        None,
    )
    .advance(Event::Saved);
    assert_eq!(failure(session), expected);
}

#[test]
fn a_user_token_that_is_not_compact_fails_the_request() {
    let session = exchanged(
        vec![
            issued("first", "2030-01-01T00:00:00Z", Token::Legacy(legacy(None))),
            issued("last", "", compact("own")),
        ],
        None,
    )
    .advance(Event::Saved);
    assert_eq!(failure(session), "token exchange returned a non-compact user token");
}

#[test]
fn the_only_token_is_stored_although_the_request_fails() {
    let saving = exchanged(vec![issued("only", "", compact("own"))], None);
    match &saving {
        Session::SaveToken { address, .. } => assert_eq!(address, "only"),
        _ => panic!("the token is not stored"),
    }
    let expected = "token exchange returned too few security tokens";
    assert_eq!(failure(saving.advance(Event::Saved)), expected);
    assert_eq!(failure(exchanged(vec![], None)), expected);
}

#[test]
fn tokens_are_stored_under_the_name_of_their_key() {
    let at = |token: Token| save_address(&issued("address", "", token));
    assert_eq!(at(Token::Legacy(legacy(Some("key")))), "key");
    assert_eq!(at(Token::Legacy(legacy(None))), "address");
    assert_eq!(at(compact("t")), "address");
}

#[test]
fn other_outcomes_fail_the_request() {
    let fail = |outcome: Result<ExchangeOutcome, String>| {
        failure(at_user_exchange(false, None).advance(Event::Exchanged(outcome)))
    };
    assert_eq!(fail(Err("offline".to_string())), "offline");
    assert_eq!(
        fail(Ok(ExchangeOutcome::Fault { fault: "F".to_string() })),
        "token exchange returned a fault: F"
    );
    assert_eq!(
        fail(Ok(ExchangeOutcome::Other { shown: "S".to_string() })),
        "unexpected token exchange outcome: S"
    );
    assert_eq!(
        fail(Ok(ExchangeOutcome::Single {
            token: issued("a", "", compact("t")),
            shown: "S".to_string(),
        })),
        "unexpected token exchange outcome: S"
    );
}

#[test]
fn a_response_that_cannot_be_written_fails_the_request() {
    let session = exchanged(
        vec![
            issued("first", "2030-01-01T00:00:00Z", compact("t")),
            issued("last", "", compact("own")),
        ],
        None,
    )
    .advance(Event::Saved)
    .advance(Event::Encoded(Err("no".to_string())));
    assert_eq!(failure(session), "no");
}

#[test]
fn an_identity_request_is_answered() {
    let resolving = parse_message(device_token(), XodusMessageType::UserIdentityRequest, vec![9])
        .advance(Event::UserToken(Ok(Token::Legacy(legacy(None)))));
    match &resolving {
        Session::ResolveIdentity { device, user, relying_party } => {
            assert_eq!(device.data, vec![8, 9]);
            assert_eq!(user.data, vec![1, 2, 3]);
            assert_eq!(relying_party, "http://xboxlive.com");
        }
        _ => panic!("the identity is not resolved"),
    }
    let encoding = resolving.advance(Event::Identity(Ok(XstsClaims {
        xuid: Some("2814921234567890".to_string()),
        gamertag: Some("Xodus Tester".to_string()),
        modern_gamertag: None,
        user_hash: Some("1122334455667788".to_string()),
        not_after: 1_800_000_000,
    })));
    match &encoding {
        Session::EncodeIdentity { response } => {
            assert_eq!(response.xuid, "2814921234567890");
            assert_eq!(response.gamertag, "Xodus Tester");
            assert_eq!(response.modern_gamertag, "");
            assert_eq!(response.user_hash, "1122334455667788");
            assert_eq!(response.expiry, 1_800_000_000);
        }
        _ => panic!("the response is not encoded"),
    }
    assert_eq!(success(encoding.advance(Event::Encoded(Ok("<\u{e9}/>".to_string())))), "<\u{e9}/>".as_bytes());
}

#[test]
fn an_identity_that_cannot_be_resolved_fails_the_request() {
    let session = parse_message(device_token(), XodusMessageType::UserIdentityRequest, vec![])
        .advance(Event::UserToken(Ok(Token::Legacy(legacy(None)))))
        .advance(Event::Identity(Err("refused".to_string())));
    assert_eq!(failure(session), "refused");
}

#[test]
fn absent_claims_are_empty() {
    let response = identity(XstsClaims {
        xuid: None,
        gamertag: None,
        modern_gamertag: Some("m".to_string()),
        user_hash: None,
        not_after: 4,
    });
    assert_eq!(response.xuid, "");
    assert_eq!(response.gamertag, "");
    assert_eq!(response.modern_gamertag, "m");
    assert_eq!(response.user_hash, "");
    assert_eq!(response.expiry, 4);
    let empty = UserIdentityResponse::default();
    assert_eq!(empty.xuid, "");
    assert_eq!(empty.expiry, 0);
}

#[test]
fn an_unexpected_event_changes_nothing() {
    let session = parse_message(device_token(), XodusMessageType::UserIdentityRequest, vec![]).advance(Event::Saved);
    assert!(matches!(session, Session::LoadUserToken { request: None, .. }));
    let session = parse_message(device_token(), XodusMessageType::Ping, vec![1]).advance(Event::Saved);
    assert_eq!(success(session), vec![1]);
}

#[test]
fn the_protobuf_transport_is_refused() {
    assert_eq!(
        proto::handle(),
        Err("the protobuf transport is not implemented yet; use the XML transport".to_string())
    );
}

#[test]
fn the_device_token_goes_with_both_exchanges() {
    let session = parse_message(device_token(), XodusMessageType::MsaTokenRequest, b"x".to_vec())
        .advance(Event::Request(Ok(request(false))))
        .advance(Event::UserToken(Ok(Token::Legacy(legacy(None)))));
    match &session {
        Session::ExchangeDevice { own, .. } => assert_eq!(own.device.data, vec![8, 9]),
        _ => panic!("the device's token is not exchanged"),
    }
    match session.advance(Event::DeviceToken(None)) {
        Session::ExchangeUser { exchange, .. } => {
            assert_eq!(exchange.device.data, vec![8, 9]);
            assert_eq!(exchange.user.data, vec![1, 2, 3]);
        }
        _ => panic!("the user's token is not exchanged"),
    }
    let copy = device_token().clone();
    assert_eq!(copy.key_name.as_deref(), Some("device"));
    assert_eq!(copy.data, vec![8, 9]);
}

#[test]
fn a_response_that_does_not_fit_into_a_frame_is_a_failure() {
    match handle(XodusMessageType::MsaTokenRequest, Ok(vec![7; 65535])) {
        Reply::Send(frame) => {
            assert_eq!(frame.len(), 65543);
            assert_eq!(decode_header(&frame).unwrap().size, 65535);
        }
        Reply::Report(_) => panic!("the response fits"),
    }
    match handle(XodusMessageType::MsaTokenRequest, Ok(vec![7; 65536])) {
        Reply::Report(error) => {
            assert_eq!(error.message, "the response does not fit into a frame")
        }
        Reply::Send(_) => panic!("the response does not fit"),
    }
}

#[test]
fn an_error_that_does_not_fit_into_a_frame_is_left_out() {
    let fits = "x".repeat(65535);
    assert_eq!(
        error_frame(Some(fits.clone())),
        encode_frame(XML_MAGIC, 5, fits.as_bytes())
    );
    let long = "x".repeat(65536);
    assert_eq!(error_frame(Some(long)), encode_frame(XML_MAGIC, 5, b""));
}
