//! The message types of the service protocol.

use vstd::prelude::*;

verus! {

/// What a frame carries.
#[derive(Clone, Copy, Debug, PartialEq, Eq, Structural)]
pub enum XodusMessageType {
    /// Every code that no other variant has.
    Unspecified,
    Ping,
    Pong,
    MsaTokenRequest,
    MsaTokenResponse,
    ErrorResponse,
    UserIdentityRequest,
    UserIdentityResponse,
}

impl XodusMessageType {
    /// The code of a message type on the wire.
    pub open spec fn spec_code(self) -> u16 {
        match self {
            XodusMessageType::Unspecified => 0,
            XodusMessageType::Ping => 1,
            XodusMessageType::Pong => 2,
            XodusMessageType::MsaTokenRequest => 3,
            XodusMessageType::MsaTokenResponse => 4,
            XodusMessageType::ErrorResponse => 5,
            XodusMessageType::UserIdentityRequest => 6,
            XodusMessageType::UserIdentityResponse => 7,
        }
    }

    /// The code of a message type on the wire.
    pub fn code(self) -> (r: u16)
        ensures
            r == self.spec_code(),
    {
        match self {
            XodusMessageType::Unspecified => 0,
            XodusMessageType::Ping => 1,
            XodusMessageType::Pong => 2,
            XodusMessageType::MsaTokenRequest => 3,
            XodusMessageType::MsaTokenResponse => 4,
            XodusMessageType::ErrorResponse => 5,
            XodusMessageType::UserIdentityRequest => 6,
            XodusMessageType::UserIdentityResponse => 7,
        }
    }

    /// The message type of a code; one that is not known is `Unspecified`.
    pub fn from_code(code: u16) -> (r: XodusMessageType)
        ensures
            1 <= code <= 7 ==> r.spec_code() == code,
            !(1 <= code <= 7) ==> r == XodusMessageType::Unspecified,
    {
        if code == 1 {
            XodusMessageType::Ping
        } else if code == 2 {
            XodusMessageType::Pong
        } else if code == 3 {
            XodusMessageType::MsaTokenRequest
        } else if code == 4 {
            XodusMessageType::MsaTokenResponse
        } else if code == 5 {
            XodusMessageType::ErrorResponse
        } else if code == 6 {
            XodusMessageType::UserIdentityRequest
        } else if code == 7 {
            XodusMessageType::UserIdentityResponse
        } else {
            XodusMessageType::Unspecified
        }
    }

    /// The service answers these; every other request fails.
    pub open spec fn is_request(self) -> bool {
        self == XodusMessageType::Ping || self == XodusMessageType::MsaTokenRequest || self
            == XodusMessageType::UserIdentityRequest
    }
}

/// No two message types share a code.
pub proof fn law_codes_are_distinct(a: XodusMessageType, b: XodusMessageType)
    ensures
        a.spec_code() == b.spec_code() ==> a == b,
{
}

/// The code behind a request's own is that of its response, and never that of
/// an error response: a client can tell a failure from an answer by the type.
pub proof fn law_success_is_no_error(request: XodusMessageType)
    requires
        request.is_request(),
    ensures
        request.spec_code() + 1 != XodusMessageType::ErrorResponse.spec_code(),
        request == XodusMessageType::Ping ==> request.spec_code() + 1
            == XodusMessageType::Pong.spec_code(),
        request == XodusMessageType::MsaTokenRequest ==> request.spec_code() + 1
            == XodusMessageType::MsaTokenResponse.spec_code(),
        request == XodusMessageType::UserIdentityRequest ==> request.spec_code() + 1
            == XodusMessageType::UserIdentityResponse.spec_code(),
{
}

/// The code of every message type on the wire: a request, where it has a response,
/// stands right before it.
pub proof fn law_codes_on_the_wire()
    ensures
        XodusMessageType::Ping.spec_code() == 1,
        XodusMessageType::Pong.spec_code() == 2,
        XodusMessageType::MsaTokenRequest.spec_code() == 3,
        XodusMessageType::MsaTokenResponse.spec_code() == 4,
        XodusMessageType::ErrorResponse.spec_code() == 5,
        XodusMessageType::UserIdentityRequest.spec_code() == 6,
        XodusMessageType::UserIdentityResponse.spec_code() == 7,
        XodusMessageType::Unspecified.spec_code() == 0,
{
}

} // verus!
