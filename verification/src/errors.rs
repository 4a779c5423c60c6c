//! The error taxonomy of the relay. Transport failures are surfaced by the
//! I/O layer and never retried here; protocol faults mean the server's
//! response broke the expected contract and are fatal for the call; an
//! authentication failure alone means the credentials were rejected.
use vstd::prelude::*;

verus! {

/// A way in which a server response broke the protocol contract.
#[derive(Clone, Copy, Debug, PartialEq, Eq, Structural)]
pub enum ProtocolFault {
    /// The login page lacks the one-time execution token marker.
    MissingExecutionToken,
    /// The public-key document lacks a modulus field.
    MissingModulus,
    /// The public-key document lacks an exponent field.
    MissingExponent,
    /// The public-key fields are not usable hexadecimal numbers.
    BadPublicKey,
    /// A redirect was expected but no Location header came.
    MissingRedirect,
    /// The academic-affairs response set no session-id cookie.
    MissingAffairsSession,
    /// The academic-affairs response set no routing cookie.
    MissingAffairsRoute,
    /// The redirect chain hit the hop ceiling.
    RedirectLoop,
    /// The hop budget ran out before a session was obtained.
    SessionNotObtained,
}

/// What can go wrong in the SSO login flow itself.
#[derive(Clone, Copy, Debug, PartialEq, Eq, Structural)]
pub enum SsoError {
    /// Connection-level failure, reported by the transport layer.
    Transport,
    /// The server response did not match the expected contract.
    Protocol(ProtocolFault),
    /// The submission response carried no identity cookie: bad credentials.
    Authentication,
}

/// What can go wrong while deriving a downstream session.
#[derive(Clone, Copy, Debug, PartialEq, Eq, Structural)]
pub enum DeriveError {
    /// Connection-level failure, reported by the transport layer.
    Transport,
    /// The service response did not match the expected contract.
    Protocol(ProtocolFault),
    /// No identity cookie in the store: SSO login has not succeeded yet.
    NotAuthenticated,
}

} // verus!
