//! Error taxonomy of the registry and of the single-event variant.
//!
//! Every fallible operation returns one of these discriminated results; no
//! error is fatal to the system, and a failed call leaves all state unchanged.

use vstd::prelude::*;

verus! {

/// Errors of the multi-event registry.
#[derive(Clone, Copy, Debug, PartialEq, Eq, Structural)]
pub enum SpotError {
    /// Only authorized roles can perform this action.
    Unauthorized,
    /// The address already claimed a token for this event.
    AlreadyClaimed,
    /// The maximum token supply for this event is reached.
    LimitExceeded,
    /// The claim period has expired.
    ClaimPeriodEnded,
    /// The claim period has not started yet.
    ClaimPeriodNotStarted,
    /// Invalid input parameters.
    InvalidParameters,
    /// The event does not exist.
    EventNotFound,
    /// An event with this identifier already exists.
    EventAlreadyExists,
    /// The creator lacks the backend approval record.
    CreatorNotApproved,
}

impl SpotError {
    /// Short symbolic name of the error, as published to callers.
    pub fn to_symbol(&self) -> (s: String)
        ensures
            *self == SpotError::Unauthorized ==> s@ == "UNAUTH"@,
            *self == SpotError::AlreadyClaimed ==> s@ == "CLAIMED"@,
            *self == SpotError::LimitExceeded ==> s@ == "LIMIT_EX"@,
            *self == SpotError::ClaimPeriodEnded ==> s@ == "CLAIM_END"@,
            *self == SpotError::ClaimPeriodNotStarted ==> s@ == "NOT_START"@,
            *self == SpotError::InvalidParameters ==> s@ == "INV_PARAM"@,
            *self == SpotError::EventNotFound ==> s@ == "NO_EVENT"@,
            *self == SpotError::EventAlreadyExists ==> s@ == "EVT_EXST"@,
            *self == SpotError::CreatorNotApproved ==> s@ == "CRT_APPR"@,
    {
        match self {
            SpotError::Unauthorized => "UNAUTH".to_string(),
            SpotError::AlreadyClaimed => "CLAIMED".to_string(),
            SpotError::LimitExceeded => "LIMIT_EX".to_string(),
            SpotError::ClaimPeriodEnded => "CLAIM_END".to_string(),
            SpotError::ClaimPeriodNotStarted => "NOT_START".to_string(),
            SpotError::InvalidParameters => "INV_PARAM".to_string(),
            SpotError::EventNotFound => "NO_EVENT".to_string(),
            SpotError::EventAlreadyExists => "EVT_EXST".to_string(),
            SpotError::CreatorNotApproved => "CRT_APPR".to_string(),
        }
    }
}

/// Errors of the single-event variant.
#[derive(Clone, Copy, Debug, PartialEq, Eq, Structural)]
pub enum SpotEventError {
    /// Only authorized roles can perform this action.
    Unauthorized,
    /// The address already minted its token.
    AlreadyMinted,
    /// The maximum token supply is reached.
    LimitExceeded,
    /// The claim period has expired.
    ClaimPeriodEnded,
    /// The claim period has not started yet.
    ClaimPeriodNotStarted,
    /// Invalid input parameters.
    InvalidParameters,
    /// The role does not exist.
    RoleNotFound,
}

impl SpotEventError {
    /// Short symbolic name of the error, as published to callers.
    pub fn to_symbol(&self) -> (s: String)
        ensures
            *self == SpotEventError::Unauthorized ==> s@ == "UNAUTH"@,
            *self == SpotEventError::AlreadyMinted ==> s@ == "MINTED"@,
            *self == SpotEventError::LimitExceeded ==> s@ == "LIMIT_EX"@,
            *self == SpotEventError::ClaimPeriodEnded ==> s@ == "CLAIM_END"@,
            *self == SpotEventError::ClaimPeriodNotStarted ==> s@ == "NOT_START"@,
            *self == SpotEventError::InvalidParameters ==> s@ == "INV_PARAM"@,
            *self == SpotEventError::RoleNotFound ==> s@ == "NO_ROLE"@,
    {
        match self {
            SpotEventError::Unauthorized => "UNAUTH".to_string(),
            SpotEventError::AlreadyMinted => "MINTED".to_string(),
            SpotEventError::LimitExceeded => "LIMIT_EX".to_string(),
            SpotEventError::ClaimPeriodEnded => "CLAIM_END".to_string(),
            SpotEventError::ClaimPeriodNotStarted => "NOT_START".to_string(),
            SpotEventError::InvalidParameters => "INV_PARAM".to_string(),
            SpotEventError::RoleNotFound => "NO_ROLE".to_string(),
        }
    }
}

} // verus!
