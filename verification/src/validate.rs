//! Checks of a payload, made before anything is allocated or written.
//!
//! Each check names, as a spec function, the first fault of a payload: the
//! message that is reported for it, or `None` when the payload is well
//! formed. The executable function returns `InvalidInput` with exactly that
//! message.

use crate::model::{
    invalid_input, BetPayload, Error, ErrorView, EventPayload, EventPayloadView, UserPayload,
    UserPayloadView,
};
use crate::text::{is_blank, text_is_blank};
use vstd::prelude::*;

verus! {

/// What a check returns for a payload whose first fault is `fault`.
pub open spec fn reports(r: Result<(), Error>, fault: Option<Seq<char>>) -> bool {
    match r {
        Ok(_) => fault is None,
        Err(e) => fault is Some && e@ == (ErrorView::InvalidInput { msg: fault->Some_0 }),
    }
}

/// A wager needs a stake and odds that are both greater than zero.
pub open spec fn bet_payload_fault(payload: BetPayload) -> Option<Seq<char>> {
    if payload.amount == 0 {
        Some("Bet amount must be greater than zero"@)
    } else if !payload.odds.is_positive() {
        Some("Odds must be greater than zero"@)
    } else {
        None
    }
}

/// Checks the payload of a wager.
pub fn validate_bet_payload(payload: &BetPayload) -> (r: Result<(), Error>)
    ensures
        reports(r, bet_payload_fault(*payload)),
{
    if payload.amount == 0 {
        return Err(invalid_input("Bet amount must be greater than zero"));
    }
    if !payload.odds.is_positive() {
        return Err(invalid_input("Odds must be greater than zero"));
    }
    Ok(())
}

/// An account needs a name that is more than white space.
pub open spec fn user_payload_fault(payload: UserPayloadView) -> Option<Seq<char>> {
    if is_blank(payload.username) {
        Some("Username cannot be empty"@)
    } else {
        None
    }
}

/// Checks the payload of an account.
pub fn validate_user_payload(payload: &UserPayload) -> (r: Result<(), Error>)
    ensures
        reports(r, user_payload_fault(payload@)),
{
    if text_is_blank(payload.username.as_str()) {
        return Err(invalid_input("Username cannot be empty"));
    }
    Ok(())
}

/// An event needs a name that is more than white space, a participant and
/// a price.
pub open spec fn event_payload_fault(payload: EventPayloadView) -> Option<Seq<char>> {
    if is_blank(payload.name) {
        Some("Event name cannot be empty"@)
    } else if payload.participants.len() == 0 {
        Some("Event must have at least one participant"@)
    } else if payload.odds.len() == 0 {
        Some("Event must have odds defined"@)
    } else {
        None
    }
}

/// Checks the payload of an event.
pub fn validate_event_payload(payload: &EventPayload) -> (r: Result<(), Error>)
    ensures
        reports(r, event_payload_fault(payload@)),
{
    if text_is_blank(payload.name.as_str()) {
        return Err(invalid_input("Event name cannot be empty"));
    }
    if payload.participants.len() == 0 {
        return Err(invalid_input("Event must have at least one participant"));
    }
    if payload.odds.len() == 0 {
        return Err(invalid_input("Event must have odds defined"));
    }
    Ok(())
}

} // verus!
