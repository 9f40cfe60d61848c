//! The records of the store, the payloads that create and update them, and
//! the errors that operations report, each with its mathematical view.

use crate::text::{message_quoting, quoting};
use vstd::prelude::*;
use vstd::string::*;

verus! {

/// Decimal odds, held as the bit pattern of an IEEE 754 double.
///
/// A positive value has a clear sign bit and is neither zero nor a NaN, so
/// its bits lie between 1 and the bits of positive infinity.
#[derive(Clone, Copy, PartialEq, Eq, Structural, Debug, Default)]
pub struct Odds {
    pub bits: u64,
}

/// The bit pattern of positive infinity: the largest pattern that is a
/// positive number.
pub const POSITIVE_INFINITY_BITS: u64 = 0x7FF0_0000_0000_0000;

impl Odds {
    /// Whether the bits are those of a number greater than zero.
    pub open spec fn spec_is_positive(self) -> bool {
        1 <= self.bits <= POSITIVE_INFINITY_BITS
    }

    /// Whether the value is greater than zero.
    #[verifier::when_used_as_spec(spec_is_positive)]
    pub fn is_positive(self) -> (r: bool)
        ensures
            r == self.spec_is_positive(),
    {
        1 <= self.bits && self.bits <= POSITIVE_INFINITY_BITS
    }
}

/// Where a wager stands. No change of status is ruled out.
#[derive(Clone, Copy, PartialEq, Eq, Structural, Debug)]
pub enum BetStatus {
    Pending,
    Won,
    Lost,
    Cancelled,
}

impl Default for BetStatus {
    fn default() -> (r: Self)
        ensures
            r == BetStatus::Pending,
    {
        BetStatus::Pending
    }
}

/// Where an event stands.
#[derive(Clone, Copy, PartialEq, Eq, Structural, Debug)]
pub enum EventStatus {
    Upcoming,
    Ongoing,
    Completed,
    Cancelled,
}

impl Default for EventStatus {
    fn default() -> (r: Self)
        ensures
            r == EventStatus::Upcoming,
    {
        EventStatus::Upcoming
    }
}

/// A wager. Every field is a plain value, so a wager is its own model.
#[derive(Clone, Copy, PartialEq, Eq, Debug, Default)]
pub struct Bet {
    pub id: u64,
    pub user_id: u64,
    pub event_id: u64,
    pub amount: u64,
    pub odds: Odds,
    pub status: BetStatus,
    pub created_at: u64,
    pub updated_at: Option<u64>,
}

impl View for Bet {
    type V = Bet;

    open spec fn view(&self) -> Bet {
        *self
    }
}

/// An account holder.
#[derive(Clone, PartialEq, Eq, Debug, Default)]
pub struct User {
    pub id: u64,
    pub username: String,
    pub balance: u64,
    pub bet_history: Vec<u64>,
}

/// An account as a value.
pub struct UserView {
    pub id: u64,
    pub username: Seq<char>,
    pub balance: u64,
    pub bet_history: Seq<u64>,
}

impl View for User {
    type V = UserView;

    open spec fn view(&self) -> UserView {
        UserView {
            id: self.id,
            username: self.username@,
            balance: self.balance,
            bet_history: self.bet_history@,
        }
    }
}

/// A wagering event.
#[derive(Clone, PartialEq, Eq, Debug, Default)]
pub struct Event {
    pub id: u64,
    pub name: String,
    pub participants: Vec<String>,
    pub odds: Vec<Odds>,
    pub status: EventStatus,
}

/// An event as a value.
pub struct EventView {
    pub id: u64,
    pub name: Seq<char>,
    pub participants: Seq<Seq<char>>,
    pub odds: Seq<Odds>,
    pub status: EventStatus,
}

/// The texts of a sequence of strings.
pub open spec fn texts(strings: Seq<String>) -> Seq<Seq<char>> {
    Seq::new(strings.len(), |i: int| strings[i]@)
}

impl View for Event {
    type V = EventView;

    open spec fn view(&self) -> EventView {
        EventView {
            id: self.id,
            name: self.name@,
            participants: texts(self.participants@),
            odds: self.odds@,
            status: self.status,
        }
    }
}

/// What a caller supplies to place a wager.
#[derive(Clone, Copy, PartialEq, Eq, Debug, Default)]
pub struct BetPayload {
    pub user_id: u64,
    pub event_id: u64,
    pub amount: u64,
    pub odds: Odds,
}

/// What a caller supplies to create or update an account.
#[derive(Clone, PartialEq, Eq, Debug, Default)]
pub struct UserPayload {
    pub username: String,
    pub balance: u64,
}

/// The payload of an account as a value.
pub struct UserPayloadView {
    pub username: Seq<char>,
    pub balance: u64,
}

impl View for UserPayload {
    type V = UserPayloadView;

    open spec fn view(&self) -> UserPayloadView {
        UserPayloadView { username: self.username@, balance: self.balance }
    }
}

/// What a caller supplies to create or update an event.
#[derive(Clone, PartialEq, Eq, Debug, Default)]
pub struct EventPayload {
    pub name: String,
    pub participants: Vec<String>,
    pub odds: Vec<Odds>,
    pub status: EventStatus,
}

/// The payload of an event as a value.
pub struct EventPayloadView {
    pub name: Seq<char>,
    pub participants: Seq<Seq<char>>,
    pub odds: Seq<Odds>,
    pub status: EventStatus,
}

impl View for EventPayload {
    type V = EventPayloadView;

    open spec fn view(&self) -> EventPayloadView {
        EventPayloadView {
            name: self.name@,
            participants: texts(self.participants@),
            odds: self.odds@,
            status: self.status,
        }
    }
}

/// Why an operation failed.
///
/// `Storage` is reported where the durable layer cannot take what an
/// operation would write: a record longer than a slot of the map, a counter
/// that stands at the largest identifier, or a counter for which the memory
/// has no room. Nothing has been written when it is returned.
#[derive(Clone, PartialEq, Eq, Debug)]
pub enum Error {
    NotFound { msg: String },
    InvalidInput { msg: String },
    Unauthorized { msg: String },
    Storage { msg: String },
}

/// An error as a value.
pub enum ErrorView {
    NotFound { msg: Seq<char> },
    InvalidInput { msg: Seq<char> },
    Unauthorized { msg: Seq<char> },
    Storage { msg: Seq<char> },
}

impl View for Error {
    type V = ErrorView;

    open spec fn view(&self) -> ErrorView {
        match self {
            Error::NotFound { msg } => ErrorView::NotFound { msg: msg@ },
            Error::InvalidInput { msg } => ErrorView::InvalidInput { msg: msg@ },
            Error::Unauthorized { msg } => ErrorView::Unauthorized { msg: msg@ },
            Error::Storage { msg } => ErrorView::Storage { msg: msg@ },
        }
    }
}

/// The error `InvalidInput` with the message `text`.
pub fn invalid_input(text: &str) -> (r: Error)
    ensures
        r@ == (ErrorView::InvalidInput { msg: text@ }),
{
    Error::InvalidInput { msg: String::from_str(text) }
}

/// The error `NotFound` with the message `text`.
pub fn not_found(text: &str) -> (r: Error)
    ensures
        r@ == (ErrorView::NotFound { msg: text@ }),
{
    Error::NotFound { msg: String::from_str(text) }
}

/// The error `NotFound` whose message quotes `id` between `before` and
/// `after`.
pub fn not_found_quoting(before: &str, id: u64, after: &str) -> (r: Error)
    ensures
        r@ == (ErrorView::NotFound { msg: quoting(before@, id, after@) }),
{
    Error::NotFound { msg: message_quoting(before, id, after) }
}

/// The views of what an operation returned.
pub open spec fn viewed<T: View>(r: Result<T, Error>) -> Result<T::V, ErrorView> {
    match r {
        Ok(value) => Ok(value@),
        Err(error) => Err(error@),
    }
}

/// The error `Storage` with the message `text`.
pub fn storage_failure(text: &str) -> (r: Error)
    ensures
        r@ == (ErrorView::Storage { msg: text@ }),
{
    Error::Storage { msg: String::from_str(text) }
}

impl Error {
    /// The message that the error carries.
    pub fn message(&self) -> (r: String)
        ensures
            r@ == match self@ {
                ErrorView::NotFound { msg } => msg,
                ErrorView::InvalidInput { msg } => msg,
                ErrorView::Unauthorized { msg } => msg,
                ErrorView::Storage { msg } => msg,
            },
    {
        match self {
            Error::NotFound { msg } => msg.clone(),
            Error::InvalidInput { msg } => msg.clone(),
            Error::Unauthorized { msg } => msg.clone(),
            Error::Storage { msg } => msg.clone(),
        }
    }
}

} // verus!
