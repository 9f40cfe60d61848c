//! The store as a mathematical value, and what each operation makes of it.
//!
//! A `StoreState` is the counter and the three maps from identifier to
//! record. For every operation a spec function gives its `Outcome`: the
//! result that is returned and the store that is left. The executable
//! operations are proved against these functions, and the laws of the
//! library are proved about them.

use crate::durable::SLOT_BYTES;
use crate::model::{
    Bet, BetPayload, BetStatus, ErrorView, EventPayloadView, EventStatus, EventView,
    UserPayloadView, UserView,
};
use crate::records::{event_bytes, user_bytes};
use crate::text::quoting;
use crate::validate::{bet_payload_fault, event_payload_fault, user_payload_fault};
use vstd::prelude::*;

verus! {

/// The store as a value: its counter and its three maps.
pub struct StoreState {
    /// The identifier that the next creation hands out.
    pub next_id: u64,
    pub bets: Map<u64, Bet>,
    pub users: Map<u64, UserView>,
    pub events: Map<u64, EventView>,
}

/// What an operation returns and the store that it leaves.
pub struct Outcome<T> {
    pub result: Result<T, ErrorView>,
    pub store: StoreState,
}

/// The outcome of an operation that fails with `error` and leaves `store`.
pub open spec fn failed<T>(error: ErrorView, store: StoreState) -> Outcome<T> {
    Outcome { result: Err(error), store }
}

/// A failure on an input that a rule refuses.
pub open spec fn invalid<T>(msg: Seq<char>, store: StoreState) -> Outcome<T> {
    failed(ErrorView::InvalidInput { msg }, store)
}

/// A failure on an identifier under which nothing is stored.
pub open spec fn missing<T>(msg: Seq<char>, store: StoreState) -> Outcome<T> {
    failed(ErrorView::NotFound { msg }, store)
}

/// The counter cannot hand out an identifier: it stands at the largest one.
pub open spec fn counter_refused<T>(store: StoreState) -> Outcome<T> {
    failed(ErrorView::Storage { msg: "Cannot increment id counter"@ }, store)
}

/// The record that would be written is longer than a slot of its map.
pub open spec fn record_too_large<T>(store: StoreState) -> Outcome<T> {
    failed(ErrorView::Storage { msg: "Record does not fit a slot of the map"@ }, store)
}

/// Whether a creation on `s` gets an identifier: the counter stands below
/// the largest one.
pub open spec fn mints(s: StoreState) -> bool {
    s.next_id < u64::MAX
}

/// The wager that a payload asks for, under the identifier `id`.
pub open spec fn new_bet(id: u64, payload: BetPayload, now: u64) -> Bet {
    Bet {
        id,
        user_id: payload.user_id,
        event_id: payload.event_id,
        amount: payload.amount,
        odds: payload.odds,
        status: BetStatus::Pending,
        created_at: now,
        updated_at: None,
    }
}

/// The account that a payload asks for, under the identifier `id`.
pub open spec fn new_user(id: u64, payload: UserPayloadView) -> UserView {
    UserView { id, username: payload.username, balance: payload.balance, bet_history: Seq::empty() }
}

/// The event that a payload asks for, under the identifier `id`. A new
/// event is upcoming, whatever status the payload names.
pub open spec fn new_event(id: u64, payload: EventPayloadView) -> EventView {
    EventView {
        id,
        name: payload.name,
        participants: payload.participants,
        odds: payload.odds,
        status: EventStatus::Upcoming,
    }
}

/// The event under the identifier `id` with every other field from a
/// payload, its status too.
pub open spec fn event_from(id: u64, payload: EventPayloadView) -> EventView {
    EventView {
        id,
        name: payload.name,
        participants: payload.participants,
        odds: payload.odds,
        status: payload.status,
    }
}

/// Places a wager. The wager is stored before its account is looked up, so
/// it stays in the store where the account is missing.
pub open spec fn add_bet_outcome(s: StoreState, payload: BetPayload, now: u64) -> Outcome<Bet> {
    let bet = new_bet(s.next_id, payload, now);
    let placed =
        StoreState { next_id: (s.next_id + 1) as u64, bets: s.bets.insert(bet.id, bet), ..s };
    if bet_payload_fault(payload) is Some {
        invalid(bet_payload_fault(payload)->Some_0, s)
    } else if !s.users.contains_key(payload.user_id) {
        if mints(s) {
            missing(quoting("User with id="@, payload.user_id, " not found"@), placed)
        } else {
            counter_refused(s)
        }
    } else {
        let account = s.users[payload.user_id];
        let user = UserView { bet_history: account.bet_history.push(bet.id), ..account };
        if user_bytes(user).len() > SLOT_BYTES {
            record_too_large(s)
        } else if !mints(s) {
            counter_refused(s)
        } else {
            Outcome {
                result: Ok(bet),
                store: StoreState { users: placed.users.insert(payload.user_id, user), ..placed },
            }
        }
    }
}

/// Looks a wager up.
pub open spec fn get_bet_outcome(s: StoreState, id: u64) -> Outcome<Bet> {
    if s.bets.contains_key(id) {
        Outcome { result: Ok(s.bets[id]), store: s }
    } else {
        missing(quoting("A bet with id="@, id, " not found"@), s)
    }
}

/// Sets the status of a wager, whatever its status was, and the time of
/// the update.
pub open spec fn update_bet_status_outcome(s: StoreState, id: u64, status: BetStatus, now: u64)
    -> Outcome<Bet> {
    if s.bets.contains_key(id) {
        let bet = Bet { status, updated_at: Some(now), ..s.bets[id] };
        Outcome { result: Ok(bet), store: StoreState { bets: s.bets.insert(id, bet), ..s } }
    } else {
        missing(quoting("Couldn't update a bet with id="@, id, ". Bet not found"@), s)
    }
}

/// Removes a wager. The history of its account keeps the identifier.
pub open spec fn delete_bet_outcome(s: StoreState, id: u64) -> Outcome<Bet> {
    if s.bets.contains_key(id) {
        Outcome { result: Ok(s.bets[id]), store: StoreState { bets: s.bets.remove(id), ..s } }
    } else {
        missing(quoting("Couldn't delete a bet with id="@, id, ". Bet not found."@), s)
    }
}

/// Creates an account.
pub open spec fn add_user_outcome(s: StoreState, payload: UserPayloadView) -> Outcome<UserView> {
    let user = new_user(s.next_id, payload);
    if user_payload_fault(payload) is Some {
        invalid(user_payload_fault(payload)->Some_0, s)
    } else if user_bytes(user).len() > SLOT_BYTES {
        record_too_large(s)
    } else if !mints(s) {
        counter_refused(s)
    } else {
        Outcome {
            result: Ok(user),
            store: StoreState {
                next_id: (s.next_id + 1) as u64,
                users: s.users.insert(user.id, user),
                ..s
            },
        }
    }
}

/// Looks an account up.
pub open spec fn get_user_outcome(s: StoreState, id: u64) -> Outcome<UserView> {
    if s.users.contains_key(id) {
        Outcome { result: Ok(s.users[id]), store: s }
    } else {
        missing(quoting("A user with id="@, id, " not found"@), s)
    }
}

/// Replaces the name and the balance of an account; its identifier and
/// its history stay.
pub open spec fn update_user_outcome(s: StoreState, id: u64, payload: UserPayloadView) -> Outcome<
    UserView,
> {
    if user_payload_fault(payload) is Some {
        invalid(user_payload_fault(payload)->Some_0, s)
    } else if !s.users.contains_key(id) {
        missing(quoting("Couldn't update a user with id="@, id, ". User not found"@), s)
    } else {
        let user = UserView { username: payload.username, balance: payload.balance, ..s.users[id] };
        if user_bytes(user).len() > SLOT_BYTES {
            record_too_large(s)
        } else {
            Outcome { result: Ok(user), store: StoreState { users: s.users.insert(id, user), ..s } }
        }
    }
}

/// Removes an account, and its history with it.
pub open spec fn delete_user_outcome(s: StoreState, id: u64) -> Outcome<UserView> {
    if s.users.contains_key(id) {
        Outcome { result: Ok(s.users[id]), store: StoreState { users: s.users.remove(id), ..s } }
    } else {
        missing(quoting("Couldn't delete a user with id="@, id, ". User not found."@), s)
    }
}

/// Creates an event, which is upcoming.
pub open spec fn add_event_outcome(s: StoreState, payload: EventPayloadView) -> Outcome<
    EventView,
> {
    let event = new_event(s.next_id, payload);
    if event_payload_fault(payload) is Some {
        invalid(event_payload_fault(payload)->Some_0, s)
    } else if event_bytes(event).len() > SLOT_BYTES {
        record_too_large(s)
    } else if !mints(s) {
        counter_refused(s)
    } else {
        Outcome {
            result: Ok(event),
            store: StoreState {
                next_id: (s.next_id + 1) as u64,
                events: s.events.insert(event.id, event),
                ..s
            },
        }
    }
}

/// Looks an event up.
pub open spec fn get_event_outcome(s: StoreState, id: u64) -> Outcome<EventView> {
    if s.events.contains_key(id) {
        Outcome { result: Ok(s.events[id]), store: s }
    } else {
        missing(quoting("An event with id="@, id, " not found"@), s)
    }
}

/// Replaces every field of an event but its identifier.
pub open spec fn update_event_outcome(s: StoreState, id: u64, payload: EventPayloadView)
    -> Outcome<EventView> {
    if event_payload_fault(payload) is Some {
        invalid(event_payload_fault(payload)->Some_0, s)
    } else if !s.events.contains_key(id) {
        missing(quoting("Couldn't update an event with id="@, id, ". Event not found"@), s)
    } else {
        let event = event_from(s.events[id].id, payload);
        if event_bytes(event).len() > SLOT_BYTES {
            record_too_large(s)
        } else {
            Outcome {
                result: Ok(event),
                store: StoreState { events: s.events.insert(id, event), ..s },
            }
        }
    }
}

/// Removes an event.
pub open spec fn delete_event_outcome(s: StoreState, id: u64) -> Outcome<EventView> {
    if s.events.contains_key(id) {
        Outcome { result: Ok(s.events[id]), store: StoreState { events: s.events.remove(id), ..s } }
    } else {
        missing(quoting("Couldn't delete an event with id="@, id, ". Event not found."@), s)
    }
}

/// Adds `amount` to the balance of an account. An amount that would carry
/// the balance past the largest value that it can hold is refused.
pub open spec fn deposit_balance_outcome(s: StoreState, user_id: u64, amount: u64) -> Outcome<
    UserView,
> {
    if amount == 0 {
        invalid("Deposit amount must be greater than zero"@, s)
    } else if !s.users.contains_key(user_id) {
        missing("User not found"@, s)
    } else if s.users[user_id].balance + amount > u64::MAX {
        invalid("Deposit would exceed the largest balance"@, s)
    } else {
        let account = s.users[user_id];
        let user = UserView { balance: (account.balance + amount) as u64, ..account };
        Outcome {
            result: Ok(user),
            store: StoreState { users: s.users.insert(user_id, user), ..s },
        }
    }
}

/// Takes `amount` from the balance of an account that holds as much.
pub open spec fn withdraw_balance_outcome(s: StoreState, user_id: u64, amount: u64) -> Outcome<
    UserView,
> {
    if amount == 0 {
        invalid("Withdrawal amount must be greater than zero"@, s)
    } else if !s.users.contains_key(user_id) {
        missing("User not found"@, s)
    } else if s.users[user_id].balance < amount {
        invalid("Insufficient balance"@, s)
    } else {
        let account = s.users[user_id];
        let user = UserView { balance: (account.balance - amount) as u64, ..account };
        Outcome {
            result: Ok(user),
            store: StoreState { users: s.users.insert(user_id, user), ..s },
        }
    }
}

/// Overwrites the status of an event.
pub open spec fn update_event_status_outcome(s: StoreState, event_id: u64, status: EventStatus)
    -> Outcome<EventView> {
    if !s.events.contains_key(event_id) {
        missing("Event not found"@, s)
    } else {
        let event = EventView { status, ..s.events[event_id] };
        Outcome {
            result: Ok(event),
            store: StoreState { events: s.events.insert(event_id, event), ..s },
        }
    }
}

/// The wagers that `bets` holds under the identifiers of `history`, in the
/// order of `history`. An identifier that `bets` does not hold is passed
/// over.
pub open spec fn found_bets(history: Seq<u64>, bets: Map<u64, Bet>) -> Seq<Bet> {
    history.filter(|id: u64| bets.contains_key(id)).map_values(|id: u64| bets[id])
}

/// What one more identifier at the end of a history adds to the wagers
/// found: its wager, where the map holds one.
pub proof fn lemma_found_bets_push(history: Seq<u64>, id: u64, bets: Map<u64, Bet>)
    ensures
        found_bets(history.push(id), bets) == if bets.contains_key(id) {
            found_bets(history, bets).push(bets[id])
        } else {
            found_bets(history, bets)
        },
{
    reveal(Seq::filter);
    let held = |id: u64| bets.contains_key(id);
    let longer = history.push(id);
    assert(longer.drop_last() =~= history);
    assert(longer.last() == id);
    if bets.contains_key(id) {
        assert(longer.filter(held) == history.filter(held).push(id));
        assert(found_bets(longer, bets) =~= found_bets(history, bets).push(bets[id]));
    } else {
        assert(longer.filter(held) == history.filter(held));
    }
}

/// Lists the wagers of an account that the store still holds.
pub open spec fn get_user_bets_outcome(s: StoreState, user_id: u64) -> Outcome<Seq<Bet>> {
    if s.users.contains_key(user_id) {
        Outcome { result: Ok(found_bets(s.users[user_id].bet_history, s.bets)), store: s }
    } else {
        missing("User not found"@, s)
    }
}

/// Whether `history` names only identifiers below `bound`, and none twice.
pub open spec fn orderly(history: Seq<u64>, bound: u64) -> bool {
    &&& forall|i: int| 0 <= i < history.len() ==> #[trigger] history[i] < bound
    &&& forall|i: int, j: int| 0 <= i < j < history.len() ==> history[i] != history[j]
}

/// What holds of a store that the operations have built from an empty one:
/// every record is stored under its own identifier, which the counter has
/// passed, and the history of an account names only identifiers that the
/// counter has passed, none of them twice.
pub open spec fn consistent(s: StoreState) -> bool {
    &&& forall|id: u64| #[trigger]
        s.bets.contains_key(id) ==> s.bets[id].id == id && id < s.next_id
    &&& forall|id: u64| #[trigger]
        s.users.contains_key(id) ==> s.users[id].id == id && id < s.next_id && orderly(
            s.users[id].bet_history,
            s.next_id,
        )
    &&& forall|id: u64| #[trigger]
        s.events.contains_key(id) ==> s.events[id].id == id && id < s.next_id
}

/// The store that holds nothing, with its counter at `next_id`.
pub open spec fn empty_store(next_id: u64) -> StoreState {
    StoreState { next_id, bets: Map::empty(), users: Map::empty(), events: Map::empty() }
}

} // verus!
