//! The store: a counter and three durable maps, and the operations on them.
//!
//! Each operation is proved to return, and to leave behind, what its
//! outcome function in `state` says, and to keep a consistent store
//! consistent. A record that the store holds is read through the layout in
//! `records`; bytes that do not spell a record are passed over as if
//! nothing were stored under their identifier.
//!
//! An operation never stops half way for want of room: where a record
//! would not fit its slot, or the counter stands at the largest identifier,
//! it reports a `Storage` error before it has written anything. A change
//! of a balance or of a status leaves a record as long as it was, so it
//! never wants room.

use crate::durable::{DurableMap, IdCell, MemoryPool, SLOT_BYTES};
use crate::laws::{
    law_add_bet_keeps_consistent, law_add_event_keeps_consistent, law_add_user_keeps_consistent,
    law_balance_changes_keep_consistent, law_delete_bet_keeps_consistent,
    law_delete_event_keeps_consistent, law_delete_user_keeps_consistent,
    law_update_bet_status_keeps_consistent, law_update_event_keeps_consistent,
    law_update_event_status_keeps_consistent, law_update_user_keeps_consistent,
};
use crate::model::{
    invalid_input, not_found, not_found_quoting, storage_failure, viewed, Bet, BetPayload,
    BetStatus, Error, ErrorView, Event, EventPayload, EventStatus, EventView, User, UserPayload,
    UserView,
};
use crate::records::{
    bet_bytes, decode_bet, decode_event, decode_user, encode_bet, encode_event, encode_user,
    event_bytes, lemma_parse_bet, lemma_parse_event, lemma_parse_user, lemma_parsed_event_len,
    lemma_parsed_user_len, parse_bet, parse_event, parse_user, user_bytes,
};
use crate::state::{
    add_bet_outcome, add_event_outcome, add_user_outcome, consistent, delete_bet_outcome,
    delete_event_outcome, delete_user_outcome, deposit_balance_outcome, empty_store, found_bets,
    get_bet_outcome, get_event_outcome, get_user_bets_outcome, get_user_outcome,
    lemma_found_bets_push, orderly, update_bet_status_outcome, update_event_outcome,
    update_event_status_outcome, update_user_outcome, withdraw_balance_outcome, Outcome,
    StoreState,
};
use crate::validate::{validate_bet_payload, validate_event_payload, validate_user_payload};
use ic_stable_structures::cell::InitError;
use vstd::pervasive::unreached;
use vstd::prelude::*;

verus! {

/// The region of the pool that holds the counter.
pub const COUNTER_REGION: u8 = 0;

/// The region of the pool that holds the wagers.
pub const BET_REGION: u8 = 1;

/// The region of the pool that holds the accounts.
pub const USER_REGION: u8 = 2;

/// The region of the pool that holds the events.
pub const EVENT_REGION: u8 = 3;

/// The identifier that a counter in fresh memory hands out first.
pub const FIRST_ID: u64 = 1;

/// The store. Its view is a `StoreState`.
pub struct Store {
    counter: IdCell,
    bets: DurableMap,
    users: DurableMap,
    events: DurableMap,
}

/// The wagers that the entries of a map spell.
pub open spec fn bets_in(raw: Map<u64, Seq<u8>>) -> Map<u64, Bet> {
    Map::new(
        |id: u64| raw.contains_key(id) && parse_bet(raw[id]) is Some,
        |id: u64| parse_bet(raw[id])->Some_0,
    )
}

/// The accounts that the entries of a map spell.
pub open spec fn users_in(raw: Map<u64, Seq<u8>>) -> Map<u64, UserView> {
    Map::new(
        |id: u64| raw.contains_key(id) && parse_user(raw[id]) is Some,
        |id: u64| parse_user(raw[id])->Some_0,
    )
}

/// The events that the entries of a map spell.
pub open spec fn events_in(raw: Map<u64, Seq<u8>>) -> Map<u64, EventView> {
    Map::new(
        |id: u64| raw.contains_key(id) && parse_event(raw[id]) is Some,
        |id: u64| parse_event(raw[id])->Some_0,
    )
}

proof fn lemma_bets_insert(raw: Map<u64, Seq<u8>>, id: u64, bet: Bet)
    ensures
        bets_in(raw.insert(id, bet_bytes(bet))) == bets_in(raw).insert(id, bet),
{
    lemma_parse_bet(bet);
    assert(bets_in(raw.insert(id, bet_bytes(bet))) =~= bets_in(raw).insert(id, bet));
}

proof fn lemma_bets_remove(raw: Map<u64, Seq<u8>>, id: u64)
    ensures
        bets_in(raw.remove(id)) == bets_in(raw).remove(id),
{
    assert(bets_in(raw.remove(id)) =~= bets_in(raw).remove(id));
}

proof fn lemma_users_insert(raw: Map<u64, Seq<u8>>, id: u64, user: UserView)
    requires
        user_bytes(user).len() <= SLOT_BYTES,
    ensures
        users_in(raw.insert(id, user_bytes(user))) == users_in(raw).insert(id, user),
{
    lemma_parse_user(user);
    assert(users_in(raw.insert(id, user_bytes(user))) =~= users_in(raw).insert(id, user));
}

proof fn lemma_users_remove(raw: Map<u64, Seq<u8>>, id: u64)
    ensures
        users_in(raw.remove(id)) == users_in(raw).remove(id),
{
    assert(users_in(raw.remove(id)) =~= users_in(raw).remove(id));
}

proof fn lemma_events_insert(raw: Map<u64, Seq<u8>>, id: u64, event: EventView)
    requires
        event_bytes(event).len() <= SLOT_BYTES,
    ensures
        events_in(raw.insert(id, event_bytes(event))) == events_in(raw).insert(id, event),
{
    lemma_parse_event(event);
    assert(events_in(raw.insert(id, event_bytes(event))) =~= events_in(raw).insert(id, event));
}

proof fn lemma_events_remove(raw: Map<u64, Seq<u8>>, id: u64)
    ensures
        events_in(raw.remove(id)) == events_in(raw).remove(id),
{
    assert(events_in(raw.remove(id)) =~= events_in(raw).remove(id));
}

impl View for Store {
    type V = StoreState;

    closed spec fn view(&self) -> StoreState {
        StoreState {
            next_id: self.counter@,
            bets: bets_in(self.bets@),
            users: users_in(self.users@),
            events: events_in(self.events@),
        }
    }
}

/// What an operation returned and the store that it left, as an outcome.
pub open spec fn observed<T: View>(r: Result<T, Error>, store: StoreState) -> Outcome<T::V> {
    Outcome { result: viewed(r), store }
}

impl Store {
    /// Puts a store together from its maps and from what opening its
    /// counter gave: the store of those parts, or the failure to open the
    /// counter.
    pub fn assemble(
        counter: Result<IdCell, InitError>,
        bets: DurableMap,
        users: DurableMap,
        events: DurableMap,
    ) -> (r: Result<Store, Error>)
        ensures
            match counter {
                Ok(cell) => r is Ok && r->Ok_0@ == (StoreState {
                    next_id: cell@,
                    bets: bets_in(bets@),
                    users: users_in(users@),
                    events: events_in(events@),
                }),
                Err(_) => r is Err && r->Err_0@ == (ErrorView::Storage {
                    msg: "Cannot create a counter"@,
                }),
            },
    {
        match counter {
            Ok(cell) => Ok(Store { counter: cell, bets, users, events }),
            Err(_) => Err(storage_failure("Cannot create a counter")),
        }
    }

    /// Starts an empty store in the default memory of the platform, over
    /// whatever the memory held: no record, and the counter at `FIRST_ID`.
    pub fn new() -> (r: Result<Store, Error>)
        ensures
            r is Ok ==> r->Ok_0@ == empty_store(FIRST_ID) && consistent(r->Ok_0@),
            r is Err ==> r->Err_0@ == (ErrorView::Storage { msg: "Cannot create a counter"@ }),
    {
        let mut pool = MemoryPool::open();
        let counter = match pool.create_cell(COUNTER_REGION, FIRST_ID) {
            Ok(cell) => cell,
            Err(_) => {
                return Err(storage_failure("Cannot create a counter"));
            },
        };
        let bets = pool.create_map(BET_REGION);
        let users = pool.create_map(USER_REGION);
        let events = pool.create_map(EVENT_REGION);
        proof {
            assert(bets_in(bets@) =~= Map::<u64, Bet>::empty());
            assert(users_in(users@) =~= Map::<u64, UserView>::empty());
            assert(events_in(events@) =~= Map::<u64, EventView>::empty());
        }
        Ok(Store { counter, bets, users, events })
    }

    /// Opens the store in the default memory of the platform: the counter
    /// and the maps that the memory holds, or, in fresh memory, empty maps
    /// and a counter at `FIRST_ID`. The contract says nothing of what a
    /// store holds when it is opened, since that is whatever the memory
    /// held. Where the platform has one default memory, as a canister has,
    /// the store is to be opened once.
    pub fn open() -> (r: Result<Store, Error>)
        ensures
            r is Err ==> r->Err_0@ == (ErrorView::Storage { msg: "Cannot create a counter"@ }),
    {
        let mut pool = MemoryPool::open();
        let counter = pool.open_cell(COUNTER_REGION, FIRST_ID);
        let bets = pool.open_map(BET_REGION);
        let users = pool.open_map(USER_REGION);
        let events = pool.open_map(EVENT_REGION);
        Store::assemble(counter, bets, users, events)
    }

    /// The identifier that the next creation hands out.
    pub fn next_id(&self) -> (id: u64)
        ensures
            id == self@.next_id,
    {
        self.counter.get()
    }

    /// Hands out the next identifier and advances the counter, or leaves
    /// the store as it is where the counter stands at the largest
    /// identifier. An identifier that was handed out is used up, whether or
    /// not a record is stored under it.
    pub fn allocate(&mut self) -> (r: Result<u64, Error>)
        ensures
            match r {
                Ok(id) => id == old(self)@.next_id && id < u64::MAX && final(self)@ == (StoreState {
                    next_id: (id + 1) as u64,
                    ..old(self)@
                }),
                Err(e) => e@ == (ErrorView::Storage { msg: "Cannot increment id counter"@ })
                    && final(self)@ == old(self)@,
            },
            r is Ok <==> old(self)@.next_id < u64::MAX,
            consistent(old(self)@) ==> consistent(final(self)@),
    {
        proof {
            if consistent(self@) && self@.next_id < u64::MAX {
                let advanced = StoreState { next_id: (self@.next_id + 1) as u64, ..self@ };
                assert forall|id: u64| #[trigger] advanced.users.contains_key(id) implies orderly(
                    advanced.users[id].bet_history,
                    advanced.next_id,
                ) by {
                    assert(orderly(self@.users[id].bet_history, self@.next_id));
                }
            }
        }
        let current = self.counter.get();
        if current == u64::MAX {
            return Err(storage_failure("Cannot increment id counter"));
        }
        match self.counter.set(current + 1) {
            Ok(held) => Ok(held),
            Err(_) => unreached(),
        }
    }

    fn load_bet(&self, id: u64) -> (r: Option<Bet>)
        ensures
            r is Some <==> self@.bets.contains_key(id),
            r is Some ==> r->Some_0 == self@.bets[id],
    {
        match self.bets.get(id) {
            Some(bytes) => decode_bet(bytes.as_slice()),
            None => None,
        }
    }

    fn save_bet(&mut self, id: u64, bet: &Bet)
        ensures
            final(self)@ == (StoreState { bets: old(self)@.bets.insert(id, *bet), ..old(self)@ }),
    {
        let bytes = encode_bet(bet);
        proof {
            lemma_bets_insert(self.bets@, id, *bet);
        }
        self.bets.insert(id, &bytes);
    }

    /// The wager under `id`.
    pub fn get_bet(&self, id: u64) -> (r: Result<Bet, Error>)
        ensures
            observed(r, self@) == get_bet_outcome(self@, id),
    {
        match self.load_bet(id) {
            Some(bet) => Ok(bet),
            None => Err(not_found_quoting("A bet with id=", id, " not found")),
        }
    }

    /// Gives the wager under `id` the status `status`, whatever status it
    /// has, and records `now` as the time of the update.
    pub fn update_bet_status(&mut self, id: u64, status: BetStatus, now: u64) -> (r: Result<
        Bet,
        Error,
    >)
        ensures
            observed(r, final(self)@) == update_bet_status_outcome(old(self)@, id, status, now),
            consistent(old(self)@) ==> consistent(final(self)@),
    {
        proof {
            if consistent(self@) {
                law_update_bet_status_keeps_consistent(self@, id, status, now);
            }
        }
        match self.load_bet(id) {
            Some(found) => {
                let mut bet = found;
                bet.status = status;
                bet.updated_at = Some(now);
                self.save_bet(id, &bet);
                Ok(bet)
            },
            None => Err(
                not_found_quoting("Couldn't update a bet with id=", id, ". Bet not found"),
            ),
        }
    }

    /// Removes the wager under `id` and returns it.
    pub fn delete_bet(&mut self, id: u64) -> (r: Result<Bet, Error>)
        ensures
            observed(r, final(self)@) == delete_bet_outcome(old(self)@, id),
            consistent(old(self)@) ==> consistent(final(self)@),
    {
        proof {
            if consistent(self@) {
                law_delete_bet_keeps_consistent(self@, id);
            }
        }
        proof {
            lemma_bets_remove(self.bets@, id);
            assert(!self@.bets.contains_key(id) ==> self@.bets.remove(id) =~= self@.bets);
        }
        let found = match self.bets.remove(id) {
            Some(bytes) => decode_bet(bytes.as_slice()),
            None => None,
        };
        match found {
            Some(bet) => Ok(bet),
            None => Err(
                not_found_quoting("Couldn't delete a bet with id=", id, ". Bet not found."),
            ),
        }
    }

    fn load_user(&self, id: u64) -> (r: Option<User>)
        ensures
            r is Some <==> self@.users.contains_key(id),
            r is Some ==> r->Some_0@ == self@.users[id],
            r is Some ==> user_bytes(r->Some_0@).len() <= SLOT_BYTES,
    {
        match self.users.get(id) {
            Some(bytes) => {
                let found = decode_user(bytes.as_slice());
                proof {
                    if found is Some {
                        lemma_parsed_user_len(bytes@);
                    }
                }
                found
            },
            None => None,
        }
    }

    fn save_user(&mut self, id: u64, user: &User, bytes: &Vec<u8>)
        requires
            bytes@ == user_bytes(user@),
            bytes@.len() <= SLOT_BYTES,
        ensures
            final(self)@ == (StoreState {
                users: old(self)@.users.insert(id, user@),
                ..old(self)@
            }),
    {
        proof {
            lemma_users_insert(self.users@, id, user@);
        }
        self.users.insert(id, bytes);
    }

    /// Creates an account with an empty history under the next identifier.
    pub fn add_user(&mut self, payload: UserPayload) -> (r: Result<User, Error>)
        ensures
            observed(r, final(self)@) == add_user_outcome(old(self)@, payload@),
            consistent(old(self)@) ==> consistent(final(self)@),
    {
        proof {
            if consistent(self@) {
                law_add_user_keeps_consistent(self@, payload@);
            }
        }
        match validate_user_payload(&payload) {
            Err(e) => {
                return Err(e);
            },
            Ok(_) => {},
        }
        let user = User {
            id: self.counter.get(),
            username: payload.username,
            balance: payload.balance,
            bet_history: Vec::new(),
        };
        let bytes = match encode_user(&user) {
            Some(bytes) => bytes,
            None => {
                return Err(storage_failure("Record does not fit a slot of the map"));
            },
        };
        match self.allocate() {
            Err(e) => {
                return Err(e);
            },
            Ok(_) => {},
        }
        self.save_user(user.id, &user, &bytes);
        Ok(user)
    }

    /// The account under `id`.
    pub fn get_user(&self, id: u64) -> (r: Result<User, Error>)
        ensures
            observed(r, self@) == get_user_outcome(self@, id),
    {
        match self.load_user(id) {
            Some(user) => Ok(user),
            None => Err(not_found_quoting("A user with id=", id, " not found")),
        }
    }

    /// Replaces the name and the balance of the account under `id`.
    pub fn update_user(&mut self, id: u64, payload: UserPayload) -> (r: Result<User, Error>)
        ensures
            observed(r, final(self)@) == update_user_outcome(old(self)@, id, payload@),
            consistent(old(self)@) ==> consistent(final(self)@),
    {
        proof {
            if consistent(self@) {
                law_update_user_keeps_consistent(self@, id, payload@);
            }
        }
        match validate_user_payload(&payload) {
            Err(e) => {
                return Err(e);
            },
            Ok(_) => {},
        }
        let mut user = match self.load_user(id) {
            Some(user) => user,
            None => {
                return Err(
                    not_found_quoting("Couldn't update a user with id=", id, ". User not found"),
                );
            },
        };
        user.username = payload.username;
        user.balance = payload.balance;
        let bytes = match encode_user(&user) {
            Some(bytes) => bytes,
            None => {
                return Err(storage_failure("Record does not fit a slot of the map"));
            },
        };
        self.save_user(id, &user, &bytes);
        Ok(user)
    }

    /// Removes the account under `id` and returns it.
    pub fn delete_user(&mut self, id: u64) -> (r: Result<User, Error>)
        ensures
            observed(r, final(self)@) == delete_user_outcome(old(self)@, id),
            consistent(old(self)@) ==> consistent(final(self)@),
    {
        proof {
            if consistent(self@) {
                law_delete_user_keeps_consistent(self@, id);
            }
        }
        proof {
            lemma_users_remove(self.users@, id);
            assert(!self@.users.contains_key(id) ==> self@.users.remove(id) =~= self@.users);
        }
        let found = match self.users.remove(id) {
            Some(bytes) => decode_user(bytes.as_slice()),
            None => None,
        };
        match found {
            Some(user) => Ok(user),
            None => Err(
                not_found_quoting("Couldn't delete a user with id=", id, ". User not found."),
            ),
        }
    }

    fn load_event(&self, id: u64) -> (r: Option<Event>)
        ensures
            r is Some <==> self@.events.contains_key(id),
            r is Some ==> r->Some_0@ == self@.events[id],
            r is Some ==> event_bytes(r->Some_0@).len() <= SLOT_BYTES,
    {
        match self.events.get(id) {
            Some(bytes) => {
                let found = decode_event(bytes.as_slice());
                proof {
                    if found is Some {
                        lemma_parsed_event_len(bytes@);
                    }
                }
                found
            },
            None => None,
        }
    }

    fn save_event(&mut self, id: u64, event: &Event, bytes: &Vec<u8>)
        requires
            bytes@ == event_bytes(event@),
            bytes@.len() <= SLOT_BYTES,
        ensures
            final(self)@ == (StoreState {
                events: old(self)@.events.insert(id, event@),
                ..old(self)@
            }),
    {
        proof {
            lemma_events_insert(self.events@, id, event@);
        }
        self.events.insert(id, bytes);
    }

    /// Creates an event under the next identifier. A new event is upcoming,
    /// whatever status the payload names.
    pub fn add_event(&mut self, payload: EventPayload) -> (r: Result<Event, Error>)
        ensures
            observed(r, final(self)@) == add_event_outcome(old(self)@, payload@),
            consistent(old(self)@) ==> consistent(final(self)@),
    {
        proof {
            if consistent(self@) {
                law_add_event_keeps_consistent(self@, payload@);
            }
        }
        match validate_event_payload(&payload) {
            Err(e) => {
                return Err(e);
            },
            Ok(_) => {},
        }
        let event = Event {
            id: self.counter.get(),
            name: payload.name,
            participants: payload.participants,
            odds: payload.odds,
            status: EventStatus::Upcoming,
        };
        let bytes = match encode_event(&event) {
            Some(bytes) => bytes,
            None => {
                return Err(storage_failure("Record does not fit a slot of the map"));
            },
        };
        match self.allocate() {
            Err(e) => {
                return Err(e);
            },
            Ok(_) => {},
        }
        self.save_event(event.id, &event, &bytes);
        Ok(event)
    }

    /// The event under `id`.
    pub fn get_event(&self, id: u64) -> (r: Result<Event, Error>)
        ensures
            observed(r, self@) == get_event_outcome(self@, id),
    {
        match self.load_event(id) {
            Some(event) => Ok(event),
            None => Err(not_found_quoting("An event with id=", id, " not found")),
        }
    }

    /// Replaces every field of the event under `id` but its identifier.
    pub fn update_event(&mut self, id: u64, payload: EventPayload) -> (r: Result<Event, Error>)
        ensures
            observed(r, final(self)@) == update_event_outcome(old(self)@, id, payload@),
            consistent(old(self)@) ==> consistent(final(self)@),
    {
        proof {
            if consistent(self@) {
                law_update_event_keeps_consistent(self@, id, payload@);
            }
        }
        match validate_event_payload(&payload) {
            Err(e) => {
                return Err(e);
            },
            Ok(_) => {},
        }
        let mut event = match self.load_event(id) {
            Some(event) => event,
            None => {
                return Err(
                    not_found_quoting(
                        "Couldn't update an event with id=",
                        id,
                        ". Event not found",
                    ),
                );
            },
        };
        event.name = payload.name;
        event.participants = payload.participants;
        event.odds = payload.odds;
        event.status = payload.status;
        let bytes = match encode_event(&event) {
            Some(bytes) => bytes,
            None => {
                return Err(storage_failure("Record does not fit a slot of the map"));
            },
        };
        self.save_event(id, &event, &bytes);
        Ok(event)
    }

    /// Removes the event under `id` and returns it.
    pub fn delete_event(&mut self, id: u64) -> (r: Result<Event, Error>)
        ensures
            observed(r, final(self)@) == delete_event_outcome(old(self)@, id),
            consistent(old(self)@) ==> consistent(final(self)@),
    {
        proof {
            if consistent(self@) {
                law_delete_event_keeps_consistent(self@, id);
            }
        }
        proof {
            lemma_events_remove(self.events@, id);
            assert(!self@.events.contains_key(id) ==> self@.events.remove(id) =~= self@.events);
        }
        let found = match self.events.remove(id) {
            Some(bytes) => decode_event(bytes.as_slice()),
            None => None,
        };
        match found {
            Some(event) => Ok(event),
            None => Err(
                not_found_quoting("Couldn't delete an event with id=", id, ". Event not found."),
            ),
        }
    }

    /// Places a wager at the time `now`.
    pub fn add_bet(&mut self, payload: BetPayload, now: u64) -> (r: Result<Bet, Error>)
        ensures
            observed(r, final(self)@) == add_bet_outcome(old(self)@, payload, now),
            consistent(old(self)@) ==> consistent(final(self)@),
    {
        proof {
            if consistent(self@) {
                law_add_bet_keeps_consistent(self@, payload, now);
            }
        }
        match validate_bet_payload(&payload) {
            Err(e) => {
                return Err(e);
            },
            Ok(_) => {},
        }
        let bet = Bet {
            id: self.counter.get(),
            user_id: payload.user_id,
            event_id: payload.event_id,
            amount: payload.amount,
            odds: payload.odds,
            status: BetStatus::Pending,
            created_at: now,
            updated_at: None,
        };
        match self.load_user(payload.user_id) {
            Some(account) => {
                let mut user = account;
                user.bet_history.push(bet.id);
                let bytes = match encode_user(&user) {
                    Some(bytes) => bytes,
                    None => {
                        return Err(storage_failure("Record does not fit a slot of the map"));
                    },
                };
                match self.allocate() {
                    Err(e) => {
                        return Err(e);
                    },
                    Ok(_) => {},
                }
                self.save_bet(bet.id, &bet);
                self.save_user(payload.user_id, &user, &bytes);
                Ok(bet)
            },
            None => {
                match self.allocate() {
                    Err(e) => {
                        return Err(e);
                    },
                    Ok(_) => {},
                }
                self.save_bet(bet.id, &bet);
                Err(not_found_quoting("User with id=", payload.user_id, " not found"))
            },
        }
    }

    /// Adds `amount` to the balance of the account under `user_id`.
    pub fn deposit_balance(&mut self, user_id: u64, amount: u64) -> (r: Result<User, Error>)
        ensures
            observed(r, final(self)@) == deposit_balance_outcome(old(self)@, user_id, amount),
            consistent(old(self)@) ==> consistent(final(self)@),
    {
        proof {
            if consistent(self@) {
                law_balance_changes_keep_consistent(self@, user_id, amount);
            }
        }
        if amount == 0 {
            return Err(invalid_input("Deposit amount must be greater than zero"));
        }
        let mut user = match self.load_user(user_id) {
            Some(user) => user,
            None => {
                return Err(not_found("User not found"));
            },
        };
        if amount > u64::MAX - user.balance {
            return Err(invalid_input("Deposit would exceed the largest balance"));
        }
        proof {
            lemma_parse_user(user@);
        }
        user.balance = user.balance + amount;
        proof {
            lemma_parse_user(user@);
        }
        let bytes = match encode_user(&user) {
            Some(bytes) => bytes,
            None => unreached(),
        };
        self.save_user(user_id, &user, &bytes);
        Ok(user)
    }

    /// Takes `amount` from the balance of the account under `user_id`,
    /// which must hold as much.
    pub fn withdraw_balance(&mut self, user_id: u64, amount: u64) -> (r: Result<User, Error>)
        ensures
            observed(r, final(self)@) == withdraw_balance_outcome(old(self)@, user_id, amount),
            consistent(old(self)@) ==> consistent(final(self)@),
    {
        proof {
            if consistent(self@) {
                law_balance_changes_keep_consistent(self@, user_id, amount);
            }
        }
        if amount == 0 {
            return Err(invalid_input("Withdrawal amount must be greater than zero"));
        }
        let mut user = match self.load_user(user_id) {
            Some(user) => user,
            None => {
                return Err(not_found("User not found"));
            },
        };
        if user.balance < amount {
            return Err(invalid_input("Insufficient balance"));
        }
        proof {
            lemma_parse_user(user@);
        }
        user.balance = user.balance - amount;
        proof {
            lemma_parse_user(user@);
        }
        let bytes = match encode_user(&user) {
            Some(bytes) => bytes,
            None => unreached(),
        };
        self.save_user(user_id, &user, &bytes);
        Ok(user)
    }

    /// Gives the event under `event_id` the status `status`.
    pub fn update_event_status(&mut self, event_id: u64, status: EventStatus) -> (r: Result<
        Event,
        Error,
    >)
        ensures
            observed(r, final(self)@) == update_event_status_outcome(
                old(self)@,
                event_id,
                status,
            ),
            consistent(old(self)@) ==> consistent(final(self)@),
    {
        proof {
            if consistent(self@) {
                law_update_event_status_keeps_consistent(self@, event_id, status);
            }
        }
        let mut event = match self.load_event(event_id) {
            Some(event) => event,
            None => {
                return Err(not_found("Event not found"));
            },
        };
        proof {
            lemma_parse_event(event@);
        }
        event.status = status;
        proof {
            lemma_parse_event(event@);
        }
        let bytes = match encode_event(&event) {
            Some(bytes) => bytes,
            None => unreached(),
        };
        self.save_event(event_id, &event, &bytes);
        Ok(event)
    }

    /// The wagers of an account that the store still holds, in the order
    /// in which they were placed.
    pub fn get_user_bets(&self, user_id: u64) -> (r: Result<Vec<Bet>, Error>)
        ensures
            observed(r, self@) == get_user_bets_outcome(self@, user_id),
    {
        let user = match self.load_user(user_id) {
            Some(user) => user,
            None => {
                return Err(not_found("User not found"));
            },
        };
        let mut bets: Vec<Bet> = Vec::new();
        let mut i: usize = 0;
        proof {
            reveal(Seq::filter);
            assert(found_bets(user.bet_history@.take(0), self@.bets) =~= Seq::<Bet>::empty());
        }
        while i < user.bet_history.len()
            invariant
                i <= user.bet_history@.len(),
                bets@ == found_bets(user.bet_history@.take(i as int), self@.bets),
            decreases user.bet_history@.len() - i,
        {
            proof {
                let upto = user.bet_history@.take(i as int);
                assert(user.bet_history@.take(i + 1) =~= upto.push(user.bet_history@[i as int]));
                lemma_found_bets_push(upto, user.bet_history@[i as int], self@.bets);
            }
            match self.load_bet(user.bet_history[i]) {
                Some(bet) => {
                    bets.push(bet);
                },
                None => {},
            }
            i += 1;
        }
        assert(user.bet_history@.take(i as int) =~= user.bet_history@);
        Ok(bets)
    }
}

} // verus!
