//! Laws of the store, proved of the outcomes in `state` that the
//! executable operations are proved to have: what a lookup finds after a
//! creation and after a deletion, that identifiers are never handed out
//! twice, what a deposit and a withdrawal do to a balance, and that every
//! operation keeps a consistent store consistent.

use crate::durable::SLOT_BYTES;
use crate::model::{
    Bet, BetPayload, BetStatus, ErrorView, EventPayloadView, EventStatus, EventView,
    UserPayloadView, UserView,
};
use crate::records::{event_bytes, user_bytes};
use crate::state::{
    add_bet_outcome, add_event_outcome, add_user_outcome, consistent, delete_bet_outcome,
    delete_event_outcome, delete_user_outcome, deposit_balance_outcome, empty_store,
    get_bet_outcome, get_event_outcome, get_user_outcome, invalid, missing, new_bet, new_event,
    new_user, orderly,
    update_bet_status_outcome, update_event_outcome,
    update_event_status_outcome, update_user_outcome, withdraw_balance_outcome, Outcome,
    StoreState,
};
use crate::text::quoting;
use crate::validate::{bet_payload_fault, event_payload_fault, user_payload_fault};
use vstd::prelude::*;

verus! {

/// A wager that was placed is what a lookup of its identifier gives.
pub proof fn law_placed_bet_is_found(s: StoreState, payload: BetPayload, now: u64)
    ensures
        ({
            let placed = add_bet_outcome(s, payload, now);
            placed.result is Ok ==> get_bet_outcome(placed.store, placed.result->Ok_0.id).result
                == placed.result
        }),
{
}

/// An account that was created is what a lookup of its identifier gives.
pub proof fn law_created_user_is_found(s: StoreState, payload: UserPayloadView)
    ensures
        ({
            let created = add_user_outcome(s, payload);
            created.result is Ok ==> get_user_outcome(created.store, created.result->Ok_0.id).result
                == created.result
        }),
{
}

/// An event that was created is what a lookup of its identifier gives.
pub proof fn law_created_event_is_found(s: StoreState, payload: EventPayloadView)
    ensures
        ({
            let created = add_event_outcome(s, payload);
            created.result is Ok ==> get_event_outcome(
                created.store,
                created.result->Ok_0.id,
            ).result == created.result
        }),
{
}

/// After a wager is deleted, a lookup of its identifier finds nothing,
/// whether or not the store held a wager under it.
pub proof fn law_deleted_bet_is_missing(s: StoreState, id: u64)
    ensures
        get_bet_outcome(delete_bet_outcome(s, id).store, id) == missing::<Bet>(
            quoting("A bet with id="@, id, " not found"@),
            delete_bet_outcome(s, id).store,
        ),
{
}

/// After an account is deleted, a lookup of its identifier finds nothing,
/// whether or not the store held an account under it.
pub proof fn law_deleted_user_is_missing(s: StoreState, id: u64)
    ensures
        get_user_outcome(delete_user_outcome(s, id).store, id) == missing::<UserView>(
            quoting("A user with id="@, id, " not found"@),
            delete_user_outcome(s, id).store,
        ),
{
}

/// After an event is deleted, a lookup of its identifier finds nothing,
/// whether or not the store held an event under it.
pub proof fn law_deleted_event_is_missing(s: StoreState, id: u64)
    ensures
        get_event_outcome(delete_event_outcome(s, id).store, id) == missing::<EventView>(
            quoting("An event with id="@, id, " not found"@),
            delete_event_outcome(s, id).store,
        ),
{
}

/// A well-formed account that fits a slot is created wherever the counter
/// stands below the largest identifier: it gets the identifier at which the
/// counter stood, the name and the balance of the payload and an empty
/// history, it is stored, and the counter moves on by one.
pub proof fn law_valid_user_is_created(s: StoreState, payload: UserPayloadView)
    requires
        user_payload_fault(payload) is None,
        user_bytes(new_user(s.next_id, payload)).len() <= SLOT_BYTES,
        s.next_id < u64::MAX,
    ensures
        add_user_outcome(s, payload) == (Outcome {
            result: Ok(new_user(s.next_id, payload)),
            store: StoreState {
                next_id: (s.next_id + 1) as u64,
                users: s.users.insert(s.next_id, new_user(s.next_id, payload)),
                ..s
            },
        }),
{
}

/// A well-formed event that fits a slot is created wherever the counter
/// stands below the largest identifier: it gets the identifier at which the
/// counter stood and the name, the participants and the odds of the
/// payload, it is upcoming, it is stored, and the counter moves on by one.
pub proof fn law_valid_event_is_created(s: StoreState, payload: EventPayloadView)
    requires
        event_payload_fault(payload) is None,
        event_bytes(new_event(s.next_id, payload)).len() <= SLOT_BYTES,
        s.next_id < u64::MAX,
    ensures
        add_event_outcome(s, payload) == (Outcome {
            result: Ok(new_event(s.next_id, payload)),
            store: StoreState {
                next_id: (s.next_id + 1) as u64,
                events: s.events.insert(s.next_id, new_event(s.next_id, payload)),
                ..s
            },
        }),
        new_event(s.next_id, payload).status == EventStatus::Upcoming,
{
}

/// A well-formed wager on an account that the store holds, and whose
/// history has room for one more, is placed wherever the counter stands
/// below the largest identifier: it gets the identifier at which the
/// counter stood, it is pending, it is stored, the history of the account
/// ends with it, and the counter moves on by one.
pub proof fn law_valid_bet_is_placed(s: StoreState, payload: BetPayload, now: u64)
    requires
        bet_payload_fault(payload) is None,
        s.users.contains_key(payload.user_id),
        user_bytes(
            UserView {
                bet_history: s.users[payload.user_id].bet_history.push(s.next_id),
                ..s.users[payload.user_id]
            },
        ).len() <= SLOT_BYTES,
        s.next_id < u64::MAX,
    ensures
        ({
            let placed = add_bet_outcome(s, payload, now);
            let bet = new_bet(s.next_id, payload, now);
            let account = s.users[payload.user_id];
            &&& placed.result == Ok::<Bet, ErrorView>(bet)
            &&& placed.store.next_id == s.next_id + 1
            &&& placed.store.bets == s.bets.insert(bet.id, bet)
            &&& placed.store.users == s.users.insert(
                payload.user_id,
                UserView { bet_history: account.bet_history.push(bet.id), ..account },
            )
            &&& placed.store.events == s.events
        }),
{
}

/// A wager is placed exactly when its payload is well formed and the store
/// holds its account, as long as the history of the account has room and
/// the counter stands below the largest identifier. Whether the store
/// holds the event plays no part.
pub proof fn law_bet_is_placed_exactly_when_in_order(s: StoreState, payload: BetPayload, now: u64)
    requires
        s.next_id < u64::MAX,
        s.users.contains_key(payload.user_id) ==> user_bytes(
            UserView {
                bet_history: s.users[payload.user_id].bet_history.push(s.next_id),
                ..s.users[payload.user_id]
            },
        ).len() <= SLOT_BYTES,
    ensures
        add_bet_outcome(s, payload, now).result is Ok <==> bet_payload_fault(payload) is None
            && s.users.contains_key(payload.user_id),
{
}

/// A creation of a wager, of an account or of an event.
pub enum Creation {
    Bet { bet: BetPayload, now: u64 },
    User { user: UserPayloadView },
    Event { event: EventPayloadView },
}

/// The store that a creation leaves.
pub open spec fn store_after(s: StoreState, creation: Creation) -> StoreState {
    match creation {
        Creation::Bet { bet, now } => add_bet_outcome(s, bet, now).store,
        Creation::User { user } => add_user_outcome(s, user).store,
        Creation::Event { event } => add_event_outcome(s, event).store,
    }
}

/// The identifier of the record that a creation returns, if it returns one.
pub open spec fn id_from(s: StoreState, creation: Creation) -> Option<u64> {
    match creation {
        Creation::Bet { bet, now } => match add_bet_outcome(s, bet, now).result {
            Ok(placed) => Some(placed.id),
            Err(_) => None,
        },
        Creation::User { user } => match add_user_outcome(s, user).result {
            Ok(created) => Some(created.id),
            Err(_) => None,
        },
        Creation::Event { event } => match add_event_outcome(s, event).result {
            Ok(created) => Some(created.id),
            Err(_) => None,
        },
    }
}

/// The identifiers that a run of creations returns, one after the other,
/// starting from the store `s`.
pub open spec fn ids_from(s: StoreState, creations: Seq<Creation>) -> Seq<u64>
    decreases creations.len(),
{
    if creations.len() == 0 {
        Seq::empty()
    } else {
        let later = ids_from(store_after(s, creations[0]), creations.skip(1));
        match id_from(s, creations[0]) {
            Some(id) => seq![id] + later,
            None => later,
        }
    }
}

/// A creation never moves the counter back, and an identifier that it
/// returns is the one at which the counter stood, which it then passes.
pub proof fn law_counter_only_advances(s: StoreState, creation: Creation)
    ensures
        s.next_id <= store_after(s, creation).next_id,
        id_from(s, creation) is Some ==> id_from(s, creation)->Some_0 == s.next_id && s.next_id
            < store_after(s, creation).next_id,
{
}

/// The identifiers that any run of creations returns, of whatever records,
/// are in rising order, so no two of them are equal, and none is below the
/// value at which the counter stood.
pub proof fn law_ids_are_distinct(s: StoreState, creations: Seq<Creation>)
    ensures
        forall|i: int, j: int|
            0 <= i < j < ids_from(s, creations).len() ==> ids_from(s, creations)[i] != ids_from(
                s,
                creations,
            )[j],
        forall|i: int, j: int|
            0 <= i < j < ids_from(s, creations).len() ==> ids_from(s, creations)[i] < ids_from(
                s,
                creations,
            )[j],
        forall|i: int|
            0 <= i < ids_from(s, creations).len() ==> s.next_id <= #[trigger] ids_from(
                s,
                creations,
            )[i],
    decreases creations.len(),
{
    if creations.len() > 0 {
        let ids = ids_from(s, creations);
        let next = store_after(s, creations[0]);
        let later = ids_from(next, creations.skip(1));
        law_counter_only_advances(s, creations[0]);
        law_ids_are_distinct(next, creations.skip(1));
        match id_from(s, creations[0]) {
            Some(id) => {
                assert(ids == seq![id] + later);
                assert forall|i: int, j: int| 0 <= i < j < ids.len() implies ids[i] < ids[j] by {
                    assert(ids[j] == later[j - 1]);
                    if i > 0 {
                        assert(ids[i] == later[i - 1]);
                    }
                }
                assert forall|i: int| 0 <= i < ids.len() implies s.next_id <= #[trigger] ids[i] by {
                    if i > 0 {
                        assert(ids[i] == later[i - 1]);
                    }
                }
            },
            None => {
                assert(ids == later);
            },
        }
    }
}

/// A withdrawal of more than an account holds is refused as invalid, and
/// leaves the store, and so the balance, as it was.
pub proof fn law_overdraft_is_refused(s: StoreState, user_id: u64, amount: u64)
    requires
        s.users.contains_key(user_id),
        amount > s.users[user_id].balance,
    ensures
        withdraw_balance_outcome(s, user_id, amount) == invalid::<UserView>(
            "Insufficient balance"@,
            s,
        ),
{
}

/// A withdrawal that succeeds takes exactly the amount, which the account
/// held: the balance does not go below zero.
pub proof fn law_withdrawal_is_covered(s: StoreState, user_id: u64, amount: u64)
    ensures
        ({
            let taken = withdraw_balance_outcome(s, user_id, amount);
            taken.result is Ok ==> s.users.contains_key(user_id) && amount
                <= s.users[user_id].balance && taken.result->Ok_0.balance
                == s.users[user_id].balance - amount
        }),
{
}

/// A deposit followed by a withdrawal of the same amount from the same
/// account succeeds and gives the account its first balance back; the
/// whole store is then as it was before the deposit.
pub proof fn law_deposit_then_withdraw(s: StoreState, user_id: u64, amount: u64)
    requires
        deposit_balance_outcome(s, user_id, amount).result is Ok,
    ensures
        ({
            let paid = deposit_balance_outcome(s, user_id, amount);
            let taken = withdraw_balance_outcome(paid.store, user_id, amount);
            &&& taken.result is Ok
            &&& taken.result->Ok_0 == s.users[user_id]
            &&& taken.store == s
        }),
{
    let paid = deposit_balance_outcome(s, user_id, amount);
    let taken = withdraw_balance_outcome(paid.store, user_id, amount);
    assert(taken.store.users =~= s.users);
}

/// A well-formed wager on an account that the store does not hold is
/// answered with `NotFound`, wherever the counter stands below the largest
/// identifier; the wager is stored all the same, under the identifier at
/// which the counter stood.
pub proof fn law_bet_needs_an_account(s: StoreState, payload: BetPayload, now: u64)
    requires
        !s.users.contains_key(payload.user_id),
        bet_payload_fault(payload) is None,
        s.next_id < u64::MAX,
    ensures
        add_bet_outcome(s, payload, now) == missing::<Bet>(
            quoting("User with id="@, payload.user_id, " not found"@),
            StoreState {
                next_id: (s.next_id + 1) as u64,
                bets: s.bets.insert(s.next_id, new_bet(s.next_id, payload, now)),
                ..s
            },
        ),
{
}

/// A store that holds nothing is consistent.
pub proof fn law_empty_store_is_consistent(next_id: u64)
    ensures
        consistent(empty_store(next_id)),
{
}

/// In a consistent store no record stands under the identifier that the
/// next creation hands out: a creation never replaces a record, and an
/// identifier that was handed out is never handed out again, whatever was
/// deleted since.
pub proof fn law_next_id_is_unused(s: StoreState)
    requires
        consistent(s),
    ensures
        !s.bets.contains_key(s.next_id),
        !s.users.contains_key(s.next_id),
        !s.events.contains_key(s.next_id),
{
}

/// Placing a wager keeps a store consistent, and the history of the
/// account then names the wager exactly once: at its end, and nowhere
/// before.
pub proof fn law_add_bet_keeps_consistent(
    s: StoreState,
    payload: BetPayload,
    now: u64,
)
    requires
        consistent(s),
    ensures
        consistent(add_bet_outcome(s, payload, now).store),
        ({
            let placed = add_bet_outcome(s, payload, now);
            placed.result is Ok ==> {
                let before = s.users[payload.user_id].bet_history;
                let history = placed.store.users[payload.user_id].bet_history;
                &&& history == before.push(placed.result->Ok_0.id)
                &&& !before.contains(placed.result->Ok_0.id)
            }
        }),
{
    let placed = add_bet_outcome(s, payload, now);
    let t = placed.store;
    if t != s {
        assert forall|id: u64| #[trigger] t.users.contains_key(id) implies t.users[id].id == id
            && id < t.next_id && orderly(
            t.users[id].bet_history,
            t.next_id,
        ) by {
            if placed.result is Ok && id == payload.user_id {
                assert(s.users.contains_key(id));
                let before = s.users[id].bet_history;
                assert(orderly(before, s.next_id));
            } else {
                assert(s.users.contains_key(id));
                assert(orderly(s.users[id].bet_history, s.next_id));
            }
        }
        assert forall|id: u64| #[trigger] t.events.contains_key(id) implies t.events[id].id == id
            && id < t.next_id by {
            assert(s.events.contains_key(id));
        }
    }
    if placed.result is Ok {
        let before = s.users[payload.user_id].bet_history;
        assert(s.users.contains_key(payload.user_id));
        assert(orderly(before, s.next_id));
        if before.contains(s.next_id) {
            let i = choose|i: int| 0 <= i < before.len() && before[i] == s.next_id;
            assert(before[i] < s.next_id);
        }
    }
}

/// A change of the status of a wager keeps a store consistent.
pub proof fn law_update_bet_status_keeps_consistent(
    s: StoreState,
    id: u64,
    status: BetStatus,
    now: u64,
)
    requires
        consistent(s),
    ensures
        consistent(update_bet_status_outcome(s, id, status, now).store),
{
}

/// Deleting a wager keeps a store consistent.
pub proof fn law_delete_bet_keeps_consistent(s: StoreState, id: u64)
    requires
        consistent(s),
    ensures
        consistent(delete_bet_outcome(s, id).store),
{
}

/// Creating an account keeps a store consistent.
pub proof fn law_add_user_keeps_consistent(s: StoreState, payload: UserPayloadView)
    requires
        consistent(s),
    ensures
        consistent(add_user_outcome(s, payload).store),
{
    let created = add_user_outcome(s, payload).store;
    if created != s {
        assert forall|k: u64| #[trigger] created.users.contains_key(k) implies orderly(
            created.users[k].bet_history,
            created.next_id,
        ) by {
            if k != s.next_id {
                assert(s.users.contains_key(k));
                assert(orderly(s.users[k].bet_history, s.next_id));
            }
        }
        assert forall|k: u64| #[trigger] created.events.contains_key(k) implies k
            < created.next_id by {
            assert(s.events.contains_key(k));
        }
        assert forall|k: u64| #[trigger] created.bets.contains_key(k) implies k
            < created.next_id by {
            assert(s.bets.contains_key(k));
        }
    }
}

/// Updating an account keeps a store consistent.
pub proof fn law_update_user_keeps_consistent(s: StoreState, id: u64, payload: UserPayloadView)
    requires
        consistent(s),
    ensures
        consistent(update_user_outcome(s, id, payload).store),
{
}

/// Deleting an account keeps a store consistent.
pub proof fn law_delete_user_keeps_consistent(s: StoreState, id: u64)
    requires
        consistent(s),
    ensures
        consistent(delete_user_outcome(s, id).store),
{
}

/// A deposit and a withdrawal keep a store consistent.
pub proof fn law_balance_changes_keep_consistent(s: StoreState, user_id: u64, amount: u64)
    requires
        consistent(s),
    ensures
        consistent(deposit_balance_outcome(s, user_id, amount).store),
        consistent(withdraw_balance_outcome(s, user_id, amount).store),
{
}

/// Creating an event keeps a store consistent.
pub proof fn law_add_event_keeps_consistent(s: StoreState, payload: EventPayloadView)
    requires
        consistent(s),
    ensures
        consistent(add_event_outcome(s, payload).store),
{
    let created = add_event_outcome(s, payload).store;
    if created != s {
        assert forall|k: u64| #[trigger] created.users.contains_key(k) implies k < created.next_id
            && orderly(created.users[k].bet_history, created.next_id) by {
            assert(s.users.contains_key(k));
            assert(orderly(s.users[k].bet_history, s.next_id));
        }
        assert forall|k: u64| #[trigger] created.bets.contains_key(k) implies k
            < created.next_id by {
            assert(s.bets.contains_key(k));
        }
    }
}

/// Updating an event keeps a store consistent.
pub proof fn law_update_event_keeps_consistent(s: StoreState, id: u64, payload: EventPayloadView)
    requires
        consistent(s),
    ensures
        consistent(update_event_outcome(s, id, payload).store),
{
}

/// Deleting an event keeps a store consistent.
pub proof fn law_delete_event_keeps_consistent(s: StoreState, id: u64)
    requires
        consistent(s),
    ensures
        consistent(delete_event_outcome(s, id).store),
{
}

/// A change of the status of an event keeps a store consistent.
pub proof fn law_update_event_status_keeps_consistent(
    s: StoreState,
    event_id: u64,
    status: EventStatus,
)
    requires
        consistent(s),
    ensures
        consistent(update_event_status_outcome(s, event_id, status).store),
{
}

} // verus!
