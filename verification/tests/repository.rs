use tokenized_sports_betting::model::{
    BetPayload, BetStatus, Error, EventPayload, EventStatus, Odds, UserPayload,
};
use tokenized_sports_betting::store::{Store, FIRST_ID};

fn odds(value: f64) -> Odds {
    Odds { bits: value.to_bits() }
}

fn user(name: &str, balance: u64) -> UserPayload {
    UserPayload { username: name.to_string(), balance }
}

fn event(name: &str) -> EventPayload {
    EventPayload {
        name: name.to_string(),
        participants: vec!["Home".to_string(), "Away".to_string()],
        odds: vec![odds(1.25), odds(3.5)],
        status: EventStatus::Upcoming,
    }
}

fn bet(user_id: u64, event_id: u64, amount: u64) -> BetPayload {
    BetPayload { user_id, event_id, amount, odds: odds(2.0) }
}

fn not_found(msg: &str) -> Error {
    Error::NotFound { msg: msg.to_string() }
}

#[test]
fn a_store_opened_in_fresh_memory_starts_at_the_first_id_and_holds_nothing() {
    let mut store = Store::open().unwrap();
    assert_eq!(store.next_id(), FIRST_ID);
    assert_eq!(store.get_user(1), Err(not_found("A user with id=1 not found")));
    assert_eq!(store.get_bet(1), Err(not_found("A bet with id=1 not found")));
    assert_eq!(store.get_event(1), Err(not_found("An event with id=1 not found")));
    let created = store.add_user(user("bob", 12)).unwrap();
    assert_eq!(created.id, 1);
    assert_eq!(store.get_user(1), Ok(created));
    assert_eq!(store.next_id(), 2);
}

#[test]
fn a_new_store_starts_at_the_first_id_and_holds_nothing() {
    let store = Store::new().unwrap();
    assert_eq!(store.next_id(), 1);
    assert_eq!(store.get_user(1), Err(not_found("A user with id=1 not found")));
    assert_eq!(store.get_bet(1), Err(not_found("A bet with id=1 not found")));
    assert_eq!(store.get_event(1), Err(not_found("An event with id=1 not found")));
}

#[test]
fn a_created_account_is_found_under_its_id() {
    let mut store = Store::new().unwrap();
    let created = store.add_user(user("bob", 12)).unwrap();
    assert_eq!(store.get_user(created.id), Ok(created.clone()));
    assert_eq!(created.username, "bob");
    assert_eq!(created.balance, 12);
    assert_eq!(store.next_id(), created.id + 1);
}

#[test]
fn a_created_event_is_found_under_its_id() {
    let mut store = Store::new().unwrap();
    let payload = event("Final");
    let created = store.add_event(payload.clone()).unwrap();
    assert_eq!(created.id, 1);
    assert_eq!(created.name, "Final");
    assert_eq!(created.participants, payload.participants);
    assert_eq!(created.odds, payload.odds);
    assert_eq!(created.status, EventStatus::Upcoming);
    assert_eq!(store.get_event(created.id), Ok(created));
    assert_eq!(store.next_id(), 2);
}

#[test]
fn a_new_event_is_upcoming_whatever_status_its_payload_names() {
    let mut store = Store::new().unwrap();
    for status in [EventStatus::Ongoing, EventStatus::Completed, EventStatus::Cancelled] {
        let mut payload = event("Final");
        payload.status = status;
        let created = store.add_event(payload).unwrap();
        assert_eq!(created.status, EventStatus::Upcoming);
        assert_eq!(store.get_event(created.id).unwrap().status, EventStatus::Upcoming);
    }
}

#[test]
fn a_placed_wager_is_found_under_its_id() {
    let mut store = Store::new().unwrap();
    let account = store.add_user(user("bob", 12)).unwrap();
    let placed = store.add_bet(bet(account.id, 9, 5), 1_000).unwrap();
    assert_eq!(placed.user_id, account.id);
    assert_eq!(placed.event_id, 9);
    assert_eq!(placed.amount, 5);
    assert_eq!(placed.odds, odds(2.0));
    assert_eq!(store.get_bet(placed.id), Ok(placed));
}

#[test]
fn ids_of_all_kinds_come_from_one_counter() {
    let mut store = Store::new().unwrap();
    let a = store.add_user(user("a", 0)).unwrap().id;
    let b = store.add_event(event("b")).unwrap().id;
    let c = store.add_bet(bet(a, b, 1), 0).unwrap().id;
    let d = store.add_user(user("d", 0)).unwrap().id;
    let e = store.add_event(event("e")).unwrap().id;
    let f = store.add_bet(bet(d, e, 1), 0).unwrap().id;
    assert_eq!(vec![a, b, c, d, e, f], vec![1, 2, 3, 4, 5, 6]);
}

#[test]
fn an_id_is_not_handed_out_again_after_a_delete() {
    let mut store = Store::new().unwrap();
    let first = store.add_user(user("a", 0)).unwrap();
    store.delete_user(first.id).unwrap();
    let second = store.add_user(user("a", 0)).unwrap();
    assert_eq!(first.id, 1);
    assert_eq!(second.id, 2);
}

#[test]
fn a_deleted_account_is_gone() {
    let mut store = Store::new().unwrap();
    let created = store.add_user(user("bob", 12)).unwrap();
    assert_eq!(store.delete_user(created.id), Ok(created));
    assert_eq!(store.get_user(1), Err(not_found("A user with id=1 not found")));
    assert_eq!(
        store.delete_user(1),
        Err(not_found("Couldn't delete a user with id=1. User not found."))
    );
}

#[test]
fn deleting_what_was_never_created_reports_not_found() {
    let mut store = Store::new().unwrap();
    assert_eq!(
        store.delete_bet(77),
        Err(not_found("Couldn't delete a bet with id=77. Bet not found."))
    );
    assert_eq!(
        store.delete_user(78),
        Err(not_found("Couldn't delete a user with id=78. User not found."))
    );
    assert_eq!(
        store.delete_event(18446744073709551615),
        Err(not_found("Couldn't delete an event with id=18446744073709551615. Event not found."))
    );
    assert_eq!(store.get_bet(77), Err(not_found("A bet with id=77 not found")));
    assert_eq!(store.get_user(78), Err(not_found("A user with id=78 not found")));
    assert_eq!(store.get_event(0), Err(not_found("An event with id=0 not found")));
    assert_eq!(store.next_id(), 1);
}

#[test]
fn a_deleted_event_and_a_deleted_wager_are_gone() {
    let mut store = Store::new().unwrap();
    let account = store.add_user(user("bob", 12)).unwrap();
    let game = store.add_event(event("g")).unwrap();
    let placed = store.add_bet(bet(account.id, game.id, 5), 3).unwrap();
    assert_eq!(store.delete_event(game.id), Ok(game));
    assert_eq!(store.get_event(2), Err(not_found("An event with id=2 not found")));
    assert_eq!(store.delete_bet(placed.id), Ok(placed));
    assert_eq!(store.get_bet(3), Err(not_found("A bet with id=3 not found")));
}

#[test]
fn an_update_replaces_name_and_balance_and_keeps_the_history() {
    let mut store = Store::new().unwrap();
    let account = store.add_user(user("bob", 12)).unwrap();
    let placed = store.add_bet(bet(account.id, 9, 5), 3).unwrap();
    let updated = store.update_user(account.id, user("robert", 40)).unwrap();
    assert_eq!(updated.id, account.id);
    assert_eq!(updated.username, "robert");
    assert_eq!(updated.balance, 40);
    assert_eq!(updated.bet_history, vec![placed.id]);
    assert_eq!(store.get_user(account.id), Ok(updated));
    assert_eq!(
        store.update_user(50, user("x", 1)),
        Err(not_found("Couldn't update a user with id=50. User not found"))
    );
}

#[test]
fn an_update_replaces_every_field_of_an_event_but_its_id() {
    let mut store = Store::new().unwrap();
    let game = store.add_event(event("g")).unwrap();
    let payload = EventPayload {
        name: "h".to_string(),
        participants: vec!["X".to_string()],
        odds: vec![odds(9.0), odds(8.0), odds(7.0)],
        status: EventStatus::Completed,
    };
    let updated = store.update_event(game.id, payload.clone()).unwrap();
    assert_eq!(updated.id, game.id);
    assert_eq!(updated.name, payload.name);
    assert_eq!(updated.participants, payload.participants);
    assert_eq!(updated.odds, payload.odds);
    assert_eq!(updated.status, EventStatus::Completed);
    assert_eq!(store.get_event(game.id), Ok(updated));
    assert_eq!(
        store.update_event(50, payload),
        Err(not_found("Couldn't update an event with id=50. Event not found"))
    );
}

#[test]
fn the_status_of_an_event_is_overwritten() {
    let mut store = Store::new().unwrap();
    let game = store.add_event(event("g")).unwrap();
    let updated = store.update_event_status(game.id, EventStatus::Cancelled).unwrap();
    assert_eq!(updated.status, EventStatus::Cancelled);
    assert_eq!(updated.name, game.name);
    assert_eq!(updated.participants, game.participants);
    assert_eq!(updated.odds, game.odds);
    assert_eq!(store.get_event(game.id), Ok(updated));
    assert_eq!(
        store.update_event_status(50, EventStatus::Ongoing),
        Err(not_found("Event not found"))
    );
}

#[test]
fn a_status_update_of_a_missing_wager_reports_not_found() {
    let mut store = Store::new().unwrap();
    assert_eq!(
        store.update_bet_status(3, BetStatus::Lost, 1),
        Err(not_found("Couldn't update a bet with id=3. Bet not found"))
    );
}

#[test]
fn a_wager_for_a_missing_account_reports_not_found_and_stays_stored() {
    let mut store = Store::new().unwrap();
    let refused = store.add_bet(bet(40, 2, 5), 9);
    assert_eq!(refused, Err(not_found("User with id=40 not found")));
    assert_eq!(store.next_id(), 2);
    let kept = store.get_bet(1).unwrap();
    assert_eq!(kept.user_id, 40);
    assert_eq!(kept.amount, 5);
    assert_eq!(kept.status, BetStatus::Pending);
    assert_eq!(kept.created_at, 9);
}

#[test]
fn the_wagers_of_an_account_come_in_the_order_placed_without_the_deleted() {
    let mut store = Store::new().unwrap();
    let account = store.add_user(user("bob", 12)).unwrap();
    let first = store.add_bet(bet(account.id, 7, 1), 10).unwrap();
    let second = store.add_bet(bet(account.id, 7, 2), 11).unwrap();
    let third = store.add_bet(bet(account.id, 8, 3), 12).unwrap();
    assert_eq!(store.get_user_bets(account.id), Ok(vec![first, second, third]));
    store.delete_bet(second.id).unwrap();
    assert_eq!(store.get_user_bets(account.id), Ok(vec![first, third]));
    assert_eq!(
        store.get_user(account.id).unwrap().bet_history,
        vec![first.id, second.id, third.id]
    );
    assert_eq!(store.get_user_bets(99), Err(not_found("User not found")));
}

#[test]
fn an_identifier_that_was_handed_out_is_used_up() {
    let mut store = Store::new().unwrap();
    assert_eq!(store.allocate(), Ok(1));
    assert_eq!(store.allocate(), Ok(2));
    assert_eq!(store.next_id(), 3);
    assert_eq!(store.add_user(user("a", 0)).unwrap().id, 3);
}

#[test]
fn a_change_in_place_never_wants_room() {
    let mut store = Store::new().unwrap();
    let account = store.add_user(user(&"n".repeat(1000), 1)).unwrap();
    assert_eq!(store.deposit_balance(account.id, u64::MAX - 1).unwrap().balance, u64::MAX);
    assert_eq!(store.withdraw_balance(account.id, u64::MAX).unwrap().balance, 0);
    let mut payload = event(&"e".repeat(900));
    payload.participants = vec!["p".repeat(40), "q".repeat(30)];
    payload.odds = vec![odds(1.5)];
    let game = store.add_event(payload).unwrap();
    let closed = store.update_event_status(game.id, EventStatus::Completed).unwrap();
    assert_eq!(closed.status, EventStatus::Completed);
    assert_eq!(store.get_event(game.id), Ok(closed));
}
