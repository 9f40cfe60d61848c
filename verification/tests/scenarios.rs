use tokenized_sports_betting::model::{
    BetPayload, BetStatus, Error, EventPayload, EventStatus, Odds, UserPayload,
};
use tokenized_sports_betting::store::Store;

fn odds(value: f64) -> Odds {
    Odds { bits: value.to_bits() }
}

fn alice() -> UserPayload {
    UserPayload { username: "alice".to_string(), balance: 100 }
}

fn match_day() -> EventPayload {
    EventPayload {
        name: "E".to_string(),
        participants: vec!["A".to_string(), "B".to_string()],
        odds: vec![odds(1.5), odds(2.0)],
        status: EventStatus::Upcoming,
    }
}

#[test]
fn account_event_and_wager_take_the_first_three_ids() {
    let mut store = Store::new().unwrap();
    let user = store.add_user(alice()).unwrap();
    assert_eq!(user.id, 1);
    assert_eq!(user.username, "alice");
    assert_eq!(user.balance, 100);
    assert!(user.bet_history.is_empty());

    let event = store.add_event(match_day()).unwrap();
    assert_eq!(event.id, 2);

    let bet = store
        .add_bet(BetPayload { user_id: 1, event_id: 2, amount: 50, odds: odds(1.5) }, 7)
        .unwrap();
    assert_eq!(bet.id, 3);
    assert_eq!(bet.status, BetStatus::Pending);
    assert_eq!(bet.created_at, 7);
    assert_eq!(bet.updated_at, None);

    let bets = store.get_user_bets(1).unwrap();
    assert_eq!(bets, vec![bet]);
    assert_eq!(store.get_user(1).unwrap().bet_history, vec![3]);

    let refused = store.withdraw_balance(1, 1000).unwrap_err();
    assert_eq!(refused, Error::InvalidInput { msg: "Insufficient balance".to_string() });
    assert_eq!(store.get_user(1).unwrap().balance, 100);
}

#[test]
fn a_settled_wager_can_be_given_any_status_again() {
    let mut store = Store::new().unwrap();
    store.add_user(alice()).unwrap();
    store.add_event(match_day()).unwrap();
    store.add_bet(BetPayload { user_id: 1, event_id: 2, amount: 50, odds: odds(1.5) }, 7).unwrap();

    let won = store.update_bet_status(3, BetStatus::Won, 11).unwrap();
    assert_eq!(won.status, BetStatus::Won);
    assert_eq!(won.updated_at, Some(11));
    assert_eq!(store.get_bet(3).unwrap(), won);

    let cancelled = store.update_bet_status(3, BetStatus::Cancelled, 12).unwrap();
    assert_eq!(cancelled.status, BetStatus::Cancelled);
    assert_eq!(cancelled.updated_at, Some(12));
    assert_eq!(cancelled.created_at, 7);
}

#[test]
fn a_history_that_fills_the_slot_of_its_account_takes_no_more_wagers() {
    let mut store = Store::new().unwrap();
    let user = store.add_user(alice()).unwrap();
    let room = (1024 - 24 - "alice".len()) / 8;
    for n in 0..room {
        let bet = store
            .add_bet(BetPayload { user_id: user.id, event_id: 2, amount: 1, odds: odds(1.5) }, 0)
            .unwrap();
        assert_eq!(bet.id, 2 + n as u64);
    }
    let before = store.get_user(user.id).unwrap();
    assert_eq!(before.bet_history.len(), room);
    let refused =
        store.add_bet(BetPayload { user_id: user.id, event_id: 2, amount: 1, odds: odds(1.5) }, 0);
    assert_eq!(
        refused,
        Err(Error::Storage { msg: "Record does not fit a slot of the map".to_string() })
    );
    assert_eq!(store.next_id(), 2 + room as u64);
    assert!(store.get_bet(2 + room as u64).is_err());
    assert_eq!(store.get_user(user.id), Ok(before));
    assert_eq!(store.get_user_bets(user.id).unwrap().len(), room);
}

#[test]
fn an_error_hands_out_its_message() {
    let mut store = Store::new().unwrap();
    let missing = store.get_event(5).unwrap_err();
    assert_eq!(missing.message(), "An event with id=5 not found");
    let invalid = store.deposit_balance(5, 0).unwrap_err();
    assert_eq!(invalid.message(), "Deposit amount must be greater than zero");
    let reserved = Error::Unauthorized { msg: "no".to_string() };
    assert_eq!(reserved.message(), "no");
    let storage = Error::Storage { msg: "full".to_string() };
    assert_eq!(storage.message(), "full");
}

#[test]
fn the_first_status_of_a_record_is_the_default_one() {
    assert_eq!(BetStatus::default(), BetStatus::Pending);
    assert_eq!(EventStatus::default(), EventStatus::Upcoming);
}
