use tokenized_sports_betting::model::{
    BetPayload, Error, EventPayload, EventStatus, Odds, UserPayload, POSITIVE_INFINITY_BITS,
};
use tokenized_sports_betting::store::Store;
use tokenized_sports_betting::text::{char_is_whitespace, text_is_blank};
use tokenized_sports_betting::validate::{
    validate_bet_payload, validate_event_payload, validate_user_payload,
};

fn odds(value: f64) -> Odds {
    Odds { bits: value.to_bits() }
}

fn invalid(msg: &str) -> Error {
    Error::InvalidInput { msg: msg.to_string() }
}

fn event(name: &str, participants: &[&str], prices: &[f64]) -> EventPayload {
    EventPayload {
        name: name.to_string(),
        participants: participants.iter().map(|p| p.to_string()).collect(),
        odds: prices.iter().map(|p| odds(*p)).collect(),
        status: EventStatus::Upcoming,
    }
}

#[test]
fn odds_are_positive_exactly_when_the_number_is_above_zero() {
    assert!(odds(1.5).is_positive());
    assert!(odds(f64::MIN_POSITIVE).is_positive());
    assert!(odds(5e-324).is_positive());
    assert!(odds(f64::MAX).is_positive());
    assert!(odds(f64::INFINITY).is_positive());
    assert!(!odds(0.0).is_positive());
    assert!(!odds(-0.0).is_positive());
    assert!(!odds(-1.5).is_positive());
    assert!(!odds(f64::NEG_INFINITY).is_positive());
    assert!(!odds(f64::NAN).is_positive());
    assert!(!odds(-f64::NAN).is_positive());
    assert_eq!(POSITIVE_INFINITY_BITS, f64::INFINITY.to_bits());
}

#[test]
fn a_wager_needs_a_stake_and_positive_odds() {
    let good = BetPayload { user_id: 1, event_id: 2, amount: 1, odds: odds(1.01) };
    assert_eq!(validate_bet_payload(&good), Ok(()));
    let no_stake = BetPayload { amount: 0, ..good };
    assert_eq!(
        validate_bet_payload(&no_stake),
        Err(invalid("Bet amount must be greater than zero"))
    );
    let no_odds = BetPayload { odds: odds(0.0), ..good };
    assert_eq!(validate_bet_payload(&no_odds), Err(invalid("Odds must be greater than zero")));
    let negative = BetPayload { odds: odds(-2.0), ..good };
    assert_eq!(validate_bet_payload(&negative), Err(invalid("Odds must be greater than zero")));
    let neither = BetPayload { amount: 0, odds: odds(0.0), ..good };
    assert_eq!(
        validate_bet_payload(&neither),
        Err(invalid("Bet amount must be greater than zero"))
    );
}

#[test]
fn white_space_is_the_unicode_property() {
    for c in [' ', '\t', '\n', '\u{b}', '\u{c}', '\r', '\u{85}', '\u{a0}', '\u{1680}', '\u{2000}',
        '\u{2005}', '\u{200a}', '\u{2028}', '\u{2029}', '\u{202f}', '\u{205f}', '\u{3000}']
    {
        assert!(char_is_whitespace(c));
    }
    for c in ['a', '0', '\u{8}', '\u{e}', '\u{200b}', '\u{180e}', '\u{feff}', '_'] {
        assert!(!char_is_whitespace(c));
    }
    for code in 0..0x3100u32 {
        if let Some(c) = char::from_u32(code) {
            assert_eq!(char_is_whitespace(c), c.is_whitespace());
        }
    }
}

#[test]
fn a_text_is_blank_when_trimming_leaves_nothing() {
    for text in ["", " ", "\t\n ", "\u{3000}\u{a0}", "a", " a ", "\u{200b}", "  .  "] {
        assert_eq!(text_is_blank(text), text.trim().is_empty());
    }
    assert!(text_is_blank("   "));
    assert!(!text_is_blank(" x "));
}

#[test]
fn an_account_needs_a_name() {
    let named = UserPayload { username: " dave ".to_string(), balance: 0 };
    assert_eq!(validate_user_payload(&named), Ok(()));
    for name in ["", "   ", "\t\n"] {
        let blank = UserPayload { username: name.to_string(), balance: 5 };
        assert_eq!(validate_user_payload(&blank), Err(invalid("Username cannot be empty")));
    }
}

#[test]
fn an_event_needs_a_name_a_participant_and_a_price() {
    assert_eq!(validate_event_payload(&event("E", &["A"], &[1.5])), Ok(()));
    assert_eq!(validate_event_payload(&event("E", &["A", "B"], &[1.5])), Ok(()));
    assert_eq!(
        validate_event_payload(&event(" ", &[], &[])),
        Err(invalid("Event name cannot be empty"))
    );
    assert_eq!(
        validate_event_payload(&event("E", &[], &[])),
        Err(invalid("Event must have at least one participant"))
    );
    assert_eq!(
        validate_event_payload(&event("E", &["A"], &[])),
        Err(invalid("Event must have odds defined"))
    );
}

#[test]
fn an_invalid_payload_leaves_the_store_as_it_was() {
    let mut store = Store::new().unwrap();
    assert_eq!(
        store.add_user(UserPayload { username: "  ".to_string(), balance: 1 }),
        Err(invalid("Username cannot be empty"))
    );
    assert_eq!(
        store.add_event(event("E", &[], &[1.0])),
        Err(invalid("Event must have at least one participant"))
    );
    assert_eq!(
        store.add_bet(BetPayload { user_id: 1, event_id: 1, amount: 0, odds: odds(2.0) }, 5),
        Err(invalid("Bet amount must be greater than zero"))
    );
    assert_eq!(store.next_id(), 1);
    assert!(store.get_bet(1).is_err());

    let user = store.add_user(UserPayload { username: "erin".to_string(), balance: 1 }).unwrap();
    assert_eq!(
        store.update_user(user.id, UserPayload { username: "".to_string(), balance: 9 }),
        Err(invalid("Username cannot be empty"))
    );
    assert_eq!(
        store.update_user(44, UserPayload { username: "".to_string(), balance: 9 }),
        Err(invalid("Username cannot be empty"))
    );
    assert_eq!(store.get_user(user.id), Ok(user));
    let game = store.add_event(event("E", &["A"], &[1.0])).unwrap();
    assert_eq!(
        store.update_event(game.id, event("E", &["A"], &[])),
        Err(invalid("Event must have odds defined"))
    );
    assert_eq!(store.get_event(game.id), Ok(game));
}
