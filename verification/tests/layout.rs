use tokenized_sports_betting::durable::SLOT_BYTES;
use tokenized_sports_betting::model::{
    Bet, BetStatus, Error, Event, EventStatus, Odds, User, UserPayload,
};
use tokenized_sports_betting::records::{
    decode_bet, decode_event, decode_user, encode_bet, encode_event, encode_user,
};
use tokenized_sports_betting::store::Store;
use tokenized_sports_betting::text::{message_quoting, push_decimal};
use tokenized_sports_betting::wire::{put_text, put_u32, put_u64, put_u64s, put_u8, Reader};

fn sample_bet() -> Bet {
    Bet {
        id: 3,
        user_id: 1,
        event_id: 2,
        amount: 50,
        odds: Odds { bits: 1.5f64.to_bits() },
        status: BetStatus::Lost,
        created_at: 0x0102030405060708,
        updated_at: Some(9),
    }
}

fn sample_user() -> User {
    User { id: 1, username: "zoë".to_string(), balance: 100, bet_history: vec![3, 260] }
}

fn sample_event() -> Event {
    Event {
        id: 2,
        name: "E".to_string(),
        participants: vec!["A".to_string(), "".to_string(), "Bé".to_string()],
        odds: vec![Odds { bits: 1.5f64.to_bits() }, Odds { bits: 2.0f64.to_bits() }],
        status: EventStatus::Completed,
    }
}

#[test]
fn numbers_are_written_in_decimal() {
    let mut out = String::from("n=");
    push_decimal(&mut out, 0);
    push_decimal(&mut out, 7);
    push_decimal(&mut out, 10);
    push_decimal(&mut out, 4096);
    assert_eq!(out, "n=07104096");
    assert_eq!(message_quoting("<", u64::MAX, ">"), "<18446744073709551615>");
    assert_eq!(message_quoting("A bet with id=", 42, " not found"), "A bet with id=42 not found");
}

#[test]
fn the_layout_of_an_account_is_exact() {
    let bytes = encode_user(&sample_user()).unwrap();
    let mut expected: Vec<u8> = Vec::new();
    expected.extend_from_slice(&[1, 0, 0, 0, 0, 0, 0, 0]);
    expected.extend_from_slice(&[100, 0, 0, 0, 0, 0, 0, 0]);
    expected.extend_from_slice(&[4, 0, 0, 0]);
    expected.extend_from_slice("zoë".as_bytes());
    expected.extend_from_slice(&[2, 0, 0, 0]);
    expected.extend_from_slice(&[3, 0, 0, 0, 0, 0, 0, 0]);
    expected.extend_from_slice(&[4, 1, 0, 0, 0, 0, 0, 0]);
    assert_eq!(bytes, expected);
    assert_eq!(bytes.len(), 24 + 4 + 8 * 2);
}

#[test]
fn the_layout_of_a_wager_is_exact() {
    let bytes = encode_bet(&sample_bet());
    assert_eq!(bytes.len(), 58);
    assert_eq!(&bytes[0..8], &3u64.to_le_bytes());
    assert_eq!(&bytes[8..16], &1u64.to_le_bytes());
    assert_eq!(&bytes[16..24], &2u64.to_le_bytes());
    assert_eq!(&bytes[24..32], &50u64.to_le_bytes());
    assert_eq!(&bytes[32..40], &1.5f64.to_bits().to_le_bytes());
    assert_eq!(bytes[40], 2);
    assert_eq!(&bytes[41..49], &[8, 7, 6, 5, 4, 3, 2, 1]);
    assert_eq!(bytes[49], 1);
    assert_eq!(&bytes[50..58], &9u64.to_le_bytes());
    let pending = Bet { updated_at: None, status: BetStatus::Pending, ..sample_bet() };
    let bytes = encode_bet(&pending);
    assert_eq!(bytes[40], 0);
    assert_eq!(&bytes[49..58], &[0u8; 9]);
}

#[test]
fn the_layout_of_an_event_is_exact() {
    let bytes = encode_event(&sample_event()).unwrap();
    let mut expected: Vec<u8> = Vec::new();
    expected.extend_from_slice(&2u64.to_le_bytes());
    expected.push(2);
    expected.extend_from_slice(&[1, 0, 0, 0, b'E']);
    expected.extend_from_slice(&[3, 0, 0, 0]);
    expected.extend_from_slice(&[1, 0, 0, 0, b'A']);
    expected.extend_from_slice(&[0, 0, 0, 0]);
    expected.extend_from_slice(&[3, 0, 0, 0]);
    expected.extend_from_slice("Bé".as_bytes());
    expected.extend_from_slice(&[2, 0, 0, 0]);
    expected.extend_from_slice(&1.5f64.to_bits().to_le_bytes());
    expected.extend_from_slice(&2.0f64.to_bits().to_le_bytes());
    assert_eq!(bytes, expected);
}

#[test]
fn decoding_gives_back_what_was_encoded() {
    assert_eq!(decode_bet(&encode_bet(&sample_bet())), Some(sample_bet()));
    assert_eq!(decode_user(&encode_user(&sample_user()).unwrap()), Some(sample_user()));
    assert_eq!(decode_event(&encode_event(&sample_event()).unwrap()), Some(sample_event()));
    for status in [BetStatus::Pending, BetStatus::Won, BetStatus::Lost, BetStatus::Cancelled] {
        let bet = Bet { status, updated_at: None, ..sample_bet() };
        assert_eq!(decode_bet(&encode_bet(&bet)), Some(bet));
    }
    for status in
        [EventStatus::Upcoming, EventStatus::Ongoing, EventStatus::Completed, EventStatus::Cancelled]
    {
        let event = Event { status, ..sample_event() };
        assert_eq!(decode_event(&encode_event(&event).unwrap()), Some(event));
    }
}

#[test]
fn bytes_that_spell_no_record_are_refused() {
    let good = encode_user(&sample_user()).unwrap();
    assert_eq!(decode_user(&good[..good.len() - 1]), None);
    let mut longer = good.clone();
    longer.push(0);
    assert_eq!(decode_user(&longer), None);
    let mut bad_text = good.clone();
    bad_text[21] = 0xff;
    assert_eq!(decode_user(&bad_text), None);
    assert_eq!(decode_user(&[]), None);

    let bet = encode_bet(&sample_bet());
    assert_eq!(decode_bet(&bet[..57]), None);
    let mut bad_status = bet.clone();
    bad_status[40] = 4;
    assert_eq!(decode_bet(&bad_status), None);
    let mut bad_flag = bet.clone();
    bad_flag[49] = 2;
    assert_eq!(decode_bet(&bad_flag), None);

    let event = encode_event(&sample_event()).unwrap();
    let mut bad_status = event.clone();
    bad_status[8] = 9;
    assert_eq!(decode_event(&bad_status), None);
    let mut bad_count = event.clone();
    bad_count[14] = 200;
    assert_eq!(decode_event(&bad_count), None);
}

#[test]
fn a_writer_stops_at_the_end_of_a_slot() {
    let mut out: Vec<u8> = vec![0; SLOT_BYTES - 8];
    assert!(put_u32(&mut out, 7));
    assert!(!put_u64(&mut out, 7));
    assert!(put_u32(&mut out, 7));
    assert!(!put_u8(&mut out, 7));
    assert_eq!(out.len(), SLOT_BYTES);

    let mut out: Vec<u8> = Vec::new();
    assert!(put_text(&mut out, &"x".repeat(SLOT_BYTES - 4)));
    assert_eq!(out.len(), SLOT_BYTES);
    let mut out: Vec<u8> = Vec::new();
    assert!(!put_text(&mut out, &"x".repeat(SLOT_BYTES - 3)));
    let mut out: Vec<u8> = Vec::new();
    assert!(put_u64s(&mut out, &vec![1; 127]));
    assert_eq!(out.len(), 4 + 8 * 127);
    let mut out: Vec<u8> = Vec::new();
    assert!(!put_u64s(&mut out, &vec![1; 128]));
}

#[test]
fn a_reader_takes_fields_in_turn() {
    let mut bytes: Vec<u8> = Vec::new();
    assert!(put_u8(&mut bytes, 200));
    assert!(put_u64(&mut bytes, 0x1122334455667788));
    assert!(put_text(&mut bytes, "añb"));
    assert!(put_u64s(&mut bytes, &vec![5, 6]));
    let mut reader = Reader::new(&bytes);
    assert_eq!(reader.take_u8(), Some(200));
    assert_eq!(reader.take_u64(), Some(0x1122334455667788));
    assert_eq!(reader.take_text(), Some("añb".to_string()));
    assert!(!reader.is_done());
    assert_eq!(reader.take_u64s(), Some(vec![5, 6]));
    assert!(reader.is_done());
    assert_eq!(reader.take_u8(), None);
    assert_eq!(reader.take_u32(), None);

    let texts = [2u8, 0, 0, 0, 1, 0, 0, 0, b'p', 0, 0, 0, 0];
    let mut reader = Reader::new(&texts);
    assert_eq!(reader.take_texts(), Some(vec!["p".to_string(), "".to_string()]));
    assert!(reader.is_done());
}

#[test]
fn an_account_that_fills_a_slot_is_stored_and_a_longer_one_is_refused() {
    let too_large = Error::Storage { msg: "Record does not fit a slot of the map".to_string() };
    let mut store = Store::new().unwrap();
    let longest = "n".repeat(SLOT_BYTES - 24);
    let user = store.add_user(UserPayload { username: longest.clone(), balance: 1 }).unwrap();
    assert_eq!(store.get_user(user.id).unwrap().username, longest);

    let longer = "n".repeat(SLOT_BYTES - 23);
    assert_eq!(
        store.add_user(UserPayload { username: longer.clone(), balance: 1 }),
        Err(too_large.clone())
    );
    assert_eq!(store.next_id(), 2);
    assert_eq!(
        store.update_user(user.id, UserPayload { username: longer, balance: 1 }),
        Err(too_large)
    );
    assert_eq!(store.get_user(user.id), Ok(user));
}
