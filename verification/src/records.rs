//! How each record is laid out in a slot of its map.
//!
//! For every record type there is a spec function that gives its bytes, one
//! that parses bytes back into a record, a lemma that parsing undoes the
//! layout of any record that fits a slot, and the executable encoder and
//! decoder, proved against the two spec functions.

use crate::durable::SLOT_BYTES;
use crate::model::{Bet, BetStatus, Event, EventStatus, EventView, Odds, User, UserView};
use crate::wire::{
    lemma_take_text, lemma_take_texts, lemma_take_u64, lemma_take_u64s, lemma_take_u8,
    lemma_taken_text, lemma_taken_text_items, lemma_taken_u64_items, take_u32,
    lemma_texts_body_len, lemma_texts_body_push, lemma_u64s_body_len, lemma_widths,
    put_text, put_texts, put_u64, put_u64s, put_u8, take_text, take_texts, take_u64, take_u64s,
    take_u8, text_bytes, texts_body, texts_bytes, u64_bytes, u64s_bytes, Reader,
};
use vstd::prelude::*;
use vstd::utf8::*;

verus! {

/// What a parse left over; nothing where it failed.
pub open spec fn left<T>(parsed: Option<(T, Seq<u8>)>) -> Seq<u8> {
    match parsed {
        Some((_, rest)) => rest,
        None => Seq::empty(),
    }
}

/// The byte that stands for a status of a wager.
pub open spec fn bet_status_code(status: BetStatus) -> u8 {
    match status {
        BetStatus::Pending => 0,
        BetStatus::Won => 1,
        BetStatus::Lost => 2,
        BetStatus::Cancelled => 3,
    }
}

/// The status of a wager that a byte stands for.
pub open spec fn bet_status_of(code: u8) -> Option<BetStatus> {
    if code == 0 {
        Some(BetStatus::Pending)
    } else if code == 1 {
        Some(BetStatus::Won)
    } else if code == 2 {
        Some(BetStatus::Lost)
    } else if code == 3 {
        Some(BetStatus::Cancelled)
    } else {
        None
    }
}

/// The byte that stands for a status of an event.
pub open spec fn event_status_code(status: EventStatus) -> u8 {
    match status {
        EventStatus::Upcoming => 0,
        EventStatus::Ongoing => 1,
        EventStatus::Completed => 2,
        EventStatus::Cancelled => 3,
    }
}

/// The status of an event that a byte stands for.
pub open spec fn event_status_of(code: u8) -> Option<EventStatus> {
    if code == 0 {
        Some(EventStatus::Upcoming)
    } else if code == 1 {
        Some(EventStatus::Ongoing)
    } else if code == 2 {
        Some(EventStatus::Completed)
    } else if code == 3 {
        Some(EventStatus::Cancelled)
    } else {
        None
    }
}

/// The flag and the value that stand for an optional time.
pub open spec fn stamp_flag(stamp: Option<u64>) -> u8 {
    if stamp is Some {
        1
    } else {
        0
    }
}

/// The value that is written for an optional time: zero for none.
pub open spec fn stamp_value(stamp: Option<u64>) -> u64 {
    match stamp {
        Some(t) => t,
        None => 0,
    }
}

/// The optional time that a flag and a value stand for.
pub open spec fn stamp_of(flag: u8, value: u64) -> Option<Option<u64>> {
    if flag == 0 {
        Some(None)
    } else if flag == 1 {
        Some(Some(value))
    } else {
        None
    }
}

/// The bit patterns of a list of odds.
pub open spec fn bits_of(odds: Seq<Odds>) -> Seq<u64> {
    Seq::new(odds.len(), |i: int| odds[i].bits)
}

/// The odds with the given bit patterns.
pub open spec fn odds_of(bits: Seq<u64>) -> Seq<Odds> {
    Seq::new(bits.len(), |i: int| Odds { bits: bits[i] })
}

/// The bytes of a wager: its fields in order, 58 bytes in all.
pub open spec fn bet_bytes(bet: Bet) -> Seq<u8> {
    u64_bytes(bet.id) + u64_bytes(bet.user_id) + u64_bytes(bet.event_id) + u64_bytes(bet.amount)
        + u64_bytes(bet.odds.bits) + seq![bet_status_code(bet.status)] + u64_bytes(bet.created_at)
        + seq![stamp_flag(bet.updated_at)] + u64_bytes(stamp_value(bet.updated_at))
}

/// The wager that `b` spells: each field taken in turn, nothing left
/// over, and a status and a flag that stand for something.
pub open spec fn parse_bet(b: Seq<u8>) -> Option<Bet> {
    let id = take_u64(b);
    let user_id = take_u64(left(id));
    let event_id = take_u64(left(user_id));
    let amount = take_u64(left(event_id));
    let odds = take_u64(left(amount));
    let code = take_u8(left(odds));
    let created_at = take_u64(left(code));
    let flag = take_u8(left(created_at));
    let value = take_u64(left(flag));
    if id is Some && user_id is Some && event_id is Some && amount is Some && odds is Some
        && code is Some && created_at is Some && flag is Some && value is Some && left(value).len()
        == 0 && bet_status_of(code->Some_0.0) is Some && stamp_of(flag->Some_0.0, value->Some_0.0)
        is Some {
        Some(
            Bet {
                id: id->Some_0.0,
                user_id: user_id->Some_0.0,
                event_id: event_id->Some_0.0,
                amount: amount->Some_0.0,
                odds: Odds { bits: odds->Some_0.0 },
                status: bet_status_of(code->Some_0.0)->Some_0,
                created_at: created_at->Some_0.0,
                updated_at: stamp_of(flag->Some_0.0, value->Some_0.0)->Some_0,
            },
        )
    } else {
        None
    }
}

/// The bytes of an account: identifier, balance, name, history.
pub open spec fn user_bytes(user: UserView) -> Seq<u8> {
    u64_bytes(user.id) + u64_bytes(user.balance) + text_bytes(user.username) + u64s_bytes(
        user.bet_history,
    )
}

/// The account that `b` spells, with nothing left over.
pub open spec fn parse_user(b: Seq<u8>) -> Option<UserView> {
    let id = take_u64(b);
    let balance = take_u64(left(id));
    let username = take_text(left(balance));
    let bet_history = take_u64s(left(username));
    if id is Some && balance is Some && username is Some && bet_history is Some && left(
        bet_history,
    ).len() == 0 {
        Some(
            UserView {
                id: id->Some_0.0,
                username: username->Some_0.0,
                balance: balance->Some_0.0,
                bet_history: bet_history->Some_0.0,
            },
        )
    } else {
        None
    }
}

/// The bytes of an event: identifier, status, name, participants, odds.
pub open spec fn event_bytes(event: EventView) -> Seq<u8> {
    u64_bytes(event.id) + seq![event_status_code(event.status)] + text_bytes(event.name)
        + texts_bytes(event.participants) + u64s_bytes(bits_of(event.odds))
}

/// The event that `b` spells, with nothing left over.
pub open spec fn parse_event(b: Seq<u8>) -> Option<EventView> {
    let id = take_u64(b);
    let code = take_u8(left(id));
    let name = take_text(left(code));
    let participants = take_texts(left(name));
    let odds = take_u64s(left(participants));
    if id is Some && code is Some && name is Some && participants is Some && odds is Some && left(
        odds,
    ).len() == 0 && event_status_of(code->Some_0.0) is Some {
        Some(
            EventView {
                id: id->Some_0.0,
                name: name->Some_0.0,
                participants: participants->Some_0.0,
                odds: odds_of(odds->Some_0.0),
                status: event_status_of(code->Some_0.0)->Some_0,
            },
        )
    } else {
        None
    }
}

/// A wager always fits a slot, and parsing its bytes gives it back.
pub proof fn lemma_parse_bet(bet: Bet)
    ensures
        bet_bytes(bet).len() == 58,
        parse_bet(bet_bytes(bet)) == Some(bet),
{
    let none = Seq::<u8>::empty();
    let s8 = u64_bytes(stamp_value(bet.updated_at)) + none;
    let s7 = seq![stamp_flag(bet.updated_at)] + s8;
    let s6 = u64_bytes(bet.created_at) + s7;
    let s5 = seq![bet_status_code(bet.status)] + s6;
    let s4 = u64_bytes(bet.odds.bits) + s5;
    let s3 = u64_bytes(bet.amount) + s4;
    let s2 = u64_bytes(bet.event_id) + s3;
    let s1 = u64_bytes(bet.user_id) + s2;
    let s0 = u64_bytes(bet.id) + s1;
    lemma_widths(0, bet.id);
    lemma_widths(0, bet.user_id);
    lemma_widths(0, bet.event_id);
    lemma_widths(0, bet.amount);
    lemma_widths(0, bet.odds.bits);
    lemma_widths(0, bet.created_at);
    lemma_widths(0, stamp_value(bet.updated_at));
    assert(bet_bytes(bet) =~= s0);
    lemma_take_u64(bet.id, s1);
    lemma_take_u64(bet.user_id, s2);
    lemma_take_u64(bet.event_id, s3);
    lemma_take_u64(bet.amount, s4);
    lemma_take_u64(bet.odds.bits, s5);
    lemma_take_u8(bet_status_code(bet.status), s6);
    lemma_take_u64(bet.created_at, s7);
    lemma_take_u8(stamp_flag(bet.updated_at), s8);
    lemma_take_u64(stamp_value(bet.updated_at), none);
}

/// The room that the parts of an account take, and that parsing the bytes
/// of an account that fits a slot gives it back.
pub proof fn lemma_parse_user(user: UserView)
    ensures
        user_bytes(user).len() == 24 + encode_utf8(user.username).len() + 8
            * user.bet_history.len(),
        user_bytes(user).len() <= SLOT_BYTES ==> parse_user(user_bytes(user)) == Some(user),
{
    let none = Seq::<u8>::empty();
    let s3 = u64s_bytes(user.bet_history) + none;
    let s2 = text_bytes(user.username) + s3;
    let s1 = u64_bytes(user.balance) + s2;
    let s0 = u64_bytes(user.id) + s1;
    lemma_widths(encode_utf8(user.username).len() as u32, user.id);
    lemma_widths(user.bet_history.len() as u32, user.balance);
    lemma_u64s_body_len(user.bet_history);
    assert(user_bytes(user) =~= s0);
    if user_bytes(user).len() <= SLOT_BYTES {
        lemma_take_u64(user.id, s1);
        lemma_take_u64(user.balance, s2);
        lemma_take_text(user.username, s3);
        lemma_take_u64s(user.bet_history, none);
    }
}

/// Every text of a list takes no more room than the items of the list.
pub proof fn lemma_texts_fit(v: Seq<Seq<char>>)
    ensures
        forall|i: int|
            0 <= i < v.len() ==> (#[trigger] encode_utf8(v[i])).len() <= texts_body(v).len(),
{
    assert forall|i: int| 0 <= i < v.len() implies (#[trigger] encode_utf8(v[i])).len()
        <= texts_body(v).len() by {
        assert(v.take(i + 1) =~= v.take(i).push(v[i]));
        lemma_texts_body_push(v.take(i), v[i]);
        lemma_texts_body_len(v, i + 1);
    }
}

/// Parsing the bytes of an event that fits a slot gives it back.
pub proof fn lemma_parse_event(event: EventView)
    ensures
        event_bytes(event).len() == 21 + encode_utf8(event.name).len() + texts_body(
            event.participants,
        ).len() + 8 * event.odds.len(),
        event_bytes(event).len() <= SLOT_BYTES ==> parse_event(event_bytes(event)) == Some(event),
{
    let none = Seq::<u8>::empty();
    let bits = bits_of(event.odds);
    let s4 = u64s_bytes(bits) + none;
    let s3 = texts_bytes(event.participants) + s4;
    let s2 = text_bytes(event.name) + s3;
    let s1 = seq![event_status_code(event.status)] + s2;
    let s0 = u64_bytes(event.id) + s1;
    lemma_widths(encode_utf8(event.name).len() as u32, event.id);
    lemma_widths(event.participants.len() as u32, 0);
    lemma_widths(bits.len() as u32, 0);
    lemma_u64s_body_len(bits);
    lemma_texts_body_len(event.participants, 0);
    assert(event_bytes(event) =~= s0);
    if event_bytes(event).len() <= SLOT_BYTES {
        lemma_texts_fit(event.participants);
        lemma_take_u64(event.id, s1);
        lemma_take_u8(event_status_code(event.status), s2);
        lemma_take_text(event.name, s3);
        lemma_take_texts(event.participants, s4);
        lemma_take_u64s(bits, none);
        assert(odds_of(bits) =~= event.odds);
    }
}

/// An account that bytes spell has a layout as long as those bytes.
pub proof fn lemma_parsed_user_len(b: Seq<u8>)
    requires
        parse_user(b) is Some,
    ensures
        user_bytes(parse_user(b)->Some_0).len() == b.len(),
{
    let user = parse_user(b)->Some_0;
    let id = take_u64(b);
    let balance = take_u64(left(id));
    let username = take_text(left(balance));
    let count = take_u32(left(username));
    lemma_parse_user(user);
    lemma_taken_text(left(balance));
    lemma_widths(encode_utf8(user.username).len() as u32, 0);
    lemma_taken_u64_items(left(count), count->Some_0.0 as nat);
}

/// An event that bytes spell has a layout as long as those bytes.
pub proof fn lemma_parsed_event_len(b: Seq<u8>)
    requires
        parse_event(b) is Some,
    ensures
        event_bytes(parse_event(b)->Some_0).len() == b.len(),
{
    let event = parse_event(b)->Some_0;
    let id = take_u64(b);
    let code = take_u8(left(id));
    let name = take_text(left(code));
    let heads = take_u32(left(name));
    let participants = take_texts(left(name));
    let prices = take_u32(left(participants));
    lemma_parse_event(event);
    lemma_taken_text(left(code));
    lemma_widths(encode_utf8(event.name).len() as u32, 0);
    lemma_taken_text_items(left(heads), heads->Some_0.0 as nat);
    lemma_taken_u64_items(left(prices), prices->Some_0.0 as nat);
}

/// The byte that stands for a status of a wager.
pub fn bet_status_to_code(status: BetStatus) -> (code: u8)
    ensures
        code == bet_status_code(status),
{
    match status {
        BetStatus::Pending => 0,
        BetStatus::Won => 1,
        BetStatus::Lost => 2,
        BetStatus::Cancelled => 3,
    }
}

/// The status of a wager that a byte stands for, if any.
pub fn bet_status_from_code(code: u8) -> (r: Option<BetStatus>)
    ensures
        r == bet_status_of(code),
{
    if code == 0 {
        Some(BetStatus::Pending)
    } else if code == 1 {
        Some(BetStatus::Won)
    } else if code == 2 {
        Some(BetStatus::Lost)
    } else if code == 3 {
        Some(BetStatus::Cancelled)
    } else {
        None
    }
}

/// The byte that stands for a status of an event.
pub fn event_status_to_code(status: EventStatus) -> (code: u8)
    ensures
        code == event_status_code(status),
{
    match status {
        EventStatus::Upcoming => 0,
        EventStatus::Ongoing => 1,
        EventStatus::Completed => 2,
        EventStatus::Cancelled => 3,
    }
}

/// The status of an event that a byte stands for, if any.
pub fn event_status_from_code(code: u8) -> (r: Option<EventStatus>)
    ensures
        r == event_status_of(code),
{
    if code == 0 {
        Some(EventStatus::Upcoming)
    } else if code == 1 {
        Some(EventStatus::Ongoing)
    } else if code == 2 {
        Some(EventStatus::Completed)
    } else if code == 3 {
        Some(EventStatus::Cancelled)
    } else {
        None
    }
}

/// The bit patterns of a list of odds.
pub fn odds_to_bits(odds: &Vec<Odds>) -> (bits: Vec<u64>)
    ensures
        bits@ == bits_of(odds@),
{
    let mut bits: Vec<u64> = Vec::new();
    let mut i: usize = 0;
    while i < odds.len()
        invariant
            i <= odds@.len(),
            bits@ == bits_of(odds@.take(i as int)),
        decreases odds@.len() - i,
    {
        bits.push(odds[i].bits);
        assert(bits@ =~= bits_of(odds@.take(i + 1)));
        i += 1;
    }
    assert(odds@.take(i as int) =~= odds@);
    bits
}

/// The odds with the given bit patterns.
pub fn odds_from_bits(bits: &Vec<u64>) -> (odds: Vec<Odds>)
    ensures
        odds@ == odds_of(bits@),
{
    let mut odds: Vec<Odds> = Vec::new();
    let mut i: usize = 0;
    while i < bits.len()
        invariant
            i <= bits@.len(),
            odds@ == odds_of(bits@.take(i as int)),
        decreases bits@.len() - i,
    {
        odds.push(Odds { bits: bits[i] });
        assert(odds@ =~= odds_of(bits@.take(i + 1)));
        i += 1;
    }
    assert(bits@.take(i as int) =~= bits@);
    odds
}

/// The bytes of a wager, which always fit a slot.
pub fn encode_bet(bet: &Bet) -> (out: Vec<u8>)
    ensures
        out@ == bet_bytes(*bet),
        out@.len() <= SLOT_BYTES,
{
    let mut out: Vec<u8> = Vec::new();
    let flag: u8 = if bet.updated_at.is_some() {
        1
    } else {
        0
    };
    let value: u64 = match bet.updated_at {
        Some(t) => t,
        None => 0,
    };
    proof {
        lemma_parse_bet(*bet);
        lemma_widths(0, bet.id);
        lemma_widths(0, bet.user_id);
        lemma_widths(0, bet.event_id);
        lemma_widths(0, bet.amount);
        lemma_widths(0, bet.odds.bits);
        lemma_widths(0, bet.created_at);
        lemma_widths(0, value);
    }
    let _ = put_u64(&mut out, bet.id);
    let _ = put_u64(&mut out, bet.user_id);
    let _ = put_u64(&mut out, bet.event_id);
    let _ = put_u64(&mut out, bet.amount);
    let _ = put_u64(&mut out, bet.odds.bits);
    let _ = put_u8(&mut out, bet_status_to_code(bet.status));
    let _ = put_u64(&mut out, bet.created_at);
    let _ = put_u8(&mut out, flag);
    let _ = put_u64(&mut out, value);
    assert(out@ =~= bet_bytes(*bet));
    out
}

/// The wager that `bytes` spell, if they spell one.
pub fn decode_bet(bytes: &[u8]) -> (r: Option<Bet>)
    ensures
        r == parse_bet(bytes@),
{
    let mut reader = Reader::new(bytes);
    let id = match reader.take_u64() {
        Some(x) => x,
        None => {
            return None;
        },
    };
    let user_id = match reader.take_u64() {
        Some(x) => x,
        None => {
            return None;
        },
    };
    let event_id = match reader.take_u64() {
        Some(x) => x,
        None => {
            return None;
        },
    };
    let amount = match reader.take_u64() {
        Some(x) => x,
        None => {
            return None;
        },
    };
    let bits = match reader.take_u64() {
        Some(x) => x,
        None => {
            return None;
        },
    };
    let code = match reader.take_u8() {
        Some(x) => x,
        None => {
            return None;
        },
    };
    let created_at = match reader.take_u64() {
        Some(x) => x,
        None => {
            return None;
        },
    };
    let flag = match reader.take_u8() {
        Some(x) => x,
        None => {
            return None;
        },
    };
    let value = match reader.take_u64() {
        Some(x) => x,
        None => {
            return None;
        },
    };
    if !reader.is_done() {
        return None;
    }
    let status = match bet_status_from_code(code) {
        Some(s) => s,
        None => {
            return None;
        },
    };
    let updated_at = if flag == 0 {
        None
    } else if flag == 1 {
        Some(value)
    } else {
        return None;
    };
    Some(
        Bet {
            id,
            user_id,
            event_id,
            amount,
            odds: Odds { bits },
            status,
            created_at,
            updated_at,
        },
    )
}

/// The bytes of an account, unless they are too many for a slot.
pub fn encode_user(user: &User) -> (r: Option<Vec<u8>>)
    ensures
        match r {
            Some(out) => out@ == user_bytes(user@) && out@.len() <= SLOT_BYTES,
            None => user_bytes(user@).len() > SLOT_BYTES,
        },
{
    let mut out: Vec<u8> = Vec::new();
    proof {
        lemma_parse_user(user@);
        lemma_widths(encode_utf8(user.username@).len() as u32, user.id);
        lemma_widths(user.bet_history@.len() as u32, user.balance);
    }
    if !put_u64(&mut out, user.id) {
        return None;
    }
    if !put_u64(&mut out, user.balance) {
        return None;
    }
    if !put_text(&mut out, user.username.as_str()) {
        return None;
    }
    if !put_u64s(&mut out, &user.bet_history) {
        return None;
    }
    assert(out@ =~= user_bytes(user@));
    Some(out)
}

/// The account that `bytes` spell, if they spell one.
pub fn decode_user(bytes: &[u8]) -> (r: Option<User>)
    ensures
        match r {
            Some(user) => parse_user(bytes@) == Some(user@),
            None => parse_user(bytes@) is None,
        },
{
    let mut reader = Reader::new(bytes);
    let id = match reader.take_u64() {
        Some(x) => x,
        None => {
            return None;
        },
    };
    let balance = match reader.take_u64() {
        Some(x) => x,
        None => {
            return None;
        },
    };
    let username = match reader.take_text() {
        Some(x) => x,
        None => {
            return None;
        },
    };
    let bet_history = match reader.take_u64s() {
        Some(x) => x,
        None => {
            return None;
        },
    };
    if !reader.is_done() {
        return None;
    }
    Some(User { id, username, balance, bet_history })
}

/// The bytes of an event, unless they are too many for a slot.
pub fn encode_event(event: &Event) -> (r: Option<Vec<u8>>)
    ensures
        match r {
            Some(out) => out@ == event_bytes(event@) && out@.len() <= SLOT_BYTES,
            None => event_bytes(event@).len() > SLOT_BYTES,
        },
{
    let mut out: Vec<u8> = Vec::new();
    let bits = odds_to_bits(&event.odds);
    proof {
        lemma_parse_event(event@);
        lemma_widths(encode_utf8(event.name@).len() as u32, event.id);
        lemma_widths(event@.participants.len() as u32, 0);
        lemma_widths(bits@.len() as u32, 0);
        lemma_u64s_body_len(bits@);
    }
    if !put_u64(&mut out, event.id) {
        return None;
    }
    if !put_u8(&mut out, event_status_to_code(event.status)) {
        return None;
    }
    if !put_text(&mut out, event.name.as_str()) {
        return None;
    }
    if !put_texts(&mut out, &event.participants) {
        return None;
    }
    if !put_u64s(&mut out, &bits) {
        return None;
    }
    assert(out@ =~= event_bytes(event@));
    Some(out)
}

/// The event that `bytes` spell, if they spell one.
pub fn decode_event(bytes: &[u8]) -> (r: Option<Event>)
    ensures
        match r {
            Some(event) => parse_event(bytes@) == Some(event@),
            None => parse_event(bytes@) is None,
        },
{
    let mut reader = Reader::new(bytes);
    let id = match reader.take_u64() {
        Some(x) => x,
        None => {
            return None;
        },
    };
    let code = match reader.take_u8() {
        Some(x) => x,
        None => {
            return None;
        },
    };
    let name = match reader.take_text() {
        Some(x) => x,
        None => {
            return None;
        },
    };
    let participants = match reader.take_texts() {
        Some(x) => x,
        None => {
            return None;
        },
    };
    let bits = match reader.take_u64s() {
        Some(x) => x,
        None => {
            return None;
        },
    };
    if !reader.is_done() {
        return None;
    }
    let status = match event_status_from_code(code) {
        Some(s) => s,
        None => {
            return None;
        },
    };
    let odds = odds_from_bits(&bits);
    Some(Event { id, name, participants, odds, status })
}

} // verus!
