//! The byte layout that records are built from.
//!
//! A record is a run of fields. An integer is written little-endian, a text
//! as the length of its UTF-8 form in four bytes and then that form, a list
//! as its count in four bytes and then its items. Each sort of field has a
//! spec function that gives its bytes and one that takes it off the front
//! of a byte sequence, and a lemma that the second undoes the first.

use crate::durable::SLOT_BYTES;
use crate::model::texts;
use vstd::bytes::*;
use vstd::prelude::*;
use vstd::slice::*;
use vstd::string::*;
use vstd::utf8::*;

verus! {

/// The four bytes of `x`, lowest first.
pub open spec fn u32_bytes(x: u32) -> Seq<u8> {
    spec_u32_to_le_bytes(x)
}

/// The eight bytes of `x`, lowest first.
pub open spec fn u64_bytes(x: u64) -> Seq<u8> {
    spec_u64_to_le_bytes(x)
}

/// The bytes of a text: the length of its UTF-8 form, then that form.
pub open spec fn text_bytes(s: Seq<char>) -> Seq<u8> {
    u32_bytes(encode_utf8(s).len() as u32) + encode_utf8(s)
}

/// The items of a list of integers, one after the other.
pub open spec fn u64s_body(v: Seq<u64>) -> Seq<u8>
    decreases v.len(),
{
    if v.len() == 0 {
        Seq::empty()
    } else {
        u64_bytes(v[0]) + u64s_body(v.skip(1))
    }
}

/// The bytes of a list of integers: its count, then its items.
pub open spec fn u64s_bytes(v: Seq<u64>) -> Seq<u8> {
    u32_bytes(v.len() as u32) + u64s_body(v)
}

/// The items of a list of texts, one after the other.
pub open spec fn texts_body(v: Seq<Seq<char>>) -> Seq<u8>
    decreases v.len(),
{
    if v.len() == 0 {
        Seq::empty()
    } else {
        text_bytes(v[0]) + texts_body(v.skip(1))
    }
}

/// The bytes of a list of texts: its count, then its items.
pub open spec fn texts_bytes(v: Seq<Seq<char>>) -> Seq<u8> {
    u32_bytes(v.len() as u32) + texts_body(v)
}

/// Takes one byte off the front of `b`: the byte and what is left.
pub open spec fn take_u8(b: Seq<u8>) -> Option<(u8, Seq<u8>)> {
    if b.len() >= 1 {
        Some((b[0], b.skip(1)))
    } else {
        None
    }
}

/// Takes a 32-bit integer off the front of `b`.
pub open spec fn take_u32(b: Seq<u8>) -> Option<(u32, Seq<u8>)> {
    if b.len() >= 4 {
        Some((spec_u32_from_le_bytes(b.take(4)), b.skip(4)))
    } else {
        None
    }
}

/// Takes a 64-bit integer off the front of `b`.
pub open spec fn take_u64(b: Seq<u8>) -> Option<(u64, Seq<u8>)> {
    if b.len() >= 8 {
        Some((spec_u64_from_le_bytes(b.take(8)), b.skip(8)))
    } else {
        None
    }
}

/// Takes a text off the front of `b`: its length, then as many bytes,
/// which must be well-formed UTF-8.
pub open spec fn take_text(b: Seq<u8>) -> Option<(Seq<char>, Seq<u8>)> {
    match take_u32(b) {
        Some((n, rest)) => if n <= rest.len() && valid_utf8(rest.take(n as int)) {
            Some((decode_utf8(rest.take(n as int)), rest.skip(n as int)))
        } else {
            None
        },
        None => None,
    }
}

/// Puts `front` before the items of a parse that went on after it.
pub open spec fn after<T>(front: Seq<T>, parsed: Option<(Seq<T>, Seq<u8>)>) -> Option<
    (Seq<T>, Seq<u8>),
> {
    match parsed {
        Some((items, rest)) => Some((front + items, rest)),
        None => None,
    }
}

/// Takes `n` integers off the front of `b`.
pub open spec fn take_u64_items(b: Seq<u8>, n: nat) -> Option<(Seq<u64>, Seq<u8>)>
    decreases n,
{
    if n == 0 {
        Some((Seq::empty(), b))
    } else {
        match take_u64(b) {
            Some((x, rest)) => after(seq![x], take_u64_items(rest, (n - 1) as nat)),
            None => None,
        }
    }
}

/// Takes a list of integers off the front of `b`: its count, then as
/// many items.
pub open spec fn take_u64s(b: Seq<u8>) -> Option<(Seq<u64>, Seq<u8>)> {
    match take_u32(b) {
        Some((n, rest)) => take_u64_items(rest, n as nat),
        None => None,
    }
}

/// Takes `n` texts off the front of `b`.
pub open spec fn take_text_items(b: Seq<u8>, n: nat) -> Option<(Seq<Seq<char>>, Seq<u8>)>
    decreases n,
{
    if n == 0 {
        Some((Seq::empty(), b))
    } else {
        match take_text(b) {
            Some((x, rest)) => after(seq![x], take_text_items(rest, (n - 1) as nat)),
            None => None,
        }
    }
}

/// Takes a list of texts off the front of `b`: its count, then as many
/// items.
pub open spec fn take_texts(b: Seq<u8>) -> Option<(Seq<Seq<char>>, Seq<u8>)> {
    match take_u32(b) {
        Some((n, rest)) => take_text_items(rest, n as nat),
        None => None,
    }
}

/// An integer takes as many bytes as its width.
pub proof fn lemma_widths(x32: u32, x64: u64)
    ensures
        u32_bytes(x32).len() == 4,
        u64_bytes(x64).len() == 8,
{
    lemma_auto_spec_u32_to_from_le_bytes();
    lemma_auto_spec_u64_to_from_le_bytes();
}

/// Taking a byte undoes writing it.
pub proof fn lemma_take_u8(x: u8, rest: Seq<u8>)
    ensures
        take_u8(seq![x] + rest) == Some((x, rest)),
{
    assert((seq![x] + rest).skip(1) =~= rest);
}

/// Taking a 32-bit integer undoes writing it.
pub proof fn lemma_take_u32(x: u32, rest: Seq<u8>)
    ensures
        take_u32(u32_bytes(x) + rest) == Some((x, rest)),
{
    lemma_auto_spec_u32_to_from_le_bytes();
    let b = u32_bytes(x) + rest;
    assert(b.take(4) =~= u32_bytes(x));
    assert(b.skip(4) =~= rest);
}

/// Taking a 64-bit integer undoes writing it.
pub proof fn lemma_take_u64(x: u64, rest: Seq<u8>)
    ensures
        take_u64(u64_bytes(x) + rest) == Some((x, rest)),
{
    lemma_auto_spec_u64_to_from_le_bytes();
    let b = u64_bytes(x) + rest;
    assert(b.take(8) =~= u64_bytes(x));
    assert(b.skip(8) =~= rest);
}

/// Taking a text undoes writing it, where four bytes hold its length.
pub proof fn lemma_take_text(s: Seq<char>, rest: Seq<u8>)
    requires
        encode_utf8(s).len() <= u32::MAX,
    ensures
        take_text(text_bytes(s) + rest) == Some((s, rest)),
{
    let body = encode_utf8(s);
    let n = body.len() as u32;
    assert(text_bytes(s) + rest =~= u32_bytes(n) + (body + rest));
    lemma_take_u32(n, body + rest);
    assert((body + rest).take(n as int) =~= body);
    assert((body + rest).skip(n as int) =~= rest);
    encode_utf8_valid_utf8(s);
    encode_utf8_decode_utf8(s);
}

/// Taking as many integers as were written gives them back.
pub proof fn lemma_take_u64_items(v: Seq<u64>, rest: Seq<u8>)
    ensures
        take_u64_items(u64s_body(v) + rest, v.len()) == Some((v, rest)),
    decreases v.len(),
{
    if v.len() == 0 {
        assert(u64s_body(v) + rest =~= rest);
        assert(v =~= Seq::empty());
    } else {
        let tail = v.skip(1);
        assert(u64s_body(v) + rest =~= u64_bytes(v[0]) + (u64s_body(tail) + rest));
        lemma_take_u64(v[0], u64s_body(tail) + rest);
        lemma_take_u64_items(tail, rest);
        assert(seq![v[0]] + tail =~= v);
    }
}

/// Taking a list of integers undoes writing it, where four bytes hold
/// its count.
pub proof fn lemma_take_u64s(v: Seq<u64>, rest: Seq<u8>)
    requires
        v.len() <= u32::MAX,
    ensures
        take_u64s(u64s_bytes(v) + rest) == Some((v, rest)),
{
    let n = v.len() as u32;
    assert(u64s_bytes(v) + rest =~= u32_bytes(n) + (u64s_body(v) + rest));
    lemma_take_u32(n, u64s_body(v) + rest);
    lemma_take_u64_items(v, rest);
}

/// Whether the UTF-8 form of every text of `v` has a length that four bytes
/// can hold.
pub open spec fn texts_fit(v: Seq<Seq<char>>) -> bool {
    forall|i: int| 0 <= i < v.len() ==> (#[trigger] encode_utf8(v[i])).len() <= u32::MAX
}

/// Taking as many texts as were written gives them back.
pub proof fn lemma_take_text_items(v: Seq<Seq<char>>, rest: Seq<u8>)
    requires
        texts_fit(v),
    ensures
        take_text_items(texts_body(v) + rest, v.len()) == Some((v, rest)),
    decreases v.len(),
{
    if v.len() == 0 {
        assert(texts_body(v) + rest =~= rest);
        assert(v =~= Seq::empty());
    } else {
        let tail = v.skip(1);
        assert(texts_body(v) + rest =~= text_bytes(v[0]) + (texts_body(tail) + rest));
        assert(encode_utf8(v[0]).len() <= u32::MAX);
        lemma_take_text(v[0], texts_body(tail) + rest);
        assert forall|i: int| 0 <= i < tail.len() implies (#[trigger] encode_utf8(tail[i])).len()
            <= u32::MAX by {
            assert(tail[i] == v[i + 1]);
        }
        lemma_take_text_items(tail, rest);
        assert(seq![v[0]] + tail =~= v);
    }
}

/// Taking a list of texts undoes writing it, where four bytes hold its
/// count and the length of each text.
pub proof fn lemma_take_texts(v: Seq<Seq<char>>, rest: Seq<u8>)
    requires
        v.len() <= u32::MAX,
        texts_fit(v),
    ensures
        take_texts(texts_bytes(v) + rest) == Some((v, rest)),
{
    let n = v.len() as u32;
    assert(texts_bytes(v) + rest =~= u32_bytes(n) + (texts_body(v) + rest));
    lemma_take_u32(n, texts_body(v) + rest);
    lemma_take_text_items(v, rest);
}

/// The items of a list with one more item are those of the list, then the
/// item.
pub proof fn lemma_u64s_body_push(v: Seq<u64>, x: u64)
    ensures
        u64s_body(v.push(x)) == u64s_body(v) + u64_bytes(x),
    decreases v.len(),
{
    let w = v.push(x);
    if v.len() == 0 {
        assert(w.skip(1) =~= Seq::<u64>::empty());
        assert(u64s_body(w) =~= u64_bytes(x) + u64s_body(w.skip(1)));
        assert(u64s_body(w) =~= u64s_body(v) + u64_bytes(x));
    } else {
        assert(w.skip(1) =~= v.skip(1).push(x));
        lemma_u64s_body_push(v.skip(1), x);
        assert(u64s_body(w) =~= u64s_body(v) + u64_bytes(x));
    }
}

/// The items of a list with one more text are those of the list, then
/// the text.
pub proof fn lemma_texts_body_push(v: Seq<Seq<char>>, x: Seq<char>)
    ensures
        texts_body(v.push(x)) == texts_body(v) + text_bytes(x),
    decreases v.len(),
{
    let w = v.push(x);
    if v.len() == 0 {
        assert(w.skip(1) =~= Seq::<Seq<char>>::empty());
        assert(texts_body(w) =~= text_bytes(x) + texts_body(w.skip(1)));
        assert(texts_body(w) =~= texts_body(v) + text_bytes(x));
    } else {
        assert(w.skip(1) =~= v.skip(1).push(x));
        lemma_texts_body_push(v.skip(1), x);
        assert(texts_body(w) =~= texts_body(v) + text_bytes(x));
    }
}

/// The items of a list of integers take eight bytes each.
pub proof fn lemma_u64s_body_len(v: Seq<u64>)
    ensures
        u64s_body(v).len() == 8 * v.len(),
    decreases v.len(),
{
    if v.len() > 0 {
        lemma_widths(0, v[0]);
        lemma_u64s_body_len(v.skip(1));
    }
}

/// The items of a list of texts take at least as much room as those of its
/// first `k` texts, and at least four bytes each.
pub proof fn lemma_texts_body_len(v: Seq<Seq<char>>, k: int)
    requires
        0 <= k <= v.len(),
    ensures
        texts_body(v.take(k)).len() <= texts_body(v).len(),
        4 * v.len() <= texts_body(v).len(),
    decreases v.len() - k,
{
    if k == v.len() {
        assert(v.take(k) =~= v);
        lemma_texts_body_floor(v);
    } else {
        assert(v.take(k + 1) =~= v.take(k).push(v[k]));
        lemma_texts_body_push(v.take(k), v[k]);
        lemma_texts_body_len(v, k + 1);
    }
}

proof fn lemma_texts_body_floor(v: Seq<Seq<char>>)
    ensures
        4 * v.len() <= texts_body(v).len(),
    decreases v.len(),
{
    if v.len() > 0 {
        lemma_widths(encode_utf8(v[0]).len() as u32, 0);
        lemma_texts_body_floor(v.skip(1));
    }
}

/// A text that was taken took as many bytes as its layout has.
pub proof fn lemma_taken_text(b: Seq<u8>)
    requires
        take_text(b) is Some,
    ensures
        b.len() == text_bytes(take_text(b)->Some_0.0).len() + take_text(b)->Some_0.1.len(),
{
    let (n, rest) = take_u32(b)->Some_0;
    let body = rest.take(n as int);
    decode_utf8_encode_utf8(body);
    lemma_widths(n, 0);
}

/// Integers that were taken are as many as were asked for, and took eight
/// bytes each.
pub proof fn lemma_taken_u64_items(b: Seq<u8>, n: nat)
    requires
        take_u64_items(b, n) is Some,
    ensures
        take_u64_items(b, n)->Some_0.0.len() == n,
        b.len() == 8 * n + take_u64_items(b, n)->Some_0.1.len(),
    decreases n,
{
    if n > 0 {
        let (_, rest) = take_u64(b)->Some_0;
        lemma_taken_u64_items(rest, (n - 1) as nat);
    }
}

/// Texts that were taken are as many as were asked for, and took as many
/// bytes as their items have.
pub proof fn lemma_taken_text_items(b: Seq<u8>, n: nat)
    requires
        take_text_items(b, n) is Some,
    ensures
        take_text_items(b, n)->Some_0.0.len() == n,
        b.len() == texts_body(take_text_items(b, n)->Some_0.0).len() + take_text_items(
            b,
            n,
        )->Some_0.1.len(),
    decreases n,
{
    if n > 0 {
        let (first, rest) = take_text(b)->Some_0;
        let (more, _) = take_text_items(rest, (n - 1) as nat)->Some_0;
        let all = take_text_items(b, n)->Some_0.0;
        lemma_taken_text(b);
        lemma_taken_text_items(rest, (n - 1) as nat);
        assert(all == seq![first] + more);
        assert(all[0] == first);
        assert(all.skip(1) =~= more);
    }
}

/// What a writer leaves in its buffer: the buffer with `part` after it
/// where that still fits a slot, and on no account more than a slot.
pub open spec fn appended(before: Seq<u8>, part: Seq<u8>, ok: bool, now: Seq<u8>) -> bool {
    &&& ok == (before.len() + part.len() <= SLOT_BYTES)
    &&& ok ==> now == before + part
    &&& now.len() <= SLOT_BYTES
}

/// Appends a byte.
pub fn put_u8(out: &mut Vec<u8>, x: u8) -> (ok: bool)
    requires
        old(out)@.len() <= SLOT_BYTES,
    ensures
        appended(old(out)@, seq![x], ok, final(out)@),
{
    if out.len() + 1 > SLOT_BYTES {
        return false;
    }
    out.push(x);
    assert(out@ =~= old(out)@ + seq![x]);
    true
}

/// Appends a 32-bit integer.
pub fn put_u32(out: &mut Vec<u8>, x: u32) -> (ok: bool)
    requires
        old(out)@.len() <= SLOT_BYTES,
    ensures
        appended(old(out)@, u32_bytes(x), ok, final(out)@),
{
    proof {
        lemma_widths(x, 0);
    }
    if out.len() + 4 > SLOT_BYTES {
        return false;
    }
    let mut part = u32_to_le_bytes(x);
    out.append(&mut part);
    true
}

/// Appends a 64-bit integer.
pub fn put_u64(out: &mut Vec<u8>, x: u64) -> (ok: bool)
    requires
        old(out)@.len() <= SLOT_BYTES,
    ensures
        appended(old(out)@, u64_bytes(x), ok, final(out)@),
{
    proof {
        lemma_widths(0, x);
    }
    if out.len() + 8 > SLOT_BYTES {
        return false;
    }
    let mut part = u64_to_le_bytes(x);
    out.append(&mut part);
    true
}

/// Appends a text.
pub fn put_text(out: &mut Vec<u8>, s: &str) -> (ok: bool)
    requires
        old(out)@.len() <= SLOT_BYTES,
    ensures
        appended(old(out)@, text_bytes(s@), ok, final(out)@),
{
    let bytes = s.as_bytes();
    let n = bytes.len();
    proof {
        lemma_widths(n as u32, 0);
    }
    if n > SLOT_BYTES || out.len() + 4 + n > SLOT_BYTES {
        return false;
    }
    let _ = put_u32(out, n as u32);
    let mut body = slice_to_vec(bytes);
    out.append(&mut body);
    assert(out@ =~= old(out)@ + text_bytes(s@));
    true
}

/// Appends a list of integers. Where it does not fit, what is left in
/// the buffer is a part of it.
pub fn put_u64s(out: &mut Vec<u8>, v: &Vec<u64>) -> (ok: bool)
    requires
        old(out)@.len() <= SLOT_BYTES,
    ensures
        appended(old(out)@, u64s_bytes(v@), ok, final(out)@),
{
    let ghost before = out@;
    let n = v.len();
    proof {
        lemma_widths(n as u32, 0);
        lemma_u64s_body_len(v@);
    }
    if n > SLOT_BYTES {
        return false;
    }
    if !put_u32(out, n as u32) {
        return false;
    }
    let mut i: usize = 0;
    while i < n
        invariant
            i <= n,
            n == v@.len(),
            n <= SLOT_BYTES,
            before == old(out)@,
            u64s_bytes(v@).len() == 4 + 8 * n,
            out@ == before + u32_bytes(n as u32) + u64s_body(v@.take(i as int)),
            out@.len() == before.len() + 4 + 8 * i,
            out@.len() <= SLOT_BYTES,
        decreases n - i,
    {
        proof {
            lemma_widths(0, v@[i as int]);
            lemma_u64s_body_push(v@.take(i as int), v@[i as int]);
            assert(v@.take(i + 1) =~= v@.take(i as int).push(v@[i as int]));
        }
        if !put_u64(out, v[i]) {
            return false;
        }
        assert(out@ =~= before + u32_bytes(n as u32) + u64s_body(v@.take(i + 1)));
        i += 1;
    }
    assert(v@.take(n as int) =~= v@);
    assert(out@ =~= before + u64s_bytes(v@));
    true
}

/// Appends a list of texts. Where it does not fit, what is left in the
/// buffer is a part of it.
pub fn put_texts(out: &mut Vec<u8>, v: &Vec<String>) -> (ok: bool)
    requires
        old(out)@.len() <= SLOT_BYTES,
    ensures
        appended(old(out)@, texts_bytes(texts(v@)), ok, final(out)@),
{
    let ghost before = out@;
    let ghost all = texts(v@);
    let n = v.len();
    proof {
        lemma_widths(n as u32, 0);
        lemma_texts_body_len(all, 0);
    }
    if n > SLOT_BYTES {
        return false;
    }
    if !put_u32(out, n as u32) {
        return false;
    }
    let mut i: usize = 0;
    while i < n
        invariant
            i <= n,
            n == v@.len(),
            all == texts(v@),
            n <= SLOT_BYTES,
            before == old(out)@,
            texts_bytes(all).len() == 4 + texts_body(all).len(),
            out@ == before + u32_bytes(n as u32) + texts_body(all.take(i as int)),
            out@.len() == before.len() + 4 + texts_body(all.take(i as int)).len(),
            out@.len() <= SLOT_BYTES,
        decreases n - i,
    {
        proof {
            lemma_widths(n as u32, 0);
            lemma_texts_body_push(all.take(i as int), all[i as int]);
            assert(all.take(i + 1) =~= all.take(i as int).push(all[i as int]));
            lemma_texts_body_len(all, i + 1);
        }
        if !put_text(out, v[i].as_str()) {
            return false;
        }
        assert(out@ =~= before + u32_bytes(n as u32) + texts_body(all.take(i + 1)));
        i += 1;
    }
    assert(all.take(n as int) =~= all);
    assert(out@ =~= before + texts_bytes(all));
    true
}

/// `String::from_utf8`: the string that the bytes spell, where they are
/// well-formed UTF-8, and nothing where they are not.
#[verifier::external_body]
fn text_from_utf8(bytes: Vec<u8>) -> (r: Option<String>)
    ensures
        r is Some <==> valid_utf8(bytes@),
        r is Some ==> r->Some_0@ == decode_utf8(bytes@),
{
    match String::from_utf8(bytes) {
        Ok(text) => Some(text),
        Err(_) => None,
    }
}

/// A position in a run of bytes, from which fields are taken in turn.
pub struct Reader<'a> {
    bytes: &'a [u8],
    at: usize,
}

impl<'a> Reader<'a> {
    /// The bytes that have not been taken yet.
    pub closed spec fn rest(&self) -> Seq<u8> {
        self.bytes@.skip(self.at as int)
    }

    /// Whether the position lies within the bytes.
    pub closed spec fn wf(&self) -> bool {
        self.at <= self.bytes@.len()
    }

    /// A reader at the start of `bytes`.
    pub fn new(bytes: &'a [u8]) -> (r: Self)
        ensures
            r.wf(),
            r.rest() == bytes@,
    {
        assert(bytes@.skip(0) =~= bytes@);
        Reader { bytes, at: 0 }
    }

    /// Whether every byte has been taken.
    pub fn is_done(&self) -> (r: bool)
        requires
            self.wf(),
        ensures
            r == (self.rest().len() == 0),
    {
        self.at == self.bytes.len()
    }

    /// Takes a byte, or nothing where none is left.
    pub fn take_u8(&mut self) -> (r: Option<u8>)
        requires
            old(self).wf(),
        ensures
            final(self).wf(),
            match r {
                Some(x) => take_u8(old(self).rest()) == Some((x, final(self).rest())),
                None => take_u8(old(self).rest()) is None,
            },
    {
        if self.bytes.len() - self.at < 1 {
            return None;
        }
        let x = self.bytes[self.at];
        proof {
            assert(self.bytes@.skip(self.at + 1) =~= self.rest().skip(1));
        }
        self.at = self.at + 1;
        Some(x)
    }

    /// Takes a 32-bit integer, or nothing where fewer bytes are left.
    pub fn take_u32(&mut self) -> (r: Option<u32>)
        requires
            old(self).wf(),
        ensures
            final(self).wf(),
            match r {
                Some(x) => take_u32(old(self).rest()) == Some((x, final(self).rest())),
                None => take_u32(old(self).rest()) is None,
            },
    {
        if self.bytes.len() - self.at < 4 {
            return None;
        }
        let x = u32_from_le_bytes(slice_subrange(self.bytes, self.at, self.at + 4));
        proof {
            assert(self.rest().take(4) =~= self.bytes@.subrange(self.at as int, self.at + 4));
            assert(self.bytes@.skip(self.at + 4) =~= self.rest().skip(4));
        }
        self.at = self.at + 4;
        Some(x)
    }

    /// Takes a 64-bit integer, or nothing where fewer bytes are left.
    pub fn take_u64(&mut self) -> (r: Option<u64>)
        requires
            old(self).wf(),
        ensures
            final(self).wf(),
            match r {
                Some(x) => take_u64(old(self).rest()) == Some((x, final(self).rest())),
                None => take_u64(old(self).rest()) is None,
            },
    {
        if self.bytes.len() - self.at < 8 {
            return None;
        }
        let x = u64_from_le_bytes(slice_subrange(self.bytes, self.at, self.at + 8));
        proof {
            assert(self.rest().take(8) =~= self.bytes@.subrange(self.at as int, self.at + 8));
            assert(self.bytes@.skip(self.at + 8) =~= self.rest().skip(8));
        }
        self.at = self.at + 8;
        Some(x)
    }

    /// Takes a text, or nothing where the bytes do not start with one.
    pub fn take_text(&mut self) -> (r: Option<String>)
        requires
            old(self).wf(),
        ensures
            final(self).wf(),
            match r {
                Some(s) => take_text(old(self).rest()) == Some((s@, final(self).rest())),
                None => take_text(old(self).rest()) is None,
            },
    {
        let n = match self.take_u32() {
            Some(n) => n as usize,
            None => {
                return None;
            },
        };
        if self.bytes.len() - self.at < n {
            return None;
        }
        let raw = slice_to_vec(slice_subrange(self.bytes, self.at, self.at + n));
        proof {
            assert(self.rest().take(n as int) =~= self.bytes@.subrange(
                self.at as int,
                self.at + n,
            ));
            assert(self.bytes@.skip(self.at + n) =~= self.rest().skip(n as int));
        }
        match text_from_utf8(raw) {
            Some(text) => {
                self.at = self.at + n;
                Some(text)
            },
            None => None,
        }
    }

    /// Takes a list of integers, or nothing where the bytes do not start
    /// with one; the position is then not to be relied on.
    pub fn take_u64s(&mut self) -> (r: Option<Vec<u64>>)
        requires
            old(self).wf(),
        ensures
            final(self).wf(),
            match r {
                Some(v) => take_u64s(old(self).rest()) == Some((v@, final(self).rest())),
                None => take_u64s(old(self).rest()) is None,
            },
    {
        let n = match self.take_u32() {
            Some(n) => n,
            None => {
                return None;
            },
        };
        let ghost start = self.rest();
        let mut items: Vec<u64> = Vec::new();
        let mut i: u32 = 0;
        assert(items@ + Seq::<u64>::empty() =~= items@);
        while i < n
            invariant
                self.wf(),
                i <= n,
                take_u64s(old(self).rest()) == take_u64_items(start, n as nat),
                take_u64_items(start, n as nat) == after(
                    items@,
                    take_u64_items(self.rest(), (n - i) as nat),
                ),
            decreases n - i,
        {
            match self.take_u64() {
                Some(x) => {
                    proof {
                        match take_u64_items(self.rest(), (n - i - 1) as nat) {
                            Some((more, _)) => {
                                assert(items@ + (seq![x] + more) =~= items@.push(x) + more);
                            },
                            None => {},
                        }
                    }
                    items.push(x);
                },
                None => {
                    return None;
                },
            }
            i += 1;
        }
        assert(items@ + Seq::<u64>::empty() =~= items@);
        Some(items)
    }

    /// Takes a list of texts, or nothing where the bytes do not start with
    /// one; the position is then not to be relied on.
    pub fn take_texts(&mut self) -> (r: Option<Vec<String>>)
        requires
            old(self).wf(),
        ensures
            final(self).wf(),
            match r {
                Some(v) => take_texts(old(self).rest()) == Some((texts(v@), final(self).rest())),
                None => take_texts(old(self).rest()) is None,
            },
    {
        let n = match self.take_u32() {
            Some(n) => n,
            None => {
                return None;
            },
        };
        let ghost start = self.rest();
        let mut items: Vec<String> = Vec::new();
        let mut i: u32 = 0;
        assert(texts(items@) + Seq::<Seq<char>>::empty() =~= texts(items@));
        while i < n
            invariant
                self.wf(),
                i <= n,
                take_texts(old(self).rest()) == take_text_items(start, n as nat),
                take_text_items(start, n as nat) == after(
                    texts(items@),
                    take_text_items(self.rest(), (n - i) as nat),
                ),
            decreases n - i,
        {
            match self.take_text() {
                Some(text) => {
                    proof {
                        assert(texts(items@.push(text)) =~= texts(items@).push(text@));
                        match take_text_items(self.rest(), (n - i - 1) as nat) {
                            Some((more, _)) => {
                                assert(texts(items@) + (seq![text@] + more) =~= texts(
                                    items@,
                                ).push(text@) + more);
                            },
                            None => {},
                        }
                    }
                    items.push(text);
                },
                None => {
                    return None;
                },
            }
            i += 1;
        }
        assert(texts(items@) + Seq::<Seq<char>>::empty() =~= texts(items@));
        Some(items)
    }
}

} // verus!
