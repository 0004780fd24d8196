//! The envelope of an unencrypted MTProto message: the authorization key
//! id, a message id derived from the clock, the body length and the body.
use vstd::prelude::*;
use crate::le::{le_bytes, le_value, pow256, write_le};
use crate::traits::tl_object::{TLObject, append_slice};

verus! {

/// The time elapsed since the Unix epoch by the system clock
/// (`std::time::UNIX_EPOCH.elapsed()`). `None` where the clock reads a time
/// before the epoch, where `elapsed` returns its error. Nothing is stated of
/// the value: it is whatever the clock reads at the call.
#[verifier::external_body]
fn epoch_elapsed() -> Option<std::time::Duration> {
    match std::time::UNIX_EPOCH.elapsed() {
        Ok(elapsed) => Some(elapsed),
        Err(_) => None,
    }
}

/// The whole seconds of a duration (`Duration::as_secs`). Nothing is stated
/// of the value, as nothing is known of the duration it is read from.
#[verifier::external_body]
fn whole_seconds(d: &std::time::Duration) -> u64 {
    d.as_secs()
}

/// Whole seconds since the Unix epoch by the system clock; `None` where the
/// clock reads a time before the epoch.
fn unix_time_now() -> Option<u64> {
    match epoch_elapsed() {
        Some(elapsed) => Some(whole_seconds(&elapsed)),
        None => None,
    }
}

/// The message id for a message sent in second `now` with sequence offset
/// `offset`: the time in the high 32 bits, the offset in the low ones.
pub open spec fn msg_id(now: nat, offset: int) -> int {
    now * 4294967296 + offset
}

/// The offset that a message sent in second `now` gets, after a previous
/// message sent in second `last_time` with offset `offset`: four more
/// within the same second, zero in a new one.
pub open spec fn next_offset(last_time: nat, offset: int, now: nat) -> int {
    if now == last_time {
        offset + 4
    } else {
        0
    }
}

/// The unencrypted message carrying `body`: the key id, the message id and
/// the body length (as a 32-bit integer), little-endian, then the body.
pub open spec fn unencrypted_message(auth_key_id: Seq<u8>, msg_id: u64, body: Seq<u8>) -> Seq<u8> {
    auth_key_id + le_bytes(msg_id as nat, 8) + le_bytes(body.len() % pow256(4), 4) + body
}

/// Whether a message id can be made when the clock reads `now`, after a
/// previous one in second `last_time` with offset `offset`: the reading lies
/// between 1970 and 2106 (so that the id fits in 64 bits) and, within the
/// same second, the offset has room for four more.
pub open spec fn msg_id_available(last_time: int, offset: int, now: int) -> bool {
    &&& 0 <= now <= u32::MAX
    &&& (now == last_time ==> offset <= MAX_OFFSET)
}

/// The largest offset after which one more message in the same second
/// still has an offset that fits in 32 bits.
pub const MAX_OFFSET: i32 = 0x7fff_fffb;

#[derive(Debug)]
pub struct ExternalHeader {
    auth_key_id: [u8; 8],
    last_time: u64,
    offset: i32,
}

impl ExternalHeader {
    #[verifier::type_invariant]
    spec fn offset_is_aligned(self) -> bool {
        self.offset >= 0 && self.offset % 4 == 0
    }

    /// The id of the authorization key that the messages carry.
    pub closed spec fn auth_key_id(&self) -> Seq<u8> {
        self.auth_key_id@
    }

    /// The header's invariant: the offset is a non-negative multiple of four.
    pub fn offset_invariant(&self)
        ensures
            self.offset() >= 0 && self.offset() % 4 == 0,
    {
        proof {
            use_type_invariant(self);
        }
    }

    /// The authorization key id is eight bytes long.
    pub proof fn lemma_auth_key_id_len(&self)
        ensures
            self.auth_key_id().len() == 8,
    {
    }

    /// The second in which the last message id was made (zero before any).
    pub closed spec fn last_time(&self) -> u64 {
        self.last_time
    }

    /// The offset of the last message id within its second.
    pub closed spec fn offset(&self) -> i32 {
        self.offset
    }

    /// A header for the authorization key with id `auth_key_id`, before any message.
    pub fn new(auth_key_id: &[u8; 8]) -> (h: Self)
        ensures
            h.auth_key_id() == auth_key_id@,
            h.last_time() == 0,
            h.offset() == 0,
            h.auth_key_id().len() == 8,
            h.offset() >= 0 && h.offset() % 4 == 0,
    {
        ExternalHeader { auth_key_id: *auth_key_id, last_time: 0, offset: 0 }
    }

    /// The next message id when the clock reads `now` seconds.
    pub fn next_msg_id_at(&mut self, now: u64) -> (id: u64)
        requires
            now <= u32::MAX,
            now == old(self).last_time() ==> old(self).offset() <= MAX_OFFSET,
        ensures
            final(self).auth_key_id() == old(self).auth_key_id(),
            final(self).offset() >= 0 && final(self).offset() % 4 == 0,
            final(self).last_time() == now,
            final(self).offset() == next_offset(
                old(self).last_time() as nat,
                old(self).offset() as int,
                now as nat,
            ),
            id == msg_id(now as nat, final(self).offset() as int),
            id % 4 == 0,
    {
        proof {
            use_type_invariant(&*self);
        }
        if now == self.last_time {
            self.offset = self.offset + 4;
        } else {
            self.offset = 0;
        }
        self.last_time = now;
        let offset = self.offset as u64;
        let id = now * 4294967296 + offset;
        assert(id % 4 == 0) by (nonlinear_arith)
            requires
                id == now * 4294967296 + offset,
                offset % 4 == 0,
        ;
        id
    }

    /// The next message id when the clock reads `now` seconds since 1970 (a
    /// reading as the clock gives it, which may lie outside the range of
    /// message ids). `None`, with the header unchanged, exactly where
    /// `msg_id_available` does not hold: where the original computation
    /// would overflow.
    pub fn next_msg_id_for_clock(&mut self, now: i64) -> (id: Option<u64>)
        ensures
            final(self).auth_key_id() == old(self).auth_key_id(),
            final(self).offset() >= 0 && final(self).offset() % 4 == 0,
            msg_id_available(old(self).last_time() as int, old(self).offset() as int, now as int)
                ==> {
                &&& final(self).last_time() == now
                &&& final(self).offset() == next_offset(
                    old(self).last_time() as nat,
                    old(self).offset() as int,
                    now as nat,
                )
                &&& id matches Some(v) && v == msg_id(now as nat, final(self).offset() as int)
                &&& msg_id(now as nat, final(self).offset() as int) % 4 == 0
            },
            !msg_id_available(old(self).last_time() as int, old(self).offset() as int, now as int)
                ==> {
                &&& id is None
                &&& final(self).last_time() == old(self).last_time()
                &&& final(self).offset() == old(self).offset()
            },
    {
        proof {
            use_type_invariant(&*self);
        }
        if now < 0 || now > u32::MAX as i64 {
            return None;
        }
        let now = now as u64;
        if now == self.last_time && self.offset > MAX_OFFSET {
            return None;
        }
        Some(self.next_msg_id_at(now))
    }

    /// The next message id by the system clock. `None`, with the header
    /// unchanged, when the clock reads a time before 1970 or after 2106, or
    /// when the offset within the current second would overflow. Which of
    /// these holds depends on the clock reading, which no clause can name:
    /// `next_msg_id_for_clock` states the outcome for each reading.
    pub fn next_msg_id(&mut self) -> (id: Option<u64>)
        ensures
            final(self).auth_key_id() == old(self).auth_key_id(),
            final(self).offset() >= 0 && final(self).offset() % 4 == 0,
            match id {
                Some(v) => {
                    &&& final(self).offset() == next_offset(
                        old(self).last_time() as nat,
                        old(self).offset() as int,
                        final(self).last_time() as nat,
                    )
                    &&& v == msg_id(final(self).last_time() as nat, final(self).offset() as int)
                    &&& v % 4 == 0
                    &&& msg_id_available(
                        old(self).last_time() as int,
                        old(self).offset() as int,
                        final(self).last_time() as int,
                    )
                },
                None => final(self).last_time() == old(self).last_time() && final(self).offset()
                    == old(self).offset(),
            },
    {
        proof {
            use_type_invariant(&*self);
        }
        let reading = match unix_time_now() {
            Some(t) => t,
            None => {
                return None;
            },
        };
        if reading > i64::MAX as u64 {
            return None;
        }
        self.next_msg_id_for_clock(reading as i64)
    }

    /// Wraps the encoding of `packet` into an unencrypted message with the
    /// message id for the clock reading `now`. `None`, with the header
    /// unchanged, exactly where `next_msg_id_for_clock` gives none.
    pub fn wrap_packet_for_clock<T: TLObject>(&mut self, packet: &mut T, now: i64) -> (r: Option<
        Vec<u8>,
    >)
        ensures
            final(self).auth_key_id() == old(self).auth_key_id(),
            final(self).offset() >= 0 && final(self).offset() % 4 == 0,
            *final(packet) == *old(packet),
            msg_id_available(old(self).last_time() as int, old(self).offset() as int, now as int)
                ==> {
                &&& final(self).last_time() == now
                &&& final(self).offset() == next_offset(
                    old(self).last_time() as nat,
                    old(self).offset() as int,
                    now as nat,
                )
                &&& r matches Some(bytes) && bytes@ == unencrypted_message(
                    old(self).auth_key_id(),
                    msg_id(now as nat, final(self).offset() as int) as u64,
                    T::spec_to_bytes(old(packet).model()),
                ) && bytes@.len() == 20 + T::spec_to_bytes(old(packet).model()).len()
            },
            !msg_id_available(old(self).last_time() as int, old(self).offset() as int, now as int)
                ==> {
                &&& r is None
                &&& final(self).last_time() == old(self).last_time()
                &&& final(self).offset() == old(self).offset()
            },
    {
        proof {
            use_type_invariant(&*self);
        }
        let msg_id_value = match self.next_msg_id_for_clock(now) {
            Some(v) => v,
            None => {
                return None;
            },
        };
        let packet_bytes = packet.to_bytes();
        proof {
            lemma_unencrypted_message_layout(self.auth_key_id@, msg_id_value, packet_bytes@);
        }
        Some(build_unencrypted_message(&self.auth_key_id, msg_id_value, &packet_bytes))
    }

    /// Wraps the encoding of `packet` into an unencrypted message with the
    /// next message id by the system clock. `None`, with the header
    /// unchanged, where `next_msg_id` gives none: when the clock reads a time
    /// before 1970 or after 2106, or the offset would overflow.
    /// `wrap_packet_for_clock` states the outcome for each clock reading.
    pub fn wrap_packet<T: TLObject>(&mut self, packet: &mut T) -> (r: Option<Vec<u8>>)
        ensures
            final(self).auth_key_id() == old(self).auth_key_id(),
            final(self).offset() >= 0 && final(self).offset() % 4 == 0,
            *final(packet) == *old(packet),
            match r {
                Some(bytes) => {
                    &&& final(self).offset() == next_offset(
                        old(self).last_time() as nat,
                        old(self).offset() as int,
                        final(self).last_time() as nat,
                    )
                    &&& msg_id_available(
                        old(self).last_time() as int,
                        old(self).offset() as int,
                        final(self).last_time() as int,
                    )
                    &&& bytes@ == unencrypted_message(
                        old(self).auth_key_id(),
                        msg_id(final(self).last_time() as nat, final(self).offset() as int) as u64,
                        T::spec_to_bytes(old(packet).model()),
                    )
                    &&& bytes@.len() == 20 + T::spec_to_bytes(old(packet).model()).len()
                },
                None => final(self).last_time() == old(self).last_time() && final(self).offset()
                    == old(self).offset(),
            },
    {
        proof {
            use_type_invariant(&*self);
        }
        let reading = match unix_time_now() {
            Some(t) => t,
            None => {
                return None;
            },
        };
        if reading > i64::MAX as u64 {
            return None;
        }
        self.wrap_packet_for_clock(packet, reading as i64)
    }
}

/// The unencrypted message with key id `auth_key_id`, message id `msg_id`
/// and body `body`.
pub fn build_unencrypted_message(auth_key_id: &[u8; 8], msg_id: u64, body: &Vec<u8>) -> (r: Vec<u8>)
    ensures
        r@ == unencrypted_message(auth_key_id@, msg_id, body@),
{
    proof {
        reveal_with_fuel(pow256, 9);
    }
    let mut concatenated: Vec<u8> = Vec::new();
    append_slice(&mut concatenated, auth_key_id.as_slice());
    write_le(&mut concatenated, msg_id as u128, 8);
    let len: u64 = body.len() as u64;
    write_le(&mut concatenated, (len % 4294967296) as u128, 4);
    append_slice(&mut concatenated, body.as_slice());
    concatenated
}

/// Message ids grow: where the clock does not go back between two
/// messages, the second message id is larger than the first.
pub proof fn lemma_msg_ids_increase(last_time: nat, offset: int, now1: nat, now2: nat)
    requires
        0 <= offset <= MAX_OFFSET,
        now1 <= now2,
    ensures
        ({
            let off1 = next_offset(last_time, offset, now1);
            let off2 = next_offset(now1, off1, now2);
            msg_id(now2, off2) > msg_id(now1, off1)
        }),
{
}

/// The layout of an unencrypted message: the key id in its first 8 bytes,
/// the message id in the next 8, little-endian, and 20 bytes before the body.
pub proof fn lemma_unencrypted_message_layout(auth_key_id: Seq<u8>, msg_id: u64, body: Seq<u8>)
    requires
        auth_key_id.len() == 8,
    ensures
        unencrypted_message(auth_key_id, msg_id, body).len() == 20 + body.len(),
        unencrypted_message(auth_key_id, msg_id, body).take(8) == auth_key_id,
        unencrypted_message(auth_key_id, msg_id, body).subrange(8, 16) == le_bytes(msg_id as nat, 8),
{
    crate::le::lemma_le_bytes_len(msg_id as nat, 8);
    crate::le::lemma_le_bytes_len(body.len() % pow256(4), 4);
    let m = unencrypted_message(auth_key_id, msg_id, body);
    assert(m.take(8) =~= auth_key_id);
    assert(m.subrange(8, 16) =~= le_bytes(msg_id as nat, 8));
}

/// Two messages wrapped one after the other, the clock not going back,
/// carry the same key id, and message ids that are multiples of four and
/// grow.
#[verifier::spinoff_prover]
pub proof fn lemma_wrapped_msg_ids_increase(
    auth_key_id: Seq<u8>,
    last_time: nat,
    offset: int,
    now1: nat,
    now2: nat,
    body1: Seq<u8>,
    body2: Seq<u8>,
)
    requires
        auth_key_id.len() == 8,
        0 <= offset <= MAX_OFFSET,
        offset % 4 == 0,
        now1 <= now2 <= u32::MAX,
    ensures
        ({
            let off1 = next_offset(last_time, offset, now1);
            let off2 = next_offset(now1, off1, now2);
            let m1 = unencrypted_message(auth_key_id, msg_id(now1, off1) as u64, body1);
            let m2 = unencrypted_message(auth_key_id, msg_id(now2, off2) as u64, body2);
            &&& m1.take(8) == auth_key_id
            &&& m2.take(8) == auth_key_id
            &&& le_value(m1.subrange(8, 16)) == msg_id(now1, off1)
            &&& le_value(m2.subrange(8, 16)) == msg_id(now2, off2)
            &&& le_value(m1.subrange(8, 16)) % 4 == 0
            &&& le_value(m2.subrange(8, 16)) % 4 == 0
            &&& le_value(m2.subrange(8, 16)) > le_value(m1.subrange(8, 16))
        }),
{
    let off1 = next_offset(last_time, offset, now1);
    let off2 = next_offset(now1, off1, now2);
    let id1 = msg_id(now1, off1);
    let id2 = msg_id(now2, off2);
    assert(pow256(8) == 18446744073709551616) by {
        reveal_with_fuel(pow256, 9);
    }
    assert(0 <= off1 <= MAX_OFFSET + 4);
    assert(0 <= off2 <= MAX_OFFSET + 8);
    assert(0 <= id1 < pow256(8));
    assert(0 <= id2 < pow256(8));
    lemma_unencrypted_message_layout(auth_key_id, id1 as u64, body1);
    lemma_unencrypted_message_layout(auth_key_id, id2 as u64, body2);
    crate::le::lemma_le_value_of_bytes(id1 as nat, 8);
    crate::le::lemma_le_value_of_bytes(id2 as nat, 8);
    lemma_msg_ids_increase(last_time, offset, now1, now2);
}

/// The body of an unencrypted message starts after its 20-byte header.
pub proof fn lemma_unencrypted_message_body(auth_key_id: Seq<u8>, msg_id: u64, body: Seq<u8>)
    requires
        auth_key_id.len() == 8,
    ensures
        unencrypted_message(auth_key_id, msg_id, body).skip(20) == body,
{
    crate::le::lemma_le_bytes_len(msg_id as nat, 8);
    crate::le::lemma_le_bytes_len(body.len() % pow256(4), 4);
    assert(unencrypted_message(auth_key_id, msg_id, body).skip(20) =~= body);
}

/// A wrapped packet reads back: decoding the body of the unencrypted
/// message that carries the encoding of a decodable value gives the value.
pub proof fn lemma_read_wrapped_packet<T: TLObject>(auth_key_id: Seq<u8>, msg_id: u64, m: T::Model)
    requires
        auth_key_id.len() == 8,
        T::spec_decodable(m),
    ensures
        T::spec_read(unencrypted_message(auth_key_id, msg_id, T::spec_to_bytes(m)).skip(20))
            == Some((m, T::spec_to_bytes(m).len())),
{
    lemma_unencrypted_message_body(auth_key_id, msg_id, T::spec_to_bytes(m));
    T::lemma_read_to_bytes(m, Seq::empty());
    assert(T::spec_to_bytes(m) + Seq::<u8>::empty() =~= T::spec_to_bytes(m));
}

/// Every message id that the header makes is a multiple of four.
pub proof fn lemma_msg_id_aligned(now: nat, offset: int)
    requires
        offset % 4 == 0,
    ensures
        msg_id(now, offset) % 4 == 0,
{
}

} // verus!
