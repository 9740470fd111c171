//! The body of a response, handed out piece by piece.

use crate::outside::{bytes_as_slice, content};
use bytes::Bytes;
use vstd::prelude::*;

verus! {

/// Backend response implementation
pub struct BackendResp {
    pub payload: Option<Bytes>,
    pub cursor: usize,
}

/// How many bytes a read hands out.
pub open spec fn read_size(remaining: nat, room: nat) -> nat {
    if remaining <= room {
        remaining
    } else {
        room
    }
}

impl BackendResp {
    /// All the bytes of the body.
    pub open spec fn bytes(&self) -> Seq<u8> {
        match self.payload {
            Some(buffer) => content(buffer),
            None => seq![],
        }
    }

    /// The bytes that have not been read yet.
    pub open spec fn unread(&self) -> Seq<u8> {
        if self.cursor < self.bytes().len() {
            self.bytes().skip(self.cursor as int)
        } else {
            seq![]
        }
    }

    /// Reads as much of the body as there is room for in `buf`, and returns how much that is. What
    /// was read is not read again.
    pub fn read(&mut self, buf: &mut [u8]) -> (n: usize)
        ensures
            n == read_size(old(self).unread().len(), old(buf)@.len()),
            final(buf)@ == old(self).unread().take(n as int) + old(buf)@.skip(n as int),
            final(self).payload == old(self).payload,
            final(self).cursor == old(self).cursor + n,
            final(self).unread() == old(self).unread().skip(n as int),
    {
        let mut n: usize = 0;
        match &self.payload {
            Some(buffer) => {
                let payload = bytes_as_slice(buffer);
                if self.cursor < payload.len() {
                    let remaining: usize = payload.len() - self.cursor;
                    let size: usize = if remaining <= buf.len() {
                        remaining
                    } else {
                        buf.len()
                    };
                    let ghost room = buf@;
                    let ghost unread = payload@.skip(self.cursor as int);
                    while n < size
                        invariant
                            n <= size <= unread.len(),
                            size <= room.len(),
                            self.cursor + unread.len() == payload.len(),
                            unread == payload@.skip(self.cursor as int),
                            buf@ == unread.take(n as int) + room.skip(n as int),
                        decreases size - n,
                    {
                        buf[n] = payload[self.cursor + n];
                        assert(buf@ == unread.take(n + 1) + room.skip(n + 1));
                        n = n + 1;
                    }
                }
            },
            None => {},
        }
        self.cursor = self.cursor + n;
        n
    }

    /// How long the body is, if there is one.
    pub fn len(&self) -> (len: Option<usize>)
        ensures
            match (self.payload, len) {
                (Some(buffer), Some(n)) => n == content(buffer).len(),
                (None, None) => true,
                _ => false,
            },
    {
        match &self.payload {
            Some(buffer) => Some(buffer.len()),
            None => None,
        }
    }
}

/// What reads into buffers of the given sizes hand out in all.
pub open spec fn read_all(unread: Seq<u8>, rooms: Seq<nat>) -> Seq<u8>
    decreases rooms.len(),
{
    if rooms.len() == 0 {
        seq![]
    } else {
        let n = read_size(unread.len(), rooms[0]) as int;
        unread.take(n) + read_all(unread.skip(n), rooms.drop_first())
    }
}

/// How many bytes there is room for in buffers.
pub open spec fn total_room(rooms: Seq<nat>) -> nat
    decreases rooms.len(),
{
    if rooms.len() == 0 {
        0
    } else {
        rooms[0] + total_room(rooms.drop_first())
    }
}

/// However the buffers are sized, reads hand out the body in order, without a gap and without a
/// repetition, until the room or the body ends.
pub proof fn law_reads_hand_out_body_in_order(unread: Seq<u8>, rooms: Seq<nat>)
    ensures
        read_all(unread, rooms) == unread.take(
            read_size(unread.len(), total_room(rooms)) as int,
        ),
        total_room(rooms) >= unread.len() ==> read_all(unread, rooms) == unread,
    decreases rooms.len(),
{
    if rooms.len() > 0 {
        let n = read_size(unread.len(), rooms[0]) as int;
        law_reads_hand_out_body_in_order(unread.skip(n), rooms.drop_first());
        let rest = read_size(unread.skip(n).len(), total_room(rooms.drop_first())) as int;
        assert(unread.take(n) + unread.skip(n).take(rest) == unread.take(n + rest));
    }
    assert(unread.take(unread.len() as int) == unread);
}

} // verus!
