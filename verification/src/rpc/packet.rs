//! Packets: the length-prefixed, code-tagged units that travel on the stream.
//!
//! On the stream a packet is a four-byte big-endian payload length, the
//! one-byte message code, and the payload. In memory it is the code followed
//! by the payload: the length is implied by the buffer.

use super::error::Error;
use super::packing::{be32, from_be32, get_u32, lemma_be32_round_trip};
use std::collections::TryReserveError;
use vstd::prelude::*;
use vstd::slice::slice_subrange;

verus! {

/// The bytes of a packet header: the length and the code.
pub const HEADER_LEN: usize = 5;

/// The smallest payload that is accepted.
pub const MIN_PAYLOAD_LEN: usize = 4;

/// Ceiling of the ordinary messages: 50 KiB.
pub const DEFAULT_MAX_LEN: usize = 51200;

/// Ceiling of a metadata pull request: 50 MiB.
pub const PULL_MAX_LEN: usize = 52428800;

/// Ceiling of a metadata push request: 200 MiB.
pub const PUSH_MAX_LEN: usize = 209715200;

/// The largest payload, in bytes, that is accepted for a message code.
pub open spec fn max_payload_len(code: u8) -> int {
    if code == 0x0e {
        50int * 1024 * 1024
    } else if code == 0x10 {
        200int * 1024 * 1024
    } else {
        50int * 1024
    }
}

/// Looks up the payload ceiling of a message code.
pub fn get_code_maxlen(code: u8) -> (max: usize)
    ensures
        max == max_payload_len(code),
{
    match code {
        0x0e => PULL_MAX_LEN,
        0x10 => PUSH_MAX_LEN,
        _ => DEFAULT_MAX_LEN,
    }
}

/// The payload length that a header declares.
pub open spec fn declared_len(head: Seq<u8>) -> int
    recommends
        head.len() >= 5,
{
    from_be32(head) as int
}

/// The message code that a header carries.
pub open spec fn declared_code(head: Seq<u8>) -> u8
    recommends
        head.len() >= 5,
{
    head[4]
}

/// Whether a header declares a length that its code allows: at least four
/// bytes and no more than the ceiling.
pub open spec fn header_accepted(head: Seq<u8>) -> bool
    recommends
        head.len() >= 5,
{
    4 <= declared_len(head) <= max_payload_len(declared_code(head))
}

/// A header that has passed both checks on its length.
pub struct PacketHeader {
    code: u8,
    len: u32,
}

impl View for PacketHeader {
    type V = (u8, int);

    /// The message code and the payload length.
    closed spec fn view(&self) -> (u8, int) {
        (self.code, self.len as int)
    }
}

impl PacketHeader {
    #[verifier::type_invariant]
    spec fn within_limits(&self) -> bool {
        4 <= self.len <= max_payload_len(self.code)
    }

    /// The message code.
    pub fn code(&self) -> (code: u8)
        ensures
            code == self@.0,
    {
        self.code
    }

    /// The number of payload bytes that follow the header.
    pub fn payload_len(&self) -> (len: usize)
        ensures
            len == self@.1,
            4 <= len <= max_payload_len(self@.0),
    {
        proof {
            use_type_invariant(self);
        }
        self.len as usize
    }

    /// The size of the buffer that holds the packet: the code and the
    /// payload. It never exceeds the ceiling of the code by more than the one
    /// byte of the code itself.
    pub fn buffer_len(&self) -> (len: usize)
        ensures
            len == self@.1 + 1,
            len <= max_payload_len(self@.0) + 1,
            len <= PUSH_MAX_LEN + 1,
    {
        proof {
            use_type_invariant(self);
        }
        self.len as usize + 1
    }
}

/// Reads the five bytes of a header, unchecked: the message code and the
/// payload length that they declare.
pub fn header_fields(head: &[u8; 5]) -> (fields: (u8, u32))
    ensures
        fields.0 == declared_code(head@),
        fields.1 == declared_len(head@),
{
    assert(head@.subrange(0, head@.len() as int) =~= head@);
    (head[4], get_u32(head.as_slice(), 0))
}

/// Checks the five bytes of a header. A length under four bytes or over the
/// ceiling of the code is refused before anything is allocated or read.
pub fn parse_header(head: &[u8; 5]) -> (r: Result<PacketHeader, Error>)
    ensures
        header_accepted(head@) ==> (r matches Ok(h) && h@ == (
            declared_code(head@),
            declared_len(head@),
        )),
        !header_accepted(head@) ==> r matches Err(Error::InvalidData),
{
    let (code, len) = header_fields(head);
    if (len as usize) < MIN_PAYLOAD_LEN {
        return Err(Error::InvalidData);
    }
    if len as usize > get_code_maxlen(code) {
        return Err(Error::InvalidData);
    }
    Ok(PacketHeader { code, len })
}

/// Calls `Vec::try_reserve_exact`, which leaves the contents as they are,
/// whether or not it could reserve the space. Nothing is claimed of when it
/// succeeds.
#[verifier::external_body]
fn try_reserve_exact(data: &mut Vec<u8>, additional: usize) -> (reserved: Result<
    (),
    TryReserveError,
>)
    ensures
        final(data)@ == old(data)@,
{
    data.try_reserve_exact(additional)
}

/// The buffer of a packet whose payload has not arrived yet: the code, then
/// as many zero bytes as the payload is long.
pub open spec fn blank_packet(code: u8, len: int) -> Seq<u8> {
    seq![code] + Seq::new(len as nat, |i: int| 0u8)
}

/// Turns an attempt to reserve space into the buffer of a packet, or into
/// the error that reports the shortage.
pub fn finish_buffer(
    data: Vec<u8>,
    reserved: Result<(), TryReserveError>,
    header: &PacketHeader,
) -> (r: Result<Vec<u8>, Error>)
    ensures
        reserved is Ok ==> (r matches Ok(v) && v@ == blank_packet(header@.0, header@.1)),
        reserved is Err ==> r matches Err(Error::OutOfMemory),
{
    match reserved {
        Err(e) => Err(Error::from(e)),
        Ok(()) => {
            let mut data = data;
            data.clear();
            data.resize(header.buffer_len(), 0);
            data[0] = header.code();
            assert(data@ =~= blank_packet(header@.0, header@.1));
            Ok(data)
        },
    }
}

/// Allocates the buffer of a packet: exactly one byte for the code and one
/// for each byte of the payload. A shortage of memory is an error, not a
/// crash.
pub fn packet_buffer(header: &PacketHeader) -> (r: Result<Vec<u8>, Error>)
    ensures
        r matches Ok(v) ==> v@ == blank_packet(header@.0, header@.1) && v@.len()
            <= max_payload_len(header@.0) + 1,
        r matches Err(e) ==> e is OutOfMemory,
{
    let mut data: Vec<u8> = Vec::new();
    let size = header.buffer_len();
    let reserved = try_reserve_exact(&mut data, size);
    finish_buffer(data, reserved, header)
}

/// How reading a packet from a stream can fail, memory aside.
pub enum PacketFault {
    /// The stream ends before the packet does.
    Eof,
    /// The header declares a length that its code does not allow.
    Invalid,
}

/// The packet at the front of `stream`, as the buffer that a reader hands
/// on: the code followed by the payload.
pub open spec fn parse_packet(stream: Seq<u8>) -> Result<Seq<u8>, PacketFault> {
    if stream.len() < 5 {
        Err(PacketFault::Eof)
    } else if !header_accepted(stream) {
        Err(PacketFault::Invalid)
    } else if stream.len() < 5 + declared_len(stream) {
        Err(PacketFault::Eof)
    } else {
        Ok(stream.subrange(4, 5 + declared_len(stream)))
    }
}

/// The bytes that carry the buffer `data` on the stream: the length of its
/// payload, then the buffer itself.
pub open spec fn packet_bytes(data: Seq<u8>) -> Seq<u8>
    recommends
        1 <= data.len() <= u32::MAX + 1,
{
    be32((data.len() - 1) as u32) + data
}

/// Fills the payload of a packet's buffer from the front of `source`, which
/// is what follows the header on the stream. The code at the front of the
/// buffer stays. A source shorter than the payload is the end of the stream.
pub fn fill_packet(data: Vec<u8>, source: &[u8]) -> (r: Result<Vec<u8>, Error>)
    requires
        data@.len() >= 1,
    ensures
        source@.len() < data@.len() - 1 ==> r matches Err(Error::UnexpectedEof),
        source@.len() >= data@.len() - 1 ==> (r matches Ok(v) && v@ == seq![data@[0]]
            + source@.subrange(0, data@.len() - 1)),
{
    let mut data = data;
    let len = data.len() - 1;
    if source.len() < len {
        return Err(Error::UnexpectedEof);
    }
    let ghost code = data@[0];
    let mut i: usize = 0;
    while i < len
        invariant
            i <= len <= source.len(),
            data@.len() == len + 1,
            data@[0] == code,
            forall|j: int| 1 <= j < 1 + i ==> #[trigger] data@[j] == source@[j - 1],
        decreases len - i,
    {
        data[1 + i] = source[i];
        i += 1;
    }
    assert(data@ =~= seq![code] + source@.subrange(0, len as int));
    Ok(data)
}

/// Reads one packet from the front of an in-memory stream. The packet takes
/// four bytes more of the stream than the buffer returned is long.
///
/// The header is checked before the buffer is allocated, and the buffer is
/// allocated before the payload is looked at.
pub fn read_packet(stream: &[u8]) -> (r: Result<Vec<u8>, Error>)
    ensures
        match parse_packet(stream@) {
            Ok(data) => (r matches Ok(v) && v@ == data) || r matches Err(Error::OutOfMemory),
            Err(PacketFault::Invalid) => r matches Err(Error::InvalidData),
            Err(PacketFault::Eof) => r matches Err(Error::UnexpectedEof) || (stream@.len() >= 5
                && r matches Err(Error::OutOfMemory)),
        },
{
    if stream.len() < HEADER_LEN {
        return Err(Error::UnexpectedEof);
    }
    let head: [u8; 5] = [stream[0], stream[1], stream[2], stream[3], stream[4]];
    proof {
        assert(from_be32(head@) == from_be32(stream@));
    }
    let header = match parse_header(&head) {
        Err(e) => {
            return Err(e);
        },
        Ok(h) => h,
    };
    let data = match packet_buffer(&header) {
        Err(e) => {
            return Err(e);
        },
        Ok(v) => v,
    };
    let rest = slice_subrange(stream, HEADER_LEN, stream.len());
    let filled = fill_packet(data, rest);
    proof {
        if filled is Ok {
            let len = declared_len(stream@);
            assert(filled->Ok_0@ =~= stream@.subrange(4, 5 + len));
        }
    }
    filled
}

/// The four bytes that announce the buffer `data` on the stream: the length
/// of its payload, which leaves the code out.
pub fn length_prefix(data: &[u8]) -> (prefix: [u8; 4])
    requires
        1 <= data@.len() <= u32::MAX + 1,
    ensures
        prefix@ == be32((data@.len() - 1) as u32),
{
    let len = (data.len() - 1) as u32;
    let prefix: [u8; 4] = [
        (len / 0x100_0000) as u8,
        ((len / 0x1_0000) % 0x100) as u8,
        ((len / 0x100) % 0x100) as u8,
        (len % 0x100) as u8,
    ];
    assert(prefix@ =~= be32(len));
    prefix
}

/// Writes the buffer `data`, a code followed by its payload, to an in-memory
/// stream as one packet.
pub fn write_packet(w: &mut Vec<u8>, data: &[u8])
    requires
        1 <= data@.len() <= u32::MAX + 1,
    ensures
        final(w)@ == old(w)@ + packet_bytes(data@),
{
    let prefix = length_prefix(data);
    w.extend_from_slice(prefix.as_slice());
    w.extend_from_slice(data);
    assert(w@ =~= old(w)@ + packet_bytes(data@));
}

/// A packet that was written is read back as the buffer it was written from,
/// whatever follows it on the stream, provided that its payload has a length
/// that its code allows.
pub proof fn lemma_packet_round_trip(data: Seq<u8>, rest: Seq<u8>)
    requires
        data.len() >= 1,
        4 <= data.len() - 1 <= max_payload_len(data[0]),
    ensures
        parse_packet(packet_bytes(data) + rest) == Ok::<Seq<u8>, PacketFault>(data),
{
    let len = (data.len() - 1) as u32;
    let stream = packet_bytes(data) + rest;
    lemma_be32_round_trip(len, data + rest);
    assert(stream =~= be32(len) + (data + rest));
    assert(stream[4] == data[0]);
    assert(stream.subrange(4, 5 + len) =~= data);
}

/// A header that declares fewer than four bytes of payload is refused on
/// its own five bytes: nothing behind them is looked at.
pub proof fn lemma_short_length_refused(head: Seq<u8>, rest: Seq<u8>)
    requires
        head.len() == 5,
        declared_len(head) < 4,
    ensures
        parse_packet(head + rest) == Err::<Seq<u8>, PacketFault>(PacketFault::Invalid),
{
    let stream = head + rest;
    assert(from_be32(stream) == from_be32(head));
}

/// The ceiling of a code is the largest length that its header may declare:
/// that length passes, and one byte more does not.
pub proof fn lemma_ceiling_inclusive(head: Seq<u8>)
    requires
        head.len() >= 5,
    ensures
        declared_len(head) == max_payload_len(declared_code(head)) ==> header_accepted(head),
        declared_len(head) == max_payload_len(declared_code(head)) + 1 ==> !header_accepted(
            head,
        ),
{
}

/// Every header asks for a buffer within the limit of its code: a length
/// over the ceiling is refused, so what is allocated for a header that passes
/// is at most the ceiling and the one byte of the code.
pub proof fn lemma_allocation_bounded(head: Seq<u8>)
    requires
        head.len() >= 5,
    ensures
        header_accepted(head) ==> declared_len(head) + 1 <= max_payload_len(declared_code(head))
            + 1,
        max_payload_len(declared_code(head)) <= 200 * 1024 * 1024,
{
}

} // verus!
