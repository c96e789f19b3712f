//! Packets, messages and the errors shared by both.

pub mod codec;
pub mod error;
pub mod messages;
pub mod packet;
pub mod packing;

pub use error::Error;
pub use messages::{
    PullMetadata, PullMetadataFunc, PullMetadataResult, PullMetadataResultFunc, PushMetadata,
    PushMetadataFunc, PushMetadataResult, RpcFail, RpcHello, RpcNotify,
};
pub use packet::{get_code_maxlen, read_packet, write_packet};

use codec::{oversized_text, truncated_text, Fault, Wire};
use messages::{
    HelloModel, NoticeModel, PullModel, PullResultModel, PushModel, PushResultModel,
};
use packet::{
    declared_len, header_accepted, packet_bytes, parse_packet, PacketFault,
};
use vstd::prelude::*;
use vstd::slice::slice_subrange;

verus! {

/// A message of the protocol: one of eight kinds, each with its own record.
pub enum RpcMessage<'a> {
    /// The request succeeded; there is nothing more to say.
    Okay(()),
    /// The request failed.
    Fail(RpcFail<'a>),
    /// Something the peer should know.
    Notify(RpcNotify<'a>),
    /// The handshake that opens a session.
    Hello(RpcHello<'a>),
    /// A request for metadata.
    PullMetadata(PullMetadata<'a>),
    /// The answer to a request for metadata.
    PullMetadataResult(PullMetadataResult<'a>),
    /// Metadata sent to the server.
    PushMetadata(PushMetadata<'a>),
    /// The answer to metadata sent.
    PushMetadataResult(PushMetadataResult),
}

/// What a message stands for: its kind and the model of its record.
pub enum MessageModel {
    Okay,
    Fail(NoticeModel),
    Notify(NoticeModel),
    Hello(HelloModel),
    PullMetadata(PullModel),
    PullMetadataResult(PullResultModel),
    PushMetadata(PushModel),
    PushMetadataResult(PushResultModel),
}

impl MessageModel {
    /// The code that announces the kind of the message on the wire.
    pub open spec fn code(self) -> u8 {
        match self {
            MessageModel::Okay => 0x0a,
            MessageModel::Fail(_) => 0x0b,
            MessageModel::Notify(_) => 0x0c,
            MessageModel::Hello(_) => 0x0d,
            MessageModel::PullMetadata(_) => 0x0e,
            MessageModel::PullMetadataResult(_) => 0x0f,
            MessageModel::PushMetadata(_) => 0x10,
            MessageModel::PushMetadataResult(_) => 0x11,
        }
    }

    /// Whether the record is the model of some value.
    pub open spec fn valid(self) -> bool {
        match self {
            MessageModel::Okay => true,
            MessageModel::Fail(m) => RpcFail::valid(m),
            MessageModel::Notify(m) => RpcNotify::valid(m),
            MessageModel::Hello(m) => RpcHello::valid(m),
            MessageModel::PullMetadata(m) => PullMetadata::valid(m),
            MessageModel::PullMetadataResult(m) => PullMetadataResult::valid(m),
            MessageModel::PushMetadata(m) => PushMetadata::valid(m),
            MessageModel::PushMetadataResult(m) => PushMetadataResult::valid(m),
        }
    }

    /// The encoding of the record; empty for the kind that has none.
    pub open spec fn payload(self) -> Seq<u8> {
        match self {
            MessageModel::Okay => Seq::empty(),
            MessageModel::Fail(m) => RpcFail::encoding(m),
            MessageModel::Notify(m) => RpcNotify::encoding(m),
            MessageModel::Hello(m) => RpcHello::encoding(m),
            MessageModel::PullMetadata(m) => PullMetadata::encoding(m),
            MessageModel::PullMetadataResult(m) => PullMetadataResult::encoding(m),
            MessageModel::PushMetadata(m) => PushMetadata::encoding(m),
            MessageModel::PushMetadataResult(m) => PushMetadataResult::encoding(m),
        }
    }

    /// The encoding of the message: its code, as one plain byte, then its
    /// record.
    pub open spec fn encoding(self) -> Seq<u8> {
        seq![self.code()] + self.payload()
    }
}

/// Whether `code` announces one of the eight kinds of message.
pub open spec fn known_code(code: u8) -> bool {
    0x0a <= code <= 0x11
}

/// Why a buffer fails to parse as a message.
pub enum MessageFault {
    /// The buffer is empty or starts with a code that announces no message.
    Unknown,
    /// The record does not parse.
    Record(Fault),
}

/// The message parsed from a record, counting in the byte of the code.
pub open spec fn tagged<M>(
    wrap: spec_fn(M) -> MessageModel,
    r: Result<(M, int), Fault>,
) -> Result<(MessageModel, int), MessageFault> {
    match r {
        Ok((m, n)) => Ok((wrap(m), 1 + n)),
        Err(f) => Err(MessageFault::Record(f)),
    }
}

/// The message at the front of `input` and the number of bytes it occupies,
/// or the reason why there is none. Bytes that follow the message are not an
/// error; after a message without a record, all bytes but the code follow it.
pub open spec fn parse_message(input: Seq<u8>) -> Result<(MessageModel, int), MessageFault> {
    if input.len() == 0 {
        Err(MessageFault::Unknown)
    } else {
        let body = input.subrange(1, input.len() as int);
        match input[0] {
            0x0a => Ok((MessageModel::Okay, 1)),
            0x0b => tagged(|m| MessageModel::Fail(m), RpcFail::parse(body)),
            0x0c => tagged(|m| MessageModel::Notify(m), RpcNotify::parse(body)),
            0x0d => tagged(|m| MessageModel::Hello(m), RpcHello::parse(body)),
            0x0e => tagged(|m| MessageModel::PullMetadata(m), PullMetadata::parse(body)),
            0x0f => tagged(
                |m| MessageModel::PullMetadataResult(m),
                PullMetadataResult::parse(body),
            ),
            0x10 => tagged(|m| MessageModel::PushMetadata(m), PushMetadata::parse(body)),
            0x11 => tagged(
                |m| MessageModel::PushMetadataResult(m),
                PushMetadataResult::parse(body),
            ),
            _ => Err(MessageFault::Unknown),
        }
    }
}

impl<'a> View for RpcMessage<'a> {
    type V = MessageModel;

    open spec fn view(&self) -> MessageModel {
        match self {
            RpcMessage::Okay(_) => MessageModel::Okay,
            RpcMessage::Fail(m) => MessageModel::Fail(m.model()),
            RpcMessage::Notify(m) => MessageModel::Notify(m.model()),
            RpcMessage::Hello(m) => MessageModel::Hello(m.model()),
            RpcMessage::PullMetadata(m) => MessageModel::PullMetadata(m.model()),
            RpcMessage::PullMetadataResult(m) => MessageModel::PullMetadataResult(m.model()),
            RpcMessage::PushMetadata(m) => MessageModel::PushMetadata(m.model()),
            RpcMessage::PushMetadataResult(m) => MessageModel::PushMetadataResult(m.model()),
        }
    }
}

impl<'a> RpcMessage<'a> {
    /// The code that announces the kind of this message on the wire.
    pub fn get_code(&self) -> (code: u8)
        ensures
            code == self@.code(),
            known_code(code),
    {
        match self {
            RpcMessage::Okay(_) => 0x0a,
            RpcMessage::Fail(_) => 0x0b,
            RpcMessage::Notify(_) => 0x0c,
            RpcMessage::Hello(_) => 0x0d,
            RpcMessage::PullMetadata(_) => 0x0e,
            RpcMessage::PullMetadataResult(_) => 0x0f,
            RpcMessage::PushMetadata(_) => 0x10,
            RpcMessage::PushMetadataResult(_) => 0x11,
        }
    }

    /// The model of a message is valid.
    pub proof fn lemma_model_valid(&self)
        ensures
            self@.valid(),
    {
        match self {
            RpcMessage::Okay(_) => {},
            RpcMessage::Fail(m) => m.lemma_model_valid(),
            RpcMessage::Notify(m) => m.lemma_model_valid(),
            RpcMessage::Hello(m) => m.lemma_model_valid(),
            RpcMessage::PullMetadata(m) => m.lemma_model_valid(),
            RpcMessage::PullMetadataResult(m) => m.lemma_model_valid(),
            RpcMessage::PushMetadata(m) => m.lemma_model_valid(),
            RpcMessage::PushMetadataResult(m) => m.lemma_model_valid(),
        }
    }

    /// Decodes a record from the front of `payload` and counts the bytes that
    /// are left over behind it. Left-over bytes are no error: a later version
    /// of the protocol may have added fields.
    pub fn deserialize_check<T: Wire<'a>>(payload: &'a [u8]) -> (r: Result<(T, usize), Error>)
        ensures
            match T::parse(payload@) {
                Ok((m, n)) => r matches Ok((v, left)) && v.model() == m && left == payload@.len()
                    - n,
                Err(Fault::Truncated) => r matches Err(Error::Serde(text)) && text@
                    == truncated_text(),
                Err(Fault::BadText) => r matches Err(Error::Utf8Error(_)),
            },
    {
        match T::decode(payload) {
            Err(e) => Err(e),
            Ok((v, n)) => {
                proof {
                    T::lemma_parse_exact(payload@);
                }
                Ok((v, payload.len() - n))
            },
        }
    }

    /// Decodes the message in a buffer that starts with the message code,
    /// and counts the bytes that are left over behind the message.
    pub fn decode(payload: &'a [u8]) -> (r: Result<(RpcMessage<'a>, usize), Error>)
        ensures
            match parse_message(payload@) {
                Ok((m, n)) => r matches Ok((msg, left)) && msg@ == m && left == payload@.len()
                    - n,
                Err(MessageFault::Unknown) => r matches Err(Error::InvalidData),
                Err(MessageFault::Record(Fault::Truncated)) => r matches Err(Error::Serde(text))
                    && text@ == truncated_text(),
                Err(MessageFault::Record(Fault::BadText)) => r matches Err(Error::Utf8Error(_)),
            },
    {
        if payload.len() == 0 {
            return Err(Error::InvalidData);
        }
        let msg_type = payload[0];
        let payload = slice_subrange(payload, 1, payload.len());
        match msg_type {
            0x0a => Ok((RpcMessage::Okay(()), payload.len())),
            0x0b => match Self::deserialize_check::<RpcFail<'a>>(payload) {
                Ok((v, left)) => Ok((RpcMessage::Fail(v), left)),
                Err(e) => Err(e),
            },
            0x0c => match Self::deserialize_check::<RpcNotify<'a>>(payload) {
                Ok((v, left)) => Ok((RpcMessage::Notify(v), left)),
                Err(e) => Err(e),
            },
            0x0d => match Self::deserialize_check::<RpcHello<'a>>(payload) {
                Ok((v, left)) => Ok((RpcMessage::Hello(v), left)),
                Err(e) => Err(e),
            },
            0x0e => match Self::deserialize_check::<PullMetadata<'a>>(payload) {
                Ok((v, left)) => Ok((RpcMessage::PullMetadata(v), left)),
                Err(e) => Err(e),
            },
            0x0f => match Self::deserialize_check::<PullMetadataResult<'a>>(payload) {
                Ok((v, left)) => Ok((RpcMessage::PullMetadataResult(v), left)),
                Err(e) => Err(e),
            },
            0x10 => match Self::deserialize_check::<PushMetadata<'a>>(payload) {
                Ok((v, left)) => Ok((RpcMessage::PushMetadata(v), left)),
                Err(e) => Err(e),
            },
            0x11 => match Self::deserialize_check::<PushMetadataResult>(payload) {
                Ok((v, left)) => Ok((RpcMessage::PushMetadataResult(v), left)),
                Err(e) => Err(e),
            },
            _ => Err(Error::InvalidData),
        }
    }

    /// Decodes the message in a buffer that starts with the message code.
    /// Bytes behind the message are ignored.
    pub fn deserialize(payload: &'a [u8]) -> (r: Result<RpcMessage<'a>, Error>)
        ensures
            match parse_message(payload@) {
                Ok((m, n)) => r matches Ok(msg) && msg@ == m,
                Err(MessageFault::Unknown) => r matches Err(Error::InvalidData),
                Err(MessageFault::Record(Fault::Truncated)) => r matches Err(Error::Serde(text))
                    && text@ == truncated_text(),
                Err(MessageFault::Record(Fault::BadText)) => r matches Err(Error::Utf8Error(_)),
            },
    {
        match Self::decode(payload) {
            Ok((msg, _)) => Ok(msg),
            Err(e) => Err(e),
        }
    }

    /// Whether the record can be encoded: its encoding must not be longer
    /// than a packet can declare.
    fn fits(&self) -> (ok: bool)
        ensures
            ok == (self@.payload().len() <= u32::MAX),
    {
        let left = match self {
            RpcMessage::Okay(_) => Some(u32::MAX),
            RpcMessage::Fail(m) => m.fits(u32::MAX),
            RpcMessage::Notify(m) => m.fits(u32::MAX),
            RpcMessage::Hello(m) => m.fits(u32::MAX),
            RpcMessage::PullMetadata(m) => m.fits(u32::MAX),
            RpcMessage::PullMetadataResult(m) => m.fits(u32::MAX),
            RpcMessage::PushMetadata(m) => m.fits(u32::MAX),
            RpcMessage::PushMetadataResult(m) => m.fits(u32::MAX),
        };
        left.is_some()
    }

    /// Appends the encoding of the message to `out`: the code, then the
    /// record. A message whose record would take more bytes than a packet can
    /// declare is refused, and `out` is left as it was.
    pub fn serialize(&self, out: &mut Vec<u8>) -> (r: Result<(), Error>)
        ensures
            self@.payload().len() <= u32::MAX ==> r is Ok && final(out)@ == old(out)@
                + self@.encoding(),
            self@.payload().len() > u32::MAX ==> (r matches Err(Error::Serde(text)) && text@
                == oversized_text()) && final(out)@ == old(out)@,
    {
        if !self.fits() {
            return Err(Error::custom("value too large to encode"));
        }
        let code = self.get_code();
        out.push(code);
        match self {
            RpcMessage::Okay(_) => {},
            RpcMessage::Fail(msg) => msg.encode(out),
            RpcMessage::Notify(msg) => msg.encode(out),
            RpcMessage::Hello(msg) => msg.encode(out),
            RpcMessage::PullMetadata(msg) => msg.encode(out),
            RpcMessage::PullMetadataResult(msg) => msg.encode(out),
            RpcMessage::PushMetadata(msg) => msg.encode(out),
            RpcMessage::PushMetadataResult(msg) => msg.encode(out),
        }
        assert(out@ =~= old(out)@ + self@.encoding());
        Ok(())
    }

    /// Encodes the message and writes it to an in-memory stream as one
    /// packet. Where the message cannot be encoded, nothing is written.
    pub fn write(&self, w: &mut Vec<u8>) -> (r: Result<(), Error>)
        ensures
            self@.payload().len() <= u32::MAX ==> r is Ok && final(w)@ == old(w)@ + packet_bytes(
                self@.encoding(),
            ),
            self@.payload().len() > u32::MAX ==> (r matches Err(Error::Serde(text)) && text@
                == oversized_text()) && final(w)@ == old(w)@,
    {
        let mut output: Vec<u8> = Vec::with_capacity(32);
        match self.serialize(&mut output) {
            Err(e) => {
                return Err(e);
            },
            Ok(()) => {},
        }
        assert(output@ =~= self@.encoding());
        write_packet(w, output.as_slice());
        Ok(())
    }
}

/// Decoding an encoded message gives the message back, and stops where its
/// encoding ends, whatever follows it. This holds of every message that can
/// be encoded.
pub proof fn lemma_message_round_trip(m: MessageModel, rest: Seq<u8>)
    requires
        m.valid(),
        m.payload().len() <= u32::MAX,
    ensures
        parse_message(m.encoding() + rest) == Ok::<(MessageModel, int), MessageFault>(
            (m, m.encoding().len() as int),
        ),
{
    let input = m.encoding() + rest;
    let body = input.subrange(1, input.len() as int);
    assert(input[0] == m.code());
    assert(body =~= m.payload() + rest);
    match m {
        MessageModel::Okay => {},
        MessageModel::Fail(r) => RpcFail::lemma_round_trip(r, rest),
        MessageModel::Notify(r) => RpcNotify::lemma_round_trip(r, rest),
        MessageModel::Hello(r) => RpcHello::lemma_round_trip(r, rest),
        MessageModel::PullMetadata(r) => PullMetadata::lemma_round_trip(r, rest),
        MessageModel::PullMetadataResult(r) => PullMetadataResult::lemma_round_trip(r, rest),
        MessageModel::PushMetadata(r) => PushMetadata::lemma_round_trip(r, rest),
        MessageModel::PushMetadataResult(r) => PushMetadataResult::lemma_round_trip(r, rest),
    }
}

/// What decodes is a valid message, and the bytes it was decoded from are
/// its encoding: decoding skips nothing and invents nothing.
pub proof fn lemma_parse_message_exact(input: Seq<u8>)
    ensures
        parse_message(input) matches Ok((m, n)) ==> {
            &&& m.valid()
            &&& 1 <= n <= input.len()
            &&& m.encoding() == input.subrange(0, n)
        },
{
    if input.len() > 0 {
        let body = input.subrange(1, input.len() as int);
        match input[0] {
            0x0a => {},
            0x0b => RpcFail::lemma_parse_exact(body),
            0x0c => RpcNotify::lemma_parse_exact(body),
            0x0d => RpcHello::lemma_parse_exact(body),
            0x0e => PullMetadata::lemma_parse_exact(body),
            0x0f => PullMetadataResult::lemma_parse_exact(body),
            0x10 => PushMetadata::lemma_parse_exact(body),
            0x11 => PushMetadataResult::lemma_parse_exact(body),
            _ => {},
        }
        if let Ok((m, n)) = parse_message(input) {
            assert(seq![input[0]] + body.subrange(0, n - 1) =~= input.subrange(0, n));
        }
    }
}

/// Two messages with the same encoding are the same message.
pub proof fn lemma_encoding_injective(a: MessageModel, b: MessageModel)
    requires
        a.valid(),
        b.valid(),
        a.payload().len() <= u32::MAX,
        b.payload().len() <= u32::MAX,
        a.encoding() == b.encoding(),
    ensures
        a == b,
{
    lemma_message_round_trip(a, Seq::empty());
    lemma_message_round_trip(b, Seq::empty());
}

/// The message without a record decodes from its code alone: whatever
/// follows the code is left over, and is no error.
pub proof fn lemma_okay_ignores_rest(rest: Seq<u8>)
    ensures
        parse_message(seq![0x0au8] + rest) == Ok::<(MessageModel, int), MessageFault>(
            (MessageModel::Okay, 1),
        ),
{
}

/// A buffer whose first byte announces no message is refused, whatever
/// follows that byte.
pub proof fn lemma_unknown_code_refused(input: Seq<u8>)
    requires
        input.len() >= 1,
        !known_code(input[0]),
    ensures
        parse_message(input) == Err::<(MessageModel, int), MessageFault>(MessageFault::Unknown),
{
}

/// A packet whose code announces no message never yields a message,
/// whatever length it declares: either its header is refused, or the stream
/// ends before the packet does, or its buffer is refused for its code.
pub proof fn lemma_unknown_code_never_received(stream: Seq<u8>)
    requires
        stream.len() >= 5,
        !known_code(stream[4]),
    ensures
        match parse_packet(stream) {
            Ok(data) => parse_message(data) == Err::<(MessageModel, int), MessageFault>(
                MessageFault::Unknown,
            ),
            Err(PacketFault::Invalid) => !header_accepted(stream),
            Err(PacketFault::Eof) => stream.len() < 5 + declared_len(stream),
        },
{
}

/// A message that was written to a stream is read back and decoded as the
/// same message, whatever follows it on the stream, provided that its record
/// has a length that packets of its kind may have.
pub proof fn lemma_sent_message_received(m: MessageModel, rest: Seq<u8>)
    requires
        m.valid(),
        4 <= m.payload().len() <= packet::max_payload_len(m.code()),
    ensures
        parse_packet(packet_bytes(m.encoding()) + rest) == Ok::<Seq<u8>, PacketFault>(
            m.encoding(),
        ),
        parse_message(m.encoding()) == Ok::<(MessageModel, int), MessageFault>(
            (m, m.encoding().len() as int),
        ),
{
    packet::lemma_packet_round_trip(m.encoding(), rest);
    lemma_message_round_trip(m, Seq::empty());
    assert(m.encoding() + Seq::<u8>::empty() =~= m.encoding());
}

} // verus!
