//! Decoder for the message wrapper of STANAG 4586 (Ed. 2.5): a fixed big-endian header,
//! the message data, and a four-byte checksum.
//!
//! ```text
//! offset  size  field
//! 0       10    version tag, ASCII "2.5" padded with NUL bytes
//! 10      4     instance id
//! 14      4     message type
//! 18      4     length L of the message data
//! 22      4     stream id
//! 26      4     packet sequence (unused, all ones)
//! 30      L     message data
//! 30+L    4     checksum
//! ```
use vstd::prelude::*;
use vstd::arithmetic::div_mod::{
    lemma_div_denominator, lemma_fundamental_div_mod, lemma_fundamental_div_mod_converse,
};
use vstd::slice::slice_subrange;
use crate::{Error, TGResult};

verus! {

/// The version tag of every frame: `"2.5"` followed by seven NUL bytes.
pub const IDD_2_5: [u8; 10] = [0x32, 0x2e, 0x35, 0, 0, 0, 0, 0, 0, 0];

/// Message types above 2000 are reserved for vehicle specific (private) messages.
pub const MSG_TYPE_VEHICLE_SPECIFIC1: u32 = 2001;

/// Number of bytes in front of the message data.
pub const HEADER_LEN: usize = 30;

/// The fixed-size part in front of the message data.
#[derive(Debug)]
pub struct WrapperHeader {
    /// Version of the interface definition the message was built from.
    pub idd: [u8; 10],
    /// Identifies this instance among the messages of its type.
    pub msg_instance: u32,
    pub msg_type: u32,
    /// Number of bytes of message data.
    pub msg_length: u32,
    pub stream_id: u32,
    /// Not used; senders fill it with all ones.
    pub packet_seq: u32,
}

impl Default for WrapperHeader {
    /// The header with every byte zero.
    fn default() -> (header: Self)
        ensures
            header.idd@ == Seq::new(10, |i: int| 0u8),
            header.msg_instance == 0,
            header.msg_type == 0,
            header.msg_length == 0,
            header.stream_id == 0,
            header.packet_seq == 0,
    {
        let header = WrapperHeader {
            idd: [0, 0, 0, 0, 0, 0, 0, 0, 0, 0],
            msg_instance: 0,
            msg_type: 0,
            msg_length: 0,
            stream_id: 0,
            packet_seq: 0,
        };
        assert(header.idd@ =~= Seq::new(10, |i: int| 0u8));
        header
    }
}

/// What follows the message data: the sender's checksum over everything before it.
#[derive(Debug)]
pub struct WrapperFooter {
    pub checksum: u32,
}

/// A decoded frame. The message data is borrowed from the buffer the frame was read from.
#[derive(Debug)]
pub struct Message<'a> {
    pub header: WrapperHeader,
    pub payload: &'a [u8],
    pub footer: WrapperFooter,
}

/// The parts of a frame, in the order in which they are read.
#[derive(Debug, Clone, Copy, PartialEq, Eq, Structural)]
pub enum FrameField {
    VersionTag,
    InstanceId,
    MessageType,
    Length,
    StreamId,
    PacketSeq,
    Payload,
    Checksum,
}

/// The big-endian number held by the four bytes of `bytes` that start at `at`.
pub open spec fn be_u32_at(bytes: Seq<u8>, at: int) -> int
    recommends
        0 <= at,
        at + 4 <= bytes.len(),
{
    bytes[at] * 0x100_0000 + bytes[at + 1] * 0x1_0000 + bytes[at + 2] * 0x100 + bytes[at + 3]
}

/// Whether `bytes` begins with the version tag.
pub open spec fn has_version_tag(bytes: Seq<u8>) -> bool {
    bytes.len() >= 10 && bytes.subrange(0, 10) == IDD_2_5@
}

/// The first field of a frame that `bytes` fails to supply: the version tag when the
/// buffer does not begin with it, any other field when the buffer ends before the
/// field does. `None` when `bytes` begins with a whole frame.
pub open spec fn first_missing(bytes: Seq<u8>) -> Option<FrameField> {
    if !has_version_tag(bytes) {
        Some(FrameField::VersionTag)
    } else if bytes.len() < 14 {
        Some(FrameField::InstanceId)
    } else if bytes.len() < 18 {
        Some(FrameField::MessageType)
    } else if bytes.len() < 22 {
        Some(FrameField::Length)
    } else if bytes.len() < 26 {
        Some(FrameField::StreamId)
    } else if bytes.len() < 30 {
        Some(FrameField::PacketSeq)
    } else if bytes.len() < 30 + be_u32_at(bytes, 18) {
        Some(FrameField::Payload)
    } else if bytes.len() < 34 + be_u32_at(bytes, 18) {
        Some(FrameField::Checksum)
    } else {
        None
    }
}

/// The header that a frame at the start of `bytes` carries.
pub open spec fn header_of(bytes: Seq<u8>) -> WrapperHeader {
    WrapperHeader {
        idd: IDD_2_5,
        msg_instance: be_u32_at(bytes, 10) as u32,
        msg_type: be_u32_at(bytes, 14) as u32,
        msg_length: be_u32_at(bytes, 18) as u32,
        stream_id: be_u32_at(bytes, 22) as u32,
        packet_seq: be_u32_at(bytes, 26) as u32,
    }
}

/// The message data of a frame at the start of `bytes`.
pub open spec fn payload_of(bytes: Seq<u8>) -> Seq<u8> {
    bytes.subrange(30, 30 + be_u32_at(bytes, 18))
}

/// The checksum field of a frame at the start of `bytes`.
pub open spec fn footer_of(bytes: Seq<u8>) -> WrapperFooter {
    WrapperFooter { checksum: be_u32_at(bytes, 30 + be_u32_at(bytes, 18)) as u32 }
}

/// Reads the big-endian number in the four bytes at `at`, if the buffer holds them.
fn read_be_u32(bytes: &[u8], at: usize) -> (r: Option<u32>)
    requires
        at <= bytes@.len(),
    ensures
        r is Some <==> at + 4 <= bytes@.len(),
        r matches Some(v) ==> v == be_u32_at(bytes@, at as int),
{
    if bytes.len() - at < 4 {
        return None;
    }
    let b0: u32 = bytes[at] as u32;
    let b1: u32 = bytes[at + 1] as u32;
    let b2: u32 = bytes[at + 2] as u32;
    let b3: u32 = bytes[at + 3] as u32;
    Some(b0 * 0x100_0000 + b1 * 0x1_0000 + b2 * 0x100 + b3)
}

/// Tells whether the buffer begins with the version tag.
fn starts_with_tag(bytes: &[u8]) -> (r: bool)
    ensures
        r == has_version_tag(bytes@),
{
    if bytes.len() < 10 {
        return false;
    }
    let mut i: usize = 0;
    while i < 10
        invariant
            i <= 10,
            bytes@.len() >= 10,
            forall|k: int| 0 <= k < i ==> bytes@[k] == IDD_2_5@[k],
        decreases 10 - i,
    {
        if bytes[i] != IDD_2_5[i] {
            assert(bytes@.subrange(0, 10)[i as int] != IDD_2_5@[i as int]);
            return false;
        }
        i += 1;
    }
    assert(bytes@.subrange(0, 10) =~= IDD_2_5@);
    true
}

impl FrameField {
    /// What a decoder reports when this field is the first one missing.
    pub open spec fn expectation(self) -> Seq<char> {
        match self {
            FrameField::VersionTag => "expected version tag \"2.5\" padded to 10 bytes"@,
            FrameField::InstanceId => "expected 4 bytes of instance id"@,
            FrameField::MessageType => "expected 4 bytes of message type"@,
            FrameField::Length => "expected 4 bytes of message length"@,
            FrameField::StreamId => "expected 4 bytes of stream id"@,
            FrameField::PacketSeq => "expected 4 bytes of packet sequence"@,
            FrameField::Payload => "expected as many bytes of message data as the length says"@,
            FrameField::Checksum => "expected 4 bytes of checksum"@,
        }
    }

    /// The text of [`FrameField::expectation`].
    pub fn describe(self) -> (text: String)
        ensures
            text@ == self.expectation(),
    {
        match self {
            FrameField::VersionTag => String::from_str(
                "expected version tag \"2.5\" padded to 10 bytes",
            ),
            FrameField::InstanceId => String::from_str("expected 4 bytes of instance id"),
            FrameField::MessageType => String::from_str("expected 4 bytes of message type"),
            FrameField::Length => String::from_str("expected 4 bytes of message length"),
            FrameField::StreamId => String::from_str("expected 4 bytes of stream id"),
            FrameField::PacketSeq => String::from_str("expected 4 bytes of packet sequence"),
            FrameField::Payload => String::from_str(
                "expected as many bytes of message data as the length says",
            ),
            FrameField::Checksum => String::from_str("expected 4 bytes of checksum"),
        }
    }
}

/// The error that reports `field` as missing.
fn missing(field: FrameField) -> (e: Error)
    ensures
        e matches Error::ParseError(text) && text@ == field.expectation(),
{
    Error::ParseError(field.describe())
}

/// Decodes the frame at the start of `bytes`. Bytes after the frame are ignored.
///
/// The fields are read in order, and the first one that the buffer does not supply is
/// reported. The checksum is handed back as found: it is not compared with
/// [`checksum`] of the bytes before it.
pub fn parse<'a>(bytes: &'a [u8]) -> (r: TGResult<Message<'a>>)
    ensures
        match r {
            Ok(msg) => {
                &&& first_missing(bytes@) is None
                &&& msg.header == header_of(bytes@)
                &&& msg.payload@ == payload_of(bytes@)
                &&& msg.payload@.len() == msg.header.msg_length
                &&& msg.footer == footer_of(bytes@)
            },
            Err(e) => {
                &&& first_missing(bytes@) matches Some(field)
                &&& e matches Error::ParseError(text)
                &&& text@ == field.expectation()
            },
        },
{
    if !starts_with_tag(bytes) {
        return Err(missing(FrameField::VersionTag));
    }
    let msg_instance: u32 = match read_be_u32(bytes, 10) {
        Some(v) => v,
        None => return Err(missing(FrameField::InstanceId)),
    };
    let msg_type: u32 = match read_be_u32(bytes, 14) {
        Some(v) => v,
        None => return Err(missing(FrameField::MessageType)),
    };
    let msg_length: u32 = match read_be_u32(bytes, 18) {
        Some(v) => v,
        None => return Err(missing(FrameField::Length)),
    };
    let stream_id: u32 = match read_be_u32(bytes, 22) {
        Some(v) => v,
        None => return Err(missing(FrameField::StreamId)),
    };
    let packet_seq: u32 = match read_be_u32(bytes, 26) {
        Some(v) => v,
        None => return Err(missing(FrameField::PacketSeq)),
    };
    if bytes.len() - HEADER_LEN < msg_length as usize {
        return Err(missing(FrameField::Payload));
    }
    let end: usize = HEADER_LEN + msg_length as usize;
    let payload = slice_subrange(bytes, HEADER_LEN, end);
    let checksum: u32 = match read_be_u32(bytes, end) {
        Some(v) => v,
        None => return Err(missing(FrameField::Checksum)),
    };
    let header = WrapperHeader {
        idd: IDD_2_5,
        msg_instance,
        msg_type,
        msg_length,
        stream_id,
        packet_seq,
    };
    let footer = WrapperFooter { checksum };
    Ok(Message { header, payload, footer })
}

/// The sum of the bytes of `bytes`.
pub open spec fn byte_sum(bytes: Seq<u8>) -> nat
    decreases bytes.len(),
{
    if bytes.len() == 0 {
        0
    } else {
        byte_sum(bytes.drop_last()) + bytes.last() as nat
    }
}

/// The checksum of STANAG 4586: the bytes added up, and of the sum the low 32 bits.
///
/// A sender computes it over every byte of a frame in front of the checksum field.
pub fn checksum(bytes: &[u8]) -> (sum: u32)
    ensures
        sum == byte_sum(bytes@) % 0x1_0000_0000,
{
    let mut sum: u32 = 0;
    let mut i: usize = 0;
    while i < bytes.len()
        invariant
            i <= bytes@.len(),
            sum == byte_sum(bytes@.take(i as int)) % 0x1_0000_0000,
        decreases bytes@.len() - i,
    {
        proof {
            let next = bytes@.take(i + 1);
            assert(next.drop_last() == bytes@.take(i as int));
            assert(next.last() == bytes@[i as int]);
        }
        sum = ((sum as u64 + bytes[i] as u64) % 0x1_0000_0000) as u32;
        i += 1;
    }
    assert(bytes@.take(i as int) == bytes@);
    sum
}

/// The four bytes that hold `v` in big-endian order.
pub open spec fn be_bytes(v: u32) -> Seq<u8> {
    seq![
        (v / 0x100_0000) as u8,
        (v / 0x1_0000 % 0x100) as u8,
        (v / 0x100 % 0x100) as u8,
        (v % 0x100) as u8,
    ]
}

/// The bytes of the frame that carries `header`, `payload` and `checksum`.
pub open spec fn frame_of(header: WrapperHeader, payload: Seq<u8>, checksum: u32) -> Seq<u8> {
    header.idd@ + be_bytes(header.msg_instance) + be_bytes(header.msg_type) + be_bytes(
        header.msg_length,
    ) + be_bytes(header.stream_id) + be_bytes(header.packet_seq) + payload + be_bytes(checksum)
}

/// The part of a frame at the start of `bytes` that its checksum covers: every byte in
/// front of the checksum field.
pub open spec fn checksummed_part(bytes: Seq<u8>) -> Seq<u8> {
    bytes.subrange(0, 30 + be_u32_at(bytes, 18))
}

/// The bytes of a buffer that follow the frame at its start.
pub open spec fn after_frame(bytes: Seq<u8>) -> Seq<u8> {
    bytes.subrange(34 + be_u32_at(bytes, 18), bytes.len() as int)
}

/// Four bytes in big-endian order hold the number they were made from.
pub proof fn lemma_be_u32_of_be_bytes(v: u32)
    ensures
        be_bytes(v).len() == 4,
        be_u32_at(be_bytes(v), 0) == v,
{
    let low_three: int = (v / 0x100) as int;
    let low_two: int = (v / 0x1_0000) as int;
    let top: int = (v / 0x100_0000) as int;
    lemma_div_denominator(v as int, 0x100, 0x100);
    lemma_div_denominator(v as int, 0x1_0000, 0x100);
    lemma_fundamental_div_mod(v as int, 0x100);
    lemma_fundamental_div_mod(low_three, 0x100);
    lemma_fundamental_div_mod(low_two, 0x100);
    assert(low_three / 0x100 == low_two);
    assert(low_two / 0x100 == top);
    assert(v == 0x100_0000 * top + 0x1_0000 * (low_two % 0x100) + 0x100 * (low_three % 0x100) + v
        % 0x100);
    assert(0 <= top < 0x100);
}

/// A number put together from four bytes falls apart into the same four bytes.
proof fn lemma_be_digits(b0: u8, b1: u8, b2: u8, b3: u8)
    ensures
        ({
            let v = b0 * 0x100_0000 + b1 * 0x1_0000 + b2 * 0x100 + b3;
            &&& 0 <= v <= u32::MAX
            &&& v / 0x100_0000 == b0
            &&& v / 0x1_0000 % 0x100 == b1
            &&& v / 0x100 % 0x100 == b2
            &&& v % 0x100 == b3
        }),
{
    let v: int = b0 * 0x100_0000 + b1 * 0x1_0000 + b2 * 0x100 + b3;
    let upper_one: int = b0 as int;
    let upper_two: int = b0 * 0x100 + b1;
    let upper_three: int = b0 * 0x1_0000 + b1 * 0x100 + b2;
    lemma_fundamental_div_mod_converse(
        v,
        0x100_0000,
        upper_one,
        b1 * 0x1_0000 + b2 * 0x100 + b3,
    );
    lemma_fundamental_div_mod_converse(v, 0x1_0000, upper_two, b2 * 0x100 + b3);
    lemma_fundamental_div_mod_converse(v, 0x100, upper_three, b3 as int);
    lemma_fundamental_div_mod_converse(upper_two, 0x100, upper_one, b1 as int);
    lemma_fundamental_div_mod_converse(upper_three, 0x100, upper_two, b2 as int);
}

/// The four bytes of a buffer at `at` are the big-endian bytes of the number they hold.
pub proof fn lemma_be_bytes_of_be_u32(bytes: Seq<u8>, at: int)
    requires
        0 <= at,
        at + 4 <= bytes.len(),
    ensures
        0 <= be_u32_at(bytes, at) <= u32::MAX,
        be_bytes(be_u32_at(bytes, at) as u32) == bytes.subrange(at, at + 4),
{
    lemma_be_digits(bytes[at], bytes[at + 1], bytes[at + 2], bytes[at + 3]);
    assert(be_bytes(be_u32_at(bytes, at) as u32) =~= bytes.subrange(at, at + 4));
}

/// Where the parts of a buffer lie that was put together from a ten-byte tag, five
/// four-byte fields, some data, a four-byte field and a remainder.
proof fn lemma_layout(
    tag: Seq<u8>,
    f1: Seq<u8>,
    f2: Seq<u8>,
    f3: Seq<u8>,
    f4: Seq<u8>,
    f5: Seq<u8>,
    data: Seq<u8>,
    f6: Seq<u8>,
    rest: Seq<u8>,
)
    requires
        tag.len() == 10,
        f1.len() == 4,
        f2.len() == 4,
        f3.len() == 4,
        f4.len() == 4,
        f5.len() == 4,
        f6.len() == 4,
    ensures
        ({
            let all = tag + f1 + f2 + f3 + f4 + f5 + data + f6 + rest;
            let n = data.len() as int;
            &&& all.len() == 34 + n + rest.len()
            &&& all.subrange(0, 10) == tag
            &&& all.subrange(10, 14) == f1
            &&& all.subrange(14, 18) == f2
            &&& all.subrange(18, 22) == f3
            &&& all.subrange(22, 26) == f4
            &&& all.subrange(26, 30) == f5
            &&& all.subrange(30, 30 + n) == data
            &&& all.subrange(30 + n, 34 + n) == f6
            &&& all.subrange(34 + n, all.len() as int) == rest
            &&& all.subrange(0, 30 + n) + f6 + rest == all
        }),
{
}

/// The number in four bytes of a buffer depends on these four bytes alone.
proof fn lemma_be_u32_at_subrange(bytes: Seq<u8>, at: int)
    requires
        0 <= at,
        at + 4 <= bytes.len(),
    ensures
        be_u32_at(bytes, at) == be_u32_at(bytes.subrange(at, at + 4), 0),
{
    let four = bytes.subrange(at, at + 4);
    assert(four[0] == bytes[at]);
    assert(four[1] == bytes[at + 1]);
    assert(four[2] == bytes[at + 2]);
    assert(four[3] == bytes[at + 3]);
}

/// The sum over two sequences put together is the sum of their sums.
pub proof fn lemma_byte_sum_concat(a: Seq<u8>, b: Seq<u8>)
    ensures
        byte_sum(a + b) == byte_sum(a) + byte_sum(b),
    decreases b.len(),
{
    if b.len() == 0 {
        assert(a + b == a);
    } else {
        assert((a + b).drop_last() == a + b.drop_last());
        lemma_byte_sum_concat(a, b.drop_last());
    }
}

/// Decoding undoes framing: a buffer that begins with the frame of a header, message
/// data of the length that the header declares, and a checksum decodes to exactly these,
/// whatever follows the frame.
pub proof fn lemma_parse_of_frame(
    header: WrapperHeader,
    payload: Seq<u8>,
    checksum: u32,
    rest: Seq<u8>,
)
    requires
        header.idd == IDD_2_5,
        payload.len() == header.msg_length,
    ensures
        ({
            let bytes = frame_of(header, payload, checksum) + rest;
            &&& first_missing(bytes) is None
            &&& header_of(bytes) == header
            &&& payload_of(bytes) == payload
            &&& footer_of(bytes).checksum == checksum
            &&& checksummed_part(bytes) + be_bytes(checksum) == frame_of(header, payload, checksum)
            &&& after_frame(bytes) == rest
        }),
{
    let bytes = frame_of(header, payload, checksum) + rest;
    let n = payload.len() as int;
    lemma_be_u32_of_be_bytes(header.msg_instance);
    lemma_be_u32_of_be_bytes(header.msg_type);
    lemma_be_u32_of_be_bytes(header.msg_length);
    lemma_be_u32_of_be_bytes(header.stream_id);
    lemma_be_u32_of_be_bytes(header.packet_seq);
    lemma_be_u32_of_be_bytes(checksum);
    lemma_layout(
        header.idd@,
        be_bytes(header.msg_instance),
        be_bytes(header.msg_type),
        be_bytes(header.msg_length),
        be_bytes(header.stream_id),
        be_bytes(header.packet_seq),
        payload,
        be_bytes(checksum),
        rest,
    );
    lemma_layout(
        header.idd@,
        be_bytes(header.msg_instance),
        be_bytes(header.msg_type),
        be_bytes(header.msg_length),
        be_bytes(header.stream_id),
        be_bytes(header.packet_seq),
        payload,
        be_bytes(checksum),
        Seq::empty(),
    );
    lemma_be_u32_at_subrange(bytes, 10);
    lemma_be_u32_at_subrange(bytes, 14);
    lemma_be_u32_at_subrange(bytes, 18);
    lemma_be_u32_at_subrange(bytes, 22);
    lemma_be_u32_at_subrange(bytes, 26);
    lemma_be_u32_at_subrange(bytes, 30 + n);
    assert(frame_of(header, payload, checksum) + Seq::<u8>::empty() == frame_of(
        header,
        payload,
        checksum,
    ));
    assert(header_of(bytes).idd == header.idd);
}

/// Decoding loses nothing: a buffer that begins with a whole frame is the frame of what
/// decoding finds in it, followed by the bytes that decoding ignores.
pub proof fn lemma_frame_of_parse(bytes: Seq<u8>)
    requires
        first_missing(bytes) is None,
    ensures
        bytes == frame_of(header_of(bytes), payload_of(bytes), footer_of(bytes).checksum)
            + after_frame(bytes),
{
    let n = be_u32_at(bytes, 18);
    lemma_be_bytes_of_be_u32(bytes, 10);
    lemma_be_bytes_of_be_u32(bytes, 14);
    lemma_be_bytes_of_be_u32(bytes, 18);
    lemma_be_bytes_of_be_u32(bytes, 22);
    lemma_be_bytes_of_be_u32(bytes, 26);
    lemma_be_bytes_of_be_u32(bytes, 30 + n);
    let built = bytes.subrange(0, 10) + bytes.subrange(10, 14) + bytes.subrange(14, 18)
        + bytes.subrange(18, 22) + bytes.subrange(22, 26) + bytes.subrange(26, 30)
        + bytes.subrange(30, 30 + n) + bytes.subrange(30 + n, 34 + n) + bytes.subrange(
        34 + n,
        bytes.len() as int,
    );
    assert(built =~= bytes);
}

} // verus!
