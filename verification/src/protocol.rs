//! Wire protocol: frame parsing and building, and the `sb_playerx` field encoding.
//!
//! Frame layout: `"SBRK"` + `u16` LE payload length + payload (max [`MAX_PAYLOAD_SIZE`]
//! bytes).

use crate::bytes::{self, append_bytes, append_le, copy_range};
use crate::error::BrokerError;
use vstd::prelude::*;

verus! {

/// `"SBRK"`, the magic that every frame starts with.
pub const FRAME_HEADER: [u8; 4] = [0x53, 0x42, 0x52, 0x4b];

pub const FRAME_HEADER_SIZE: usize = 4;

pub const FRAME_LENGTH_SIZE: usize = 2;

/// The longest payload that a frame may carry.
pub const MAX_PAYLOAD_SIZE: usize = 4096;

/// `"sb_connect\n"`
pub const CONNECT_RESPONSE_HEADER: [u8; 11] = [
    0x73, 0x62, 0x5f, 0x63, 0x6f, 0x6e, 0x6e, 0x65, 0x63, 0x74, 0x0a,
];

/// `"sb_playerx\n"`
pub const PLAYER_RESPONSE_HEADER: [u8; 11] = [
    0x73, 0x62, 0x5f, 0x70, 0x6c, 0x61, 0x79, 0x65, 0x72, 0x78, 0x0a,
];

/// The frame that carries `payload`.
pub open spec fn frame(payload: Seq<u8>) -> Seq<u8> {
    FRAME_HEADER@ + bytes::le_bytes(payload.len(), 2) + payload
}

/// What a reader makes of the front of the bytes received so far.
pub enum Parsed {
    /// More bytes are needed to tell.
    Incomplete,
    /// A whole frame, the bytes that it takes up and its payload.
    Frame { consumed: nat, payload: Seq<u8> },
    /// The bytes do not start with the magic.
    BadMagic,
    /// The announced length is beyond [`MAX_PAYLOAD_SIZE`].
    TooLarge,
}

/// The payload length that a frame header announces.
pub open spec fn announced(buf: Seq<u8>) -> nat {
    bytes::le_value(buf.subrange(4, 6))
}

/// How the front of `buf` reads.
pub open spec fn parsed(buf: Seq<u8>) -> Parsed {
    if buf.len() < 6 {
        Parsed::Incomplete
    } else if buf.subrange(0, 4) != FRAME_HEADER@ {
        Parsed::BadMagic
    } else if announced(buf) > MAX_PAYLOAD_SIZE {
        Parsed::TooLarge
    } else if buf.len() < 6 + announced(buf) {
        Parsed::Incomplete
    } else {
        Parsed::Frame {
            consumed: 6 + announced(buf),
            payload: buf.subrange(6, 6 + announced(buf) as int),
        }
    }
}

/// Tries to parse one complete frame off the front of `buf`.
///
/// Returns `Some((consumed_bytes, payload))` once a full frame is available, or `None` if
/// more data is still needed. Errors on a bad magic header or an oversized length field.
pub fn parse_frame(buf: &[u8]) -> (r: Result<Option<(usize, Vec<u8>)>, BrokerError>)
    ensures
        match parsed(buf@) {
            Parsed::Incomplete => r matches Ok(None),
            Parsed::Frame { consumed, payload } => r matches Ok(Some((n, p))) && n == consumed
                && p@ == payload,
            Parsed::BadMagic => r == Err::<Option<(usize, Vec<u8>)>, _>(
                BrokerError::Custom("invalid frame magic"),
            ),
            Parsed::TooLarge => r == Err::<Option<(usize, Vec<u8>)>, _>(
                BrokerError::Custom("frame too large"),
            ),
        },
{
    if buf.len() < FRAME_HEADER_SIZE + FRAME_LENGTH_SIZE {
        return Ok(None);
    }
    if buf[0] != FRAME_HEADER[0] || buf[1] != FRAME_HEADER[1] || buf[2] != FRAME_HEADER[2]
        || buf[3] != FRAME_HEADER[3] {
        assert(buf@.subrange(0, 4) != FRAME_HEADER@) by {
            let s = buf@.subrange(0, 4);
            assert(s[0] == buf[0] && s[1] == buf[1] && s[2] == buf[2] && s[3] == buf[3]);
        }
        return Err(BrokerError::Custom("invalid frame magic"));
    }
    assert(buf@.subrange(0, 4) =~= FRAME_HEADER@);
    let payload_size: usize = buf[FRAME_HEADER_SIZE] as usize + 256 * (buf[FRAME_HEADER_SIZE
        + 1] as usize);
    proof {
        bytes::le_value_of_two(buf@.subrange(4, 6));
        assert(payload_size == announced(buf@));
    }
    if payload_size > MAX_PAYLOAD_SIZE {
        return Err(BrokerError::Custom("frame too large"));
    }
    let total_size: usize = FRAME_HEADER_SIZE + FRAME_LENGTH_SIZE + payload_size;
    if buf.len() < total_size {
        return Ok(None);
    }
    let payload = copy_range(buf, FRAME_HEADER_SIZE + FRAME_LENGTH_SIZE, total_size);
    Ok(Some((total_size, payload)))
}

/// Wraps `payload` in a frame (`"SBRK"` + `u16` LE length + payload).
pub fn build_frame(payload: &[u8]) -> (r: Result<Vec<u8>, BrokerError>)
    ensures
        payload@.len() > MAX_PAYLOAD_SIZE ==> r == Err::<Vec<u8>, _>(
            BrokerError::Custom("response payload too large"),
        ),
        payload@.len() <= MAX_PAYLOAD_SIZE ==> (r matches Ok(f) && f@ == frame(payload@)),
{
    if payload.len() > MAX_PAYLOAD_SIZE {
        return Err(BrokerError::Custom("response payload too large"));
    }
    let mut frame: Vec<u8> = Vec::with_capacity(
        FRAME_HEADER_SIZE + FRAME_LENGTH_SIZE + payload.len(),
    );
    append_bytes(&mut frame, &FRAME_HEADER);
    append_le(&mut frame, payload.len() as u64, FRAME_LENGTH_SIZE);
    append_bytes(&mut frame, payload);
    assert(frame@ =~= crate::protocol::frame(payload@));
    Ok(frame)
}

/// A frame followed by anything at all parses to its payload, and takes up exactly its own
/// bytes.
pub proof fn frame_parses_back(payload: Seq<u8>, rest: Seq<u8>)
    requires
        payload.len() <= MAX_PAYLOAD_SIZE,
    ensures
        parsed(frame(payload) + rest) == (Parsed::Frame {
            consumed: frame(payload).len(),
            payload,
        }),
{
    let buf = frame(payload) + rest;
    bytes::byte_ranges();
    bytes::le_bytes_len(payload.len(), 2);
    bytes::le_value_of_le_bytes(payload.len(), 2);
    assert(buf.subrange(0, 4) =~= FRAME_HEADER@);
    assert(buf.subrange(4, 6) =~= bytes::le_bytes(payload.len(), 2));
    assert(buf.subrange(6, 6 + payload.len() as int) =~= payload);
}

/// What parses as a frame is the frame of its payload, byte for byte.
pub proof fn parsed_frame_is_a_frame(buf: Seq<u8>)
    ensures
        parsed(buf) matches Parsed::Frame { consumed, payload } ==> {
            &&& consumed <= buf.len()
            &&& payload.len() <= MAX_PAYLOAD_SIZE
            &&& buf.subrange(0, consumed as int) == frame(payload)
        },
{
    if let Parsed::Frame { consumed, payload } = parsed(buf) {
        bytes::le_bytes_of_le_value(buf.subrange(4, 6));
        assert(buf.subrange(0, consumed as int) =~= buf.subrange(0, 4) + buf.subrange(4, 6)
            + payload);
    }
}

/// As long as a frame has not arrived whole, the reader waits for more: it never reports an
/// error on the beginning of a good frame.
pub proof fn frame_prefix_is_incomplete(payload: Seq<u8>, k: int)
    requires
        payload.len() <= MAX_PAYLOAD_SIZE,
        0 <= k < frame(payload).len(),
    ensures
        parsed(frame(payload).subrange(0, k)) is Incomplete,
{
    let whole = frame(payload);
    let part = whole.subrange(0, k);
    bytes::byte_ranges();
    bytes::le_bytes_len(payload.len(), 2);
    bytes::le_value_of_le_bytes(payload.len(), 2);
    if k >= 6 {
        assert(part.subrange(0, 4) =~= FRAME_HEADER@);
        assert(part.subrange(4, 6) =~= bytes::le_bytes(payload.len(), 2));
    }
}

/// Once the reader has an answer, further bytes do not change it.
pub proof fn parsed_is_stable(buf: Seq<u8>, more: Seq<u8>)
    requires
        !(parsed(buf) is Incomplete),
    ensures
        parsed(buf + more) == parsed(buf),
{
    assert((buf + more).subrange(0, 4) =~= buf.subrange(0, 4));
    assert((buf + more).subrange(4, 6) =~= buf.subrange(4, 6));
    if let Parsed::Frame { consumed, payload } = parsed(buf) {
        assert((buf + more).subrange(6, consumed as int) =~= payload);
    }
}

/// The payloads of the whole frames that `buf` starts with.
pub open spec fn payloads(buf: Seq<u8>) -> Seq<Seq<u8>>
    decreases buf.len(),
{
    match parsed(buf) {
        Parsed::Frame { consumed, payload } => seq![payload] + payloads(buf.skip(consumed as int)),
        _ => Seq::empty(),
    }
}

/// What is left of `buf` behind its whole frames.
pub open spec fn remainder(buf: Seq<u8>) -> Seq<u8>
    decreases buf.len(),
{
    match parsed(buf) {
        Parsed::Frame { consumed, payload } => remainder(buf.skip(consumed as int)),
        _ => buf,
    }
}

/// The frames of `sent`, one behind the other.
pub open spec fn stream(sent: Seq<Seq<u8>>) -> Seq<u8>
    decreases sent.len(),
{
    if sent.len() == 0 {
        Seq::empty()
    } else {
        frame(sent[0]) + stream(sent.drop_first())
    }
}

/// Frames sent one behind the other are read back as the payloads sent, in their order, and
/// whatever follows them is then read as if it stood alone.
pub proof fn stream_reads_back(sent: Seq<Seq<u8>>, tail: Seq<u8>)
    requires
        forall|i: int| 0 <= i < sent.len() ==> (#[trigger] sent[i]).len() <= MAX_PAYLOAD_SIZE,
    ensures
        payloads(stream(sent) + tail) == sent + payloads(tail),
        remainder(stream(sent) + tail) == remainder(tail),
    decreases sent.len(),
{
    let buf = stream(sent) + tail;
    if sent.len() == 0 {
        assert(buf =~= tail);
        assert(sent + payloads(tail) =~= payloads(tail));
    } else {
        let rest = stream(sent.drop_first()) + tail;
        assert(buf =~= frame(sent[0]) + rest);
        frame_parses_back(sent[0], rest);
        assert(buf.skip(frame(sent[0]).len() as int) =~= rest);
        stream_reads_back(sent.drop_first(), tail);
        assert(sent + payloads(tail) =~= seq![sent[0]] + (sent.drop_first() + payloads(tail)));
    }
}

/// The bytes received are the frames read off them and the remainder, nothing lost and
/// nothing added.
pub proof fn received_is_frames_and_remainder(buf: Seq<u8>)
    ensures
        stream(payloads(buf)) + remainder(buf) == buf,
    decreases buf.len(),
{
    parsed_frame_is_a_frame(buf);
    if let Parsed::Frame { consumed, payload } = parsed(buf) {
        let rest = buf.skip(consumed as int);
        received_is_frames_and_remainder(rest);
        assert(payloads(buf).drop_first() =~= payloads(rest));
        assert(buf =~= frame(payload) + rest);
        assert(stream(payloads(buf)) + remainder(buf) =~= frame(payload) + (stream(payloads(rest))
            + remainder(rest)));
    } else {
        assert(stream(payloads(buf)) + remainder(buf) =~= buf);
    }
}

/// What the frames read are does not depend on how the bytes are cut: to read `buf`, keep
/// what is left of it and then read on with `more` is to read all of it at once.
pub proof fn reading_goes_on(buf: Seq<u8>, more: Seq<u8>)
    ensures
        payloads(buf + more) == payloads(buf) + payloads(remainder(buf) + more),
        remainder(buf + more) == remainder(remainder(buf) + more),
    decreases buf.len(),
{
    if let Parsed::Frame { consumed, payload } = parsed(buf) {
        let rest = buf.skip(consumed as int);
        parsed_is_stable(buf, more);
        assert((buf + more).skip(consumed as int) =~= rest + more);
        reading_goes_on(rest, more);
        assert(payloads(buf) + payloads(remainder(buf) + more) =~= seq![payload] + (payloads(rest)
            + payloads(remainder(rest) + more)));
    } else {
        assert(payloads(buf) + payloads(remainder(buf) + more) =~= payloads(
            remainder(buf) + more,
        ));
    }
}

/// One more frame behind the others.
pub proof fn stream_grows(sent: Seq<Seq<u8>>, payload: Seq<u8>)
    ensures
        stream(sent.push(payload)) == stream(sent) + frame(payload),
    decreases sent.len(),
{
    let more = sent.push(payload);
    if sent.len() == 0 {
        assert(stream(more.drop_first()) =~= Seq::empty());
        assert(stream(more) =~= stream(sent) + frame(payload));
    } else {
        stream_grows(sent.drop_first(), payload);
        assert(more.drop_first() =~= sent.drop_first().push(payload));
        assert(stream(more) =~= stream(sent) + frame(payload));
    }
}

/// Frames at the front of a stream are the first ones that were sent.
pub proof fn front_is_what_was_sent(front: Seq<Seq<u8>>, tail: Seq<u8>, sent: Seq<Seq<u8>>)
    requires
        forall|i: int| 0 <= i < front.len() ==> (#[trigger] front[i]).len() <= MAX_PAYLOAD_SIZE,
        forall|i: int| 0 <= i < sent.len() ==> (#[trigger] sent[i]).len() <= MAX_PAYLOAD_SIZE,
        stream(front) + tail == stream(sent),
    ensures
        front.len() <= sent.len(),
        front == sent.take(front.len() as int),
        tail == stream(sent.skip(front.len() as int)),
    decreases front.len(),
{
    if front.len() == 0 {
        assert(tail =~= stream(front) + tail);
        assert(sent.skip(0) =~= sent);
        assert(front =~= sent.take(0));
    } else {
        let rest = stream(front.drop_first()) + tail;
        assert(stream(front) + tail =~= frame(front[0]) + rest);
        frame_parses_back(front[0], rest);
        assert(sent.len() > 0);
        frame_parses_back(sent[0], stream(sent.drop_first()));
        let n = frame(front[0]).len() as int;
        assert(stream(sent).skip(n) =~= stream(sent.drop_first()));
        assert(stream(sent).skip(n) =~= rest);
        front_is_what_was_sent(front.drop_first(), tail, sent.drop_first());
        assert(front =~= sent.take(front.len() as int)) by {
            assert(front =~= seq![front[0]] + front.drop_first());
        }
        assert(sent.drop_first().skip(front.len() - 1) =~= sent.skip(front.len() as int));
    }
}

/// One field of a `sb_playerx` response. Each has its own bit in the response's leading
/// flags word, and [`PlayerField::wire_type`] gives its on-the-wire type tag.
#[derive(Clone, Copy, Debug, PartialEq, Eq, Structural)]
pub enum PlayerField {
    Name,
    AvatarSmall,
    /// Reserved: not populated yet, kept for wire compatibility.
    AvatarMedium,
    /// Reserved: not populated yet, kept for wire compatibility.
    AvatarLarge,
    Relationship,
    /// Reserved: not populated yet, kept for wire compatibility.
    Country,
    Game,
    /// Reserved: not populated yet, kept for wire compatibility.
    RichPresence,
    PersonaState,
}

/// The type tag of a field.
pub open spec fn wire_type(field: PlayerField) -> u8 {
    match field {
        PlayerField::Name => 1,
        PlayerField::AvatarSmall => 2,
        PlayerField::AvatarMedium => 3,
        PlayerField::AvatarLarge => 4,
        PlayerField::Relationship => 5,
        PlayerField::Country => 6,
        PlayerField::Game => 7,
        PlayerField::RichPresence => 8,
        PlayerField::PersonaState => 9,
    }
}

/// The bit of a field in the flags word.
pub open spec fn flag_bit(field: PlayerField) -> u32 {
    match field {
        PlayerField::Name => 0x001,
        PlayerField::AvatarSmall => 0x002,
        PlayerField::AvatarMedium => 0x004,
        PlayerField::AvatarLarge => 0x008,
        PlayerField::Relationship => 0x010,
        PlayerField::Country => 0x020,
        PlayerField::Game => 0x040,
        PlayerField::RichPresence => 0x080,
        PlayerField::PersonaState => 0x100,
    }
}

/// Fields and type tags determine each other, and the bit of a field is the one at the
/// position that its type tag counts.
pub proof fn fields_are_distinct(f: PlayerField, g: PlayerField)
    ensures
        wire_type(f) == wire_type(g) <==> f == g,
        flag_bit(f) == flag_bit(g) <==> f == g,
        flag_bit(f) == 1u32 << ((wire_type(f) - 1) as u32),
{
    assert(1u32 << 0u32 == 0x001 && 1u32 << 1u32 == 0x002 && 1u32 << 2u32 == 0x004 && 1u32 << 3u32
        == 0x008 && 1u32 << 4u32 == 0x010 && 1u32 << 5u32 == 0x020 && 1u32 << 6u32 == 0x040 && 1u32
        << 7u32 == 0x080 && 1u32 << 8u32 == 0x100) by (bit_vector);
}

impl PlayerField {
    /// The type tag that precedes the field's data.
    pub fn wire_type(self) -> (r: u8)
        ensures
            r == wire_type(self),
    {
        match self {
            PlayerField::Name => 1,
            PlayerField::AvatarSmall => 2,
            PlayerField::AvatarMedium => 3,
            PlayerField::AvatarLarge => 4,
            PlayerField::Relationship => 5,
            PlayerField::Country => 6,
            PlayerField::Game => 7,
            PlayerField::RichPresence => 8,
            PlayerField::PersonaState => 9,
        }
    }

    /// The bit that stands for the field in the flags word.
    pub fn flag_bit(self) -> (r: u32)
        ensures
            r == flag_bit(self),
    {
        match self {
            PlayerField::Name => 0x001,
            PlayerField::AvatarSmall => 0x002,
            PlayerField::AvatarMedium => 0x004,
            PlayerField::AvatarLarge => 0x008,
            PlayerField::Relationship => 0x010,
            PlayerField::Country => 0x020,
            PlayerField::Game => 0x040,
            PlayerField::RichPresence => 0x080,
            PlayerField::PersonaState => 0x100,
        }
    }
}

/// How many bytes precede the data of a field: its type tag and its length.
pub const FIELD_HEADER_SIZE: usize = 5;

/// One field as it stands on the wire: `type: u8`, `len: u32` LE, `data`.
pub open spec fn tlv(field: PlayerField, data: Seq<u8>) -> Seq<u8> {
    seq![wire_type(field)] + bytes::le_bytes(data.len(), 4) + data
}

/// Whether a field with `data_len` bytes of data still fits behind `payload_len` bytes.
pub open spec fn field_fits(payload_len: nat, data_len: nat) -> bool {
    payload_len + FIELD_HEADER_SIZE + data_len <= MAX_PAYLOAD_SIZE
}

/// Appends one TLV field (`type: u8`, `len: u32` LE, `data`) to `payload` if it still fits
/// within [`MAX_PAYLOAD_SIZE`], and ORs the field's bit into `flags` on success. Returns
/// whether the field was written.
pub fn write_field(payload: &mut Vec<u8>, flags: &mut u32, field: PlayerField, data: &[u8]) -> (r:
    bool)
    ensures
        r == field_fits(old(payload)@.len(), data@.len()),
        r ==> final(payload)@ == old(payload)@ + tlv(field, data@),
        r ==> *final(flags) == *old(flags) | flag_bit(field),
        !r ==> final(payload)@ == old(payload)@,
        !r ==> *final(flags) == *old(flags),
{
    if payload.len() > MAX_PAYLOAD_SIZE || data.len() > MAX_PAYLOAD_SIZE {
        return false;
    }
    if payload.len() + FIELD_HEADER_SIZE + data.len() > MAX_PAYLOAD_SIZE {
        return false;
    }
    payload.push(field.wire_type());
    append_le(payload, data.len() as u64, 4);
    append_bytes(payload, data);
    assert(payload@ =~= old(payload)@ + tlv(field, data@));
    *flags = *flags | field.flag_bit();
    true
}

/// How the local user stands to a player.
#[derive(Clone, Copy, Debug, PartialEq, Eq, Structural)]
pub enum Relationship {
    NoRelation,
    Friend,
    Blocked,
    FriendshipRequested,
    RequestingFriendship,
}

/// The byte that stands for a relationship on the wire.
pub open spec fn relationship_byte(relationship: Relationship) -> u8 {
    match relationship {
        Relationship::NoRelation => 0,
        Relationship::Friend => 1,
        Relationship::Blocked => 2,
        Relationship::FriendshipRequested => 3,
        Relationship::RequestingFriendship => 4,
    }
}

impl Relationship {
    /// Relationship byte sent in the [`PlayerField::Relationship`] field.
    pub fn wire_byte(self) -> (r: u8)
        ensures
            r == relationship_byte(self),
    {
        match self {
            Relationship::NoRelation => 0,
            Relationship::Friend => 1,
            Relationship::Blocked => 2,
            Relationship::FriendshipRequested => 3,
            Relationship::RequestingFriendship => 4,
        }
    }
}

} // verus!
