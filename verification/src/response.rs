//! The payloads that the broker answers with.

use crate::bytes::{self, append_bytes, append_le};
use crate::protocol::{
    self, write_field, PlayerField, CONNECT_RESPONSE_HEADER, MAX_PAYLOAD_SIZE,
    PLAYER_RESPONSE_HEADER,
};
use crate::steam::{PlayerSnapshot, SnapshotView};
use vstd::prelude::*;
use vstd::string::*;
use vstd::utf8::*;

verus! {

/// The 32 bits of a signed number, as an unsigned one.
pub open spec fn as_unsigned(x: i32) -> u32 {
    if x >= 0 {
        x as u32
    } else {
        (x + 0x1_0000_0000) as u32
    }
}

/// The `sb_connect` response: `"sb_connect\n"` + `i32` challenge LE + `u64` steamid LE + `u32`
/// ticket size LE + ticket.
pub open spec fn connect_payload(challenge: i32, steam_id: u64, ticket: Seq<u8>) -> Seq<u8> {
    CONNECT_RESPONSE_HEADER@ + bytes::le_bytes(as_unsigned(challenge) as nat, 4) + bytes::le_bytes(
        steam_id as nat,
        8,
    ) + bytes::le_bytes(ticket.len() % 0x1_0000_0000, 4) + ticket
}

/// The `sb_connect` response that hands out `ticket`.
pub fn connect_response(challenge: i32, steam_id: u64, ticket: &[u8]) -> (r: Vec<u8>)
    ensures
        r@ == connect_payload(challenge, steam_id, ticket@),
{
    let bits: u32 = if challenge >= 0 {
        challenge as u32
    } else {
        (challenge as i64 + 0x1_0000_0000) as u32
    };
    let mut payload: Vec<u8> = Vec::new();
    append_bytes(&mut payload, &CONNECT_RESPONSE_HEADER);
    append_le(&mut payload, bits as u64, 4);
    append_le(&mut payload, steam_id, 8);
    append_le(&mut payload, ticket.len() as u64 % 0x1_0000_0000, 4);
    append_bytes(&mut payload, ticket);
    assert(payload@ =~= connect_payload(challenge, steam_id, ticket@));
    payload
}

/// One entry of the rich presence field, if both parts are short enough for their `u16`
/// lengths.
pub open spec fn presence_entry(pair: (Seq<char>, Seq<char>)) -> Seq<u8> {
    let key = encode_utf8(pair.0);
    let value = encode_utf8(pair.1);
    if key.len() > u16::MAX || value.len() > u16::MAX {
        Seq::empty()
    } else {
        bytes::le_bytes(key.len(), 2) + key + bytes::le_bytes(value.len(), 2) + value
    }
}

/// The data of the rich presence field: its entries, one behind the other.
pub open spec fn presence_data(pairs: Seq<(Seq<char>, Seq<char>)>) -> Seq<u8>
    decreases pairs.len(),
{
    if pairs.len() == 0 {
        Seq::empty()
    } else {
        presence_data(pairs.drop_last()) + presence_entry(pairs.last())
    }
}

/// A field and its data, or nothing.
pub open spec fn opt_field(field: PlayerField, data: Option<Seq<u8>>) -> Seq<
    (PlayerField, Seq<u8>),
> {
    match data {
        Some(d) => seq![(field, d)],
        None => Seq::empty(),
    }
}

/// The bytes of an optional text.
pub open spec fn opt_encoded(t: Option<Seq<char>>) -> Option<Seq<u8>> {
    match t {
        Some(s) => Some(encode_utf8(s)),
        None => None,
    }
}

/// The fields that a snapshot has to offer, in the order in which they are written.
pub open spec fn offered(snapshot: SnapshotView) -> Seq<(PlayerField, Seq<u8>)> {
    opt_field(PlayerField::Name, opt_encoded(snapshot.facts.name)) + opt_field(
        PlayerField::AvatarSmall,
        snapshot.avatar_small,
    ) + opt_field(PlayerField::AvatarMedium, snapshot.avatar_medium) + opt_field(
        PlayerField::AvatarLarge,
        snapshot.avatar_large,
    ) + opt_field(
        PlayerField::Relationship,
        Some(seq![protocol::relationship_byte(snapshot.facts.relationship)]),
    ) + opt_field(PlayerField::Country, opt_encoded(snapshot.facts.country)) + opt_field(
        PlayerField::Game,
        match snapshot.facts.game_app_id {
            Some(app_id) => Some(bytes::le_bytes(app_id as nat, 4)),
            None => None,
        },
    ) + opt_field(
        PlayerField::RichPresence,
        match snapshot.facts.rich_presence {
            Some(pairs) => if presence_data(pairs).len() == 0 {
                None
            } else {
                Some(presence_data(pairs))
            },
            None => None,
        },
    ) + opt_field(
        PlayerField::PersonaState,
        match snapshot.facts.persona_state {
            Some(b) => Some(seq![b]),
            None => None,
        },
    )
}

/// The length of what precedes the fields: header, steamid and flags.
pub const PLAYER_PREFIX_SIZE: usize = 23;

/// The fields on the wire, one behind the other.
pub open spec fn body(fields: Seq<(PlayerField, Seq<u8>)>) -> Seq<u8>
    decreases fields.len(),
{
    if fields.len() == 0 {
        Seq::empty()
    } else {
        body(fields.drop_last()) + protocol::tlv(fields.last().0, fields.last().1)
    }
}

/// The flags word that announces `fields`.
pub open spec fn flags_of(fields: Seq<(PlayerField, Seq<u8>)>) -> u32
    decreases fields.len(),
{
    if fields.len() == 0 {
        0
    } else {
        flags_of(fields.drop_last()) | protocol::flag_bit(fields.last().0)
    }
}

/// Those of `fields` that make it into the response: each in turn that still fits.
pub open spec fn fitting(fields: Seq<(PlayerField, Seq<u8>)>) -> Seq<(PlayerField, Seq<u8>)>
    decreases fields.len(),
{
    if fields.len() == 0 {
        Seq::empty()
    } else {
        let before = fitting(fields.drop_last());
        if protocol::field_fits(
            PLAYER_PREFIX_SIZE as nat + body(before).len(),
            fields.last().1.len(),
        ) {
            before.push(fields.last())
        } else {
            before
        }
    }
}

/// A `sb_playerx` response with the given flags and fields.
pub open spec fn player_message(
    steamid: u64,
    flags: u32,
    fields: Seq<(PlayerField, Seq<u8>)>,
) -> Seq<u8> {
    PLAYER_RESPONSE_HEADER@ + bytes::le_bytes(steamid as nat, 8) + bytes::le_bytes(flags as nat, 4)
        + body(fields)
}

/// The `sb_playerx` response for a snapshot.
pub open spec fn player_payload(snapshot: SnapshotView) -> Seq<u8> {
    let fields = fitting(offered(snapshot));
    player_message(snapshot.steamid, flags_of(fields), fields)
}

/// The rich presence entries, encoded.
fn encode_presence(pairs: &Vec<(String, String)>) -> (r: Vec<u8>)
    ensures
        r@ == presence_data(crate::steam::text_pairs(pairs@)),
{
    let ghost all = crate::steam::text_pairs(pairs@);
    let mut data: Vec<u8> = Vec::new();
    let mut i: usize = 0;
    while i < pairs.len()
        invariant
            i <= pairs@.len(),
            all == crate::steam::text_pairs(pairs@),
            data@ == presence_data(all.take(i as int)),
        decreases pairs@.len() - i,
    {
        let ghost before = data@;
        let key = pairs[i].0.as_str().as_bytes();
        let value = pairs[i].1.as_str().as_bytes();
        if key.len() <= 0xffff && value.len() <= 0xffff {
            append_le(&mut data, key.len() as u64, 2);
            append_bytes(&mut data, key);
            append_le(&mut data, value.len() as u64, 2);
            append_bytes(&mut data, value);
        }
        assert(data@ =~= before + presence_entry(all[i as int]));
        i = i + 1;
        assert(all.take(i as int).drop_last() =~= all.take(i - 1));
    }
    assert(all.take(i as int) =~= all);
    data
}

/// A response under construction: `fields` have been offered so far.
spec fn under_way(
    payload: Seq<u8>,
    flags: u32,
    prefix: Seq<u8>,
    fields: Seq<(PlayerField, Seq<u8>)>,
) -> bool {
    &&& prefix.len() == PLAYER_PREFIX_SIZE
    &&& payload == prefix + body(fitting(fields))
    &&& flags == flags_of(fitting(fields))
}

/// The bytes of an optional slice.
pub open spec fn opt_slice(data: Option<&[u8]>) -> Option<Seq<u8>> {
    match data {
        Some(d) => Some(d@),
        None => None,
    }
}

/// Offers one more field, if there is any data for it, to a response under construction.
fn offer(
    payload: &mut Vec<u8>,
    flags: &mut u32,
    field: PlayerField,
    data: Option<&[u8]>,
    Ghost(prefix): Ghost<Seq<u8>>,
    Ghost(fields): Ghost<Seq<(PlayerField, Seq<u8>)>>,
)
    requires
        under_way(old(payload)@, *old(flags), prefix, fields),
    ensures
        under_way(
            final(payload)@,
            *final(flags),
            prefix,
            fields + opt_field(field, opt_slice(data)),
        ),
{
    match data {
        None => {
            assert(fields + opt_field(field, None) =~= fields);
        },
        Some(data) => {
            let ghost more = fields.push((field, data@));
            let written = write_field(payload, flags, field, data);
            proof {
                assert(fields + opt_field(field, Some(data@)) =~= more);
                assert(more.drop_last() =~= fields);
                if written {
                    assert(fitting(more).drop_last() =~= fitting(fields));
                    assert(payload@ =~= prefix + body(fitting(more)));
                }
            }
        },
    }
}

/// The bytes of an optional text.
fn text_bytes(t: &Option<String>) -> (r: Option<&[u8]>)
    ensures
        opt_slice(r) == opt_encoded(crate::steam::opt_text(*t)),
{
    match t {
        Some(s) => Some(s.as_str().as_bytes()),
        None => None,
    }
}

/// A byte vector as a slice.
fn vec_bytes(v: &Option<Vec<u8>>) -> (r: Option<&[u8]>)
    ensures
        opt_slice(r) == crate::steam::opt_bytes(*v),
{
    match v {
        Some(v) => Some(v.as_slice()),
        None => None,
    }
}

/// Overwrites four bytes of `v` from `at` on with the bytes of `x`.
fn put_u32(v: &mut Vec<u8>, at: usize, x: u32)
    requires
        at + 4 <= old(v)@.len(),
    ensures
        final(v)@ == old(v)@.take(at as int) + bytes::le_bytes(x as nat, 4) + old(v)@.skip(at + 4),
{
    let n: usize = v.len();
    let mut word: Vec<u8> = Vec::new();
    append_le(&mut word, x as u64, 4);
    proof {
        bytes::le_bytes_len(x as nat, 4);
        assert(word@ =~= bytes::le_bytes(x as nat, 4));
    }
    let mut i: usize = 0;
    while i < 4
        invariant
            i <= 4,
            at + 4 <= n == old(v)@.len(),
            word@.len() == 4,
            v@ == old(v)@.take(at as int) + word@.take(i as int) + old(v)@.skip(at + i),
        decreases 4 - i,
    {
        v.set(at + i, word[i]);
        i = i + 1;
        assert(v@ =~= old(v)@.take(at as int) + word@.take(i as int) + old(v)@.skip(at + i));
    }
    assert(word@.take(4) =~= word@);
}

/// What fits stays within the limit.
pub proof fn fitting_fits(fields: Seq<(PlayerField, Seq<u8>)>)
    ensures
        PLAYER_PREFIX_SIZE + body(fitting(fields)).len() <= MAX_PAYLOAD_SIZE,
    decreases fields.len(),
{
    if fields.len() > 0 {
        fitting_fits(fields.drop_last());
        let before = fitting(fields.drop_last());
        let last = fields.last();
        bytes::le_bytes_len(last.1.len(), 4);
        assert(before.push(last).drop_last() =~= before);
    }
}

/// The `sb_playerx` response for a snapshot.
pub fn player_response(snapshot: &PlayerSnapshot) -> (r: Vec<u8>)
    ensures
        r@ == player_payload(snapshot@),
        r@.len() <= MAX_PAYLOAD_SIZE,
{
    let mut payload: Vec<u8> = Vec::with_capacity(MAX_PAYLOAD_SIZE);
    append_bytes(&mut payload, &PLAYER_RESPONSE_HEADER);
    append_le(&mut payload, snapshot.steamid, 8);
    // Flags are backfilled once every field has been written.
    let flags_offset: usize = payload.len();
    append_le(&mut payload, 0, 4);
    let mut flags: u32 = 0;
    let relationship: [u8; 1] = [snapshot.relationship.wire_byte()];
    let mut game: Vec<u8> = Vec::new();
    let game_data: Option<&[u8]> = match snapshot.game_app_id {
        Some(app_id) => {
            append_le(&mut game, app_id as u64, 4);
            Some(game.as_slice())
        },
        None => None,
    };
    let presence: Vec<u8> = match &snapshot.rich_presence {
        Some(pairs) => encode_presence(pairs),
        None => Vec::new(),
    };
    let presence_field: Option<&[u8]> = if presence.is_empty() {
        None
    } else {
        Some(presence.as_slice())
    };
    let mut state: Vec<u8> = Vec::new();
    let state_data: Option<&[u8]> = match snapshot.persona_state {
        Some(b) => {
            state.push(b);
            Some(state.as_slice())
        },
        None => None,
    };
    let ghost v = snapshot@;
    let ghost prefix = payload@;
    let ghost f0: Seq<(PlayerField, Seq<u8>)> = Seq::empty();
    let ghost f1 = f0 + opt_field(PlayerField::Name, opt_encoded(v.facts.name));
    let ghost f2 = f1 + opt_field(PlayerField::AvatarSmall, v.avatar_small);
    let ghost f3 = f2 + opt_field(PlayerField::AvatarMedium, v.avatar_medium);
    let ghost f4 = f3 + opt_field(PlayerField::AvatarLarge, v.avatar_large);
    let ghost f5 = f4 + opt_field(PlayerField::Relationship, Some(relationship@));
    let ghost f6 = f5 + opt_field(PlayerField::Country, opt_encoded(v.facts.country));
    let ghost f7 = f6 + opt_field(PlayerField::Game, opt_slice(game_data));
    let ghost f8 = f7 + opt_field(PlayerField::RichPresence, opt_slice(presence_field));
    let ghost f9 = f8 + opt_field(PlayerField::PersonaState, opt_slice(state_data));
    proof {
        bytes::le_bytes_len(snapshot.steamid as nat, 8);
        bytes::le_bytes_len(0, 4);
        assert(prefix + body(fitting(f0)) =~= prefix);
        assert(relationship@ =~= seq![protocol::relationship_byte(v.facts.relationship)]);
        assert(f9 =~= offered(v));
    }
    let (p, f) = (&mut payload, &mut flags);
    offer(p, f, PlayerField::Name, text_bytes(&snapshot.name), Ghost(prefix), Ghost(f0));
    offer(p, f, PlayerField::AvatarSmall, vec_bytes(&snapshot.avatar_small), Ghost(prefix), Ghost(f1));
    offer(p, f, PlayerField::AvatarMedium, vec_bytes(&snapshot.avatar_medium), Ghost(prefix), Ghost(f2));
    offer(p, f, PlayerField::AvatarLarge, vec_bytes(&snapshot.avatar_large), Ghost(prefix), Ghost(f3));
    offer(p, f, PlayerField::Relationship, Some(relationship.as_slice()), Ghost(prefix), Ghost(f4));
    offer(p, f, PlayerField::Country, text_bytes(&snapshot.country), Ghost(prefix), Ghost(f5));
    offer(p, f, PlayerField::Game, game_data, Ghost(prefix), Ghost(f6));
    offer(p, f, PlayerField::RichPresence, presence_field, Ghost(prefix), Ghost(f7));
    offer(p, f, PlayerField::PersonaState, state_data, Ghost(prefix), Ghost(f8));
    proof {
        fitting_fits(f9);
    }
    put_u32(&mut payload, flags_offset, flags);
    proof {
        bytes::le_bytes_len(flags as nat, 4);
        assert(payload@ =~= player_payload(v));
    }
    payload
}

/// What a client reads off the fields of a response: type tags and data.
pub open spec fn read_fields(b: Seq<u8>) -> Option<Seq<(u8, Seq<u8>)>>
    decreases b.len(),
{
    if b.len() == 0 {
        Some(Seq::empty())
    } else if b.len() < 5 {
        None
    } else {
        let end = 5 + bytes::le_value(b.subrange(1, 5));
        if b.len() < end {
            None
        } else {
            match read_fields(b.skip(end as int)) {
                Some(rest) => Some(seq![(b[0], b.subrange(5, end as int))] + rest),
                None => None,
            }
        }
    }
}

/// The type tags and data of `fields`.
pub open spec fn tagged(fields: Seq<(PlayerField, Seq<u8>)>) -> Seq<(u8, Seq<u8>)> {
    fields.map_values(|f: (PlayerField, Seq<u8>)| (protocol::wire_type(f.0), f.1))
}

/// The first field stands first.
proof fn body_starts_with_first(fields: Seq<(PlayerField, Seq<u8>)>)
    requires
        fields.len() > 0,
    ensures
        body(fields) == protocol::tlv(fields[0].0, fields[0].1) + body(fields.drop_first()),
    decreases fields.len(),
{
    if fields.len() == 1 {
        assert(body(fields.drop_last()) =~= Seq::empty());
        assert(body(fields.drop_first()) =~= Seq::empty());
        assert(body(fields) =~= protocol::tlv(fields[0].0, fields[0].1));
    } else {
        body_starts_with_first(fields.drop_last());
        assert(fields.drop_last().drop_first() =~= fields.drop_first().drop_last());
        assert(body(fields) =~= protocol::tlv(fields[0].0, fields[0].1) + body(
            fields.drop_first(),
        ));
    }
}

/// A field is read back as its type tag and its data, and reading goes on right behind it.
proof fn tlv_reads_back(field: PlayerField, data: Seq<u8>, rest: Seq<u8>)
    requires
        data.len() < 0x1_0000_0000,
    ensures
        read_fields(protocol::tlv(field, data) + rest) == match read_fields(rest) {
            Some(more) => Some(seq![(protocol::wire_type(field), data)] + more),
            None => None,
        },
{
    let b = protocol::tlv(field, data) + rest;
    bytes::byte_ranges();
    bytes::le_bytes_len(data.len(), 4);
    bytes::le_value_of_le_bytes(data.len(), 4);
    assert(b.subrange(1, 5) =~= bytes::le_bytes(data.len(), 4));
    assert(b.subrange(5, 5 + data.len() as int) =~= data);
    assert(b.skip(5 + data.len() as int) =~= rest);
}

/// Fields are read back as they were written, in their order.
pub proof fn body_reads_back(fields: Seq<(PlayerField, Seq<u8>)>)
    requires
        forall|i: int| 0 <= i < fields.len() ==> (#[trigger] fields[i]).1.len() < 0x1_0000_0000,
    ensures
        read_fields(body(fields)) == Some(tagged(fields)),
    decreases fields.len(),
{
    if fields.len() == 0 {
        assert(tagged(fields) =~= Seq::empty());
    } else {
        let rest = fields.drop_first();
        body_starts_with_first(fields);
        body_reads_back(rest);
        tlv_reads_back(fields[0].0, fields[0].1, body(rest));
        assert(tagged(fields) =~= seq![(protocol::wire_type(fields[0].0), fields[0].1)] + tagged(
            rest,
        ));
    }
}

/// What is written fits, so none of it is longer than a payload.
proof fn fitting_is_short(fields: Seq<(PlayerField, Seq<u8>)>)
    ensures
        forall|i: int|
            0 <= i < fitting(fields).len() ==> (#[trigger] fitting(fields)[i]).1.len()
                <= MAX_PAYLOAD_SIZE,
    decreases fields.len(),
{
    if fields.len() > 0 {
        let before = fitting(fields.drop_last());
        fitting_is_short(fields.drop_last());
        assert forall|i: int| 0 <= i < fitting(fields).len() implies (#[trigger] fitting(
            fields,
        )[i]).1.len() <= MAX_PAYLOAD_SIZE by {
            if i < before.len() {
                assert(fitting(fields)[i] == before[i]);
            }
        }
    }
}

/// A client reads off a `sb_playerx` response whose it is, which fields it announces and the
/// fields themselves: those of the snapshot that fit, in their order. The response never
/// exceeds the limit for a payload.
pub proof fn player_payload_reads_back(snapshot: SnapshotView)
    ensures
        ({
            let p = player_payload(snapshot);
            let fields = fitting(offered(snapshot));
            &&& PLAYER_PREFIX_SIZE <= p.len() <= MAX_PAYLOAD_SIZE
            &&& p.subrange(0, 11) == PLAYER_RESPONSE_HEADER@
            &&& bytes::le_value(p.subrange(11, 19)) == snapshot.steamid
            &&& bytes::le_value(p.subrange(19, 23)) == flags_of(fields)
            &&& read_fields(p.skip(23)) == Some(tagged(fields))
        }),
{
    let p = player_payload(snapshot);
    let fields = fitting(offered(snapshot));
    let flags = flags_of(fields);
    bytes::byte_ranges();
    bytes::le_bytes_len(snapshot.steamid as nat, 8);
    bytes::le_bytes_len(flags as nat, 4);
    bytes::le_value_of_le_bytes(snapshot.steamid as nat, 8);
    bytes::le_value_of_le_bytes(flags as nat, 4);
    fitting_fits(offered(snapshot));
    fitting_is_short(offered(snapshot));
    body_reads_back(fields);
    assert(p.subrange(0, 11) =~= PLAYER_RESPONSE_HEADER@);
    assert(p.subrange(11, 19) =~= bytes::le_bytes(snapshot.steamid as nat, 8));
    assert(p.subrange(19, 23) =~= bytes::le_bytes(flags as nat, 4));
    assert(p.skip(23) =~= body(fields));
}

/// The bit of a field is set in the flags word exactly if the field is there.
pub proof fn flags_tell_the_fields(fields: Seq<(PlayerField, Seq<u8>)>, field: PlayerField)
    ensures
        flags_of(fields) & protocol::flag_bit(field) != 0 <==> exists|i: int|
            0 <= i < fields.len() && (#[trigger] fields[i]).0 == field,
    decreases fields.len(),
{
    let bit = protocol::flag_bit(field);
    if fields.len() == 0 {
        assert(0u32 & bit == 0) by (bit_vector);
    } else {
        let before = fields.drop_last();
        let last = protocol::flag_bit(fields.last().0);
        flags_tell_the_fields(before, field);
        let old_flags = flags_of(before);
        assert((old_flags | last) & bit != 0 <==> (old_flags & bit != 0 || last & bit != 0))
            by (bit_vector);
        bits_are_disjoint(fields.last().0, field);
        assert(forall|i: int| 0 <= i < before.len() ==> before[i] == fields[i]);
        if exists|i: int| 0 <= i < fields.len() && (#[trigger] fields[i]).0 == field {
            let i = choose|i: int| 0 <= i < fields.len() && (#[trigger] fields[i]).0 == field;
            if i < before.len() {
                assert(before[i].0 == field);
            }
        }
        if fields.last().0 == field {
            assert(fields[fields.len() - 1].0 == field);
        }
    }
}

/// Different fields have no bit in common.
proof fn bits_are_disjoint(f: PlayerField, g: PlayerField)
    ensures
        protocol::flag_bit(f) & protocol::flag_bit(g) != 0 <==> f == g,
{
    let x = protocol::flag_bit(f);
    let y = protocol::flag_bit(g);
    assert((x == 0x001 || x == 0x002 || x == 0x004 || x == 0x008 || x == 0x010 || x == 0x020 || x
        == 0x040 || x == 0x080 || x == 0x100) && (y == 0x001 || y == 0x002 || y == 0x004 || y
        == 0x008 || y == 0x010 || y == 0x020 || y == 0x040 || y == 0x080 || y == 0x100) ==> (x & y
        != 0 <==> x == y)) by (bit_vector);
    protocol::fields_are_distinct(f, g);
}

/// Where all fields together stay within the limit, none is left out.
pub proof fn all_fields_fit(fields: Seq<(PlayerField, Seq<u8>)>)
    requires
        PLAYER_PREFIX_SIZE + body(fields).len() <= MAX_PAYLOAD_SIZE,
    ensures
        fitting(fields) == fields,
    decreases fields.len(),
{
    if fields.len() > 0 {
        bytes::le_bytes_len(fields.last().1.len(), 4);
        all_fields_fit(fields.drop_last());
        assert(fields.drop_last().push(fields.last()) =~= fields);
    } else {
        assert(fitting(fields) =~= fields);
    }
}

/// What a client reads off the rich presence field: the bytes of keys and values.
pub open spec fn read_presence(b: Seq<u8>) -> Option<Seq<(Seq<u8>, Seq<u8>)>>
    decreases b.len(),
{
    if b.len() == 0 {
        Some(Seq::empty())
    } else if b.len() < 2 {
        None
    } else {
        let key_end: int = 2 + bytes::le_value(b.subrange(0, 2)) as int;
        if b.len() < key_end + 2 {
            None
        } else {
            let value_end = key_end + 2 + bytes::le_value(b.subrange(key_end, key_end + 2));
            if b.len() < value_end {
                None
            } else {
                match read_presence(b.skip(value_end)) {
                    Some(rest) => Some(
                        seq![
                            (b.subrange(2, key_end), b.subrange(key_end + 2, value_end)),
                        ] + rest,
                    ),
                    None => None,
                }
            }
        }
    }
}

/// The bytes of those of `pairs` that the rich presence field can hold.
pub open spec fn held(pairs: Seq<(Seq<char>, Seq<char>)>) -> Seq<(Seq<u8>, Seq<u8>)>
    decreases pairs.len(),
{
    if pairs.len() == 0 {
        Seq::empty()
    } else {
        let key = encode_utf8(pairs[0].0);
        let value = encode_utf8(pairs[0].1);
        let rest = held(pairs.drop_first());
        if key.len() > u16::MAX || value.len() > u16::MAX {
            rest
        } else {
            seq![(key, value)] + rest
        }
    }
}

/// The first entry stands first.
proof fn presence_starts_with_first(pairs: Seq<(Seq<char>, Seq<char>)>)
    requires
        pairs.len() > 0,
    ensures
        presence_data(pairs) == presence_entry(pairs[0]) + presence_data(pairs.drop_first()),
    decreases pairs.len(),
{
    if pairs.len() == 1 {
        assert(presence_data(pairs.drop_last()) =~= Seq::empty());
        assert(presence_data(pairs.drop_first()) =~= Seq::empty());
        assert(presence_data(pairs) =~= presence_entry(pairs[0]));
    } else {
        presence_starts_with_first(pairs.drop_last());
        assert(pairs.drop_last().drop_first() =~= pairs.drop_first().drop_last());
        assert(presence_data(pairs) =~= presence_entry(pairs[0]) + presence_data(
            pairs.drop_first(),
        ));
    }
}

/// Rich presence is read back as it was written, in its order, but for what is too long.
pub proof fn presence_reads_back(pairs: Seq<(Seq<char>, Seq<char>)>)
    ensures
        read_presence(presence_data(pairs)) == Some(held(pairs)),
    decreases pairs.len(),
{
    if pairs.len() > 0 {
        let rest = pairs.drop_first();
        let key = encode_utf8(pairs[0].0);
        let value = encode_utf8(pairs[0].1);
        let b = presence_data(pairs);
        presence_starts_with_first(pairs);
        presence_reads_back(rest);
        if key.len() > u16::MAX || value.len() > u16::MAX {
            assert(b =~= presence_data(rest));
        } else {
            let key_end: int = 2 + key.len() as int;
            let value_end = key_end + 2 + value.len();
            bytes::byte_ranges();
            bytes::le_bytes_len(key.len(), 2);
            bytes::le_bytes_len(value.len(), 2);
            bytes::le_value_of_le_bytes(key.len(), 2);
            bytes::le_value_of_le_bytes(value.len(), 2);
            assert(b.subrange(0, 2) =~= bytes::le_bytes(key.len(), 2));
            assert(b.subrange(2, key_end) =~= key);
            assert(b.subrange(key_end, key_end + 2) =~= bytes::le_bytes(value.len(), 2));
            assert(b.subrange(key_end + 2, value_end) =~= value);
            assert(b.skip(value_end) =~= presence_data(rest));
        }
    }
}

/// A client reads off a `sb_connect` response the challenge that it sent, the local user and
/// the ticket.
pub proof fn connect_payload_reads_back(challenge: i32, steam_id: u64, ticket: Seq<u8>)
    ensures
        ({
            let p = connect_payload(challenge, steam_id, ticket);
            &&& p.len() == 27 + ticket.len()
            &&& p.subrange(0, 11) == CONNECT_RESPONSE_HEADER@
            &&& bytes::le_value(p.subrange(11, 15)) == as_unsigned(challenge)
            &&& bytes::le_value(p.subrange(15, 23)) == steam_id
            &&& bytes::le_value(p.subrange(23, 27)) == ticket.len() % 0x1_0000_0000
            &&& p.skip(27) == ticket
        }),
{
    let p = connect_payload(challenge, steam_id, ticket);
    let c = as_unsigned(challenge) as nat;
    let n = ticket.len() % 0x1_0000_0000;
    bytes::byte_ranges();
    bytes::le_bytes_len(c, 4);
    bytes::le_bytes_len(steam_id as nat, 8);
    bytes::le_bytes_len(n, 4);
    bytes::le_value_of_le_bytes(c, 4);
    bytes::le_value_of_le_bytes(steam_id as nat, 8);
    bytes::le_value_of_le_bytes(n, 4);
    assert(p.subrange(0, 11) =~= CONNECT_RESPONSE_HEADER@);
    assert(p.subrange(11, 15) =~= bytes::le_bytes(c, 4));
    assert(p.subrange(15, 23) =~= bytes::le_bytes(steam_id as nat, 8));
    assert(p.subrange(23, 27) =~= bytes::le_bytes(n, 4));
    assert(p.skip(27) =~= ticket);
}

/// Different challenges are told apart on the wire.
pub proof fn challenges_are_told_apart(x: i32, y: i32)
    ensures
        as_unsigned(x) == as_unsigned(y) <==> x == y,
{
}

} // verus!
