//! What goes over the wire, byte by byte.

use crate::bytes;
use crate::protocol::{self, Parsed, PlayerField, Relationship};
use crate::response;
use crate::steam::SnapshotView;
use vstd::prelude::*;
use vstd::utf8::*;

verus! {

/// A number of two, four or eight bytes, its least significant byte first.
pub proof fn numbers_are_little_endian(s: Seq<u8>)
    ensures
        s.len() == 2 ==> bytes::le_value(s) == s[0] + 0x100 * s[1],
        s.len() == 4 ==> bytes::le_value(s) == s[0] + 0x100 * s[1] + 0x1_0000 * s[2] + 0x100_0000
            * s[3],
        s.len() == 8 ==> bytes::le_value(s) == s[0] + 0x100 * s[1] + 0x1_0000 * s[2] + 0x100_0000
            * s[3] + 0x1_0000_0000 * s[4] + 0x100_0000_0000 * s[5] + 0x1_0000_0000_0000 * s[6]
            + 0x100_0000_0000_0000 * s[7],
{
    reveal_with_fuel(bytes::le_value, 9);
}

/// The four bytes of a number.
pub open spec fn four_bytes(x: u32) -> Seq<u8> {
    seq![
        (x % 0x100) as u8,
        (x / 0x100 % 0x100) as u8,
        (x / 0x1_0000 % 0x100) as u8,
        (x / 0x100_0000) as u8,
    ]
}

/// The two bytes of a number.
pub open spec fn two_bytes(x: int) -> Seq<u8> {
    seq![(x % 0x100) as u8, (x / 0x100) as u8]
}

/// Numbers are written so.
proof fn bytes_are_written(x: u32, y: nat)
    requires
        y < 0x1_0000,
    ensures
        bytes::le_bytes(x as nat, 4) == four_bytes(x),
        bytes::le_bytes(y, 2) == two_bytes(y as int),
{
    reveal_with_fuel(bytes::le_bytes, 5);
    assert(bytes::le_bytes(x as nat, 4) =~= four_bytes(x));
    assert(bytes::le_bytes(y, 2) =~= two_bytes(y as int));
}

/// A frame is `"SBRK"`, the length of its payload in two bytes and the payload.
pub proof fn frame_is_magic_length_and_payload(payload: Seq<u8>)
    requires
        payload.len() <= 4096,
    ensures
        protocol::frame(payload) == seq![0x53u8, 0x42, 0x52, 0x4b] + two_bytes(payload.len() as int)
            + payload,
{
    bytes_are_written(0, payload.len());
    assert(protocol::FRAME_HEADER@ =~= seq![0x53u8, 0x42, 0x52, 0x4b]);
}

/// Whether `buf` starts with the magic of a frame.
pub open spec fn has_magic(buf: Seq<u8>) -> bool {
    buf.len() >= 4 && buf[0] == 0x53 && buf[1] == 0x42 && buf[2] == 0x52 && buf[3] == 0x4b
}

/// What the front of some bytes reads as. Less than six bytes tell nothing. Six that do not
/// start with the magic are bad, and so is a length beyond 4096. As long as the payload is not
/// there whole, more is needed. A whole frame takes up six bytes and its payload.
pub proof fn front_reads_as_a_frame(buf: Seq<u8>)
    ensures
        buf.len() < 6 ==> protocol::parsed(buf) is Incomplete,
        buf.len() >= 6 && !has_magic(buf) ==> protocol::parsed(buf) is BadMagic,
        buf.len() >= 6 && has_magic(buf) ==> {
            let n: int = buf[4] + 0x100 * buf[5];
            &&& n > 4096 ==> protocol::parsed(buf) is TooLarge
            &&& n <= 4096 && buf.len() < 6 + n ==> protocol::parsed(buf) is Incomplete
            &&& n <= 4096 && buf.len() >= 6 + n ==> protocol::parsed(buf) == (Parsed::Frame {
                consumed: (6 + n) as nat,
                payload: buf.subrange(6, 6 + n),
            })
        },
{
    if buf.len() >= 6 {
        bytes::le_value_of_two(buf.subrange(4, 6));
        let front = buf.subrange(0, 4);
        assert(front[0] == buf[0] && front[1] == buf[1] && front[2] == buf[2] && front[3]
            == buf[3]);
        if has_magic(buf) {
            assert(front =~= protocol::FRAME_HEADER@);
        }
    }
}

/// The type tags of the fields and their bits in the flags word.
pub proof fn fields_have_their_tags_and_bits()
    ensures
        protocol::wire_type(PlayerField::Name) == 1,
        protocol::wire_type(PlayerField::AvatarSmall) == 2,
        protocol::wire_type(PlayerField::AvatarMedium) == 3,
        protocol::wire_type(PlayerField::AvatarLarge) == 4,
        protocol::wire_type(PlayerField::Relationship) == 5,
        protocol::wire_type(PlayerField::Country) == 6,
        protocol::wire_type(PlayerField::Game) == 7,
        protocol::wire_type(PlayerField::RichPresence) == 8,
        protocol::wire_type(PlayerField::PersonaState) == 9,
        forall|f: PlayerField| #[trigger]
            protocol::flag_bit(f) == 1u32 << ((protocol::wire_type(f) - 1) as u32),
{
    assert forall|f: PlayerField| #[trigger]
        protocol::flag_bit(f) == 1u32 << ((protocol::wire_type(f) - 1) as u32) by {
        protocol::fields_are_distinct(f, f);
    }
}

/// The bytes of the relationships.
pub proof fn relationships_have_their_bytes()
    ensures
        protocol::relationship_byte(Relationship::NoRelation) == 0,
        protocol::relationship_byte(Relationship::Friend) == 1,
        protocol::relationship_byte(Relationship::Blocked) == 2,
        protocol::relationship_byte(Relationship::FriendshipRequested) == 3,
        protocol::relationship_byte(Relationship::RequestingFriendship) == 4,
{
}

/// A field is its type tag, the length of its data in four bytes and its data. It fits as long
/// as it keeps the payload within 4096 bytes.
pub proof fn field_is_tag_length_and_data(field: PlayerField, data: Seq<u8>, payload_len: nat)
    ensures
        protocol::field_fits(payload_len, data.len()) <==> payload_len + 5 + data.len() <= 4096,
        data.len() < 0x1_0000_0000 ==> protocol::tlv(field, data) == seq![
            protocol::wire_type(field),
        ] + four_bytes(data.len() as u32) + data,
{
    if data.len() < 0x1_0000_0000 {
        bytes_are_written(data.len() as u32, 0);
    }
}

/// The `sb_connect` response spells `"sb_connect\n"`, the challenge in two's complement, the
/// local user, the length of the ticket and the ticket.
pub proof fn connect_response_spells_its_parts(challenge: i32, steam_id: u64, ticket: Seq<u8>)
    ensures
        ({
            let p = response::connect_payload(challenge, steam_id, ticket);
            &&& p.len() == 27 + ticket.len()
            &&& p.subrange(0, 11) == seq![
                0x73u8,
                0x62,
                0x5f,
                0x63,
                0x6f,
                0x6e,
                0x6e,
                0x65,
                0x63,
                0x74,
                0x0a,
            ]
            &&& bytes::le_value(p.subrange(11, 15)) == challenge as int % 0x1_0000_0000
            &&& bytes::le_value(p.subrange(15, 23)) == steam_id
            &&& bytes::le_value(p.subrange(23, 27)) == ticket.len() % 0x1_0000_0000
            &&& p.subrange(27, p.len() as int) == ticket
        }),
{
    let p = response::connect_payload(challenge, steam_id, ticket);
    response::connect_payload_reads_back(challenge, steam_id, ticket);
    assert(p.subrange(0, 11) =~= seq![
        0x73u8,
        0x62,
        0x5f,
        0x63,
        0x6f,
        0x6e,
        0x6e,
        0x65,
        0x63,
        0x74,
        0x0a,
    ]);
    assert(p.subrange(27, p.len() as int) =~= p.skip(27));
}

/// How many bytes fields take up.
pub open spec fn size_of(fields: Seq<(u8, Seq<u8>)>) -> nat
    decreases fields.len(),
{
    if fields.len() == 0 {
        0
    } else {
        size_of(fields.drop_last()) + 5 + fields.last().1.len()
    }
}

/// Whether a field with the tag `tag` and `n` bytes of data does not fit behind the fields
/// with smaller tags.
pub open spec fn crowded_out(fields: Seq<(u8, Seq<u8>)>, tag: u8, n: nat) -> bool {
    exists|k: int|
        {
            &&& 0 <= k <= fields.len()
            &&& forall|i: int| 0 <= i < k ==> (#[trigger] fields[i]).0 < tag
            &&& 23 + size_of(#[trigger] fields.take(k)) + 5 + n > 4096
        }
}

/// Whether `fields` tell `data` under the tag `tag`, or have no room for it.
pub open spec fn tells(fields: Seq<(u8, Seq<u8>)>, tag: u8, data: Seq<u8>) -> bool {
    fields.contains((tag, data)) || crowded_out(fields, tag, data.len())
}

/// Whether `fields` tell what is known under the tag `tag`, as far as there is room for it, and
/// nothing else under it.
pub open spec fn tells_known(
    fields: Seq<(u8, Seq<u8>)>,
    tag: u8,
    known: Option<Seq<u8>>,
) -> bool {
    &&& known matches Some(data) ==> tells(fields, tag, data)
    &&& forall|i: int|
        0 <= i < fields.len() && (#[trigger] fields[i]).0 == tag ==> known == Some(fields[i].1)
}

/// Fields in the order of their tags, each once.
spec fn in_order(fields: Seq<(PlayerField, Seq<u8>)>) -> bool {
    forall|i: int, j: int|
        0 <= i < j < fields.len() ==> protocol::wire_type((#[trigger] fields[i]).0)
            < protocol::wire_type((#[trigger] fields[j]).0)
}

/// Whether the tags of all of `fields` are below `tag`.
spec fn all_below(fields: Seq<(PlayerField, Seq<u8>)>, tag: u8) -> bool {
    forall|i: int| 0 <= i < fields.len() ==> protocol::wire_type((#[trigger] fields[i]).0) < tag
}

/// One more field, or none, behind those with smaller tags.
proof fn one_more_offered(
    fields: Seq<(PlayerField, Seq<u8>)>,
    field: PlayerField,
    data: Option<Seq<u8>>,
)
    requires
        in_order(fields),
        all_below(fields, protocol::wire_type(field)),
    ensures
        ({
            let more = fields + response::opt_field(field, data);
            &&& in_order(more)
            &&& all_below(more, (protocol::wire_type(field) + 1) as u8)
            &&& forall|x: (PlayerField, Seq<u8>)| #[trigger]
                more.contains(x) <==> fields.contains(x) || (x.0 == field && data == Some(x.1))
        }),
{
    let more = fields + response::opt_field(field, data);
    assert forall|x: (PlayerField, Seq<u8>)| #[trigger]
        more.contains(x) <==> fields.contains(x) || (x.0 == field && data == Some(x.1)) by {
        if more.contains(x) {
            let k = choose|k: int| 0 <= k < more.len() && more[k] == x;
            if k < fields.len() {
                assert(fields[k] == x);
            }
        }
        if fields.contains(x) {
            let k = choose|k: int| 0 <= k < fields.len() && fields[k] == x;
            assert(more[k] == x);
        }
        if x.0 == field && data == Some(x.1) {
            assert(more[fields.len() as int] == x);
        }
    }
}

/// Where a field stands in a fitting response, or why it does not.
proof fn fitting_tells(fields: Seq<(PlayerField, Seq<u8>)>, x: (PlayerField, Seq<u8>))
    requires
        in_order(fields),
    ensures
        ({
            let fit = response::fitting(fields);
            &&& in_order(fit)
            &&& fit.contains(x) ==> fields.contains(x)
            &&& fields.contains(x) ==> fit.contains(x) || exists|k: int|
                {
                    &&& 0 <= k <= fit.len()
                    &&& all_below(fit.take(k), protocol::wire_type(x.0))
                    &&& 23 + response::body(#[trigger] fit.take(k)).len() + 5 + x.1.len() > 4096
                }
        }),
    decreases fields.len(),
{
    let fit = response::fitting(fields);
    if fields.len() > 0 {
        let some = fields.drop_last();
        let before = response::fitting(some);
        let last = fields.last();
        assert(in_order(some)) by {
            assert forall|i: int, j: int| 0 <= i < j < some.len() implies protocol::wire_type(
                (#[trigger] some[i]).0,
            ) < protocol::wire_type((#[trigger] some[j]).0) by {
                assert(some[i] == fields[i] && some[j] == fields[j]);
            }
        }
        fitting_tells(some, x);
        assert forall|i: int| 0 <= i < before.len() implies protocol::wire_type(
            (#[trigger] before[i]).0,
        ) < protocol::wire_type(last.0) by {
            fitting_tells(some, before[i]);
            assert(before.contains(before[i]));
            let k = choose|k: int| 0 <= k < some.len() && some[k] == before[i];
            assert(fields[k] == before[i] && fields[fields.len() - 1] == last);
        }
        if fit.contains(x) {
            let k = choose|k: int| 0 <= k < fit.len() && fit[k] == x;
            if k < before.len() {
                assert(before[k] == x);
                assert(before.contains(x));
                let m = choose|m: int| 0 <= m < some.len() && some[m] == x;
                assert(fields[m] == x);
            } else {
                assert(fields[fields.len() - 1] == x);
            }
        }
        if fields.contains(x) && !fit.contains(x) {
            let m = choose|m: int| 0 <= m < fields.len() && fields[m] == x;
            if before.contains(x) {
                let k = choose|k: int| 0 <= k < before.len() && before[k] == x;
                assert(fit[k] == x);
            }
            if m < some.len() {
                assert(some[m] == x);
                assert(some.contains(x));
                let k = choose|k: int|
                    {
                        &&& 0 <= k <= before.len()
                        &&& all_below(before.take(k), protocol::wire_type(x.0))
                        &&& 23 + response::body(#[trigger] before.take(k)).len() + 5 + x.1.len()
                            > 4096
                    };
                assert(fit.take(k) =~= before.take(k));
            } else {
                if fit.len() > before.len() {
                    assert(fit[before.len() as int] == last);
                }
                let k = before.len() as int;
                assert(fit.take(k) =~= before);
                assert(all_below(fit.take(k), protocol::wire_type(x.0)));
                assert(23 + response::body(fit.take(k)).len() + 5 + x.1.len() > 4096);
            }
        }
    }
}

/// Fields take up the bytes that they are written in.
proof fn body_has_the_size(fields: Seq<(PlayerField, Seq<u8>)>)
    ensures
        response::body(fields).len() == size_of(response::tagged(fields)),
    decreases fields.len(),
{
    if fields.len() > 0 {
        body_has_the_size(fields.drop_last());
        bytes::le_bytes_len(fields.last().1.len(), 4);
        assert(response::tagged(fields).drop_last() =~= response::tagged(fields.drop_last()));
    }
}

/// What is offered under one tag is told, as far as there is room for it.
proof fn offered_is_told(
    fields: Seq<(PlayerField, Seq<u8>)>,
    field: PlayerField,
    known: Option<Seq<u8>>,
)
    requires
        in_order(fields),
        forall|d: Seq<u8>| #[trigger] fields.contains((field, d)) <==> known == Some(d),
    ensures
        tells_known(
            response::tagged(response::fitting(fields)),
            protocol::wire_type(field),
            known,
        ),
{
    let fit = response::fitting(fields);
    let told = response::tagged(fit);
    let tag = protocol::wire_type(field);
    if let Some(data) = known {
        let x = (field, data);
        assert(fields.contains(x));
        fitting_tells(fields, x);
        if fit.contains(x) {
            let k = choose|k: int| 0 <= k < fit.len() && fit[k] == x;
            assert(told[k] == (tag, data));
        } else {
            let k = choose|k: int|
                {
                    &&& 0 <= k <= fit.len()
                    &&& all_below(fit.take(k), protocol::wire_type(x.0))
                    &&& 23 + response::body(#[trigger] fit.take(k)).len() + 5 + x.1.len() > 4096
                };
            body_has_the_size(fit.take(k));
            assert(response::tagged(fit.take(k)) =~= told.take(k));
            assert forall|i: int| 0 <= i < k implies (#[trigger] told[i]).0 < tag by {
                assert(fit.take(k)[i] == fit[i]);
            }
        }
    }
    assert forall|i: int| 0 <= i < told.len() && (#[trigger] told[i]).0 == tag implies known
        == Some(told[i].1) by {
        protocol::fields_are_distinct(fit[i].0, field);
        fitting_tells(fields, fit[i]);
        assert(fit.contains(fit[i]));
        assert(fields.contains((field, fit[i].1)));
    }
}

/// The bytes of an optional text.
pub open spec fn text_known(t: Option<Seq<char>>) -> Option<Seq<u8>> {
    match t {
        Some(s) => Some(encode_utf8(s)),
        None => None,
    }
}

/// What is offered of a snapshot, field by field.
#[verifier::spinoff_prover]
#[verifier::rlimit(40)]
proof fn offered_lists_what_is_known(s: SnapshotView)
    ensures
        ({
            let f = response::offered(s);
            &&& in_order(f)
            &&& forall|d: Seq<u8>| #[trigger]
                f.contains((PlayerField::Name, d)) <==> text_known(s.facts.name) == Some(d)
            &&& forall|d: Seq<u8>| #[trigger]
                f.contains((PlayerField::AvatarSmall, d)) <==> s.avatar_small == Some(d)
            &&& forall|d: Seq<u8>| #[trigger]
                f.contains((PlayerField::AvatarMedium, d)) <==> s.avatar_medium == Some(d)
            &&& forall|d: Seq<u8>| #[trigger]
                f.contains((PlayerField::AvatarLarge, d)) <==> s.avatar_large == Some(d)
            &&& forall|d: Seq<u8>| #[trigger]
                f.contains((PlayerField::Relationship, d)) <==> Some(
                    seq![protocol::relationship_byte(s.facts.relationship)],
                ) == Some(d)
            &&& forall|d: Seq<u8>| #[trigger]
                f.contains((PlayerField::Country, d)) <==> text_known(s.facts.country) == Some(d)
            &&& forall|d: Seq<u8>| #[trigger]
                f.contains((PlayerField::Game, d)) <==> game_known(s.facts.game_app_id) == Some(d)
            &&& forall|d: Seq<u8>| #[trigger]
                f.contains((PlayerField::RichPresence, d)) <==> presence_known(
                    s.facts.rich_presence,
                ) == Some(d)
            &&& forall|d: Seq<u8>| #[trigger]
                f.contains((PlayerField::PersonaState, d)) <==> state_known(s.facts.persona_state)
                    == Some(d)
        }),
{
    let presence = match s.facts.rich_presence {
        Some(pairs) => if response::presence_data(pairs).len() == 0 {
            None
        } else {
            Some(response::presence_data(pairs))
        },
        None => None,
    };
    let game = match s.facts.game_app_id {
        Some(app_id) => Some(bytes::le_bytes(app_id as nat, 4)),
        None => None,
    };
    let state = match s.facts.persona_state {
        Some(b) => Some(seq![b]),
        None => None,
    };
    let relationship = Some(seq![protocol::relationship_byte(s.facts.relationship)]);
    if let Some(app_id) = s.facts.game_app_id {
        bytes_are_written(app_id, 0);
    }
    let f0: Seq<(PlayerField, Seq<u8>)> = Seq::empty();
    let f1 = f0 + response::opt_field(PlayerField::Name, response::opt_encoded(s.facts.name));
    let f2 = f1 + response::opt_field(PlayerField::AvatarSmall, s.avatar_small);
    let f3 = f2 + response::opt_field(PlayerField::AvatarMedium, s.avatar_medium);
    let f4 = f3 + response::opt_field(PlayerField::AvatarLarge, s.avatar_large);
    let f5 = f4 + response::opt_field(PlayerField::Relationship, relationship);
    let f6 = f5 + response::opt_field(
        PlayerField::Country,
        response::opt_encoded(s.facts.country),
    );
    let f7 = f6 + response::opt_field(PlayerField::Game, game);
    let f8 = f7 + response::opt_field(PlayerField::RichPresence, presence);
    let f9 = f8 + response::opt_field(PlayerField::PersonaState, state);
    one_more_offered(f0, PlayerField::Name, response::opt_encoded(s.facts.name));
    one_more_offered(f1, PlayerField::AvatarSmall, s.avatar_small);
    one_more_offered(f2, PlayerField::AvatarMedium, s.avatar_medium);
    one_more_offered(f3, PlayerField::AvatarLarge, s.avatar_large);
    one_more_offered(f4, PlayerField::Relationship, relationship);
    one_more_offered(f5, PlayerField::Country, response::opt_encoded(s.facts.country));
    one_more_offered(f6, PlayerField::Game, game);
    one_more_offered(f7, PlayerField::RichPresence, presence);
    one_more_offered(f8, PlayerField::PersonaState, state);
    assert(response::offered(s) =~= f9);
}

/// The bytes of the application that a player is in.
pub open spec fn game_known(app_id: Option<u32>) -> Option<Seq<u8>> {
    match app_id {
        Some(x) => Some(four_bytes(x)),
        None => None,
    }
}

/// The byte of a persona state.
pub open spec fn state_known(state: Option<u8>) -> Option<Seq<u8>> {
    match state {
        Some(b) => Some(seq![b]),
        None => None,
    }
}

/// The data of the rich presence field, if there is anything to tell.
spec fn presence_known(pairs: Option<Seq<(Seq<char>, Seq<char>)>>) -> Option<Seq<u8>> {
    match pairs {
        Some(p) => if response::presence_data(p).len() == 0 {
            None
        } else {
            Some(response::presence_data(p))
        },
        None => None,
    }
}

/// Whether the lengths of a key and a value fit into two bytes.
pub open spec fn is_short(pair: (Seq<char>, Seq<char>)) -> bool {
    encode_utf8(pair.0).len() <= 65535 && encode_utf8(pair.1).len() <= 65535
}

/// The bytes of those keys and values that are not too long.
pub open spec fn short_pairs(pairs: Seq<(Seq<char>, Seq<char>)>) -> Seq<(Seq<u8>, Seq<u8>)> {
    pairs.filter(|pair: (Seq<char>, Seq<char>)| is_short(pair)).map_values(
        |pair: (Seq<char>, Seq<char>)| (encode_utf8(pair.0), encode_utf8(pair.1)),
    )
}

/// What the field holds are the pairs that are not too long.
proof fn held_are_the_short_pairs(pairs: Seq<(Seq<char>, Seq<char>)>)
    ensures
        response::held(pairs) == short_pairs(pairs),
    decreases pairs.len(),
{
    let pred = |pair: (Seq<char>, Seq<char>)| is_short(pair);
    reveal_with_fuel(Seq::filter, 2);
    if pairs.len() > 0 {
        let first = seq![pairs[0]];
        let rest = pairs.drop_first();
        held_are_the_short_pairs(rest);
        assert(pairs =~= first + rest);
        Seq::filter_distributes_over_add(first, rest, pred);
        assert(first.drop_last() =~= Seq::empty());
        assert(first.filter(pred) =~= if pred(pairs[0]) {
            first
        } else {
            Seq::empty()
        });
        assert(response::held(pairs) =~= short_pairs(pairs));
    } else {
        assert(response::held(pairs) =~= short_pairs(pairs));
    }
}

/// Keys and values are read back from the rich presence field as they are, in their order, but
/// for those that are too long. The field is empty only if there are none.
pub proof fn presence_tells_the_short_pairs(pairs: Seq<(Seq<char>, Seq<char>)>)
    ensures
        response::read_presence(response::presence_data(pairs)) == Some(short_pairs(pairs)),
        response::presence_data(pairs).len() == 0 <==> short_pairs(pairs).len() == 0,
{
    response::presence_reads_back(pairs);
    held_are_the_short_pairs(pairs);
    if response::presence_data(pairs).len() > 0 {
        presence_is_not_empty(pairs);
    }
}

/// Data comes from pairs.
proof fn presence_is_not_empty(pairs: Seq<(Seq<char>, Seq<char>)>)
    requires
        response::presence_data(pairs).len() > 0,
    ensures
        short_pairs(pairs).len() > 0,
    decreases pairs.len(),
{
    let pred = |pair: (Seq<char>, Seq<char>)| is_short(pair);
    reveal(Seq::filter);
    if pairs.len() > 0 {
        let some = pairs.drop_last();
        if response::presence_data(some).len() > 0 {
            presence_is_not_empty(some);
        }
    }
}

/// Only the nine bits of the fields are ever set.
proof fn flags_are_nine_bits(fields: Seq<(PlayerField, Seq<u8>)>)
    ensures
        response::flags_of(fields) <= 0x1ff,
    decreases fields.len(),
{
    if fields.len() > 0 {
        flags_are_nine_bits(fields.drop_last());
        let x = response::flags_of(fields.drop_last());
        let y = protocol::flag_bit(fields.last().0);
        assert(x <= 0x1ff && y <= 0x1ff ==> x | y <= 0x1ff) by (bit_vector);
    }
}

/// Whether the flags word announces a field with the tag `tag` exactly if it is there.
pub open spec fn announced_truly(flags: u32, fields: Seq<(u8, Seq<u8>)>, tag: u8) -> bool {
    flags & (1u32 << ((tag - 1) as u32)) != 0 <==> exists|i: int|
        0 <= i < fields.len() && (#[trigger] fields[i]).0 == tag
}

/// The flags word announces each field truly.
proof fn flag_is_true(fit: Seq<(PlayerField, Seq<u8>)>, field: PlayerField)
    ensures
        announced_truly(
            response::flags_of(fit),
            response::tagged(fit),
            protocol::wire_type(field),
        ),
{
    let told = response::tagged(fit);
    let tag = protocol::wire_type(field);
    response::flags_tell_the_fields(fit, field);
    protocol::fields_are_distinct(field, field);
    if exists|i: int| 0 <= i < told.len() && (#[trigger] told[i]).0 == tag {
        let i = choose|i: int| 0 <= i < told.len() && (#[trigger] told[i]).0 == tag;
        protocol::fields_are_distinct(fit[i].0, field);
        assert(fit[i].0 == field);
    }
    if exists|i: int| 0 <= i < fit.len() && (#[trigger] fit[i]).0 == field {
        let i = choose|i: int| 0 <= i < fit.len() && (#[trigger] fit[i]).0 == field;
        assert(told[i].0 == tag);
    }
}

/// What a `sb_playerx` response tells about a player. It spells `"sb_playerx\n"`, whose it is
/// and a flags word, and then fields in the order of their tags, each at most once. Under each
/// tag it tells what is known about the player, and nothing else: the name (1), the small, the
/// medium and the large avatar (2, 3, 4), the relationship (5), the country (6), the
/// application played (7), the rich presence (8) and the persona state (9). What is known is
/// left out only where it does not fit behind the fields before it. The flags word announces
/// exactly the fields that are there.
pub proof fn player_response_tells_what_is_known(s: SnapshotView)
    ensures
        ({
            let p = response::player_payload(s);
            let fields = response::read_fields(p.skip(23))->0;
            &&& response::read_fields(p.skip(23)) is Some
            &&& p.len() == 23 + size_of(fields)
            &&& p.len() <= 4096
            &&& p.subrange(0, 11) == seq![
                0x73u8,
                0x62,
                0x5f,
                0x70,
                0x6c,
                0x61,
                0x79,
                0x65,
                0x72,
                0x78,
                0x0a,
            ]
            &&& bytes::le_value(p.subrange(11, 19)) == s.steamid
            &&& forall|i: int, j: int|
                0 <= i < j < fields.len() ==> (#[trigger] fields[i]).0 < (#[trigger] fields[j]).0
            &&& forall|i: int| 0 <= i < fields.len() ==> 1 <= (#[trigger] fields[i]).0 <= 9
            &&& tells_known(fields, 1, text_known(s.facts.name))
            &&& tells_known(fields, 2, s.avatar_small)
            &&& tells_known(fields, 3, s.avatar_medium)
            &&& tells_known(fields, 4, s.avatar_large)
            &&& tells_known(
                fields,
                5,
                Some(seq![protocol::relationship_byte(s.facts.relationship)]),
            )
            &&& tells_known(fields, 6, text_known(s.facts.country))
            &&& tells_known(fields, 7, game_known(s.facts.game_app_id))
            &&& tells_known(fields, 9, state_known(s.facts.persona_state))
            &&& match s.facts.rich_presence {
                None => tells_known(fields, 8, None),
                Some(pairs) => if short_pairs(pairs).len() == 0 {
                    tells_known(fields, 8, None)
                } else {
                    exists|d: Seq<u8>|
                        response::read_presence(d) == Some(short_pairs(pairs))
                            && #[trigger] tells_known(fields, 8, Some(d))
                },
            }
        }),
{
    let p = response::player_payload(s);
    let f = response::offered(s);
    let fit = response::fitting(f);
    let told = response::tagged(fit);
    response::player_payload_reads_back(s);
    offered_lists_what_is_known(s);
    offered_is_told(f, PlayerField::Name, text_known(s.facts.name));
    offered_is_told(f, PlayerField::AvatarSmall, s.avatar_small);
    offered_is_told(f, PlayerField::AvatarMedium, s.avatar_medium);
    offered_is_told(f, PlayerField::AvatarLarge, s.avatar_large);
    offered_is_told(
        f,
        PlayerField::Relationship,
        Some(seq![protocol::relationship_byte(s.facts.relationship)]),
    );
    offered_is_told(f, PlayerField::Country, text_known(s.facts.country));
    offered_is_told(f, PlayerField::Game, game_known(s.facts.game_app_id));
    offered_is_told(f, PlayerField::RichPresence, presence_known(s.facts.rich_presence));
    offered_is_told(f, PlayerField::PersonaState, state_known(s.facts.persona_state));
    if let Some(pairs) = s.facts.rich_presence {
        presence_tells_the_short_pairs(pairs);
    }
    body_has_the_size(fit);
    if f.len() > 0 {
        fitting_tells(f, f[0]);
    }
    response_is_prefix_and_body(s);
    assert(p.subrange(0, 11) =~= seq![
        0x73u8,
        0x62,
        0x5f,
        0x70,
        0x6c,
        0x61,
        0x79,
        0x65,
        0x72,
        0x78,
        0x0a,
    ]);
    assert forall|i: int, j: int| 0 <= i < j < told.len() implies (#[trigger] told[i]).0 < (
    #[trigger] told[j]).0 by {
        assert(protocol::wire_type(fit[i].0) < protocol::wire_type(fit[j].0));
    }
}

/// A response is as long as its prefix and its fields.
proof fn response_is_prefix_and_body(s: SnapshotView)
    ensures
        response::player_payload(s).len() == 23 + response::body(
            response::fitting(response::offered(s)),
        ).len(),
{
    let fit = response::fitting(response::offered(s));
    bytes::le_bytes_len(s.steamid as nat, 8);
    bytes::le_bytes_len(response::flags_of(fit) as nat, 4);
}

/// The flags word of a `sb_playerx` response announces exactly the fields that are there: the
/// bit for a tag is the one at the position that it counts, and no other bit is set.
pub proof fn player_response_announces_its_fields(s: SnapshotView, tag: u8)
    requires
        1 <= tag <= 9,
    ensures
        ({
            let p = response::player_payload(s);
            let fields = response::read_fields(p.skip(23))->0;
            let flags = bytes::le_value(p.subrange(19, 23));
            &&& flags <= 0x1ff
            &&& announced_truly(flags as u32, fields, tag)
        }),
{
    let fit = response::fitting(response::offered(s));
    response::player_payload_reads_back(s);
    flags_are_nine_bits(fit);
    flag_is_true(fit, PlayerField::Name);
    flag_is_true(fit, PlayerField::AvatarSmall);
    flag_is_true(fit, PlayerField::AvatarMedium);
    flag_is_true(fit, PlayerField::AvatarLarge);
    flag_is_true(fit, PlayerField::Relationship);
    flag_is_true(fit, PlayerField::Country);
    flag_is_true(fit, PlayerField::Game);
    flag_is_true(fit, PlayerField::RichPresence);
    flag_is_true(fit, PlayerField::PersonaState);
}

/// What is known and would still fit behind all that is told is told.
pub proof fn what_would_still_fit_is_told(fields: Seq<(u8, Seq<u8>)>, tag: u8, data: Seq<u8>)
    requires
        tells(fields, tag, data),
        23 + size_of(fields) + 5 + data.len() <= 4096,
    ensures
        fields.contains((tag, data)),
{
    if crowded_out(fields, tag, data.len()) {
        let k = choose|k: int|
            {
                &&& 0 <= k <= fields.len()
                &&& forall|i: int| 0 <= i < k ==> (#[trigger] fields[i]).0 < tag
                &&& 23 + size_of(#[trigger] fields.take(k)) + 5 + data.len() > 4096
            };
        front_is_no_larger(fields, k);
    }
}

/// Some of the fields take up no more than all.
proof fn front_is_no_larger(fields: Seq<(u8, Seq<u8>)>, k: int)
    requires
        0 <= k <= fields.len(),
    ensures
        size_of(fields.take(k)) <= size_of(fields),
    decreases fields.len(),
{
    if k == fields.len() {
        assert(fields.take(k) =~= fields);
    } else {
        front_is_no_larger(fields.drop_last(), k);
        assert(fields.drop_last().take(k) =~= fields.take(k));
    }
}

} // verus!
