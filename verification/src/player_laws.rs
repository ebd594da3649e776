//! What is kept about players: facts, avatars and the snapshots made of both.

use crate::avatar::{self, AvatarView, FetchView, PngFailure};
use crate::error::BrokerError;
use crate::protocol::Relationship;
use crate::steam::{
    self, AvatarDelivery, EntryView, FactsView, FriendInfo, FriendState, PlayerEntry, PlayerFacts,
    PlayerSnapshot, SteamView,
};
use vstd::prelude::*;

verus! {

/// A picture of the right size is encoded as the encoder encodes just these pixels, and the
/// encoding fails only where the encoder does. A picture of another size is refused.
pub proof fn picture_is_encoded_as_it_is(rgba: Seq<u8>, width: u32, height: u32)
    ensures
        ({
            let encoded = avatar::encoded_avatar(rgba, width, height);
            let made = avatar::png_of_rgba(rgba, width, height);
            &&& rgba.len() != width * height * 4 ==> encoded == Err::<Seq<u8>, _>(
                BrokerError::Custom("unexpected avatar buffer size"),
            )
            &&& rgba.len() == width * height * 4 ==> {
                &&& encoded is Ok <==> made is Ok
                &&& made matches Ok(file) ==> encoded == Ok::<_, BrokerError>(file)
                &&& made == Err::<Seq<u8>, _>(PngFailure::Header) ==> encoded == Err::<Seq<u8>, _>(
                    BrokerError::Custom("png header write failed"),
                )
                &&& made == Err::<Seq<u8>, _>(PngFailure::Data) ==> encoded == Err::<Seq<u8>, _>(
                    BrokerError::Custom("png data write failed"),
                )
            }
        }),
{
}

/// The bytes of the persona states.
pub proof fn states_have_their_bytes()
    ensures
        steam::state_byte(FriendState::Offline) == 0,
        steam::state_byte(FriendState::Online) == 1,
        steam::state_byte(FriendState::Busy) == 2,
        steam::state_byte(FriendState::Away) == 3,
        steam::state_byte(FriendState::Snooze) == 4,
        steam::state_byte(FriendState::LookingToTrade) == 5,
        steam::state_byte(FriendState::LookingToPlay) == 6,
        steam::state_byte(FriendState::Invisible) == 7,
{
}

/// What is kept of what the Steam client tells about a player. Their name, unless it is empty.
/// The closest of their relationships: a friend before someone blocked, these before someone
/// whose friendship was requested, and these before someone who requests it. The low 24 bits of
/// the game that they play, and their state. Nothing else is told.
pub proof fn facts_are_what_steam_tells(friend: FriendInfo)
    ensures
        ({
            let facts = steam::facts_of(friend);
            &&& friend.name@.len() == 0 ==> facts.name is None
            &&& friend.name@.len() > 0 ==> facts.name == Some(friend.name@)
            &&& facts.relationship == Relationship::Friend <==> friend.immediate
            &&& facts.relationship == Relationship::Blocked <==> !friend.immediate && friend.blocked
            &&& facts.relationship == Relationship::FriendshipRequested <==> !friend.immediate
                && !friend.blocked && friend.friendship_requested
            &&& facts.relationship == Relationship::RequestingFriendship <==> !friend.immediate
                && !friend.blocked && !friend.friendship_requested && friend.requesting_friendship
            &&& facts.relationship == Relationship::NoRelation <==> !friend.immediate
                && !friend.blocked && !friend.friendship_requested && !friend.requesting_friendship
            &&& friend.game_played is None ==> facts.game_app_id is None
            &&& friend.game_played matches Some(game) ==> (facts.game_app_id matches Some(app_id)
                && app_id == game % 0x100_0000)
            &&& facts.persona_state == Some(steam::state_byte(friend.state))
            &&& facts.country is None
            &&& facts.rich_presence is None
        }),
{
}

/// Whether nothing is different in `after` but what is kept about one player.
pub open spec fn differs_only_in(before: SteamView, after: SteamView, id: u64) -> bool {
    &&& after.app_id == before.app_id
    &&& forall|other: u64|
        other != id ==> (after.players.contains_key(other) <==> before.players.contains_key(other))
    &&& forall|other: u64|
        other != id && before.players.contains_key(other) ==> #[trigger] after.players[other]
            == before.players[other]
}

/// To capture facts about a player is to keep just these, with their avatar as it was. A player
/// who was not tracked is tracked then, with an avatar that nobody has asked for.
pub proof fn capture_renews_the_facts(before: SteamView, id: u64, facts: FactsView)
    ensures
        ({
            let after = steam::with_facts(before, id, facts);
            &&& after.players.contains_key(id)
            &&& after.players[id].facts == facts
            &&& before.players.contains_key(id) ==> after.players[id].avatar
                == before.players[id].avatar
            &&& !before.players.contains_key(id) ==> after.players[id].avatar is NotRequested
            &&& differs_only_in(before, after, id)
        }),
{
}

/// What a look at an avatar finds and how it leaves it. One that nobody has asked for is
/// fetched from then on. A fetch is pending for 0.1 s and given up after that. What has come or
/// has been given up stays.
pub proof fn look_finds_what_the_fetch_has_come_to(avatar: AvatarView, now: u128)
    ensures
        avatar is NotRequested ==> avatar::seen(avatar, now) is Pending && avatar::looked_at(
            avatar,
            now,
        ) == AvatarView::Pending(now),
        avatar matches AvatarView::Pending(started) ==> {
            &&& now <= started + 100_000_000 ==> avatar::seen(avatar, now) is Pending
                && avatar::looked_at(avatar, now) == avatar
            &&& now > started + 100_000_000 ==> avatar::seen(avatar, now) is Unavailable
                && avatar::looked_at(avatar, now) is Unavailable
        },
        avatar matches AvatarView::Ready(file) ==> avatar::seen(avatar, now) == FetchView::Ready(
            file,
        ) && avatar::looked_at(avatar, now) == avatar,
        avatar is Unavailable ==> avatar::seen(avatar, now) is Unavailable && avatar::looked_at(
            avatar,
            now,
        ) is Unavailable,
{
}

/// The avatar of a player is the one that is kept about them.
pub proof fn avatar_is_the_one_kept(kept: SteamView, id: u64)
    ensures
        kept.players.contains_key(id) ==> steam::avatar_of(kept, id) == kept.players[id].avatar,
        !kept.players.contains_key(id) ==> steam::avatar_of(kept, id) is NotRequested,
{
}

/// A look at the avatar of a player changes nothing but how far its fetch has come.
pub proof fn look_changes_the_fetch_only(before: SteamView, id: u64, now: u128)
    ensures
        ({
            let after = steam::after_poll(before, id, now);
            &&& differs_only_in(before, after, id)
            &&& after.players.contains_key(id) <==> before.players.contains_key(id)
            &&& before.players.contains_key(id) ==> after.players[id] == (EntryView {
                avatar: avatar::looked_at(before.players[id].avatar, now),
                facts: before.players[id].facts,
            })
        }),
{
}

/// A request for a player. One who was not tracked is tracked then, with what the Steam client
/// tells about them; others keep the facts known. The fetch of their avatar begins at that time
/// unless the avatar has come or has been pending for no longer than 0.1 s, and the Steam client
/// is to be asked exactly if it begins.
pub proof fn request_begins_the_fetch(
    before: SteamView,
    id: u64,
    friend: FriendInfo,
    now: u128,
)
    ensures
        ({
            let after = steam::after_request(
                steam::ensured(before, id, Some(friend)),
                id,
                now,
            );
            let asks = steam::begins_fetch(steam::avatar_of(before, id), now);
            &&& differs_only_in(before, after, id)
            &&& after.players.contains_key(id)
            &&& if !before.players.contains_key(id) {
                &&& after.players[id].facts == steam::facts_of(friend)
                &&& after.players[id].avatar == AvatarView::Pending(now)
                &&& asks
            } else {
                &&& after.players[id].facts == before.players[id].facts
                &&& match before.players[id].avatar {
                    AvatarView::NotRequested => after.players[id].avatar == AvatarView::Pending(now)
                        && asks,
                    AvatarView::Unavailable => after.players[id].avatar == AvatarView::Pending(now)
                        && asks,
                    AvatarView::Ready(file) => after.players[id].avatar == AvatarView::Ready(file)
                        && !asks,
                    AvatarView::Pending(started) => if now <= started + 100_000_000 {
                        after.players[id].avatar == AvatarView::Pending(started) && !asks
                    } else {
                        after.players[id].avatar == AvatarView::Pending(now) && asks
                    },
                }
            }
        }),
{
}

/// The snapshot of a player. There is none of someone who is not tracked, whose avatar nobody
/// has asked for or whose avatar has been pending for no longer than 0.1 s. Any other is that of
/// the player, with the facts kept about them, and with the small avatar if it has come.
pub proof fn snapshot_shows_what_is_kept(kept: SteamView, id: u64, now: u128)
    ensures
        ({
            let shown = steam::snapshot_of(kept, id, now);
            if !kept.players.contains_key(id) {
                shown is None
            } else {
                let entry = kept.players[id];
                let waits = match entry.avatar {
                    AvatarView::NotRequested => true,
                    AvatarView::Pending(started) => now <= started + 100_000_000,
                    _ => false,
                };
                &&& shown is None <==> waits
                &&& shown matches Some(s) ==> {
                    &&& s.steamid == id
                    &&& s.facts == entry.facts
                    &&& s.avatar_small == match entry.avatar {
                        AvatarView::Ready(file) => Some(file),
                        _ => None,
                    }
                    &&& s.avatar_medium is None
                    &&& s.avatar_large is None
                }
            }
        }),
{
}

/// A picture that arrives. It is for nobody whose avatar is not pending. For anyone else, where
/// it is 32 by 32 pixels and the encoder encodes it, they have that avatar and the facts that
/// the Steam client tells then. Otherwise their avatar is given up, and their facts stay.
pub proof fn picture_becomes_the_avatar(before: SteamView, delivery: AvatarDelivery)
    ensures
        ({
            let after = steam::after_delivery(before, delivery);
            let id = delivery.steamid;
            let made = avatar::png_of_rgba(delivery.rgba@, 32, 32);
            let pending = before.players.contains_key(id) && before.players[id].avatar is Pending;
            &&& !pending ==> after == before
            &&& pending ==> differs_only_in(before, after, id) && after.players.contains_key(id)
            &&& pending && delivery.rgba@.len() == 4096 ==> {
                &&& made matches Ok(file) ==> after.players[id] == (EntryView {
                    avatar: AvatarView::Ready(file),
                    facts: steam::facts_of(delivery.friend),
                })
                &&& made is Err ==> after.players[id] == (EntryView {
                    avatar: AvatarView::Unavailable,
                    facts: before.players[id].facts,
                })
            }
            &&& pending && delivery.rgba@.len() != 4096 ==> after.players[id] == (EntryView {
                avatar: AvatarView::Unavailable,
                facts: before.players[id].facts,
            })
        }),
{
    picture_is_encoded_as_it_is(delivery.rgba@, 32, 32);
}

/// Pictures that arrive together are dealt with one after the other, each of them.
pub proof fn pictures_are_dealt_with_in_turn(
    before: SteamView,
    some: Seq<AvatarDelivery>,
    next: AvatarDelivery,
)
    ensures
        steam::after_deliveries(before, Seq::empty()) == before,
        steam::after_deliveries(before, some.push(next)) == steam::after_delivery(
            steam::after_deliveries(before, some),
            next,
        ),
{
    assert(some.push(next).drop_last() =~= some);
}

/// Facts, entries and snapshots are seen as they are.
pub proof fn views_show_every_field(facts: PlayerFacts, entry: PlayerEntry, shown: PlayerSnapshot)
    ensures
        facts.name matches Some(name) ==> facts@.name == Some(name@),
        facts.name is None ==> facts@.name is None,
        facts@.relationship == facts.relationship,
        facts@.game_app_id == facts.game_app_id,
        facts@.persona_state == facts.persona_state,
        facts.country matches Some(country) ==> facts@.country == Some(country@),
        facts.country is None ==> facts@.country is None,
        facts.rich_presence is None ==> facts@.rich_presence is None,
        facts.rich_presence matches Some(pairs) ==> (facts@.rich_presence matches Some(seen)
            && seen.len() == pairs@.len() && forall|i: int|
            0 <= i < seen.len() ==> #[trigger] seen[i] == (pairs@[i].0@, pairs@[i].1@)),
        entry@.facts == entry.facts@,
        entry.avatar is NotRequested <==> entry@.avatar is NotRequested,
        entry.avatar is Unavailable <==> entry@.avatar is Unavailable,
        entry.avatar matches avatar::AvatarState::Pending(started) ==> entry@.avatar
            == AvatarView::Pending(started),
        entry.avatar matches avatar::AvatarState::Ready(file) ==> entry@.avatar
            == AvatarView::Ready(file@),
        shown@.steamid == shown.steamid,
        shown.avatar_small matches Some(file) ==> shown@.avatar_small == Some(file@),
        shown.avatar_small is None ==> shown@.avatar_small is None,
        shown.avatar_medium matches Some(file) ==> shown@.avatar_medium == Some(file@),
        shown.avatar_medium is None ==> shown@.avatar_medium is None,
        shown.avatar_large matches Some(file) ==> shown@.avatar_large == Some(file@),
        shown.avatar_large is None ==> shown@.avatar_large is None,
        shown.name matches Some(name) ==> shown@.facts.name == Some(name@),
        shown.name is None ==> shown@.facts.name is None,
        shown@.facts.relationship == shown.relationship,
        shown@.facts.game_app_id == shown.game_app_id,
        shown@.facts.persona_state == shown.persona_state,
        shown.country matches Some(country) ==> shown@.facts.country == Some(country@),
        shown.country is None ==> shown@.facts.country is None,
        shown.rich_presence is None ==> shown@.facts.rich_presence is None,
        shown.rich_presence matches Some(pairs) ==> (shown@.facts.rich_presence matches Some(seen)
            && seen.len() == pairs@.len() && forall|i: int|
            0 <= i < seen.len() ==> #[trigger] seen[i] == (pairs@[i].0@, pairs@[i].1@)),
{
}

} // verus!
