//! What the broker knows about players: captured facts, avatar fetches and the snapshots
//! assembled from both.

use crate::avatar::{
    self, encode_avatar_png, AvatarFetchState, AvatarState, AvatarView, FetchView,
    AVATAR_PENDING_TIMEOUT, AVATAR_SIZE,
};
use crate::protocol::Relationship;
use std::collections::HashMap;
use vstd::prelude::*;
use vstd::std_specs::hash::*;
use vstd::std_specs::iter::*;

verus! {

broadcast use group_hash_axioms;

/// Whether a player is around.
#[derive(Clone, Copy, Debug, PartialEq, Eq, Structural)]
pub enum FriendState {
    Offline,
    Online,
    Invisible,
    Busy,
    Away,
    Snooze,
    LookingToTrade,
    LookingToPlay,
}

/// The byte that stands for a state on the wire.
pub open spec fn state_byte(state: FriendState) -> u8 {
    match state {
        FriendState::Offline => 0,
        FriendState::Online => 1,
        FriendState::Busy => 2,
        FriendState::Away => 3,
        FriendState::Snooze => 4,
        FriendState::LookingToTrade => 5,
        FriendState::LookingToPlay => 6,
        FriendState::Invisible => 7,
    }
}

/// The byte that stands for a state on the wire.
pub fn persona_state_byte(state: FriendState) -> (r: u8)
    ensures
        r == state_byte(state),
{
    match state {
        FriendState::Offline => 0,
        FriendState::Online => 1,
        FriendState::Busy => 2,
        FriendState::Away => 3,
        FriendState::Snooze => 4,
        FriendState::LookingToTrade => 5,
        FriendState::LookingToPlay => 6,
        FriendState::Invisible => 7,
    }
}

/// What the Steam client tells about a player on being asked.
pub struct FriendInfo {
    pub name: String,
    /// They are a regular friend.
    pub immediate: bool,
    pub blocked: bool,
    pub friendship_requested: bool,
    pub requesting_friendship: bool,
    pub state: FriendState,
    /// The game that they are playing, by its game id.
    pub game_played: Option<u64>,
}

/// The application that a game id belongs to: its low 24 bits.
pub open spec fn app_of_game(game: u64) -> u32 {
    (game % 0x100_0000) as u32
}

/// The application that a game id belongs to.
fn game_app_id(game: u64) -> (r: u32)
    ensures
        r == app_of_game(game),
{
    (game % 0x100_0000) as u32
}

/// Everything about a player except their avatar fetch.
pub struct PlayerFacts {
    pub name: Option<String>,
    pub relationship: Relationship,
    pub game_app_id: Option<u32>,
    pub persona_state: Option<u8>,
    /// Reserved: no capture fills it in yet.
    pub country: Option<String>,
    /// Reserved: no capture fills it in yet.
    pub rich_presence: Option<Vec<(String, String)>>,
}

/// The characters of an optional text.
pub open spec fn opt_text(t: Option<String>) -> Option<Seq<char>> {
    match t {
        Some(s) => Some(s@),
        None => None,
    }
}

/// The bytes of an optional byte string.
pub open spec fn opt_bytes(b: Option<Vec<u8>>) -> Option<Seq<u8>> {
    match b {
        Some(v) => Some(v@),
        None => None,
    }
}

/// Keys and values, as characters.
pub open spec fn text_pairs(pairs: Seq<(String, String)>) -> Seq<(Seq<char>, Seq<char>)> {
    pairs.map_values(|p: (String, String)| (p.0@, p.1@))
}

/// Optional keys and values, as characters.
pub open spec fn opt_pairs(pairs: Option<Vec<(String, String)>>) -> Option<
    Seq<(Seq<char>, Seq<char>)>,
> {
    match pairs {
        Some(v) => Some(text_pairs(v@)),
        None => None,
    }
}

/// Everything about a player except their avatar fetch.
#[verifier::ext_equal]
pub struct FactsView {
    pub name: Option<Seq<char>>,
    pub relationship: Relationship,
    pub game_app_id: Option<u32>,
    pub persona_state: Option<u8>,
    pub country: Option<Seq<char>>,
    pub rich_presence: Option<Seq<(Seq<char>, Seq<char>)>>,
}

impl View for PlayerFacts {
    type V = FactsView;

    open spec fn view(&self) -> FactsView {
        FactsView {
            name: opt_text(self.name),
            relationship: self.relationship,
            game_app_id: self.game_app_id,
            persona_state: self.persona_state,
            country: opt_text(self.country),
            rich_presence: opt_pairs(self.rich_presence),
        }
    }
}

/// The relationship that the first flag set stands for.
pub open spec fn relationship_of(friend: FriendInfo) -> Relationship {
    if friend.immediate {
        Relationship::Friend
    } else if friend.blocked {
        Relationship::Blocked
    } else if friend.friendship_requested {
        Relationship::FriendshipRequested
    } else if friend.requesting_friendship {
        Relationship::RequestingFriendship
    } else {
        Relationship::NoRelation
    }
}

/// The facts that are kept of what the Steam client tells.
pub open spec fn facts_of(friend: FriendInfo) -> FactsView {
    FactsView {
        name: if friend.name@.len() == 0 {
            None
        } else {
            Some(friend.name@)
        },
        relationship: relationship_of(friend),
        game_app_id: match friend.game_played {
            Some(game) => Some(app_of_game(game)),
            None => None,
        },
        persona_state: Some(state_byte(friend.state)),
        country: None,
        rich_presence: None,
    }
}

/// Everything tracked for one player: their avatar fetch (which arrives asynchronously)
/// alongside the facts captured about them (which don't).
pub struct PlayerEntry {
    pub avatar: AvatarState,
    pub facts: PlayerFacts,
}

/// Everything tracked for one player.
#[verifier::ext_equal]
pub struct EntryView {
    pub avatar: AvatarView,
    pub facts: FactsView,
}

impl View for PlayerEntry {
    type V = EntryView;

    open spec fn view(&self) -> EntryView {
        EntryView { avatar: self.avatar@, facts: self.facts@ }
    }
}

/// A fully-assembled, wire-ready view of one player.
pub struct PlayerSnapshot {
    pub steamid: u64,
    pub name: Option<String>,
    pub avatar_small: Option<Vec<u8>>,
    /// Reserved: the 64x64 avatar, which nothing fills in yet.
    pub avatar_medium: Option<Vec<u8>>,
    /// Reserved: the 184x184 avatar, which nothing fills in yet.
    pub avatar_large: Option<Vec<u8>>,
    pub relationship: Relationship,
    pub game_app_id: Option<u32>,
    pub persona_state: Option<u8>,
    /// Reserved: no capture fills it in yet.
    pub country: Option<String>,
    /// Reserved: no capture fills it in yet.
    pub rich_presence: Option<Vec<(String, String)>>,
}

/// A fully-assembled, wire-ready view of one player.
#[verifier::ext_equal]
pub struct SnapshotView {
    pub steamid: u64,
    pub avatar_small: Option<Seq<u8>>,
    pub avatar_medium: Option<Seq<u8>>,
    pub avatar_large: Option<Seq<u8>>,
    pub facts: FactsView,
}

impl View for PlayerSnapshot {
    type V = SnapshotView;

    open spec fn view(&self) -> SnapshotView {
        SnapshotView {
            steamid: self.steamid,
            avatar_small: opt_bytes(self.avatar_small),
            avatar_medium: opt_bytes(self.avatar_medium),
            avatar_large: opt_bytes(self.avatar_large),
            facts: FactsView {
                name: opt_text(self.name),
                relationship: self.relationship,
                game_app_id: self.game_app_id,
                persona_state: self.persona_state,
                country: opt_text(self.country),
                rich_presence: opt_pairs(self.rich_presence),
            },
        }
    }
}

/// A copy of an optional text.
fn copy_text(t: &Option<String>) -> (r: Option<String>)
    ensures
        opt_text(r) == opt_text(*t),
{
    match t {
        Some(s) => Some(s.clone()),
        None => None,
    }
}

/// A copy of keys and values.
fn copy_pairs(pairs: &Option<Vec<(String, String)>>) -> (r: Option<Vec<(String, String)>>)
    ensures
        opt_pairs(r) == opt_pairs(*pairs),
{
    match pairs {
        None => None,
        Some(v) => {
            let mut copy: Vec<(String, String)> = Vec::new();
            let mut i: usize = 0;
            while i < v.len()
                invariant
                    i <= v@.len(),
                    copy@ == v@.take(i as int),
                decreases v@.len() - i,
            {
                copy.push((v[i].0.clone(), v[i].1.clone()));
                i = i + 1;
                assert(copy@ =~= v@.take(i as int));
            }
            assert(copy@ =~= v@);
            Some(copy)
        },
    }
}

impl PlayerSnapshot {
    /// The snapshot of a player with the given facts and small avatar.
    pub fn from_entry(steamid: u64, facts: &PlayerFacts, avatar_small: Option<Vec<u8>>) -> (r: Self)
        ensures
            r@ == (SnapshotView {
                steamid,
                avatar_small: opt_bytes(avatar_small),
                avatar_medium: None,
                avatar_large: None,
                facts: facts@,
            }),
    {
        PlayerSnapshot {
            steamid,
            name: copy_text(&facts.name),
            avatar_small,
            avatar_medium: None,
            avatar_large: None,
            relationship: facts.relationship,
            game_app_id: facts.game_app_id,
            persona_state: facts.persona_state,
            country: copy_text(&facts.country),
            rich_presence: copy_pairs(&facts.rich_presence),
        }
    }
}

/// What the broker keeps for as long as the Steam client runs.
pub struct SteamService {
    players: HashMap<u64, PlayerEntry>,
    app_id: u32,
}

/// What the broker keeps for as long as the Steam client runs: the application that the
/// client was started for, and the players asked about so far.
#[verifier::ext_equal]
pub struct SteamView {
    pub app_id: u32,
    pub players: Map<u64, EntryView>,
}

impl View for SteamService {
    type V = SteamView;

    closed spec fn view(&self) -> SteamView {
        SteamView {
            app_id: self.app_id,
            players: self.players@.map_values(|e: PlayerEntry| e@),
        }
    }
}

/// A picture that arrived for a player, with what the Steam client tells about them then.
pub struct AvatarDelivery {
    pub steamid: u64,
    /// 8-bit RGBA pixels.
    pub rgba: Vec<u8>,
    pub friend: FriendInfo,
}

/// The avatar fetch of a player. Nobody has asked for the avatar of a player who is not
/// tracked.
pub open spec fn avatar_of(steam: SteamView, steamid: u64) -> AvatarView {
    if steam.players.contains_key(steamid) {
        steam.players[steamid].avatar
    } else {
        AvatarView::NotRequested
    }
}

/// `steam` with the avatar fetch of a player replaced, if the player is tracked.
pub open spec fn with_avatar(steam: SteamView, steamid: u64, avatar: AvatarView) -> SteamView {
    if steam.players.contains_key(steamid) {
        let entry = EntryView { avatar, facts: steam.players[steamid].facts };
        SteamView { players: steam.players.insert(steamid, entry), ..steam }
    } else {
        steam
    }
}

/// `steam` with the facts about a player renewed. Their avatar fetch stays as it is.
pub open spec fn with_facts(steam: SteamView, steamid: u64, facts: FactsView) -> SteamView {
    let entry = EntryView { avatar: avatar_of(steam, steamid), facts };
    SteamView { players: steam.players.insert(steamid, entry), ..steam }
}

/// `steam` after a look at the avatar fetch of a player.
pub open spec fn after_poll(steam: SteamView, steamid: u64, now: u128) -> SteamView {
    with_avatar(steam, steamid, avatar::looked_at(avatar_of(steam, steamid), now))
}

/// Whether a request at the time `now` begins a fetch of `avatar`: one that has not begun
/// yet begins, and one that has been given up or is overdue begins anew.
pub open spec fn begins_fetch(avatar: AvatarView, now: u128) -> bool {
    avatar is NotRequested || avatar::seen(avatar, now) is Unavailable
}

/// `steam` after the avatar of a player has been requested.
pub open spec fn after_request(steam: SteamView, steamid: u64, now: u128) -> SteamView {
    let avatar = avatar_of(steam, steamid);
    with_avatar(
        steam,
        steamid,
        if begins_fetch(avatar, now) {
            AvatarView::Pending(now)
        } else {
            avatar
        },
    )
}

/// `steam` after one picture has been dealt with. Only a pending fetch has use for one.
pub open spec fn after_delivery(steam: SteamView, delivery: AvatarDelivery) -> SteamView {
    if !(avatar_of(steam, delivery.steamid) is Pending) {
        steam
    } else {
        match avatar::encoded_avatar(delivery.rgba@, AVATAR_SIZE, AVATAR_SIZE) {
            Ok(file) => with_facts(
                with_avatar(steam, delivery.steamid, AvatarView::Ready(file)),
                delivery.steamid,
                facts_of(delivery.friend),
            ),
            Err(_) => with_avatar(steam, delivery.steamid, AvatarView::Unavailable),
        }
    }
}

/// `steam` after pictures have been dealt with, one after the other.
pub open spec fn after_deliveries(steam: SteamView, deliveries: Seq<AvatarDelivery>) -> SteamView
    decreases deliveries.len(),
{
    if deliveries.len() == 0 {
        steam
    } else {
        after_delivery(after_deliveries(steam, deliveries.drop_last()), deliveries.last())
    }
}

/// `steam` once a snapshot of a player exists; `friend` is what the Steam client tells about
/// one who was not tracked.
pub open spec fn ensured(steam: SteamView, steamid: u64, friend: Option<FriendInfo>) -> SteamView {
    if steam.players.contains_key(steamid) {
        steam
    } else {
        with_facts(steam, steamid, facts_of(friend->0))
    }
}

/// The snapshot of a player, if they are tracked and the fetch of their avatar is over at the
/// time `now`.
pub open spec fn snapshot_of(steam: SteamView, steamid: u64, now: u128) -> Option<SnapshotView> {
    let found = avatar::seen(avatar_of(steam, steamid), now);
    if found is Pending || !steam.players.contains_key(steamid) {
        None
    } else {
        Some(
            SnapshotView {
                steamid,
                avatar_small: match found {
                    FetchView::Ready(file) => Some(file),
                    _ => None,
                },
                avatar_medium: None,
                avatar_large: None,
                facts: steam.players[steamid].facts,
            },
        )
    }
}

impl SteamService {
    /// What is kept once the Steam client has been started for an application.
    pub fn new(app_id: u32) -> (r: Self)
        ensures
            r@ == (SteamView { app_id, players: Map::empty() }),
    {
        let r = SteamService { players: HashMap::new(), app_id };
        assert(r@.players =~= Map::empty());
        r
    }

    /// The application that the Steam client was started for.
    pub fn app_id(&self) -> (r: u32)
        ensures
            r == self@.app_id,
    {
        self.app_id
    }

    /// Whether a player is tracked.
    pub fn tracks(&self, steamid: u64) -> (r: bool)
        ensures
            r == self@.players.contains_key(steamid),
    {
        self.players.contains_key(&steamid)
    }

    /// Sets the avatar-fetch state for a player that's already tracked. A no-op if no entry
    /// exists yet.
    fn set_avatar_state(&mut self, steamid: u64, state: AvatarState)
        ensures
            final(self)@ == with_avatar(old(self)@, steamid, state@),
    {
        match self.players.remove(&steamid) {
            Some(entry) => {
                let renewed = PlayerEntry { avatar: state, facts: entry.facts };
                self.players.insert(steamid, renewed);
                assert(self@.players =~= with_avatar(old(self)@, steamid, state@).players);
            },
            None => {
                assert(self@.players =~= old(self)@.players);
            },
        }
    }

    /// Checks on (or, the first time, kicks off) an avatar fetch for `steamid`.
    ///
    /// Returns what the fetch has come to, and whether the Steam client is now to be asked for
    /// the player's data.
    pub fn poll_avatar(&mut self, steamid: u64, now: u128) -> (r: (AvatarFetchState, bool))
        ensures
            r.0@ == avatar::seen(avatar_of(old(self)@, steamid), now),
            r.1 == (avatar_of(old(self)@, steamid) is NotRequested),
            final(self)@ == after_poll(old(self)@, steamid, now),
    {
        let ghost before = self@;
        if let Some(entry) = self.players.get(&steamid) {
            assert(before.players[steamid] == entry@);
            match &entry.avatar {
                AvatarState::Ready(file) => {
                    let copy = file.clone();
                    assert(copy@ =~= file@);
                    assert(after_poll(before, steamid, now).players =~= before.players);
                    return (AvatarFetchState::Ready(copy), false);
                },
                AvatarState::Unavailable => {
                    assert(after_poll(before, steamid, now).players =~= before.players);
                    return (AvatarFetchState::Unavailable, false);
                },
                AvatarState::Pending(started) => {
                    if now <= *started || now - *started <= AVATAR_PENDING_TIMEOUT {
                        assert(after_poll(before, steamid, now).players =~= before.players);
                        return (AvatarFetchState::Pending, false);
                    }
                    self.set_avatar_state(steamid, AvatarState::Unavailable);
                    return (AvatarFetchState::Unavailable, false);
                },
                AvatarState::NotRequested => {},
            }
        }
        self.set_avatar_state(steamid, AvatarState::Pending(now));
        (AvatarFetchState::Pending, true)
    }

    /// The players whose avatars are pending, each once. Their order is not stated: it is that
    /// of a walk over a hash map.
    pub fn pending_avatars(&self) -> (r: Vec<u64>)
        ensures
            r@.no_duplicates(),
            forall|id: u64|
                r@.contains(id) <==> (self@.players.contains_key(id)
                    && self@.players[id].avatar is Pending),
    {
        let mut known: Vec<u64> = Vec::new();
        let ghost all = IteratorSpec::remaining(&spec_keys_iter(&self.players));
        for key in it: self.players.keys()
            invariant
                it.seq() == all,
                known@ == it.seq().unref().take(it.index() as int),
        {
            known.push(*key);
            assert(known@ =~= it.seq().unref().take(it.index() + 1));
        }
        assert(known@ =~= all.unref());
        assert forall|id: u64| #[trigger]
            self.players@.contains_key(id) <==> known@.contains(id) by {
            assert(known@.to_set().contains(id) <==> known@.contains(id));
        }
        let mut ids: Vec<u64> = Vec::new();
        let mut i: usize = 0;
        while i < known.len()
            invariant
                i <= known@.len(),
                known@.no_duplicates(),
                forall|id: u64| #[trigger]
                    self.players@.contains_key(id) <==> known@.contains(id),
                ids@.no_duplicates(),
                forall|k: int|
                    0 <= k < ids@.len() ==> known@.take(i as int).contains(#[trigger] ids@[k])
                        && self.players@[ids@[k]].avatar@ is Pending,
                forall|j: int|
                    0 <= j < i && self.players@[#[trigger] known@[j]].avatar@ is Pending
                        ==> ids@.contains(known@[j]),
            decreases known@.len() - i,
        {
            let ghost before = ids@;
            let id: u64 = known[i];
            assert(known@.contains(id));
            assert(known@.take(i + 1) =~= known@.take(i as int).push(id));
            assert(known@.take(i + 1).contains(id)) by {
                assert(known@.take(i + 1)[i as int] == id);
            }
            assert forall|x: u64| known@.take(i as int).contains(x) implies known@.take(
                i + 1,
            ).contains(x) && x != id by {
                let j = choose|j: int| 0 <= j < i && known@.take(i as int)[j] == x;
                assert(known@.take(i + 1)[j] == x && known@[j] == x);
            }
            if let Some(entry) = self.players.get(&id) {
                let pending = match entry.avatar {
                    AvatarState::Pending(_) => true,
                    _ => false,
                };
                if pending {
                    ids.push(id);
                    assert(ids@[before.len() as int] == id);
                    assert forall|x: u64| before.contains(x) implies ids@.contains(x) by {
                        let k = choose|k: int| 0 <= k < before.len() && before[k] == x;
                        assert(ids@[k] == x);
                    }
                }
            }
            i = i + 1;
        }
        assert forall|id: u64|
            ids@.contains(id) <==> (self@.players.contains_key(id)
                && self@.players[id].avatar is Pending) by {
            if ids@.contains(id) {
                let k = choose|k: int| 0 <= k < ids@.len() && ids@[k] == id;
                assert(known@.take(i as int).contains(ids@[k]));
                assert(known@.take(i as int) =~= known@);
            }
            if self.players@.contains_key(id) {
                let j = choose|j: int| 0 <= j < known@.len() && known@[j] == id;
                assert(known@[j] == id);
            }
        }
        ids
    }

    /// Whether the avatar of a player is pending.
    fn awaits_avatar(&self, steamid: u64) -> (r: bool)
        ensures
            r == (avatar_of(self@, steamid) is Pending),
    {
        match self.players.get(&steamid) {
            Some(entry) => {
                assert(self@.players[steamid] == entry@);
                match entry.avatar {
                    AvatarState::Pending(_) => true,
                    _ => false,
                }
            },
            None => false,
        }
    }

    /// Deals with the pictures that have arrived for pending fetches: encodes each as a PNG
    /// file and renews that player's facts, or gives their avatar up where the encoding fails.
    pub fn process_pending_avatars(&mut self, deliveries: Vec<AvatarDelivery>)
        ensures
            final(self)@ == after_deliveries(old(self)@, deliveries@),
    {
        let mut i: usize = 0;
        while i < deliveries.len()
            invariant
                i <= deliveries@.len(),
                self@ == after_deliveries(old(self)@, deliveries@.take(i as int)),
            decreases deliveries@.len() - i,
        {
            let delivery = &deliveries[i];
            if self.awaits_avatar(delivery.steamid) {
                match encode_avatar_png(&delivery.rgba, AVATAR_SIZE, AVATAR_SIZE) {
                    Ok(file) => {
                        self.set_avatar_state(delivery.steamid, AvatarState::Ready(file));
                        self.capture_player_snapshot(delivery.steamid, &delivery.friend);
                    },
                    Err(_) => {
                        self.set_avatar_state(delivery.steamid, AvatarState::Unavailable);
                    },
                }
            }
            i = i + 1;
            assert(deliveries@.take(i as int).drop_last() =~= deliveries@.take(i - 1));
        }
        assert(deliveries@.take(i as int) =~= deliveries@);
    }

    /// (Re)captures the non-avatar facts for `steamid`. Creates a new entry (with
    /// `AvatarState::NotRequested`) if one doesn't exist yet; otherwise leaves the existing
    /// avatar state untouched.
    pub fn capture_player_snapshot(&mut self, steamid: u64, friend: &FriendInfo)
        ensures
            final(self)@ == with_facts(old(self)@, steamid, facts_of(*friend)),
    {
        let name = if friend.name.as_str().is_empty() {
            None
        } else {
            Some(friend.name.clone())
        };
        let relationship = if friend.immediate {
            Relationship::Friend
        } else if friend.blocked {
            Relationship::Blocked
        } else if friend.friendship_requested {
            Relationship::FriendshipRequested
        } else if friend.requesting_friendship {
            Relationship::RequestingFriendship
        } else {
            Relationship::NoRelation
        };
        let facts = PlayerFacts {
            name,
            relationship,
            game_app_id: match friend.game_played {
                Some(game) => Some(game_app_id(game)),
                None => None,
            },
            persona_state: Some(persona_state_byte(friend.state)),
            country: None,
            rich_presence: None,
        };
        assert(facts@ == facts_of(*friend));
        let avatar = match self.players.remove(&steamid) {
            Some(entry) => entry.avatar,
            None => AvatarState::NotRequested,
        };
        self.players.insert(steamid, PlayerEntry { avatar, facts });
        assert(self@.players =~= with_facts(old(self)@, steamid, facts_of(*friend)).players);
    }

    /// Ensures a snapshot exists for `steamid` and (re)starts its avatar fetch. Follow up with
    /// [`Self::try_finalize_player_snapshot`] to check whether the avatar has arrived yet.
    ///
    /// `friend` is what the Steam client tells about the player; it is needed for one who is
    /// not tracked. Returns whether the Steam client is now to be asked for the player's data,
    /// which it is exactly when a fetch begins.
    pub fn request_player_snapshot(
        &mut self,
        steamid: u64,
        friend: Option<FriendInfo>,
        now: u128,
    ) -> (r: bool)
        requires
            old(self)@.players.contains_key(steamid) || friend is Some,
        ensures
            final(self)@ == after_request(ensured(old(self)@, steamid, friend), steamid, now),
            r == begins_fetch(avatar_of(old(self)@, steamid), now),
    {
        if !self.tracks(steamid) {
            if let Some(info) = &friend {
                self.capture_player_snapshot(steamid, info);
            }
        }
        let ghost known = self@;
        let (found, ask) = self.poll_avatar(steamid, now);
        match found {
            AvatarFetchState::Unavailable => {
                self.set_avatar_state(steamid, AvatarState::Pending(now));
                assert(self@.players =~= after_request(known, steamid, now).players);
                true
            },
            _ => ask,
        }
    }

    /// Returns a wire-ready snapshot for the player once their avatar fetch is no longer
    /// pending (either it's ready, or it gave up), and `None` while still waiting.
    ///
    /// Also returns whether the Steam client is now to be asked for the player's data.
    pub fn try_finalize_player_snapshot(&mut self, steamid: u64, now: u128) -> (r: (
        Option<PlayerSnapshot>,
        bool,
    ))
        ensures
            match r.0 {
                Some(snapshot) => snapshot_of(old(self)@, steamid, now) == Some(snapshot@),
                None => snapshot_of(old(self)@, steamid, now) is None,
            },
            r.1 == (avatar_of(old(self)@, steamid) is NotRequested),
            final(self)@ == after_poll(old(self)@, steamid, now),
    {
        let (found, ask) = self.poll_avatar(steamid, now);
        let avatar_small = match found {
            AvatarFetchState::Pending => {
                return (None, ask);
            },
            AvatarFetchState::Ready(file) => Some(file),
            AvatarFetchState::Unavailable => None,
        };
        match self.players.get(&steamid) {
            None => {
                assert(!self@.players.contains_key(steamid));
                (None, ask)
            },
            Some(entry) => {
                assert(self@.players[steamid] == entry@);
                assert(old(self)@.players.contains_key(steamid));
                assert(entry.facts@ == old(self)@.players[steamid].facts);
                let snapshot = PlayerSnapshot::from_entry(steamid, &entry.facts, avatar_small);
                (Some(snapshot), ask)
            },
        }
    }
}

/// Whether the avatar of a player has been asked for.
pub open spec fn asked_for(steam: SteamView, steamid: u64) -> bool {
    steam.players.contains_key(steamid) && !(steam.players[steamid].avatar is NotRequested)
}

/// Pictures that arrive make nobody forgotten, and an avatar once asked for stays so. The
/// application never changes.
pub proof fn deliveries_keep_players(
    steam: SteamView,
    deliveries: Seq<AvatarDelivery>,
    steamid: u64,
)
    ensures
        after_deliveries(steam, deliveries).app_id == steam.app_id,
        steam.players.contains_key(steamid) ==> after_deliveries(
            steam,
            deliveries,
        ).players.contains_key(steamid),
        asked_for(steam, steamid) ==> asked_for(after_deliveries(steam, deliveries), steamid),
    decreases deliveries.len(),
{
    if deliveries.len() > 0 {
        deliveries_keep_players(steam, deliveries.drop_last(), steamid);
    }
}

/// Pictures for different players may be dealt with in either order.
pub proof fn deliveries_commute(steam: SteamView, a: AvatarDelivery, b: AvatarDelivery)
    requires
        a.steamid != b.steamid,
    ensures
        after_delivery(after_delivery(steam, a), b) == after_delivery(after_delivery(steam, b), a),
{
    let x = after_delivery(after_delivery(steam, a), b);
    let y = after_delivery(after_delivery(steam, b), a);
    assert(x.players =~= y.players);
}

/// What can happen to a player's entry other than a request for it.
pub enum Touch {
    /// A look at the avatar of a player, at a time.
    Look(u64, u128),
    /// A new capture of the facts about a player.
    Capture(u64, FriendInfo),
    /// The arrival of pictures.
    Deliver(Seq<AvatarDelivery>),
}

/// `steam` after all of `touches`, one after the other.
pub open spec fn after_touches(steam: SteamView, touches: Seq<Touch>) -> SteamView
    decreases touches.len(),
{
    if touches.len() == 0 {
        steam
    } else {
        let before = after_touches(steam, touches.drop_last());
        match touches.last() {
            Touch::Look(id, now) => after_poll(before, id, now),
            Touch::Capture(id, friend) => with_facts(before, id, facts_of(friend)),
            Touch::Deliver(deliveries) => after_deliveries(before, deliveries),
        }
    }
}

/// Pictures that arrive leave a fetch that is over as it is.
pub proof fn deliveries_keep_ended_fetch(
    steam: SteamView,
    deliveries: Seq<AvatarDelivery>,
    steamid: u64,
)
    requires
        avatar_of(steam, steamid) is Ready || avatar_of(steam, steamid) is Unavailable,
    ensures
        avatar_of(after_deliveries(steam, deliveries), steamid) == avatar_of(steam, steamid),
    decreases deliveries.len(),
{
    if deliveries.len() > 0 {
        deliveries_keep_ended_fetch(steam, deliveries.drop_last(), steamid);
    }
}

/// What a look at an avatar found once it was no longer pending, every later look finds
/// again, and none asks the Steam client any more: until the player is requested anew, nothing
/// that happens in between changes it.
pub proof fn ended_fetch_is_final(
    steam: SteamView,
    steamid: u64,
    first: u128,
    touches: Seq<Touch>,
    later: u128,
)
    requires
        !(avatar::seen(avatar_of(steam, steamid), first) is Pending),
    ensures
        ({
            let after = after_touches(after_poll(steam, steamid, first), touches);
            &&& avatar::seen(avatar_of(after, steamid), later) == avatar::seen(
                avatar_of(steam, steamid),
                first,
            )
            &&& !(avatar_of(after, steamid) is NotRequested)
            &&& avatar_of(after, steamid) is Ready || avatar_of(after, steamid) is Unavailable
        }),
    decreases touches.len(),
{
    if touches.len() > 0 {
        let rest = touches.drop_last();
        ended_fetch_is_final(steam, steamid, first, rest, later);
        if let Touch::Deliver(deliveries) = touches.last() {
            let before = after_touches(after_poll(steam, steamid, first), rest);
            deliveries_keep_ended_fetch(before, deliveries, steamid);
        }
    }
}

/// Asking for a player makes them tracked and their avatar asked for, whatever was known
/// before: a fetch that has not begun, was given up or is overdue begins at that time, and one
/// that is under way or has brought the avatar stays. Other players are left alone.
pub proof fn request_asks(
    steam: SteamView,
    steamid: u64,
    friend: Option<FriendInfo>,
    now: u128,
    other: u64,
)
    ensures
        ({
            let after = after_request(ensured(steam, steamid, friend), steamid, now);
            &&& asked_for(after, steamid)
            &&& begins_fetch(avatar_of(steam, steamid), now) ==> avatar_of(after, steamid)
                == AvatarView::Pending(now)
            &&& !begins_fetch(avatar_of(steam, steamid), now) ==> avatar_of(after, steamid)
                == avatar_of(steam, steamid)
            &&& after.app_id == steam.app_id
            &&& other != steamid ==> (after.players.contains_key(other)
                <==> steam.players.contains_key(other))
            &&& other != steamid && steam.players.contains_key(other) ==> after.players[other]
                == steam.players[other]
        }),
{
}

/// A player who has been asked for is answered for in time: later than the timeout after the
/// fetch of their avatar began, a snapshot of them is ready whether or not the avatar came.
pub proof fn snapshot_is_ready_in_time(
    steam: SteamView,
    steamid: u64,
    friend: Option<FriendInfo>,
    begun: u128,
    now: u128,
)
    requires
        begins_fetch(avatar_of(steam, steamid), begun),
        now > begun + AVATAR_PENDING_TIMEOUT,
    ensures
        snapshot_of(after_request(ensured(steam, steamid, friend), steamid, begun), steamid, now)
            is Some,
{
}

/// As long as no avatar has come and the timeout has not run out, the snapshot of a player
/// just asked for is held back.
pub proof fn snapshot_waits_for_the_avatar(
    steam: SteamView,
    steamid: u64,
    friend: Option<FriendInfo>,
    begun: u128,
    now: u128,
)
    requires
        begins_fetch(avatar_of(steam, steamid), begun),
        now <= begun + AVATAR_PENDING_TIMEOUT,
    ensures
        snapshot_of(after_request(ensured(steam, steamid, friend), steamid, begun), steamid, now)
            is None,
{
}

/// An avatar that has arrived and could be encoded shows in the player's snapshot from then
/// on, together with what the Steam client told about them when it arrived.
pub proof fn delivered_avatar_shows(steam: SteamView, delivery: AvatarDelivery, now: u128)
    requires
        avatar_of(steam, delivery.steamid) is Pending,
        avatar::encoded_avatar(delivery.rgba@, AVATAR_SIZE, AVATAR_SIZE) is Ok,
    ensures
        snapshot_of(after_delivery(steam, delivery), delivery.steamid, now) == Some(
            SnapshotView {
                steamid: delivery.steamid,
                avatar_small: Some(
                    avatar::encoded_avatar(delivery.rgba@, AVATAR_SIZE, AVATAR_SIZE)->Ok_0,
                ),
                avatar_medium: None,
                avatar_large: None,
                facts: facts_of(delivery.friend),
            },
        ),
{
}

/// An avatar that could not be encoded is given up: the player is answered for without it,
/// with the facts known before.
pub proof fn failed_avatar_is_given_up(steam: SteamView, delivery: AvatarDelivery, now: u128)
    requires
        avatar_of(steam, delivery.steamid) is Pending,
        avatar::encoded_avatar(delivery.rgba@, AVATAR_SIZE, AVATAR_SIZE) is Err,
    ensures
        snapshot_of(after_delivery(steam, delivery), delivery.steamid, now) == Some(
            SnapshotView {
                steamid: delivery.steamid,
                avatar_small: None,
                avatar_medium: None,
                avatar_large: None,
                facts: steam.players[delivery.steamid].facts,
            },
        ),
{
}

} // verus!
