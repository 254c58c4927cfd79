use std::collections::HashMap;
use vstd::prelude::*;
use crate::mode::Mode;
use crate::models::{Beatmap, BeatmapWithMode, Score, User};

verus! {

broadcast use vstd::std_specs::hash::group_hash_axioms;

/// For each channel, the beatmap that was resolved there last.
pub struct OsuLastBeatmap {
    slots: HashMap<u64, BeatmapWithMode>,
}

impl View for OsuLastBeatmap {
    type V = Map<u64, BeatmapWithMode>;

    closed spec fn view(&self) -> Map<u64, BeatmapWithMode> {
        self.slots@
    }
}

impl OsuLastBeatmap {
    /// What `get` answers for `channel` when the slots are `slots`.
    pub open spec fn slot(slots: Map<u64, BeatmapWithMode>, channel: u64) -> Option<
        BeatmapWithMode,
    > {
        if slots.contains_key(channel) {
            Some(slots[channel])
        } else {
            None
        }
    }

    pub fn new() -> (cache: OsuLastBeatmap)
        ensures
            cache@ == Map::<u64, BeatmapWithMode>::empty(),
    {
        OsuLastBeatmap { slots: HashMap::new() }
    }

    /// Makes `beatmap` in `mode` the last beatmap of `channel`, in place of
    /// whatever the channel had.
    pub fn put(&mut self, channel: u64, beatmap: Beatmap, mode: Mode)
        ensures
            final(self)@ == old(self)@.insert(channel, BeatmapWithMode(beatmap, mode)),
    {
        self.slots.insert(channel, BeatmapWithMode(beatmap, mode));
    }

    /// The last beatmap of `channel`, if it has one.
    pub fn get(&self, channel: u64) -> (slot: Option<BeatmapWithMode>)
        ensures
            slot == OsuLastBeatmap::slot(self@, channel),
    {
        match self.slots.get(&channel) {
            Some(slot) => Some(*slot),
            None => None,
        }
    }

    /// After a `put`, `get` on that channel answers what was put, and every
    /// other channel answers as before: a channel holds one beatmap at most,
    /// the one put last.
    pub proof fn lemma_get_after_put(
        slots: Map<u64, BeatmapWithMode>,
        channel: u64,
        beatmap: Beatmap,
        mode: Mode,
        other: u64,
    )
        ensures
            OsuLastBeatmap::slot(
                slots.insert(channel, BeatmapWithMode(beatmap, mode)),
                channel,
            ) == Some(BeatmapWithMode(beatmap, mode)),
            other != channel ==> OsuLastBeatmap::slot(
                slots.insert(channel, BeatmapWithMode(beatmap, mode)),
                other,
            ) == OsuLastBeatmap::slot(slots, other),
    {
    }

    /// Of two `put`s on one channel only the second is left.
    pub proof fn lemma_put_overwrites(
        slots: Map<u64, BeatmapWithMode>,
        channel: u64,
        first: BeatmapWithMode,
        second: BeatmapWithMode,
    )
        ensures
            slots.insert(channel, first).insert(channel, second) == slots.insert(channel, second),
    {
        assert(slots.insert(channel, first).insert(channel, second) =~= slots.insert(
            channel,
            second,
        ));
    }
}

/// The link from a chat identity to a game account, as it is kept.
#[derive(Debug, PartialEq, Eq)]
pub struct OsuUser {
    /// The chat identity.
    pub user_id: u64,
    pub username: String,
    /// The game account.
    pub id: u64,
    pub failures: u8,
    /// When the link was written, in milliseconds since the Unix epoch.
    pub last_update: i64,
    /// The performance value in each mode, in thousandths.
    pub pp: [Option<u64>; 4],
    /// The weighted map length in milliseconds.
    pub std_weighted_map_length: Option<u64>,
}

impl OsuUser {
    /// Whether `self` is the link that is written when `target` is linked to
    /// `user` at time `now`: no failures, nothing measured yet.
    pub open spec fn is_fresh(self, target: u64, user: User, now: i64) -> bool {
        &&& self.user_id == target
        &&& self.username == user.username
        &&& self.id == user.id
        &&& self.failures == 0
        &&& self.last_update == now
        &&& self.pp@ == seq![None::<u64>, None, None, None]
        &&& self.std_weighted_map_length is None
    }

    /// The link of `target` to `user`, written at `now`.
    pub fn fresh(target: u64, user: User, now: i64) -> (link: OsuUser)
        ensures
            link.is_fresh(target, user, now),
    {
        let link = OsuUser {
            user_id: target,
            username: user.username,
            id: user.id,
            failures: 0,
            last_update: now,
            pp: [None, None, None, None],
            std_weighted_map_length: None,
        };
        assert(link.pp@ =~= seq![None::<u64>, None, None, None]);
        link
    }
}

/// The links from chat identities to game accounts.
pub struct OsuSavedUsers {
    links: HashMap<u64, OsuUser>,
}

impl View for OsuSavedUsers {
    type V = Map<u64, OsuUser>;

    closed spec fn view(&self) -> Map<u64, OsuUser> {
        self.links@
    }
}

impl OsuSavedUsers {
    pub fn new() -> (saved: OsuSavedUsers)
        ensures
            saved@ == Map::<u64, OsuUser>::empty(),
    {
        OsuSavedUsers { links: HashMap::new() }
    }

    /// Writes the link of the identity `u.user_id`, in place of the one it had.
    pub fn new_user(&mut self, u: OsuUser)
        ensures
            final(self)@ == old(self)@.insert(u.user_id, u),
    {
        self.links.insert(u.user_id, u);
    }

    /// The link of the identity `id`, if it has one.
    pub fn by_user_id(&self, id: u64) -> (link: Option<&OsuUser>)
        ensures
            link is Some == self@.contains_key(id),
            link matches Some(u) ==> *u == self@[id],
    {
        self.links.get(&id)
    }
}

/// For each player and mode, the best plays as they were last seen.
pub struct OsuUserBests {
    rows: HashMap<u128, Vec<Score>>,
}

/// The number under which the row of `user` in `mode` is kept.
pub open spec fn row_key(user: u64, mode: Mode) -> u128 {
    (user * 4 + mode.index()) as u128
}

proof fn lemma_row_key_injective(a: u64, m: Mode, b: u64, n: Mode)
    requires
        row_key(a, m) == row_key(b, n),
    ensures
        a == b,
        m == n,
{
}

impl View for OsuUserBests {
    type V = Map<(u64, Mode), Seq<Score>>;

    closed spec fn view(&self) -> Map<(u64, Mode), Seq<Score>> {
        Map::new(
            |k: (u64, Mode)| self.rows@.contains_key(row_key(k.0, k.1)),
            |k: (u64, Mode)| self.rows@[row_key(k.0, k.1)]@,
        )
    }
}

fn row_key_of(user: u64, mode: Mode) -> (key: u128)
    ensures
        key == row_key(user, mode),
{
    let index: u128 = match mode {
        Mode::Std => 0,
        Mode::Taiko => 1,
        Mode::Catch => 2,
        Mode::Mania => 3,
    };
    user as u128 * 4 + index
}

impl OsuUserBests {
    pub fn new() -> (bests: OsuUserBests)
        ensures
            bests@ == Map::<(u64, Mode), Seq<Score>>::empty(),
    {
        let bests = OsuUserBests { rows: HashMap::new() };
        assert(bests@ =~= Map::<(u64, Mode), Seq<Score>>::empty());
        bests
    }

    /// Keeps `scores` as the best plays of `user` in `mode`, in place of the
    /// plays kept before.
    pub fn save(&mut self, user: u64, mode: Mode, scores: Vec<Score>)
        ensures
            final(self)@ == old(self)@.insert((user, mode), scores@),
    {
        let key = row_key_of(user, mode);
        self.rows.insert(key, scores);
        proof {
            assert forall|k: (u64, Mode)| k != (user, mode) implies row_key(k.0, k.1)
                != key by {
                if row_key(k.0, k.1) == key {
                    lemma_row_key_injective(k.0, k.1, user, mode);
                }
            }
            assert(self@ =~= old(self)@.insert((user, mode), scores@));
        }
    }

    /// The best plays kept for `user` in `mode`, if any were.
    pub fn get(&self, user: u64, mode: Mode) -> (scores: Option<&Vec<Score>>)
        ensures
            scores is Some == self@.contains_key((user, mode)),
            scores matches Some(v) ==> v@ == self@[(user, mode)],
    {
        let key = row_key_of(user, mode);
        self.rows.get(&key)
    }
}

} // verus!
