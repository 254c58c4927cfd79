use vstd::prelude::*;
use crate::mode::Mode;
use crate::mods::{Mods, DT, HT};
use crate::text::{parse_u64, signed_decimal};

verus! {

/// The longest play length, in milliseconds, that any modifier set can give.
pub const MAX_LENGTH_MILLIS: u64 = 5_726_623_060_000;

/// The raw difficulty statistics of a beatmap. Ratings are in thousandths,
/// lengths in whole seconds.
#[derive(Clone, Copy, Debug, PartialEq, Eq, Structural)]
pub struct Difficulty {
    pub stars: u32,
    pub bpm: u32,
    pub cs: u32,
    pub od: u32,
    pub ar: u32,
    pub hp: u32,
    pub count_circle: u32,
    pub count_slider: u32,
    pub count_spinner: u32,
    pub max_combo: Option<u32>,
    pub drain_length: u32,
    pub total_length: u32,
}

/// A length in milliseconds as a modifier set plays it: half time stretches it
/// by four thirds, double time shrinks it to two thirds, each rounded down.
pub open spec fn length_with(millis: nat, mods: Mods) -> nat {
    let stretched = if mods.has_all(Mods { bits: HT }) {
        millis * 4 / 3
    } else {
        millis
    };
    if mods.has_all(Mods { bits: DT }) {
        stretched * 2 / 3
    } else {
        stretched
    }
}

impl Difficulty {
    /// The drain length in milliseconds under `mods`.
    pub open spec fn drain_millis(self, mods: Mods) -> nat {
        length_with(self.drain_length as nat * 1000, mods)
    }

    /// The drain length in milliseconds as `mods` plays it. It depends on the
    /// length and the modifiers alone.
    pub fn drain_length_with(&self, mods: Mods) -> (millis: u64)
        ensures
            millis == self.drain_millis(mods),
            millis <= MAX_LENGTH_MILLIS,
    {
        let base: u64 = self.drain_length as u64 * 1000;
        let stretched: u64 = if mods.contains(Mods { bits: HT }) {
            base * 4 / 3
        } else {
            base
        };
        if mods.contains(Mods { bits: DT }) {
            stretched * 2 / 3
        } else {
            stretched
        }
    }
}

/// A beatmap as the remote service describes it.
#[derive(Clone, Copy, Debug, PartialEq, Eq, Structural)]
pub struct Beatmap {
    pub beatmap_id: u64,
    pub beatmapset_id: u64,
    pub mode: Mode,
    pub difficulty: Difficulty,
}

/// A beatmap together with the mode it is played in.
#[derive(Clone, Copy, Debug, PartialEq, Eq, Structural)]
pub struct BeatmapWithMode(pub Beatmap, pub Mode);

impl BeatmapWithMode {
    pub fn mode(&self) -> (m: Mode)
        ensures
            m == self.1,
    {
        self.1
    }

    pub fn as_ref(&self) -> (b: &Beatmap)
        ensures
            *b == self.0,
    {
        &self.0
    }
}

/// One recorded play. The performance value is in thousandths.
#[derive(Clone, Copy, Debug, PartialEq, Eq, Structural)]
pub struct Score {
    pub id: Option<u64>,
    pub user_id: u64,
    pub beatmap_id: u64,
    pub mode: Mode,
    pub mods: Mods,
    pub score: u64,
    pub count_300: u32,
    pub count_100: u32,
    pub count_50: u32,
    pub count_miss: u32,
    pub max_combo: u32,
    pub perfect: bool,
    pub pp: Option<u64>,
}

impl Score {
    /// The value by which plays are ranked: the performance value, and less
    /// than any of them for a play that has none.
    pub open spec fn rank_key(self) -> int {
        match self.pp {
            Some(pp) => pp as int,
            None => -1,
        }
    }
}

/// A player of the game, with the performance summary of one mode.
#[derive(Debug, PartialEq, Eq)]
pub struct User {
    pub id: u64,
    pub username: String,
    pub pp: Option<u64>,
    pub rank: Option<u64>,
    pub play_count: u64,
}

/// How a player is named to the remote service.
#[derive(Debug, PartialEq, Eq)]
pub enum UserID {
    ID(u64),
    Username(String),
}

impl UserID {
    /// What a free-text token names: the player with that number where the
    /// token is a number, else the player with that name.
    pub open spec fn names(self, token: Seq<char>) -> bool {
        match signed_decimal(token, u64::MAX as nat) {
            Some(n) => self == UserID::ID(n as u64),
            None => self matches UserID::Username(name) && name@ == token,
        }
    }

    pub fn from_string(s: String) -> (id: UserID)
        ensures
            id.names(s@),
    {
        match parse_u64(s.as_str()) {
            Some(n) => UserID::ID(n),
            None => UserID::Username(s),
        }
    }
}

} // verus!
