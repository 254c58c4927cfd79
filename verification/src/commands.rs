use vstd::prelude::*;
use crate::args::{Nth, UsernameArg};
use crate::beatmap_cache::{BeatmapMetaCache, BeatmapRequest, Lookup};
use crate::db::OsuUserBests;
use crate::length::{all_kept, calculate_weighted_map_length, play_lengths, weighted_length};
use crate::mode::Mode;
use crate::models::{Beatmap, BeatmapWithMode, Score};
use crate::mods::Mods;
use crate::ranking::{filter_mods, is_ranking_of, rank, with_mods};

verus! {

/// How many recent plays are asked for when all are wanted.
pub const RECENT_LIMIT: u8 = 50;

/// How many best plays are asked for when all are wanted.
pub const TOP_LIMIT: u8 = 100;

/// Why a command has nothing to show.
#[derive(Clone, Copy, Debug, PartialEq, Eq, Structural)]
pub enum CommandError {
    NoSuchPlay,
    NoScores,
}

/// What a command about a player's plays shows.
#[derive(Debug, PartialEq, Eq)]
pub enum Plays {
    /// One play, and how many plays the remote service listed up to it.
    One { play: Score, rank: u8 },
    All(Vec<Score>),
}

/// How many plays to ask the remote service for: up to the play that is
/// wanted, or `all` of them.
pub open spec fn limit_for(nth: Nth, all: u8) -> u8 {
    match nth {
        Nth::Nth(n) => n,
        Nth::All => all,
    }
}

/// Whether `shown` is what `plays` gives for `nth`: the last play listed
/// where one play is wanted, with the number of plays listed, cut to eight
/// bits, as its rank; all plays where all are wanted.
pub open spec fn shows(nth: Nth, plays: Seq<Score>, shown: Result<Plays, CommandError>) -> bool {
    match nth {
        Nth::Nth(_) => if plays.len() == 0 {
            shown == Err::<Plays, CommandError>(CommandError::NoSuchPlay)
        } else {
            shown matches Ok(Plays::One { play, rank }) && play == plays.last() && rank
                == plays.len() % 256
        },
        Nth::All => shown matches Ok(Plays::All(all)) && all@ == plays,
    }
}

fn limit(nth: Nth, all: u8) -> (n: u8)
    ensures
        n == limit_for(nth, all),
{
    match nth {
        Nth::Nth(n) => n,
        Nth::All => all,
    }
}

fn show(nth: Nth, plays: Vec<Score>) -> (shown: Result<Plays, CommandError>)
    ensures
        shows(nth, plays@, shown),
{
    match nth {
        Nth::Nth(_) => {
            let n = plays.len();
            if n == 0 {
                Err(CommandError::NoSuchPlay)
            } else {
                Ok(Plays::One { play: plays[n - 1], rank: (n % 256) as u8 })
            }
        },
        Nth::All => Ok(Plays::All(plays)),
    }
}

/// How many recent plays the `recent` command asks for.
pub fn recent_limit(nth: Nth) -> (n: u8)
    ensures
        n == limit_for(nth, RECENT_LIMIT),
{
    limit(nth, RECENT_LIMIT)
}

/// What the `recent` command shows of the recent plays that were listed.
pub fn recent(nth: Nth, plays: Vec<Score>) -> (shown: Result<Plays, CommandError>)
    ensures
        shows(nth, plays@, shown),
{
    show(nth, plays)
}

/// How many best plays the `top` command asks for.
pub fn top_limit(nth: Nth) -> (n: u8)
    ensures
        n == limit_for(nth, TOP_LIMIT),
{
    limit(nth, TOP_LIMIT)
}

/// What the `top` command shows of the best plays that were listed.
pub fn top(nth: Nth, plays: Vec<Score>) -> (shown: Result<Plays, CommandError>)
    ensures
        shows(nth, plays@, shown),
{
    show(nth, plays)
}

/// What the `last` command shows.
#[derive(Clone, Copy, Debug, PartialEq, Eq, Structural)]
pub enum LastView {
    /// No beatmap was resolved in the channel.
    Nothing,
    /// The whole set of the beatmap.
    Beatmapset { id: u64, mods: Mods },
    /// The beatmap itself, rated in `mode` under `mods`.
    Beatmap { beatmap: Beatmap, mode: Mode, mods: Mods },
}

/// The modifiers that count: those given with the command, or else those of
/// the link, or else none.
pub open spec fn mods_in_force(given: Option<Mods>, linked: Option<Mods>) -> Mods {
    match (given, linked) {
        (Some(mods), _) => mods,
        (None, Some(mods)) => mods,
        (None, None) => Mods { bits: 0 },
    }
}

/// What the `last` command shows of the beatmap that `reference` resolved
/// to, where `beatmapset` says that the set was asked for and `given` holds
/// the modifiers given with the command.
pub open spec fn last_view(
    reference: Option<(BeatmapWithMode, Option<Mods>)>,
    beatmapset: bool,
    given: Option<Mods>,
) -> LastView {
    match reference {
        None => LastView::Nothing,
        Some((BeatmapWithMode(beatmap, mode), linked)) => if beatmapset {
            LastView::Beatmapset { id: beatmap.beatmapset_id, mods: mods_in_force(given, linked) }
        } else {
            LastView::Beatmap { beatmap, mode, mods: mods_in_force(given, linked) }
        },
    }
}

/// Decides what the `last` command shows.
pub fn last(
    reference: Option<(BeatmapWithMode, Option<Mods>)>,
    beatmapset: bool,
    given: Option<Mods>,
) -> (view: LastView)
    ensures
        view == last_view(reference, beatmapset, given),
{
    match reference {
        None => LastView::Nothing,
        Some((BeatmapWithMode(beatmap, mode), linked)) => {
            let mods = match (given, linked) {
                (Some(mods), _) => mods,
                (None, Some(mods)) => mods,
                (None, None) => Mods::nomod(),
            };
            if beatmapset {
                LastView::Beatmapset { id: beatmap.beatmapset_id, mods }
            } else {
                LastView::Beatmap { beatmap, mode, mods }
            }
        },
    }
}

/// The chat identity under which the `check` command keeps what it finds:
/// the one mentioned, or the author where nobody is named; nobody where the
/// player is named by a free-text token.
pub open spec fn bests_owner(arg: Option<UsernameArg>, author: u64) -> Option<u64> {
    match arg {
        Some(UsernameArg::Tagged(identity)) => Some(identity),
        Some(UsernameArg::Raw(_)) => None,
        None => Some(author),
    }
}

/// Under whose identity the `check` command keeps what it finds.
pub fn check_owner(arg: Option<&UsernameArg>, author: u64) -> (owner: Option<u64>)
    ensures
        owner == bests_owner(
            match arg {
                Some(a) => Some(*a),
                None => None,
            },
            author,
        ),
{
    match arg {
        Some(UsernameArg::Tagged(identity)) => Some(*identity),
        Some(UsernameArg::Raw(_)) => None,
        None => Some(author),
    }
}

/// The `check` command on the plays that a player has on a beatmap: the
/// plays made with at least the modifiers `mods`, best first. Where there
/// are such plays and `owner` names an identity, they become the best plays
/// kept for that identity in `mode`; else nothing is kept.
pub fn check(
    user_bests: &mut OsuUserBests,
    owner: Option<u64>,
    mode: Mode,
    scores: &Vec<Score>,
    mods: Mods,
) -> (found: Result<Vec<Score>, CommandError>)
    ensures
        with_mods(scores@, mods).len() == 0 ==> found == Err::<Vec<Score>, CommandError>(
            CommandError::NoScores,
        ),
        with_mods(scores@, mods).len() > 0 ==> found is Ok && is_ranking_of(
            found->Ok_0@,
            with_mods(scores@, mods),
        ),
        (final(user_bests)@ == match (found, owner) {
            (Ok(ranked), Some(identity)) => old(user_bests)@.insert((identity, mode), ranked@),
            _ => old(user_bests)@,
        }),
{
    let kept = filter_mods(scores, mods);
    if kept.len() == 0 {
        return Err(CommandError::NoScores);
    }
    let ranked = rank(&kept);
    match owner {
        Some(identity) => {
            let copy = ranked.clone();
            assert(copy@ =~= ranked@);
            user_bests.save(identity, mode, copy);
        },
        None => {},
    }
    Ok(ranked)
}

/// What the commands about a player show besides the player: the weighted
/// map length in milliseconds, and the best play.
#[derive(Clone, Copy, Debug, PartialEq, Eq, Structural)]
pub struct UserSummary {
    pub map_length: u64,
    pub best: Option<Score>,
}

/// Sums up a player's best plays, given best first. Where the cache lacks a
/// beatmap of one of them, the request for the first such beatmap is handed
/// back instead.
pub fn get_user(bests: &Vec<Score>, cache: &BeatmapMetaCache, mode: Mode) -> (r: Result<
    UserSummary,
    BeatmapRequest,
>)
    ensures
        (match r {
            Ok(summary) => {
                &&& all_kept(bests@, cache@, mode, bests@.len() as int)
                &&& summary.map_length == weighted_length(play_lengths(bests@, cache@, mode))
                &&& summary.best == if bests@.len() > 0 {
                    Some(bests@[0])
                } else {
                    None
                }
            },
            Err(request) => exists|i: int|
                0 <= i < bests@.len() && all_kept(bests@, cache@, mode, i) && cache@.lookup(
                    #[trigger] bests@[i].beatmap_id,
                    Some(mode),
                ) == Lookup::<Beatmap, BeatmapRequest>::Miss(request),
        }),
{
    match calculate_weighted_map_length(bests, cache, mode) {
        Ok(map_length) => {
            let best = if bests.len() > 0 {
                Some(bests[0])
            } else {
                None
            };
            Ok(UserSummary { map_length, best })
        },
        Err(request) => Err(request),
    }
}

} // verus!
