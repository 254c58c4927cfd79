use vstd::prelude::*;
use crate::beatmap_cache::{BeatmapMetaCache, BeatmapRequest, Lookup, MetaView};
use crate::mode::Mode;
use crate::models::{Beatmap, Score, MAX_LENGTH_MILLIS};

verus! {

/// A length in milliseconds after it was taken to thirty-nine fortieths
/// `rank` times, rounded down each time: the weight 0.975 to the power of
/// `rank`, in whole milliseconds.
pub open spec fn decayed(length: nat, rank: nat) -> nat
    decreases rank,
{
    if rank == 0 {
        length
    } else {
        decayed(length, (rank - 1) as nat) * 39 / 40
    }
}

/// The sum of the lengths, each decayed by its rank, the first having rank 0.
pub open spec fn weighted_length(lengths: Seq<nat>) -> nat
    decreases lengths.len(),
{
    if lengths.len() == 0 {
        0
    } else {
        weighted_length(lengths.drop_last()) + decayed(
            lengths.last(),
            (lengths.len() - 1) as nat,
        )
    }
}

/// `base` to the power of `exp`.
pub open spec fn power(base: nat, exp: nat) -> nat
    decreases exp,
{
    if exp == 0 {
        1
    } else {
        base * power(base, (exp - 1) as nat)
    }
}

/// A decayed length is the exact product of the length and 0.975 to the
/// power of the rank, less what the rounding took, which is under 39
/// milliseconds whatever the rank.
pub proof fn lemma_decayed_is_close(length: nat, rank: nat)
    ensures
        power(40, rank) * decayed(length, rank) <= power(39, rank) * length,
        power(39, rank) * length <= power(40, rank) * (decayed(length, rank) + 39),
    decreases rank,
{
    if rank > 0 {
        let r = (rank - 1) as nat;
        lemma_decayed_is_close(length, r);
        let before = decayed(length, r);
        let after = decayed(length, rank);
        let p40 = power(40, r);
        let p39 = power(39, r);
        assert(40 * after <= 39 * before <= 40 * after + 39);
        assert(power(40, rank) * after == p40 * (40 * after)) by (nonlinear_arith)
            requires
                power(40, rank) == 40 * p40,
        ;
        assert(p40 * (40 * after) <= p40 * (39 * before)) by (nonlinear_arith)
            requires
                40 * after <= 39 * before,
        ;
        assert(p40 * (39 * before) == 39 * (p40 * before)) by (nonlinear_arith);
        assert(39 * (p40 * before) <= 39 * (p39 * length)) by (nonlinear_arith)
            requires
                p40 * before <= p39 * length,
        ;
        assert(39 * (p39 * length) == power(39, rank) * length) by (nonlinear_arith)
            requires
                power(39, rank) == 39 * p39,
        ;
        assert(39 * (p39 * length) <= 39 * (p40 * (before + 39))) by (nonlinear_arith)
            requires
                p39 * length <= p40 * (before + 39),
        ;
        assert(39 * (p40 * (before + 39)) == p40 * (39 * before + 39 * 39))
            by (nonlinear_arith);
        assert(p40 * (39 * before + 39 * 39) <= p40 * (40 * (after + 39))) by (nonlinear_arith)
            requires
                39 * before + 39 * 39 <= 40 * (after + 39),
        ;
        assert(p40 * (40 * (after + 39)) == power(40, rank) * (after + 39))
            by (nonlinear_arith)
            requires
                power(40, rank) == 40 * p40,
        ;
        assert(power(39, rank) * length <= power(40, rank) * (after + 39));
    } else {
        assert(power(39, 0) == 1 && power(40, 0) == 1);
        assert(decayed(length, 0) == length);
    }
}

/// A longer length decays to no less.
proof fn lemma_decayed_monotone(a: nat, b: nat, rank: nat)
    requires
        a <= b,
    ensures
        decayed(a, rank) <= decayed(b, rank),
    decreases rank,
{
    if rank > 0 {
        lemma_decayed_monotone(a, b, (rank - 1) as nat);
    }
}

/// The weight of the first play is one, and no play weighs more than its
/// length.
pub proof fn lemma_decayed_bounds(length: nat, rank: nat)
    ensures
        decayed(length, 0) == length,
        decayed(length, rank) <= length,
    decreases rank,
{
    if rank > 0 {
        lemma_decayed_bounds(length, (rank - 1) as nat);
    }
}

/// However many plays there are, their weighted length stays under forty
/// times the longest of them: the weights add up to less than forty.
pub proof fn lemma_weighted_length_is_bounded(lengths: Seq<nat>, max: nat)
    requires
        forall|i: int| 0 <= i < lengths.len() ==> lengths[i] <= max,
    ensures
        weighted_length(lengths) + 40 * decayed(max, lengths.len()) <= 40 * max,
    decreases lengths.len(),
{
    if lengths.len() > 0 {
        let n = (lengths.len() - 1) as nat;
        lemma_weighted_length_is_bounded(lengths.drop_last(), max);
        lemma_decayed_monotone(lengths.last(), max, n);
        assert(40 * decayed(max, lengths.len()) <= 39 * decayed(max, n));
    }
}

/// The drain lengths of the plays' beatmaps as the cache keeps them for
/// `mode`, each as the play's modifiers play it.
pub open spec fn play_lengths(scores: Seq<Score>, cache: MetaView, mode: Mode) -> Seq<nat> {
    Seq::new(
        scores.len(),
        |i: int|
            cache.beatmaps[(scores[i].beatmap_id, Some(mode))].difficulty.drain_millis(
                scores[i].mods,
            ),
    )
}

/// Whether the cache keeps, for `mode`, the beatmap of each of the first `n`
/// plays.
pub open spec fn all_kept(scores: Seq<Score>, cache: MetaView, mode: Mode, n: int) -> bool {
    forall|i: int|
        0 <= i < n ==> cache.beatmaps.contains_key((#[trigger] scores[i].beatmap_id, Some(mode)))
}

/// A length after `rank` steps of decay.
pub fn decay(length: u64, rank: usize) -> (d: u64)
    ensures
        d == decayed(length as nat, rank as nat),
{
    let mut d: u64 = length;
    let mut i: usize = 0;
    while i < rank
        invariant
            i <= rank,
            d == decayed(length as nat, i as nat),
        decreases rank - i,
    {
        d = ((d as u128 * 39) / 40) as u64;
        i += 1;
    }
    d
}

/// The weighted map length of a player, in milliseconds: the sum, over the
/// plays in the order given, of the drain length of each play's beatmap
/// under the play's modifiers, decayed by the play's rank.
///
/// The beatmaps are read from `cache`. Where one is not kept, nothing is
/// summed: the request for the first such beatmap is handed back, to be
/// fetched and completed before asking again.
pub fn calculate_weighted_map_length(
    from_scores: &Vec<Score>,
    cache: &BeatmapMetaCache,
    mode: Mode,
) -> (r: Result<u64, BeatmapRequest>)
    ensures
        (match r {
            Ok(total) => all_kept(from_scores@, cache@, mode, from_scores@.len() as int) && total
                == weighted_length(play_lengths(from_scores@, cache@, mode)),
            Err(request) => exists|i: int|
                0 <= i < from_scores@.len() && all_kept(from_scores@, cache@, mode, i)
                    && cache@.lookup(#[trigger] from_scores@[i].beatmap_id, Some(mode))
                    == Lookup::<Beatmap, BeatmapRequest>::Miss(request),
        }),
{
    let ghost lengths = play_lengths(from_scores@, cache@, mode);
    let ghost max = MAX_LENGTH_MILLIS as nat;
    let mut total: u64 = 0;
    let mut i: usize = 0;
    proof {
        assert(lengths.take(0) =~= Seq::<nat>::empty());
        lemma_decayed_bounds(max, 0);
    }
    while i < from_scores.len()
        invariant
            i <= from_scores.len(),
            max == MAX_LENGTH_MILLIS,
            lengths == play_lengths(from_scores@, cache@, mode),
            all_kept(from_scores@, cache@, mode, i as int),
            total == weighted_length(lengths.take(i as int)),
            total + 40 * decayed(max, i as nat) <= 40 * max,
        decreases from_scores.len() - i,
    {
        let score = from_scores[i];
        match cache.get_beatmap(score.beatmap_id, Some(mode)) {
            Lookup::Miss(request) => {
                return Err(request);
            },
            Lookup::Hit(beatmap) => {
                let length = beatmap.difficulty.drain_length_with(score.mods);
                let term = decay(length, i);
                proof {
                    assert(lengths[i as int] == length);
                    assert(lengths.take(i + 1).drop_last() =~= lengths.take(i as int));
                    lemma_decayed_monotone(length as nat, max, i as nat);
                    assert(40 * decayed(max, (i + 1) as nat) <= 39 * decayed(max, i as nat));
                }
                total = total + term;
            },
        }
        i += 1;
    }
    proof {
        assert(lengths.take(from_scores.len() as int) =~= lengths);
    }
    Ok(total)
}

} // verus!
