use vstd::prelude::*;
use crate::models::Score;
use crate::mods::Mods;

verus! {

/// The plays of `scores` that were made with at least the modifiers `mods`,
/// in their order.
pub open spec fn with_mods(scores: Seq<Score>, mods: Mods) -> Seq<Score> {
    scores.filter(|s: Score| s.mods.has_all(mods))
}

/// The plays of `scores` whose rank key is `key`, in their order.
pub open spec fn with_key(scores: Seq<Score>, key: int) -> Seq<Score> {
    scores.filter(|s: Score| s.rank_key() == key)
}

/// Whether the plays stand best first.
pub open spec fn ranked(scores: Seq<Score>) -> bool {
    forall|i: int, j: int|
        0 <= i < j < scores.len() ==> scores[i].rank_key() >= scores[j].rank_key()
}

/// Whether `out` is `input` put best first, plays of equal value in the order
/// in which `input` has them.
pub open spec fn is_ranking_of(out: Seq<Score>, input: Seq<Score>) -> bool {
    &&& ranked(out)
    &&& forall|key: int| with_key(out, key) == with_key(input, key)
}

proof fn lemma_filter_push(s: Seq<Score>, x: Score, pred: spec_fn(Score) -> bool)
    ensures
        (s.push(x).filter(pred) == if pred(x) {
            s.filter(pred).push(x)
        } else {
            s.filter(pred)
        }),
{
    reveal(Seq::filter);
    assert(s.push(x).drop_last() =~= s);
}

proof fn lemma_filter_none(s: Seq<Score>, pred: spec_fn(Score) -> bool)
    requires
        forall|i: int| 0 <= i < s.len() ==> !pred(s[i]),
    ensures
        s.filter(pred) == Seq::<Score>::empty(),
    decreases s.len(),
{
    reveal(Seq::filter);
    if s.len() > 0 {
        lemma_filter_none(s.drop_last(), pred);
    }
}

/// Putting `x` behind the plays that are at least as good and before those
/// that are worse keeps, for every key, the plays of that key in order.
proof fn lemma_insert_keeps_order(out: Seq<Score>, p: int, x: Score, key: int)
    requires
        0 <= p <= out.len(),
        forall|j: int| p <= j < out.len() ==> out[j].rank_key() < x.rank_key(),
    ensures
        (with_key(out.insert(p, x), key) == if x.rank_key() == key {
            with_key(out, key).push(x)
        } else {
            with_key(out, key)
        }),
{
    let pred = |s: Score| s.rank_key() == key;
    let a = out.subrange(0, p);
    let b = out.subrange(p, out.len() as int);
    assert(out =~= a + b);
    assert(out.insert(p, x) =~= a.push(x) + b);
    Seq::filter_distributes_over_add(a, b, pred);
    Seq::filter_distributes_over_add(a.push(x), b, pred);
    lemma_filter_push(a, x, pred);
    if x.rank_key() == key {
        lemma_filter_none(b, pred);
        assert(a.filter(pred) + Seq::<Score>::empty() =~= a.filter(pred));
        assert(a.filter(pred).push(x) + Seq::<Score>::empty() =~= a.filter(pred).push(x));
    }
}

/// What the plays of one key are once the last play is taken off.
proof fn lemma_with_key_last(s: Seq<Score>, key: int)
    requires
        s.len() > 0,
    ensures
        (with_key(s, key) == if s.last().rank_key() == key {
            with_key(s.drop_last(), key).push(s.last())
        } else {
            with_key(s.drop_last(), key)
        }),
{
    lemma_filter_push(s.drop_last(), s.last(), |x: Score| x.rank_key() == key);
    assert(s.drop_last().push(s.last()) =~= s);
}

/// Every play of a key stands among the plays of that key.
proof fn lemma_with_key_has(s: Seq<Score>, i: int)
    requires
        0 <= i < s.len(),
    ensures
        with_key(s, s[i].rank_key()).len() > 0,
        i == s.len() - 1 ==> with_key(s, s[i].rank_key()).last() == s[i],
    decreases s.len(),
{
    let key = s[i].rank_key();
    lemma_with_key_last(s, key);
    if i < s.len() - 1 {
        lemma_with_key_has(s.drop_last(), i);
    }
}

/// The plays of a key are plays of that key, and stand in `s`.
proof fn lemma_with_key_from(s: Seq<Score>, key: int, j: int)
    requires
        0 <= j < with_key(s, key).len(),
    ensures
        with_key(s, key)[j].rank_key() == key,
        s.contains(with_key(s, key)[j]),
{
    let pred = |x: Score| x.rank_key() == key;
    s.lemma_filter_pred(pred, j);
    s.lemma_filter_contains_rev(pred, with_key(s, key)[j]);
}

/// There is one ranking of given plays and no other: two rankings of the
/// same plays are the same sequence.
pub proof fn lemma_ranking_unique(a: Seq<Score>, b: Seq<Score>, input: Seq<Score>)
    requires
        is_ranking_of(a, input),
        is_ranking_of(b, input),
    ensures
        a == b,
    decreases a.len(),
{
    if a.len() == 0 {
        if b.len() > 0 {
            lemma_with_key_has(b, 0);
            reveal(Seq::filter);
            assert(with_key(a, b[0].rank_key()).len() == 0);
        }
        assert(a =~= b);
    } else {
        let x = a.last();
        let key = x.rank_key();
        lemma_with_key_has(a, a.len() - 1);
        assert(with_key(b, key) == with_key(a, key));
        if b.len() == 0 {
            reveal(Seq::filter);
            assert(with_key(b, key).len() == 0);
        }
        let y = b.last();
        lemma_with_key_has(b, b.len() - 1);
        // The last play of `b` has the least key of `b`, which is the least
        // key of `a`.
        assert(with_key(a, y.rank_key()) == with_key(b, y.rank_key()));
        lemma_with_key_from(a, y.rank_key(), 0);
        let in_a = choose|i: int| 0 <= i < a.len() && a[i] == with_key(a, y.rank_key())[0];
        assert(a[in_a].rank_key() >= key);
        lemma_with_key_from(b, key, 0);
        let in_b = choose|i: int| 0 <= i < b.len() && b[i] == with_key(b, key)[0];
        assert(b[in_b].rank_key() >= y.rank_key());
        assert(y.rank_key() == key);
        assert(y == x);
        let a0 = a.drop_last();
        let b0 = b.drop_last();
        assert forall|k: int| with_key(a0, k) == with_key(b0, k) by {
            lemma_with_key_last(a, k);
            lemma_with_key_last(b, k);
            assert(with_key(a, k) == with_key(b, k));
            if k == key {
                assert(with_key(a0, k).push(x).drop_last() =~= with_key(a0, k));
                assert(with_key(b0, k).push(x).drop_last() =~= with_key(b0, k));
            }
        }
        assert(ranked(a0)) by {
            assert forall|i: int, j: int| 0 <= i < j < a0.len() implies a0[i].rank_key()
                >= a0[j].rank_key() by {
                assert(a0[i] == a[i] && a0[j] == a[j]);
            }
        }
        assert(ranked(b0)) by {
            assert forall|i: int, j: int| 0 <= i < j < b0.len() implies b0[i].rank_key()
                >= b0[j].rank_key() by {
                assert(b0[i] == b[i] && b0[j] == b[j]);
            }
        }
        lemma_ranking_unique(a0, b0, a0);
        assert(a =~= a0.push(x));
        assert(b =~= b0.push(y));
    }
}

/// A ranking holds the plays it was made of and no others.
pub proof fn lemma_ranking_keeps_plays(out: Seq<Score>, input: Seq<Score>, play: Score)
    requires
        is_ranking_of(out, input),
    ensures
        out.contains(play) == input.contains(play),
{
    let key = play.rank_key();
    let pred = |x: Score| x.rank_key() == key;
    assert(with_key(out, key) == with_key(input, key));
    if out.contains(play) {
        let i = choose|i: int| 0 <= i < out.len() && out[i] == play;
        out.lemma_filter_contains(pred, i);
        input.lemma_filter_contains_rev(pred, play);
    }
    if input.contains(play) {
        let i = choose|i: int| 0 <= i < input.len() && input[i] == play;
        input.lemma_filter_contains(pred, i);
        out.lemma_filter_contains_rev(pred, play);
    }
}

/// The plays made with at least the modifiers `mods`.
pub fn filter_mods(scores: &Vec<Score>, mods: Mods) -> (kept: Vec<Score>)
    ensures
        kept@ == with_mods(scores@, mods),
{
    let ghost pred = |s: Score| s.mods.has_all(mods);
    let mut kept: Vec<Score> = Vec::new();
    let mut i: usize = 0;
    proof {
        reveal(Seq::filter);
        assert(scores@.take(0) =~= Seq::<Score>::empty());
    }
    while i < scores.len()
        invariant
            i <= scores.len(),
            pred == (|s: Score| s.mods.has_all(mods)),
            kept@ == scores@.take(i as int).filter(pred),
        decreases scores.len() - i,
    {
        proof {
            lemma_filter_push(scores@.take(i as int), scores@[i as int], pred);
            assert(scores@.take(i + 1) =~= scores@.take(i as int).push(scores@[i as int]));
        }
        let s = scores[i];
        if s.mods.contains(mods) {
            kept.push(s);
        }
        i += 1;
    }
    assert(scores@.take(scores.len() as int) =~= scores@);
    kept
}

/// Whether `a` ranks strictly below `b`.
fn worse(a: &Score, b: &Score) -> (r: bool)
    ensures
        r == (a.rank_key() < b.rank_key()),
{
    match (a.pp, b.pp) {
        (None, None) => false,
        (None, Some(_)) => true,
        (Some(_), None) => false,
        (Some(x), Some(y)) => x < y,
    }
}

/// Puts the plays best first. Plays of equal value keep their order.
pub fn rank(scores: &Vec<Score>) -> (out: Vec<Score>)
    ensures
        is_ranking_of(out@, scores@),
        out@.len() == scores@.len(),
{
    let mut out: Vec<Score> = Vec::new();
    let mut i: usize = 0;
    proof {
        reveal(Seq::filter);
        assert(scores@.take(0) =~= Seq::<Score>::empty());
    }
    while i < scores.len()
        invariant
            i <= scores.len(),
            out@.len() == i,
            ranked(out@),
            forall|key: int| with_key(out@, key) == with_key(scores@.take(i as int), key),
        decreases scores.len() - i,
    {
        let x = scores[i];
        let mut p: usize = out.len();
        while p > 0 && worse(&out[p - 1], &x)
            invariant
                p <= out.len(),
                forall|j: int| p <= j < out.len() ==> out@[j].rank_key() < x.rank_key(),
            decreases p,
        {
            p -= 1;
        }
        let ghost before = out@;
        out.insert(p, x);
        proof {
            assert(scores@.take(i + 1) =~= scores@.take(i as int).push(x));
            assert forall|key: int|
                with_key(out@, key) == with_key(scores@.take(i + 1), key) by {
                lemma_insert_keeps_order(before, p as int, x, key);
                lemma_filter_push(
                    scores@.take(i as int),
                    x,
                    |s: Score| s.rank_key() == key,
                );
            }
            assert forall|a: int, b: int| 0 <= a < b < out@.len() implies out@[a].rank_key()
                >= out@[b].rank_key() by {
                if a < p && b > p {
                    assert(out@[a] == before[a]);
                    assert(out@[b] == before[b - 1]);
                } else if a < p && b == p {
                    assert(out@[a] == before[a]);
                    if p > 0 {
                        assert(before[p - 1].rank_key() >= x.rank_key());
                    }
                } else if a == p {
                    assert(out@[b] == before[b - 1]);
                } else if b < p {
                    assert(out@[a] == before[a]);
                    assert(out@[b] == before[b]);
                } else {
                    assert(out@[a] == before[a - 1]);
                    assert(out@[b] == before[b - 1]);
                }
            }
        }
        i += 1;
    }
    assert(scores@.take(scores.len() as int) =~= scores@);
    out
}

} // verus!
