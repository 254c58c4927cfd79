use std::collections::HashMap;
use vstd::prelude::*;
use crate::mode::Mode;
use crate::mods::Mods;

verus! {

broadcast use vstd::std_specs::hash::group_hash_axioms;

/// Why a chart could not be had. Neither is kept: the beatmap can be asked
/// for again.
#[derive(Clone, Copy, Debug, PartialEq, Eq, Structural)]
pub enum ChartError {
    DownloadFailed,
    ParseFailed,
}

/// The performance numbers of a chart under a mode and modifiers, in
/// thousandths where they are fractions.
#[derive(Clone, Copy, Debug, PartialEq, Eq, Structural)]
pub struct PerformanceInfo {
    pub pp: u64,
    pub stars: u32,
    pub max_combo: u32,
}

/// What a caller that wants a chart does next.
#[derive(Clone, Copy, Debug, PartialEq, Eq, Structural)]
pub enum ChartStep {
    /// The chart is kept: read it.
    Ready,
    /// Nobody is fetching the chart: download and parse it, then hand the
    /// outcome to `complete_chart`.
    Start,
    /// Somebody is fetching the chart: wait to be woken with the outcome.
    Wait,
}

/// What the cache keeps: the parsed charts, the ratings computed from them,
/// and for each chart that is being fetched the callers that wait for it, the
/// one that fetches it first.
pub struct DifficultyView<C> {
    pub charts: Map<u64, C>,
    pub ratings: Map<(u64, Mode, Mods), PerformanceInfo>,
    pub waiting: Map<u64, Seq<u64>>,
}

struct Entry<C> {
    chart: C,
    ratings: HashMap<u128, PerformanceInfo>,
}

/// Parsed charts and the ratings computed from them, by beatmap. The chart
/// type `C` is whatever the parser gives; the cache never looks inside.
pub struct BeatmapCache<C> {
    charts: HashMap<u64, Entry<C>>,
    waiting: HashMap<u64, Vec<u64>>,
}

/// The number under which the rating for `mode` and `mods` is kept.
pub open spec fn rating_key(mode: Mode, mods: Mods) -> u128 {
    (mods.bits * 4 + mode.index()) as u128
}

proof fn lemma_rating_key_injective(m: Mode, a: Mods, n: Mode, b: Mods)
    requires
        rating_key(m, a) == rating_key(n, b),
    ensures
        m == n,
        a == b,
{
}

fn rating_key_of(mode: Mode, mods: Mods) -> (key: u128)
    ensures
        key == rating_key(mode, mods),
{
    let index: u128 = match mode {
        Mode::Std => 0,
        Mode::Taiko => 1,
        Mode::Catch => 2,
        Mode::Mania => 3,
    };
    mods.bits as u128 * 4 + index
}

impl<C> View for BeatmapCache<C> {
    type V = DifficultyView<C>;

    closed spec fn view(&self) -> DifficultyView<C> {
        DifficultyView {
            charts: Map::new(
                |id: u64| self.charts@.contains_key(id),
                |id: u64| self.charts@[id].chart,
            ),
            ratings: Map::new(
                |k: (u64, Mode, Mods)|
                    self.charts@.contains_key(k.0) && self.charts@[k.0].ratings@.contains_key(
                        rating_key(k.1, k.2),
                    ),
                |k: (u64, Mode, Mods)| self.charts@[k.0].ratings@[rating_key(k.1, k.2)],
            ),
            waiting: Map::new(
                |id: u64| self.waiting@.contains_key(id),
                |id: u64| self.waiting@[id]@,
            ),
        }
    }
}

impl<C> DifficultyView<C> {
    pub open spec fn empty() -> DifficultyView<C> {
        DifficultyView { charts: Map::empty(), ratings: Map::empty(), waiting: Map::empty() }
    }

    /// Whether the chart of `id` is neither kept nor being fetched.
    pub open spec fn is_uncached(self, id: u64) -> bool {
        !self.charts.contains_key(id) && !self.waiting.contains_key(id)
    }

    /// The cache and the answer after `waiter` has asked for the chart of
    /// `id`: a chart that is kept is ready; the first to ask for one that is
    /// not starts fetching it; whoever asks while it is being fetched waits.
    pub open spec fn requested(self, id: u64, waiter: u64) -> (DifficultyView<C>, ChartStep) {
        if self.charts.contains_key(id) {
            (self, ChartStep::Ready)
        } else if self.waiting.contains_key(id) {
            (
                DifficultyView {
                    waiting: self.waiting.insert(id, self.waiting[id].push(waiter)),
                    ..self
                },
                ChartStep::Wait,
            )
        } else {
            (
                DifficultyView { waiting: self.waiting.insert(id, seq![waiter]), ..self },
                ChartStep::Start,
            )
        }
    }

    /// The callers that wait for the chart of `id`.
    pub open spec fn waiters(self, id: u64) -> Seq<u64> {
        if self.waiting.contains_key(id) {
            self.waiting[id]
        } else {
            Seq::empty()
        }
    }

    /// The cache once the fetch of the chart of `id` has ended with
    /// `outcome`: nobody waits for it any more; a chart is kept, with no
    /// rating yet; a failure leaves nothing behind.
    pub open spec fn completed(self, id: u64, outcome: Result<C, ChartError>) -> DifficultyView<
        C,
    > {
        match outcome {
            Ok(chart) => DifficultyView {
                charts: self.charts.insert(id, chart),
                ratings: Map::new(
                    |k: (u64, Mode, Mods)| self.ratings.contains_key(k) && k.0 != id,
                    |k: (u64, Mode, Mods)| self.ratings[k],
                ),
                waiting: self.waiting.remove(id),
            },
            Err(_) => DifficultyView { waiting: self.waiting.remove(id), ..self },
        }
    }

    /// The rating kept for the chart of `id` under `mode` and `mods`.
    pub open spec fn rated(self, id: u64, mode: Mode, mods: Mods) -> Option<PerformanceInfo> {
        if self.ratings.contains_key((id, mode, mods)) {
            Some(self.ratings[(id, mode, mods)])
        } else {
            None
        }
    }

    /// The cache after a rating was handed in: it is kept where the chart is
    /// kept and has no rating for that mode and those modifiers yet.
    pub open spec fn recorded(
        self,
        id: u64,
        mode: Mode,
        mods: Mods,
        info: PerformanceInfo,
    ) -> DifficultyView<C> {
        if self.charts.contains_key(id) && !self.ratings.contains_key((id, mode, mods)) {
            DifficultyView { ratings: self.ratings.insert((id, mode, mods), info), ..self }
        } else {
            self
        }
    }

    /// The cache after each of `waiters` has asked for the chart of `id`, one
    /// after the other, and the number of them that were told to fetch it.
    pub open spec fn requested_by_all(self, id: u64, waiters: Seq<u64>) -> (
        DifficultyView<C>,
        nat,
    )
        decreases waiters.len(),
    {
        if waiters.len() == 0 {
            (self, 0)
        } else {
            let (before, starts) = self.requested_by_all(id, waiters.drop_last());
            let (after, step) = before.requested(id, waiters.last());
            (
                after,
                if step == ChartStep::Start {
                    starts + 1
                } else {
                    starts
                },
            )
        }
    }

    /// However many callers ask for a chart that is neither kept nor being
    /// fetched, one of them fetches it and the others wait: the chart is
    /// downloaded and parsed once. Nothing that is kept changes meanwhile.
    pub proof fn lemma_one_fetch_for_all(self, id: u64, waiters: Seq<u64>)
        requires
            self.is_uncached(id),
            waiters.len() > 0,
        ensures
            self.requested_by_all(id, waiters).1 == 1,
            self.requested_by_all(id, waiters).0 == (DifficultyView {
                waiting: self.waiting.insert(id, waiters),
                ..self
            }),
        decreases waiters.len(),
    {
        let rest = waiters.drop_last();
        let before = self.requested_by_all(id, rest);
        if rest.len() == 0 {
            assert(before == (self, 0nat));
            assert(seq![waiters.last()] =~= waiters);
        } else {
            self.lemma_one_fetch_for_all(id, rest);
            assert(before.0.waiting[id] == rest);
            assert(rest.push(waiters.last()) =~= waiters);
            assert(self.waiting.insert(id, rest).insert(id, waiters) =~= self.waiting.insert(
                id,
                waiters,
            ));
        }
    }

    /// When the one fetch ends, every caller that asked is woken with its
    /// outcome, so all of them see the same result. A chart is then ready
    /// for whoever asks next; a failure leaves the beatmap as it was before
    /// anyone asked, so that it can be asked for again.
    pub proof fn lemma_all_see_one_outcome(
        self,
        id: u64,
        waiters: Seq<u64>,
        outcome: Result<C, ChartError>,
        next: u64,
    )
        requires
            self.is_uncached(id),
            waiters.len() > 0,
        ensures
            ({
                let pending = self.requested_by_all(id, waiters).0;
                let done = pending.completed(id, outcome);
                &&& pending.waiters(id) == waiters
                &&& outcome matches Ok(chart) ==> done.charts.contains_key(id) && done.charts[id]
                    == chart && done.requested(id, next) == (done, ChartStep::Ready)
                &&& outcome is Err ==> done.is_uncached(id) && done.charts == self.charts
                    && done.ratings == self.ratings && done.requested(id, next).1
                    == ChartStep::Start
            }),
    {
        self.lemma_one_fetch_for_all(id, waiters);
        let pending = self.requested_by_all(id, waiters).0;
        let done = pending.completed(id, outcome);
        assert(pending.waiting.remove(id) =~= self.waiting.remove(id));
    }

    /// A rating is kept once: what was handed in first is what every later
    /// reader sees, whatever is handed in afterwards.
    pub proof fn lemma_rating_kept_once(
        self,
        id: u64,
        mode: Mode,
        mods: Mods,
        first: PerformanceInfo,
        second: PerformanceInfo,
    )
        requires
            self.charts.contains_key(id),
            self.rated(id, mode, mods) is None,
        ensures
            self.recorded(id, mode, mods, first).rated(id, mode, mods) == Some(first),
            self.recorded(id, mode, mods, first).recorded(id, mode, mods, second)
                == self.recorded(id, mode, mods, first),
    {
    }

    /// The cache after `clear`: no chart and no rating is kept. Fetches that
    /// are under way go on, and their callers keep waiting.
    pub open spec fn cleared(self) -> DifficultyView<C> {
        DifficultyView { charts: Map::empty(), ratings: Map::empty(), waiting: self.waiting }
    }
}

impl<C> BeatmapCache<C> {
    pub fn new() -> (cache: BeatmapCache<C>)
        ensures
            cache@ == DifficultyView::<C>::empty(),
    {
        let cache = BeatmapCache { charts: HashMap::new(), waiting: HashMap::new() };
        proof {
            assert(cache@.charts =~= Map::<u64, C>::empty());
            assert(cache@.ratings =~= Map::<(u64, Mode, Mods), PerformanceInfo>::empty());
            assert(cache@.waiting =~= Map::<u64, Seq<u64>>::empty());
        }
        cache
    }

    /// Asks for the chart of `id` on behalf of `waiter`.
    pub fn request_chart(&mut self, id: u64, waiter: u64) -> (step: ChartStep)
        ensures
            (final(self)@, step) == old(self)@.requested(id, waiter),
    {
        if self.charts.contains_key(&id) {
            return ChartStep::Ready;
        }
        match self.waiting.remove(&id) {
            Some(mut waiters) => {
                let ghost before = waiters@;
                waiters.push(waiter);
                self.waiting.insert(id, waiters);
                proof {
                    assert(self@.waiting =~= old(self)@.waiting.insert(id, before.push(waiter)));
                    assert(self@.charts =~= old(self)@.charts);
                    assert(self@.ratings =~= old(self)@.ratings);
                }
                ChartStep::Wait
            },
            None => {
                let mut waiters: Vec<u64> = Vec::new();
                waiters.push(waiter);
                self.waiting.insert(id, waiters);
                proof {
                    assert(waiters@ =~= seq![waiter]);
                    assert(self@.waiting =~= old(self)@.waiting.insert(id, seq![waiter]));
                    assert(self@.charts =~= old(self)@.charts);
                    assert(self@.ratings =~= old(self)@.ratings);
                }
                ChartStep::Start
            },
        }
    }

    /// The chart of `id`, if it is kept.
    pub fn get_chart(&self, id: u64) -> (chart: Option<&C>)
        ensures
            chart is Some == self@.charts.contains_key(id),
            chart matches Some(c) ==> *c == self@.charts[id],
    {
        match self.charts.get(&id) {
            Some(entry) => Some(&entry.chart),
            None => None,
        }
    }

    /// Ends the fetch of the chart of `id` with `outcome`, and hands back the
    /// callers to wake with that outcome: all that asked since the fetch
    /// began, in the order in which they asked.
    pub fn complete_chart(&mut self, id: u64, outcome: Result<C, ChartError>) -> (woken: Vec<u64>)
        ensures
            final(self)@ == old(self)@.completed(id, outcome),
            woken@ == old(self)@.waiters(id),
    {
        let woken = match self.waiting.remove(&id) {
            Some(waiters) => waiters,
            None => Vec::new(),
        };
        match outcome {
            Ok(chart) => {
                self.charts.insert(id, Entry { chart, ratings: HashMap::new() });
                proof {
                    let after = old(self)@.completed(id, outcome);
                    assert(self@.charts =~= after.charts);
                    assert(self@.ratings =~= after.ratings);
                    assert(self@.waiting =~= after.waiting);
                }
            },
            Err(_) => {
                proof {
                    let after = old(self)@.completed(id, outcome);
                    assert(self@.charts =~= after.charts);
                    assert(self@.ratings =~= after.ratings);
                    assert(self@.waiting =~= after.waiting);
                }
            },
        }
        woken
    }

    /// The rating kept for the chart of `id` under `mode` and `mods`.
    pub fn rate(&self, id: u64, mode: Mode, mods: Mods) -> (info: Option<PerformanceInfo>)
        ensures
            info == self@.rated(id, mode, mods),
    {
        match self.charts.get(&id) {
            Some(entry) => match entry.ratings.get(&rating_key_of(mode, mods)) {
                Some(info) => Some(*info),
                None => None,
            },
            None => None,
        }
    }

    /// Hands in the rating computed from the chart of `id` under `mode` and
    /// `mods`. A rating is kept once: one that is already there stays.
    pub fn record_rating(&mut self, id: u64, mode: Mode, mods: Mods, info: PerformanceInfo)
        ensures
            final(self)@ == old(self)@.recorded(id, mode, mods, info),
    {
        let key = rating_key_of(mode, mods);
        match self.charts.remove(&id) {
            Some(mut entry) => {
                let ghost kept = entry.ratings@;
                if !entry.ratings.contains_key(&key) {
                    entry.ratings.insert(key, info);
                }
                self.charts.insert(id, entry);
                proof {
                    let after = old(self)@.recorded(id, mode, mods, info);
                    assert forall|k: (u64, Mode, Mods)|
                        k != (id, mode, mods) && k.0 == id implies rating_key(k.1, k.2)
                        != key by {
                        if rating_key(k.1, k.2) == key {
                            lemma_rating_key_injective(k.1, k.2, mode, mods);
                        }
                    }
                    assert(self@.charts =~= after.charts);
                    assert(self@.ratings =~= after.ratings);
                    assert(self@.waiting =~= after.waiting);
                }
            },
            None => {
                proof {
                    assert(self@.charts =~= old(self)@.charts);
                    assert(self@.ratings =~= old(self)@.ratings);
                    assert(self@.waiting =~= old(self)@.waiting);
                }
            },
        }
    }

    /// The rating of the chart of `id` under `mode` and `mods`: the one that
    /// is kept, else the one that `compute` gives for the chart, which is
    /// then kept. `compute` is called once at most, and not at all where a
    /// rating is kept or the chart is not. There is no rating without the
    /// chart.
    pub fn rate_with<F: FnOnce(&C) -> PerformanceInfo>(
        &mut self,
        id: u64,
        mode: Mode,
        mods: Mods,
        compute: F,
    ) -> (info: Option<PerformanceInfo>)
        requires
            old(self)@.charts.contains_key(id) && old(self)@.rated(id, mode, mods) is None
                ==> compute.requires((&old(self)@.charts[id],)),
        ensures
            (match old(self)@.rated(id, mode, mods) {
                Some(kept) => info == Some(kept) && final(self)@ == old(self)@,
                None => if old(self)@.charts.contains_key(id) {
                    exists|computed: PerformanceInfo|
                        compute.ensures((&old(self)@.charts[id],), computed) && info == Some(
                            computed,
                        ) && final(self)@ == old(self)@.recorded(id, mode, mods, computed)
                } else {
                    info is None && final(self)@ == old(self)@
                },
            }),
    {
        let key = rating_key_of(mode, mods);
        match self.charts.remove(&id) {
            Some(mut entry) => {
                let kept = match entry.ratings.get(&key) {
                    Some(info) => Some(*info),
                    None => None,
                };
                let info = match kept {
                    Some(info) => info,
                    None => {
                        let computed = compute(&entry.chart);
                        entry.ratings.insert(key, computed);
                        computed
                    },
                };
                self.charts.insert(id, entry);
                proof {
                    let after = if kept is Some {
                        old(self)@
                    } else {
                        old(self)@.recorded(id, mode, mods, info)
                    };
                    assert forall|k: (u64, Mode, Mods)|
                        k != (id, mode, mods) && k.0 == id implies rating_key(k.1, k.2)
                        != key by {
                        if rating_key(k.1, k.2) == key {
                            lemma_rating_key_injective(k.1, k.2, mode, mods);
                        }
                    }
                    assert(self@.charts =~= after.charts);
                    assert(self@.ratings =~= after.ratings);
                    assert(self@.waiting =~= after.waiting);
                }
                Some(info)
            },
            None => {
                proof {
                    assert(self@.charts =~= old(self)@.charts);
                    assert(self@.ratings =~= old(self)@.ratings);
                    assert(self@.waiting =~= old(self)@.waiting);
                }
                None
            },
        }
    }

    /// Drops every chart and every rating. Fetches that are under way are
    /// left alone.
    pub fn clear(&mut self)
        ensures
            final(self)@ == old(self)@.cleared(),
    {
        self.charts.clear();
        proof {
            let after = old(self)@.cleared();
            assert(self@.charts =~= after.charts);
            assert(self@.ratings =~= after.ratings);
            assert(self@.waiting =~= after.waiting);
        }
    }
}

} // verus!
