use std::collections::HashMap;
use vstd::prelude::*;
use crate::mode::Mode;
use crate::models::Beatmap;

verus! {

broadcast use vstd::std_specs::hash::group_hash_axioms;

/// Why a cache could not give what was asked for.
#[derive(Clone, Copy, Debug, PartialEq, Eq, Structural)]
pub enum CacheError {
    /// The remote service has no such entity.
    NotFound,
    /// The remote service could not be reached or understood. Nothing is
    /// kept of such an answer, so asking again may succeed.
    UpstreamError,
}

/// What the remote service answered.
#[derive(Debug, PartialEq, Eq)]
pub enum Fetched<T> {
    Found(T),
    Missing,
    Failed,
}

/// What a cache says to a question.
#[derive(Debug, PartialEq, Eq)]
pub enum Lookup<T, R> {
    /// The answer is kept; nothing is to be fetched.
    Hit(T),
    /// The answer is not kept; this is the one request to make of the remote
    /// service.
    Miss(R),
}

/// The request for one beatmap, in `mode` where one is given.
#[derive(Clone, Copy, Debug, PartialEq, Eq, Structural)]
pub struct BeatmapRequest {
    pub id: u64,
    pub mode: Option<Mode>,
}

/// What the cache keeps: beatmaps by their number and the mode asked for, and
/// beatmap sets by their number.
pub struct MetaView {
    pub beatmaps: Map<(u64, Option<Mode>), Beatmap>,
    pub sets: Map<u64, Seq<Beatmap>>,
}

/// The metadata of beatmaps and beatmap sets, as fetched.
pub struct BeatmapMetaCache {
    rows: HashMap<u128, Beatmap>,
    sets: HashMap<u64, Vec<Beatmap>>,
}

/// The number under which the beatmap `id` asked for in `mode` is kept.
pub open spec fn row_key(id: u64, mode: Option<Mode>) -> u128 {
    (id * 8 + match mode {
        None => 0,
        Some(m) => m.index() + 1,
    }) as u128
}

proof fn lemma_row_key_injective(a: u64, m: Option<Mode>, b: u64, n: Option<Mode>)
    requires
        row_key(a, m) == row_key(b, n),
    ensures
        a == b,
        m == n,
{
}

fn row_key_of(id: u64, mode: Option<Mode>) -> (key: u128)
    ensures
        key == row_key(id, mode),
{
    let slot: u128 = match mode {
        None => 0,
        Some(Mode::Std) => 1,
        Some(Mode::Taiko) => 2,
        Some(Mode::Catch) => 3,
        Some(Mode::Mania) => 4,
    };
    id as u128 * 8 + slot
}

impl View for BeatmapMetaCache {
    type V = MetaView;

    closed spec fn view(&self) -> MetaView {
        MetaView {
            beatmaps: Map::new(
                |k: (u64, Option<Mode>)| self.rows@.contains_key(row_key(k.0, k.1)),
                |k: (u64, Option<Mode>)| self.rows@[row_key(k.0, k.1)],
            ),
            sets: Map::new(|id: u64| self.sets@.contains_key(id), |id: u64| self.sets@[id]@),
        }
    }
}

impl MetaView {
    pub open spec fn empty() -> MetaView {
        MetaView { beatmaps: Map::empty(), sets: Map::empty() }
    }

    /// What the cache says when asked for the beatmap `id` in `mode`.
    pub open spec fn lookup(self, id: u64, mode: Option<Mode>) -> Lookup<
        Beatmap,
        BeatmapRequest,
    > {
        if self.beatmaps.contains_key((id, mode)) {
            Lookup::Hit(self.beatmaps[(id, mode)])
        } else {
            Lookup::Miss(BeatmapRequest { id, mode })
        }
    }

    /// The cache and the result once the remote service has answered
    /// `request`: a beatmap that was found is kept and returned; of any other
    /// answer nothing is kept.
    pub open spec fn completed(self, request: BeatmapRequest, answer: Fetched<Beatmap>) -> (
        MetaView,
        Result<Beatmap, CacheError>,
    ) {
        match answer {
            Fetched::Found(beatmap) => (
                MetaView {
                    beatmaps: self.beatmaps.insert((request.id, request.mode), beatmap),
                    ..self
                },
                Ok(beatmap),
            ),
            Fetched::Missing => (self, Err(CacheError::NotFound)),
            Fetched::Failed => (self, Err(CacheError::UpstreamError)),
        }
    }

    /// What a whole fetch of the beatmap `id` in `mode` does, a lookup and
    /// on a miss the request and its completion, where the remote service
    /// answers a request `r` with `remote(r)`: the cache afterwards, the
    /// result, and the number of requests made of the remote service.
    pub open spec fn fetched(
        self,
        remote: spec_fn(BeatmapRequest) -> Fetched<Beatmap>,
        id: u64,
        mode: Option<Mode>,
    ) -> (MetaView, Result<Beatmap, CacheError>, nat) {
        match self.lookup(id, mode) {
            Lookup::Hit(beatmap) => (self, Ok(beatmap), 0),
            Lookup::Miss(request) => {
                let (cache, result) = self.completed(request, remote(request));
                (cache, result, 1)
            },
        }
    }

    /// Whether `later` keeps every beatmap that `self` keeps.
    pub open spec fn kept_by(self, later: MetaView) -> bool {
        forall|k: (u64, Option<Mode>)| #[trigger]
            self.beatmaps.contains_key(k) ==> later.beatmaps.contains_key(k) && later.beatmaps[k]
                == self.beatmaps[k]
    }

    /// A beatmap that was fetched is fetched from the cache the next time:
    /// the second fetch makes no request of the remote service, whatever that
    /// service would answer by then, and gives the same beatmap.
    pub proof fn lemma_second_fetch_hits(
        self,
        remote: spec_fn(BeatmapRequest) -> Fetched<Beatmap>,
        later: spec_fn(BeatmapRequest) -> Fetched<Beatmap>,
        id: u64,
        mode: Option<Mode>,
    )
        requires
            self.fetched(remote, id, mode).1 is Ok,
        ensures
            ({
                let first = self.fetched(remote, id, mode);
                let second = first.0.fetched(later, id, mode);
                &&& second.2 == 0
                &&& second.1 == first.1
                &&& second.0 == first.0
            }),
    {
    }

    /// No fetch drops a beatmap that is kept: fetches of other beatmaps may
    /// come between two fetches of one, and the second still hits.
    pub proof fn lemma_fetch_keeps(
        self,
        remote: spec_fn(BeatmapRequest) -> Fetched<Beatmap>,
        id: u64,
        mode: Option<Mode>,
    )
        ensures
            self.kept_by(self.fetched(remote, id, mode).0),
    {
    }

    /// Right after a `clear` every fetch asks the remote service, once.
    pub proof fn lemma_fetch_after_clear(
        remote: spec_fn(BeatmapRequest) -> Fetched<Beatmap>,
        id: u64,
        mode: Option<Mode>,
    )
        ensures
            MetaView::empty().fetched(remote, id, mode).2 == 1,
            MetaView::empty().fetched(remote, id, mode).1 == MetaView::empty().completed(
                BeatmapRequest { id, mode },
                remote(BeatmapRequest { id, mode }),
            ).1,
    {
    }

    /// An answer that brings no beatmap leaves the cache as it was: a
    /// failure is never kept.
    pub proof fn lemma_failure_not_kept(self, request: BeatmapRequest, answer: Fetched<Beatmap>)
        requires
            !(answer is Found),
        ensures
            self.completed(request, answer).0 == self,
            self.completed(request, answer).1 is Err,
    {
    }

    /// What the cache says when asked for the beatmap set `id`.
    pub open spec fn lookup_set(self, id: u64) -> Lookup<Seq<Beatmap>, u64> {
        if self.sets.contains_key(id) {
            Lookup::Hit(self.sets[id])
        } else {
            Lookup::Miss(id)
        }
    }

    /// The cache and the result once the remote service has answered the
    /// request for the set `id`. A set without beatmaps is no set.
    pub open spec fn completed_set(self, id: u64, answer: Fetched<Seq<Beatmap>>) -> (
        MetaView,
        Result<Seq<Beatmap>, CacheError>,
    ) {
        match answer {
            Fetched::Found(beatmaps) => if beatmaps.len() == 0 {
                (self, Err(CacheError::NotFound))
            } else {
                (MetaView { sets: self.sets.insert(id, beatmaps), ..self }, Ok(beatmaps))
            },
            Fetched::Missing => (self, Err(CacheError::NotFound)),
            Fetched::Failed => (self, Err(CacheError::UpstreamError)),
        }
    }
}

/// An answer about a set, with the beatmaps as a sequence.
pub open spec fn set_answer(answer: Fetched<Vec<Beatmap>>) -> Fetched<Seq<Beatmap>> {
    match answer {
        Fetched::Found(beatmaps) => Fetched::Found(beatmaps@),
        Fetched::Missing => Fetched::Missing,
        Fetched::Failed => Fetched::Failed,
    }
}

/// A result about a set, with the beatmaps as a sequence.
pub open spec fn set_result(r: Result<Vec<Beatmap>, CacheError>) -> Result<
    Seq<Beatmap>,
    CacheError,
> {
    match r {
        Ok(beatmaps) => Ok(beatmaps@),
        Err(e) => Err(e),
    }
}

impl BeatmapMetaCache {
    pub fn new() -> (cache: BeatmapMetaCache)
        ensures
            cache@ == MetaView::empty(),
    {
        let cache = BeatmapMetaCache { rows: HashMap::new(), sets: HashMap::new() };
        assert(cache@.beatmaps =~= Map::<(u64, Option<Mode>), Beatmap>::empty());
        assert(cache@.sets =~= Map::<u64, Seq<Beatmap>>::empty());
        cache
    }

    /// Looks the beatmap `id` up, in `mode` where one is given. A miss hands
    /// back the request to make of the remote service; `complete_beatmap`
    /// takes its answer.
    pub fn get_beatmap(&self, id: u64, mode: Option<Mode>) -> (found: Lookup<
        Beatmap,
        BeatmapRequest,
    >)
        ensures
            found == self@.lookup(id, mode),
    {
        let key = row_key_of(id, mode);
        match self.rows.get(&key) {
            Some(beatmap) => Lookup::Hit(*beatmap),
            None => Lookup::Miss(BeatmapRequest { id, mode }),
        }
    }

    /// Takes the remote service's answer to `request`.
    pub fn complete_beatmap(&mut self, request: BeatmapRequest, answer: Fetched<Beatmap>) -> (r:
        Result<Beatmap, CacheError>)
        ensures
            (final(self)@, r) == old(self)@.completed(request, answer),
    {
        match answer {
            Fetched::Found(beatmap) => {
                let key = row_key_of(request.id, request.mode);
                self.rows.insert(key, beatmap);
                proof {
                    assert forall|k: (u64, Option<Mode>)|
                        k != (request.id, request.mode) implies row_key(k.0, k.1) != key by {
                        if row_key(k.0, k.1) == key {
                            lemma_row_key_injective(k.0, k.1, request.id, request.mode);
                        }
                    }
                    assert(self@.beatmaps =~= old(self)@.beatmaps.insert(
                        (request.id, request.mode),
                        beatmap,
                    ));
                    assert(self@.sets =~= old(self)@.sets);
                }
                Ok(beatmap)
            },
            Fetched::Missing => Err(CacheError::NotFound),
            Fetched::Failed => Err(CacheError::UpstreamError),
        }
    }

    /// Gets the beatmap `id`, in `mode` where one is given: from the cache
    /// where it is kept, else from `remote`, which is called once with the
    /// request and whose answer is taken as by `complete_beatmap`. On a hit
    /// `remote` is not called, and need not be callable.
    pub fn fetch_beatmap<F: FnOnce(BeatmapRequest) -> Fetched<Beatmap>>(
        &mut self,
        id: u64,
        mode: Option<Mode>,
        remote: F,
    ) -> (r: Result<Beatmap, CacheError>)
        requires
            old(self)@.lookup(id, mode) is Miss ==> remote.requires((BeatmapRequest { id, mode },)),
        ensures
            (match old(self)@.lookup(id, mode) {
                Lookup::Hit(beatmap) => final(self)@ == old(self)@ && r == Ok::<
                    Beatmap,
                    CacheError,
                >(beatmap),
                Lookup::Miss(request) => exists|answer: Fetched<Beatmap>|
                    remote.ensures((request,), answer) && (final(self)@, r) == old(self)@.completed(
                        request,
                        answer,
                    ),
            }),
    {
        match self.get_beatmap(id, mode) {
            Lookup::Hit(beatmap) => Ok(beatmap),
            Lookup::Miss(request) => {
                let answer = remote(request);
                self.complete_beatmap(request, answer)
            },
        }
    }

    /// Looks the beatmap set `id` up. A miss hands back the number of the set
    /// to ask the remote service for; `complete_beatmapset` takes its answer.
    pub fn get_beatmapset(&self, id: u64) -> (found: Lookup<Vec<Beatmap>, u64>)
        ensures
            (match found {
                Lookup::Hit(beatmaps) => self@.lookup_set(id) == Lookup::<
                    Seq<Beatmap>,
                    u64,
                >::Hit(beatmaps@),
                Lookup::Miss(request) => self@.lookup_set(id) == Lookup::<
                    Seq<Beatmap>,
                    u64,
                >::Miss(request),
            }),
    {
        match self.sets.get(&id) {
            Some(beatmaps) => {
                let copy = beatmaps.clone();
                assert(copy@ =~= beatmaps@);
                Lookup::Hit(copy)
            },
            None => Lookup::Miss(id),
        }
    }

    /// Takes the remote service's answer to the request for the set `id`.
    pub fn complete_beatmapset(&mut self, id: u64, answer: Fetched<Vec<Beatmap>>) -> (r: Result<
        Vec<Beatmap>,
        CacheError,
    >)
        ensures
            final(self)@ == old(self)@.completed_set(id, set_answer(answer)).0,
            set_result(r) == old(self)@.completed_set(id, set_answer(answer)).1,
    {
        match answer {
            Fetched::Found(beatmaps) => {
                if beatmaps.len() == 0 {
                    Err(CacheError::NotFound)
                } else {
                    let kept = beatmaps.clone();
                    assert(kept@ =~= beatmaps@);
                    self.sets.insert(id, kept);
                    proof {
                        assert(self@.sets =~= old(self)@.sets.insert(id, beatmaps@));
                        assert(self@.beatmaps =~= old(self)@.beatmaps);
                    }
                    Ok(beatmaps)
                }
            },
            Fetched::Missing => Err(CacheError::NotFound),
            Fetched::Failed => Err(CacheError::UpstreamError),
        }
    }

    /// Gets the beatmap set `id`: from the cache where it is kept, else from
    /// `remote`, which is called once with the set's number and whose answer
    /// is taken as by `complete_beatmapset`. On a hit `remote` is not called,
    /// and need not be callable.
    pub fn fetch_beatmapset<F: FnOnce(u64) -> Fetched<Vec<Beatmap>>>(
        &mut self,
        id: u64,
        remote: F,
    ) -> (r: Result<Vec<Beatmap>, CacheError>)
        requires
            old(self)@.lookup_set(id) is Miss ==> remote.requires((id,)),
        ensures
            (match old(self)@.lookup_set(id) {
                Lookup::Hit(beatmaps) => final(self)@ == old(self)@ && set_result(r) == Ok::<
                    Seq<Beatmap>,
                    CacheError,
                >(beatmaps),
                Lookup::Miss(request) => exists|answer: Fetched<Vec<Beatmap>>|
                    remote.ensures((request,), answer) && final(self)@ == old(self)@.completed_set(
                        request,
                        set_answer(answer),
                    ).0 && set_result(r) == old(self)@.completed_set(request, set_answer(answer)).1,
            }),
    {
        match self.get_beatmapset(id) {
            Lookup::Hit(beatmaps) => Ok(beatmaps),
            Lookup::Miss(request) => {
                let answer = remote(request);
                self.complete_beatmapset(request, answer)
            },
        }
    }

    /// Drops everything that is kept.
    pub fn clear(&mut self)
        ensures
            final(self)@ == MetaView::empty(),
    {
        self.rows.clear();
        self.sets.clear();
        proof {
            assert(self@.beatmaps =~= Map::<(u64, Option<Mode>), Beatmap>::empty());
            assert(self@.sets =~= Map::<u64, Seq<Beatmap>>::empty());
        }
    }
}

} // verus!
