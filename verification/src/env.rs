use vstd::prelude::*;
use crate::beatmap_cache::{BeatmapMetaCache, MetaView};
use crate::db::{OsuLastBeatmap, OsuSavedUsers, OsuUser, OsuUserBests};
use crate::link::LinkAction;
use crate::mode::Mode;
use crate::models::{BeatmapWithMode, Score, User};
use crate::oppai_cache::{BeatmapCache, DifficultyView};
use crate::text::{chars_of, is_word};

verus! {

/// What the commands work on: the stores and the caches. `C` is the type of
/// a parsed chart.
pub struct OsuEnv<C> {
    pub saved_users: OsuSavedUsers,
    pub last_beatmaps: OsuLastBeatmap,
    pub user_bests: OsuUserBests,
    pub oppai: BeatmapCache<C>,
    pub beatmaps: BeatmapMetaCache,
}

/// `Utc::now` of chrono, as milliseconds since the Unix epoch
/// (`DateTime::timestamp_millis`). Nothing is claimed of the reading.
/// `Utc::now` panics on a machine whose clock stands before 1970.
#[verifier::external_body]
fn now_millis() -> (now: i64) {
    chrono::Utc::now().timestamp_millis()
}

impl<C> OsuEnv<C> {
    /// Whether nothing but the saved links differs between the two.
    pub open spec fn same_but_links(self, other: OsuEnv<C>) -> bool {
        &&& self.last_beatmaps@ == other.last_beatmaps@
        &&& self.user_bests@ == other.user_bests@
        &&& self.oppai@ == other.oppai@
        &&& self.beatmaps@ == other.beatmaps@
    }

    /// Whether `self` is `before` with `target` linked anew to `user`, at
    /// some time.
    pub open spec fn has_linked(self, before: OsuEnv<C>, target: u64, user: User) -> bool {
        &&& self.same_but_links(before)
        &&& self.saved_users@.contains_key(target)
        &&& self.saved_users@ == before.saved_users@.insert(target, self.saved_users@[target])
        &&& exists|now: i64| self.saved_users@[target].is_fresh(target, user, now)
    }

    /// Links `target` to `user` as of `now`, in place of the link that
    /// `target` had.
    pub fn link_at(&mut self, target: u64, user: User, now: i64)
        ensures
            final(self).same_but_links(*old(self)),
            final(self).saved_users@.contains_key(target),
            final(self).saved_users@ == old(self).saved_users@.insert(
                target,
                final(self).saved_users@[target],
            ),
            final(self).saved_users@[target].is_fresh(target, user, now),
    {
        self.saved_users.new_user(OsuUser::fresh(target, user, now));
    }

    /// Drops what the beatmap cache keeps and, where `difficulty_too` is
    /// set, the charts and ratings as well. The stores are left alone.
    pub fn clear_all(&mut self, difficulty_too: bool)
        ensures
            final(self).beatmaps@ == MetaView::empty(),
            (final(self).oppai@ == if difficulty_too {
                old(self).oppai@.cleared()
            } else {
                old(self).oppai@
            }),
            final(self).saved_users@ == old(self).saved_users@,
            final(self).last_beatmaps@ == old(self).last_beatmaps@,
            final(self).user_bests@ == old(self).user_bests@,
    {
        self.beatmaps.clear();
        if difficulty_too {
            self.oppai.clear();
        }
    }
}

/// An environment in which nothing is stored or cached.
pub fn setup<C>() -> (env: OsuEnv<C>)
    ensures
        env.saved_users@ == Map::<u64, OsuUser>::empty(),
        env.last_beatmaps@ == Map::<u64, BeatmapWithMode>::empty(),
        env.user_bests@ == Map::<(u64, Mode), Seq<Score>>::empty(),
        env.oppai@ == DifficultyView::<C>::empty(),
        env.beatmaps@ == MetaView::empty(),
{
    OsuEnv {
        saved_users: OsuSavedUsers::new(),
        last_beatmaps: OsuLastBeatmap::new(),
        user_bests: OsuUserBests::new(),
        oppai: BeatmapCache::new(),
        beatmaps: BeatmapMetaCache::new(),
    }
}

/// Links the chat identity `target` to the game account `user`, as of now.
pub fn add_user<C>(target: u64, user: User, env: &mut OsuEnv<C>)
    ensures
        final(env).has_linked(*old(env), target, user),
{
    let now = now_millis();
    env.link_at(target, user, now);
}

/// Links `target` to the account that was found for the name given, if one
/// was. Says whether it did.
pub fn forcesave<C>(env: &mut OsuEnv<C>, target: u64, found: Option<User>) -> (saved: bool)
    ensures
        saved == found is Some,
        found matches Some(user) ==> final(env).has_linked(*old(env), target, user),
        found is None ==> final(env).saved_users@ == old(env).saved_users@,
        found is None ==> final(env).same_but_links(*old(env)),
{
    match found {
        Some(user) => {
            add_user(target, user, env);
            true
        },
        None => false,
    }
}

/// Carries out what a step of a linking attempt asks of the saved links:
/// where the step confirmed the attempt and `user` is the account that was
/// confirmed, the identity is linked to it; no other step writes anything.
/// Says whether a link was written.
pub fn apply_link<C>(env: &mut OsuEnv<C>, action: LinkAction, user: User) -> (written: bool)
    ensures
        written == (action matches LinkAction::Save { account, .. } && account == user.id),
        (action matches LinkAction::Save { identity, account } ==> (account == user.id
            ==> final(env).has_linked(*old(env), identity, user))),
        !written ==> final(env).saved_users@ == old(env).saved_users@,
        !written ==> final(env).same_but_links(*old(env)),
{
    match action {
        LinkAction::Save { identity, account } => {
            if account == user.id {
                add_user(identity, user, env);
                true
            } else {
                false
            }
        },
        _ => false,
    }
}

/// Clears the beatmap cache, and the charts and ratings too where the rest
/// of the command line is `--oppai`.
pub fn clean_cache<C>(env: &mut OsuEnv<C>, remains: Option<&str>)
    ensures
        final(env).beatmaps@ == MetaView::empty(),
        (final(env).oppai@ == if remains matches Some(rest) && rest@ == "--oppai"@ {
            old(env).oppai@.cleared()
        } else {
            old(env).oppai@
        }),
        final(env).saved_users@ == old(env).saved_users@,
        final(env).last_beatmaps@ == old(env).last_beatmaps@,
        final(env).user_bests@ == old(env).user_bests@,
{
    let oppai = match remains {
        Some(rest) => {
            let v = chars_of(rest);
            is_word(&v, "--oppai")
        },
        None => false,
    };
    env.clear_all(oppai);
}

} // verus!
