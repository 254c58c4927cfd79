use vstd::prelude::*;
use crate::args::UsernameArg;
use crate::db::{OsuLastBeatmap, OsuSavedUsers, OsuUser};
use crate::hook::{find_short_link, first_link, ShortLink};
use crate::models::{Beatmap, BeatmapWithMode, UserID};
use crate::mods::Mods;

verus! {

/// Why a reference could not be resolved.
#[derive(Clone, Copy, Debug, PartialEq, Eq, Structural)]
pub enum ResolveError {
    /// Neither the message replied to nor the channel names a beatmap.
    NoReference,
    /// The identity has no game account linked.
    NoSavedAccount,
}

/// One piece of rich content attached to a message.
#[derive(Debug)]
pub struct Embed {
    pub description: Option<String>,
    pub fields: Vec<String>,
}

/// The message that a command replies to.
#[derive(Debug)]
pub struct Replied {
    pub content: String,
    pub embeds: Vec<Embed>,
}

/// The texts of `fields`, in order.
pub open spec fn field_texts(fields: Seq<String>) -> Seq<Seq<char>> {
    Seq::new(fields.len(), |i: int| fields[i]@)
}

/// The texts of an embed in reading order: its description, then its fields.
pub open spec fn embed_texts(e: Embed) -> Seq<Seq<char>> {
    match e.description {
        Some(d) => seq![d@] + field_texts(e.fields@),
        None => field_texts(e.fields@),
    }
}

/// The texts of the embeds, one embed after the other.
pub open spec fn embeds_texts(embeds: Seq<Embed>) -> Seq<Seq<char>>
    decreases embeds.len(),
{
    if embeds.len() == 0 {
        Seq::empty()
    } else {
        embeds_texts(embeds.drop_last()) + embed_texts(embeds.last())
    }
}

/// The texts of a message in reading order: its content, then its embeds.
pub open spec fn replied_texts(r: Replied) -> Seq<Seq<char>> {
    seq![r.content@] + embeds_texts(r.embeds@)
}

/// The first short link of the first text that holds one.
pub open spec fn first_link_of(texts: Seq<Seq<char>>) -> Option<ShortLink>
    decreases texts.len(),
{
    if texts.len() == 0 {
        None
    } else {
        match first_link(texts[0]) {
            Some(link) => Some(link),
            None => first_link_of(texts.skip(1)),
        }
    }
}

/// The link that a command refers to by the message it replies to.
pub open spec fn replied_link(replied: Option<Replied>) -> Option<ShortLink> {
    match replied {
        Some(r) => first_link_of(replied_texts(r)),
        None => None,
    }
}

/// The first link of two runs of texts is that of the first run, or else
/// that of the second.
pub proof fn lemma_first_link_of_concat(a: Seq<Seq<char>>, b: Seq<Seq<char>>)
    ensures
        (first_link_of(a + b) == match first_link_of(a) {
            Some(link) => Some(link),
            None => first_link_of(b),
        }),
    decreases a.len(),
{
    if a.len() == 0 {
        assert(a + b =~= b);
    } else {
        assert((a + b)[0] == a[0]);
        assert((a + b).skip(1) =~= a.skip(1) + b);
        lemma_first_link_of_concat(a.skip(1), b);
    }
}

proof fn lemma_first_link_of_one(t: Seq<char>)
    ensures
        first_link_of(seq![t]) == first_link(t),
{
    assert(seq![t].skip(1) =~= Seq::<Seq<char>>::empty());
    assert(first_link_of(seq![t].skip(1)) is None);
}

fn link_in_fields(fields: &Vec<String>) -> (link: Option<ShortLink>)
    ensures
        link == first_link_of(field_texts(fields@)),
{
    let ghost texts = field_texts(fields@);
    let mut i: usize = 0;
    assert(texts.take(0) =~= Seq::<Seq<char>>::empty());
    while i < fields.len()
        invariant
            i <= fields.len(),
            texts == field_texts(fields@),
            first_link_of(texts.take(i as int)) is None,
        decreases fields.len() - i,
    {
        let found = find_short_link(fields[i].as_str());
        proof {
            lemma_first_link_of_one(texts[i as int]);
            lemma_first_link_of_concat(texts.take(i as int), seq![texts[i as int]]);
            assert(texts.take(i + 1) =~= texts.take(i as int) + seq![texts[i as int]]);
        }
        if found.is_some() {
            proof {
                lemma_first_link_of_concat(texts.take(i + 1), texts.skip(i + 1));
                assert(texts =~= texts.take(i + 1) + texts.skip(i + 1));
            }
            return found;
        }
        i += 1;
    }
    assert(texts.take(fields.len() as int) =~= texts);
    None
}

fn link_in_embed(e: &Embed) -> (link: Option<ShortLink>)
    ensures
        link == first_link_of(embed_texts(*e)),
{
    match &e.description {
        Some(d) => {
            let found = find_short_link(d.as_str());
            proof {
                lemma_first_link_of_one(d@);
                lemma_first_link_of_concat(seq![d@], field_texts(e.fields@));
            }
            if found.is_some() {
                found
            } else {
                link_in_fields(&e.fields)
            }
        },
        None => link_in_fields(&e.fields),
    }
}

fn link_in_embeds(embeds: &Vec<Embed>) -> (link: Option<ShortLink>)
    ensures
        link == first_link_of(embeds_texts(embeds@)),
{
    let mut i: usize = 0;
    assert(embeds@.take(0) =~= Seq::<Embed>::empty());
    while i < embeds.len()
        invariant
            i <= embeds.len(),
            first_link_of(embeds_texts(embeds@.take(i as int))) is None,
        decreases embeds.len() - i,
    {
        let found = link_in_embed(&embeds[i]);
        proof {
            assert(embeds@.take(i + 1).drop_last() =~= embeds@.take(i as int));
            lemma_first_link_of_concat(
                embeds_texts(embeds@.take(i as int)),
                embed_texts(embeds@[i as int]),
            );
        }
        if found.is_some() {
            proof {
                lemma_rest_of_embeds(embeds@, i + 1);
                lemma_first_link_of_concat(
                    embeds_texts(embeds@.take(i + 1)),
                    embeds_texts(embeds@.skip(i + 1)),
                );
            }
            return found;
        }
        i += 1;
    }
    assert(embeds@.take(embeds.len() as int) =~= embeds@);
    None
}

/// The texts of embeds are those of the first `k` of them, then those of
/// the rest.
proof fn lemma_rest_of_embeds(embeds: Seq<Embed>, k: int)
    requires
        0 <= k <= embeds.len(),
    ensures
        embeds_texts(embeds) == embeds_texts(embeds.take(k)) + embeds_texts(embeds.skip(k)),
    decreases embeds.len(),
{
    if k == embeds.len() {
        assert(embeds.take(k) =~= embeds);
        assert(embeds.skip(k) =~= Seq::<Embed>::empty());
        assert(embeds_texts(embeds) + Seq::<Seq<char>>::empty() =~= embeds_texts(embeds));
    } else {
        lemma_rest_of_embeds(embeds.drop_last(), k);
        assert(embeds.drop_last().take(k) =~= embeds.take(k));
        assert(embeds.drop_last().skip(k) =~= embeds.skip(k).drop_last());
        assert(embeds.skip(k).last() == embeds.last());
        assert((embeds_texts(embeds.take(k)) + embeds_texts(embeds.skip(k).drop_last()))
            + embed_texts(embeds.last()) =~= embeds_texts(embeds.take(k)) + (embeds_texts(
            embeds.skip(k).drop_last(),
        ) + embed_texts(embeds.last())));
    }
}

/// Finds the beatmap link that a command refers to by the message it replies
/// to: the first link of the message's content, or else of its embeds, each
/// read description first and fields after. A command that replies to nothing
/// refers to no link.
pub fn reference_link(replied: Option<&Replied>) -> (link: Option<ShortLink>)
    ensures
        (link == match replied {
            Some(r) => first_link_of(replied_texts(*r)),
            None => None,
        }),
{
    match replied {
        Some(r) => {
            let found = find_short_link(r.content.as_str());
            proof {
                lemma_first_link_of_one(r.content@);
                lemma_first_link_of_concat(seq![r.content@], embeds_texts(r.embeds@));
            }
            if found.is_some() {
                found
            } else {
                link_in_embeds(&r.embeds)
            }
        },
        None => None,
    }
}

/// The beatmap that a command in `channel` refers to, and the slots
/// afterwards. `fetched` is the link of the message replied to together with
/// the beatmap that the remote service gave for it, where both were had: that
/// beatmap is the reference, in the link's mode or else its own, and becomes
/// the channel's last beatmap. Otherwise the channel's last beatmap is the
/// reference, and there is none where the channel has none.
pub open spec fn loaded(
    slots: Map<u64, BeatmapWithMode>,
    channel: u64,
    fetched: Option<(ShortLink, Beatmap)>,
) -> (Map<u64, BeatmapWithMode>, Result<(BeatmapWithMode, Option<Mods>), ResolveError>) {
    match fetched {
        Some((link, beatmap)) => {
            let mode = match link.mode {
                Some(mode) => mode,
                None => beatmap.mode,
            };
            (
                slots.insert(channel, BeatmapWithMode(beatmap, mode)),
                Ok((BeatmapWithMode(beatmap, mode), link.mods)),
            )
        },
        None => match OsuLastBeatmap::slot(slots, channel) {
            Some(last) => (slots, Ok((last, None))),
            None => (slots, Err(ResolveError::NoReference)),
        },
    }
}

/// Resolves the beatmap that a command in `channel` refers to.
pub fn load_beatmap(
    last_beatmaps: &mut OsuLastBeatmap,
    channel: u64,
    fetched: Option<(ShortLink, Beatmap)>,
) -> (r: Result<(BeatmapWithMode, Option<Mods>), ResolveError>)
    ensures
        (final(last_beatmaps)@, r) == loaded(old(last_beatmaps)@, channel, fetched),
{
    match fetched {
        Some((link, beatmap)) => {
            let mode = match link.mode {
                Some(mode) => mode,
                None => beatmap.mode,
            };
            last_beatmaps.put(channel, beatmap, mode);
            Ok((BeatmapWithMode(beatmap, mode), link.mods))
        },
        None => match last_beatmaps.get(channel) {
            Some(last) => Ok((last, None)),
            None => Err(ResolveError::NoReference),
        },
    }
}

/// In a channel where no beatmap was resolved yet, a command that replies to
/// nothing has no reference, and the channel still has none afterwards.
pub proof fn lemma_fresh_channel_has_no_reference(slots: Map<u64, BeatmapWithMode>, channel: u64)
    requires
        !slots.contains_key(channel),
    ensures
        replied_link(None) is None,
        loaded(slots, channel, None) == (
            slots,
            Err::<(BeatmapWithMode, Option<Mods>), ResolveError>(ResolveError::NoReference),
        ),
{
}

/// A beatmap that was resolved in a channel is the reference of the commands
/// that follow there without a link of their own.
pub proof fn lemma_follow_up_inherits(
    slots: Map<u64, BeatmapWithMode>,
    channel: u64,
    link: ShortLink,
    beatmap: Beatmap,
)
    ensures
        ({
            let (after, first) = loaded(slots, channel, Some((link, beatmap)));
            &&& first is Ok
            &&& loaded(after, channel, None) == (
                after,
                Ok::<(BeatmapWithMode, Option<Mods>), ResolveError>((first->Ok_0.0, None)),
            )
        }),
{
}

/// Whom a command is about, as the saved links `saved` resolve it: a mention
/// names the account linked to the mentioned identity; a free-text token
/// names the player of that number or name; with no argument the account
/// linked to `author` is meant.
pub open spec fn resolves_to(
    arg: Option<UsernameArg>,
    saved: Map<u64, OsuUser>,
    author: u64,
    r: Result<UserID, ResolveError>,
) -> bool {
    match arg {
        Some(UsernameArg::Raw(token)) => r matches Ok(id) && id.names(token@),
        Some(UsernameArg::Tagged(identity)) => r == linked_account(saved, identity),
        None => r == linked_account(saved, author),
    }
}

/// The account linked to `identity`.
pub open spec fn linked_account(saved: Map<u64, OsuUser>, identity: u64) -> Result<
    UserID,
    ResolveError,
> {
    if saved.contains_key(identity) {
        Ok(UserID::ID(saved[identity].id))
    } else {
        Err(ResolveError::NoSavedAccount)
    }
}

fn account_of(saved_users: &OsuSavedUsers, identity: u64) -> (r: Result<UserID, ResolveError>)
    ensures
        r == linked_account(saved_users@, identity),
{
    match saved_users.by_user_id(identity) {
        Some(u) => Ok(UserID::ID(u.id)),
        None => Err(ResolveError::NoSavedAccount),
    }
}

/// Resolves whom a command is about.
pub fn to_user_id_query(s: Option<UsernameArg>, saved_users: &OsuSavedUsers, author: u64) -> (r:
    Result<UserID, ResolveError>)
    ensures
        resolves_to(s, saved_users@, author, r),
{
    match s {
        Some(UsernameArg::Raw(token)) => Ok(UserID::from_string(token)),
        Some(UsernameArg::Tagged(identity)) => account_of(saved_users, identity),
        None => account_of(saved_users, author),
    }
}

} // verus!
