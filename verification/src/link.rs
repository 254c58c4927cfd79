use rand::seq::IteratorRandom;
use vstd::prelude::*;
use crate::mode::Mode;
use crate::models::Score;

verus! {

/// How long a challenge waits for its confirmation, in milliseconds.
pub const WINDOW_MILLIS: u64 = 300_000;

/// The play that the requesting identity is asked to reproduce.
#[derive(Clone, Copy, Debug, PartialEq, Eq, Structural)]
pub struct Challenge {
    pub beatmap_id: u64,
    pub mode: Mode,
}

/// Where one attempt to link a chat identity to a game account stands.
#[derive(Clone, Copy, Debug, PartialEq, Eq, Structural)]
pub enum LinkState {
    /// The recent plays of `account` in `mode` have been asked for; nothing
    /// is linked yet.
    Offered { identity: u64, account: u64, mode: Mode },
    /// The challenge was put at time `started`; a confirmation counts while
    /// the window that began then is open.
    AwaitingConfirmation { identity: u64, account: u64, challenge: Challenge, started: u64 },
    /// The identity reproduced the challenge in time: it is linked to the
    /// account.
    Confirmed { identity: u64, account: u64 },
    /// The window closed without a confirmation: nothing is linked.
    Expired,
    /// The account has no play in any mode to make a challenge of: nothing
    /// is linked.
    Rejected,
}

/// What happened outside since the last step.
#[derive(Debug, PartialEq, Eq)]
pub enum LinkEvent {
    /// The recent plays of the account in the mode that was asked for.
    Plays(Vec<Score>),
    /// The identity acknowledged; `recent` is the beatmap of the account's
    /// most recent play, fetched anew.
    Signal { recent: Option<u64> },
    /// The watch ran out.
    Timeout,
}

/// What the caller does next.
#[derive(Clone, Copy, Debug, PartialEq, Eq, Structural)]
pub enum LinkAction {
    /// Fetch the recent plays of `account` in `mode`.
    FetchPlays { account: u64, mode: Mode },
    /// Put the challenge to the identity and watch for its acknowledgement.
    Ask { challenge: Challenge },
    /// Drop the acknowledgement and keep watching.
    Discard,
    /// Record that `identity` plays as `account`.
    Save { identity: u64, account: u64 },
    /// Tell the identity that the account has no plays.
    Refuse,
    /// Stop watching; nothing is recorded.
    Release,
    /// Go on as before: keep watching where a confirmation is awaited.
    Nothing,
}

/// The mode tried after `mode`, in the fixed order Std, Taiko, Catch, Mania.
pub open spec fn mode_after(mode: Mode) -> Option<Mode> {
    match mode {
        Mode::Std => Some(Mode::Taiko),
        Mode::Taiko => Some(Mode::Catch),
        Mode::Catch => Some(Mode::Mania),
        Mode::Mania => None,
    }
}

/// The time from `started` to `now`; none where the clock reads earlier.
pub open spec fn elapsed(now: u64, started: u64) -> nat {
    if now >= started {
        (now - started) as nat
    } else {
        0
    }
}

/// Whether the window that began at `started` is still open at `now`.
pub open spec fn in_window(now: u64, started: u64) -> bool {
    elapsed(now, started) < WINDOW_MILLIS
}

/// `IteratorRandom::choose` of rand over the plays, with the generator that
/// `rand::thread_rng` gives: no play where there is none, else one of them.
/// Which one is left open. `thread_rng` panics where the system gives it no
/// seed.
#[verifier::external_body]
fn choose_score(scores: Vec<Score>) -> (picked: Option<Score>)
    ensures
        picked is None <==> scores@.len() == 0,
        picked matches Some(s) ==> scores@.contains(s),
{
    scores.into_iter().choose(&mut rand::thread_rng())
}

fn next_mode(mode: Mode) -> (r: Option<Mode>)
    ensures
        r == mode_after(mode),
{
    match mode {
        Mode::Std => Some(Mode::Taiko),
        Mode::Taiko => Some(Mode::Catch),
        Mode::Catch => Some(Mode::Mania),
        Mode::Mania => None,
    }
}

fn window_open(now: u64, started: u64) -> (r: bool)
    ensures
        r == in_window(now, started),
{
    now < started || now - started < WINDOW_MILLIS
}

impl LinkState {
    /// The state and action with which an attempt begins.
    pub open spec fn initial(identity: u64, account: u64) -> (LinkState, LinkAction) {
        (
            LinkState::Offered { identity, account, mode: Mode::Std },
            LinkAction::FetchPlays { account, mode: Mode::Std },
        )
    }

    /// Whether the attempt is over.
    pub open spec fn is_terminal(self) -> bool {
        self is Confirmed || self is Expired || self is Rejected
    }

    /// What an offer becomes once one of the plays of its mode was picked, or
    /// none could be: the picked play is the challenge and the window opens
    /// at `now`; with no play the next mode is tried, and after the last mode
    /// the attempt is rejected. Any other state stays as it is.
    pub open spec fn offered(self, now: u64, picked: Option<Score>) -> (LinkState, LinkAction) {
        match self {
            LinkState::Offered { identity, account, mode } => match picked {
                Some(play) => {
                    let challenge = Challenge { beatmap_id: play.beatmap_id, mode };
                    (
                        LinkState::AwaitingConfirmation {
                            identity,
                            account,
                            challenge,
                            started: now,
                        },
                        LinkAction::Ask { challenge },
                    )
                },
                None => match mode_after(mode) {
                    Some(next) => (
                        LinkState::Offered { identity, account, mode: next },
                        LinkAction::FetchPlays { account, mode: next },
                    ),
                    None => (LinkState::Rejected, LinkAction::Refuse),
                },
            },
            _ => (self, LinkAction::Nothing),
        }
    }

    /// What an acknowledgement does at `now`, where `recent` is the beatmap of
    /// the account's most recent play.
    pub open spec fn signalled(self, now: u64, recent: Option<u64>) -> (LinkState, LinkAction) {
        match self {
            LinkState::AwaitingConfirmation { identity, account, challenge, started } => {
                if !in_window(now, started) {
                    (LinkState::Expired, LinkAction::Release)
                } else if recent == Some(challenge.beatmap_id) {
                    (
                        LinkState::Confirmed { identity, account },
                        LinkAction::Save { identity, account },
                    )
                } else {
                    (self, LinkAction::Discard)
                }
            },
            _ => (self, LinkAction::Nothing),
        }
    }

    /// What the end of a watch does at `now`.
    pub open spec fn timed_out(self, now: u64) -> (LinkState, LinkAction) {
        match self {
            LinkState::AwaitingConfirmation { started, .. } => {
                if !in_window(now, started) {
                    (LinkState::Expired, LinkAction::Release)
                } else {
                    (self, LinkAction::Nothing)
                }
            },
            _ => (self, LinkAction::Nothing),
        }
    }

    /// How long the attempt still waits for its confirmation at `now`.
    pub open spec fn time_left(self, now: u64) -> nat {
        match self {
            LinkState::AwaitingConfirmation { started, .. } => if in_window(now, started) {
                (WINDOW_MILLIS - elapsed(now, started)) as nat
            } else {
                0
            },
            _ => 0,
        }
    }

    /// Whether `next` is a step that `event` may cause at `now`. Only the
    /// pick among the plays is left open; every other step is fixed.
    pub open spec fn allows(self, now: u64, event: LinkEvent, next: (LinkState, LinkAction)) -> bool {
        match event {
            LinkEvent::Plays(scores) => {
                if scores@.len() == 0 {
                    next == self.offered(now, None)
                } else {
                    exists|i: int|
                        0 <= i < scores@.len() && next == self.offered(now, Some(#[trigger] scores@[i]))
                }
            },
            LinkEvent::Signal { recent } => next == self.signalled(now, recent),
            LinkEvent::Timeout => next == self.timed_out(now),
        }
    }

    /// Begins an attempt to link `identity` to `account`.
    pub fn start(identity: u64, account: u64) -> (r: (LinkState, LinkAction))
        ensures
            r == LinkState::initial(identity, account),
    {
        (
            LinkState::Offered { identity, account, mode: Mode::Std },
            LinkAction::FetchPlays { account, mode: Mode::Std },
        )
    }

    /// Moves an offer on, given the play that was picked among the plays of
    /// its mode.
    pub fn offer(self, now: u64, picked: Option<Score>) -> (r: (LinkState, LinkAction))
        ensures
            r == self.offered(now, picked),
    {
        match self {
            LinkState::Offered { identity, account, mode } => match picked {
                Some(play) => {
                    let challenge = Challenge { beatmap_id: play.beatmap_id, mode };
                    (
                        LinkState::AwaitingConfirmation {
                            identity,
                            account,
                            challenge,
                            started: now,
                        },
                        LinkAction::Ask { challenge },
                    )
                },
                None => match next_mode(mode) {
                    Some(next) => (
                        LinkState::Offered { identity, account, mode: next },
                        LinkAction::FetchPlays { account, mode: next },
                    ),
                    None => (LinkState::Rejected, LinkAction::Refuse),
                },
            },
            _ => (self, LinkAction::Nothing),
        }
    }

    /// Handles an acknowledgement that arrived at `now`.
    pub fn signal(self, now: u64, recent: Option<u64>) -> (r: (LinkState, LinkAction))
        ensures
            r == self.signalled(now, recent),
    {
        match self {
            LinkState::AwaitingConfirmation { identity, account, challenge, started } => {
                if !window_open(now, started) {
                    (LinkState::Expired, LinkAction::Release)
                } else {
                    let matches = match recent {
                        Some(id) => id == challenge.beatmap_id,
                        None => false,
                    };
                    if matches {
                        (
                            LinkState::Confirmed { identity, account },
                            LinkAction::Save { identity, account },
                        )
                    } else {
                        (self, LinkAction::Discard)
                    }
                }
            },
            _ => (self, LinkAction::Nothing),
        }
    }

    /// Handles the end of a watch at `now`.
    pub fn timeout(self, now: u64) -> (r: (LinkState, LinkAction))
        ensures
            r == self.timed_out(now),
    {
        match self {
            LinkState::AwaitingConfirmation { started, .. } => {
                if !window_open(now, started) {
                    (LinkState::Expired, LinkAction::Release)
                } else {
                    (self, LinkAction::Nothing)
                }
            },
            _ => (self, LinkAction::Nothing),
        }
    }

    /// How long to go on watching at `now`, in milliseconds: what is left of
    /// the window, and nothing where no confirmation is awaited.
    pub fn remaining(self, now: u64) -> (left: u64)
        ensures
            left == self.time_left(now),
    {
        match self {
            LinkState::AwaitingConfirmation { started, .. } => {
                if now < started {
                    WINDOW_MILLIS
                } else if now - started < WINDOW_MILLIS {
                    WINDOW_MILLIS - (now - started)
                } else {
                    0
                }
            },
            _ => 0,
        }
    }

    /// Takes one step of the attempt: `event` happened at `now`.
    pub fn step(self, now: u64, event: LinkEvent) -> (r: (LinkState, LinkAction))
        ensures
            self.allows(now, event, r),
    {
        match event {
            LinkEvent::Plays(scores) => {
                let ghost plays = scores@;
                let picked = match self {
                    LinkState::Offered { .. } => choose_score(scores),
                    _ => None,
                };
                let r = self.offer(now, picked);
                proof {
                    match picked {
                        Some(play) => {
                            let i = choose|i: int| 0 <= i < plays.len() && plays[i] == play;
                            assert(r == self.offered(now, Some(plays[i])));
                        },
                        None => {
                            if plays.len() > 0 {
                                assert(!(self is Offered));
                                assert(r == self.offered(now, Some(plays[0])));
                            }
                        },
                    }
                }
                r
            },
            LinkEvent::Signal { recent } => self.signal(now, recent),
            LinkEvent::Timeout => self.timeout(now),
        }
    }

    /// An acknowledgement that arrives once the window has closed is not
    /// looked at: whatever the most recent play is, the attempt has expired
    /// and nothing is recorded.
    pub proof fn lemma_late_signal_expires(self, now: u64, recent: Option<u64>)
        requires
            (self matches LinkState::AwaitingConfirmation { started, .. } && !in_window(
                now,
                started,
            )),
        ensures
            self.signalled(now, recent) == (LinkState::Expired, LinkAction::Release),
            self.allows(
                now,
                LinkEvent::Signal { recent },
                (LinkState::Expired, LinkAction::Release),
            ),
    {
    }

    /// An acknowledgement inside the window whose most recent play is not the
    /// challenge leaves the attempt as it was, window included.
    pub proof fn lemma_mismatch_keeps_waiting(self, now: u64, recent: Option<u64>)
        requires
            (self matches LinkState::AwaitingConfirmation { challenge, started, .. } && in_window(
                now,
                started,
            ) && recent != Some(challenge.beatmap_id)),
        ensures
            self.signalled(now, recent) == (self, LinkAction::Discard),
    {
    }

    /// A step that leaves the attempt waiting leaves its window where it
    /// was: what is left of it goes on shrinking with the clock alone.
    pub proof fn lemma_window_is_fixed(
        self,
        now: u64,
        event: LinkEvent,
        next: (LinkState, LinkAction),
        later: u64,
    )
        requires
            self is AwaitingConfirmation,
            next.0 is AwaitingConfirmation,
            self.allows(now, event, next),
        ensures
            next.0 == self,
            next.0.time_left(later) == self.time_left(later),
    {
    }

    /// An attempt becomes confirmed only by an acknowledgement inside the
    /// window whose most recent play is the challenge, and then the link that
    /// is recorded is the one that was asked for.
    pub proof fn lemma_confirmed_only_by_match(
        self,
        now: u64,
        event: LinkEvent,
        next: (LinkState, LinkAction),
    )
        requires
            self.allows(now, event, next),
            next.0 is Confirmed,
            !(self is Confirmed),
        ensures
            (self matches LinkState::AwaitingConfirmation { identity, account, challenge, started }
                && in_window(now, started) && event == (LinkEvent::Signal {
                recent: Some(challenge.beatmap_id),
            }) && next == (
                LinkState::Confirmed { identity, account },
                LinkAction::Save { identity, account },
            )),
    {
    }

    /// A link is recorded by no step but the one that confirms.
    pub proof fn lemma_save_only_on_confirm(
        self,
        now: u64,
        event: LinkEvent,
        next: (LinkState, LinkAction),
    )
        requires
            self.allows(now, event, next),
            next.1 is Save,
        ensures
            next.0 is Confirmed,
            !(self is Confirmed),
    {
    }

    /// An attempt that is over stays as it is.
    pub proof fn lemma_terminal_stays(
        self,
        now: u64,
        event: LinkEvent,
        next: (LinkState, LinkAction),
    )
        requires
            self.is_terminal(),
            self.allows(now, event, next),
        ensures
            next == (self, LinkAction::Nothing),
    {
    }
}

} // verus!
