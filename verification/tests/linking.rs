use youmubot_osu::link::{Challenge, LinkAction, LinkEvent, LinkState, WINDOW_MILLIS};
use youmubot_osu::mode::Mode;
use youmubot_osu::models::Score;
use youmubot_osu::mods::Mods;

fn score(beatmap_id: u64) -> Score {
    Score {
        id: None,
        user_id: 2,
        beatmap_id,
        mode: Mode::Std,
        mods: Mods::nomod(),
        score: 1,
        count_300: 1,
        count_100: 0,
        count_50: 0,
        count_miss: 0,
        max_combo: 1,
        perfect: true,
        pp: Some(1),
    }
}

fn waiting(started: u64) -> LinkState {
    LinkState::AwaitingConfirmation {
        identity: 1,
        account: 2,
        challenge: Challenge { beatmap_id: 9, mode: Mode::Taiko },
        started,
    }
}

#[test]
fn window_is_five_minutes() {
    assert_eq!(WINDOW_MILLIS, 5 * 60 * 1000);
}

#[test]
fn attempt_starts_by_asking_for_std_plays() {
    assert_eq!(
        LinkState::start(1, 2),
        (
            LinkState::Offered { identity: 1, account: 2, mode: Mode::Std },
            LinkAction::FetchPlays { account: 2, mode: Mode::Std }
        )
    );
}

#[test]
fn modes_are_tried_in_order_until_one_has_plays() {
    let (state, _) = LinkState::start(1, 2);
    let (state, action) = state.step(0, LinkEvent::Plays(vec![]));
    assert_eq!(state, LinkState::Offered { identity: 1, account: 2, mode: Mode::Taiko });
    assert_eq!(action, LinkAction::FetchPlays { account: 2, mode: Mode::Taiko });
    let (state, action) = state.step(0, LinkEvent::Plays(vec![]));
    assert_eq!(state, LinkState::Offered { identity: 1, account: 2, mode: Mode::Catch });
    assert_eq!(action, LinkAction::FetchPlays { account: 2, mode: Mode::Catch });
    let (state, action) = state.step(50, LinkEvent::Plays(vec![score(9)]));
    let challenge = Challenge { beatmap_id: 9, mode: Mode::Catch };
    assert_eq!(
        state,
        LinkState::AwaitingConfirmation { identity: 1, account: 2, challenge, started: 50 }
    );
    assert_eq!(action, LinkAction::Ask { challenge });
}

#[test]
fn account_without_plays_is_rejected() {
    let (mut state, _) = LinkState::start(1, 2);
    for _ in 0..3 {
        let (next, action) = state.step(0, LinkEvent::Plays(vec![]));
        assert!(matches!(action, LinkAction::FetchPlays { account: 2, .. }));
        state = next;
    }
    assert_eq!(state, LinkState::Offered { identity: 1, account: 2, mode: Mode::Mania });
    assert_eq!(
        state.step(0, LinkEvent::Plays(vec![])),
        (LinkState::Rejected, LinkAction::Refuse)
    );
}

#[test]
fn challenge_is_one_of_the_plays() {
    let plays = vec![score(11), score(12), score(13), score(14)];
    for round in 0..50 {
        let (state, _) = LinkState::start(1, 2);
        let (state, action) = state.step(round, LinkEvent::Plays(plays.clone()));
        match (state, action) {
            (
                LinkState::AwaitingConfirmation { identity: 1, account: 2, challenge, started },
                LinkAction::Ask { challenge: asked },
            ) => {
                assert_eq!(challenge, asked);
                assert_eq!(started, round);
                assert_eq!(challenge.mode, Mode::Std);
                assert!((11..=14).contains(&challenge.beatmap_id));
            }
            other => panic!("no challenge was put: {:?}", other),
        }
    }
}

#[test]
fn offer_with_a_picked_play_opens_the_window() {
    let offered = LinkState::Offered { identity: 1, account: 2, mode: Mode::Taiko };
    let challenge = Challenge { beatmap_id: 9, mode: Mode::Taiko };
    assert_eq!(
        offered.offer(777, Some(score(9))),
        (
            LinkState::AwaitingConfirmation { identity: 1, account: 2, challenge, started: 777 },
            LinkAction::Ask { challenge }
        )
    );
    assert_eq!(
        offered.offer(777, None),
        (
            LinkState::Offered { identity: 1, account: 2, mode: Mode::Catch },
            LinkAction::FetchPlays { account: 2, mode: Mode::Catch }
        )
    );
    assert_eq!(waiting(5).offer(777, Some(score(1))), (waiting(5), LinkAction::Nothing));
}

#[test]
fn matching_signal_in_the_window_confirms() {
    assert_eq!(
        waiting(1_000).step(2_000, LinkEvent::Signal { recent: Some(9) }),
        (
            LinkState::Confirmed { identity: 1, account: 2 },
            LinkAction::Save { identity: 1, account: 2 }
        )
    );
    assert_eq!(
        waiting(1_000).signal(1_000 + WINDOW_MILLIS - 1, Some(9)).0,
        LinkState::Confirmed { identity: 1, account: 2 }
    );
}

#[test]
fn mismatching_signal_leaves_the_attempt_waiting() {
    assert_eq!(
        waiting(1_000).step(2_000, LinkEvent::Signal { recent: Some(8) }),
        (waiting(1_000), LinkAction::Discard)
    );
    assert_eq!(
        waiting(1_000).step(2_000, LinkEvent::Signal { recent: None }),
        (waiting(1_000), LinkAction::Discard)
    );
}

#[test]
fn mismatching_signal_does_not_extend_the_window() {
    let (state, _) = waiting(1_000).step(200_000, LinkEvent::Signal { recent: Some(8) });
    assert_eq!(state.remaining(200_000), WINDOW_MILLIS - 199_000);
    assert_eq!(
        state.step(1_000 + WINDOW_MILLIS, LinkEvent::Signal { recent: Some(9) }),
        (LinkState::Expired, LinkAction::Release)
    );
}

#[test]
fn signal_after_the_window_is_ignored() {
    assert_eq!(
        waiting(1_000).step(1_000 + WINDOW_MILLIS, LinkEvent::Signal { recent: Some(9) }),
        (LinkState::Expired, LinkAction::Release)
    );
    assert_eq!(
        waiting(1_000).step(u64::MAX, LinkEvent::Signal { recent: Some(9) }),
        (LinkState::Expired, LinkAction::Release)
    );
    assert_eq!(
        waiting(1_000).step(1_000 + WINDOW_MILLIS, LinkEvent::Signal { recent: Some(8) }),
        (LinkState::Expired, LinkAction::Release)
    );
}

#[test]
fn timeout_at_the_end_of_the_window_expires() {
    assert_eq!(
        waiting(1_000).step(1_000 + WINDOW_MILLIS, LinkEvent::Timeout),
        (LinkState::Expired, LinkAction::Release)
    );
    assert_eq!(
        waiting(1_000).timeout(1_000 + WINDOW_MILLIS + 5),
        (LinkState::Expired, LinkAction::Release)
    );
}

#[test]
fn early_timeout_keeps_waiting() {
    assert_eq!(
        waiting(1_000).step(1_000 + WINDOW_MILLIS - 1, LinkEvent::Timeout),
        (waiting(1_000), LinkAction::Nothing)
    );
    assert_eq!(waiting(1_000).timeout(0), (waiting(1_000), LinkAction::Nothing));
}

#[test]
fn clock_that_reads_earlier_counts_as_no_time_passed() {
    assert_eq!(
        waiting(1_000).signal(10, Some(9)).0,
        LinkState::Confirmed { identity: 1, account: 2 }
    );
    assert_eq!(waiting(1_000).remaining(10), WINDOW_MILLIS);
}

#[test]
fn remaining_counts_down_to_nothing() {
    assert_eq!(waiting(1_000).remaining(1_000), WINDOW_MILLIS);
    assert_eq!(waiting(1_000).remaining(1_001), WINDOW_MILLIS - 1);
    assert_eq!(waiting(1_000).remaining(1_000 + WINDOW_MILLIS - 1), 1);
    assert_eq!(waiting(1_000).remaining(1_000 + WINDOW_MILLIS), 0);
    assert_eq!(waiting(1_000).remaining(u64::MAX), 0);
    assert_eq!(LinkState::Expired.remaining(5), 0);
    assert_eq!(LinkState::Offered { identity: 1, account: 2, mode: Mode::Std }.remaining(5), 0);
}

#[test]
fn finished_attempts_stay_as_they_are() {
    let confirmed = LinkState::Confirmed { identity: 1, account: 2 };
    for state in [confirmed, LinkState::Expired, LinkState::Rejected] {
        assert_eq!(state.step(5, LinkEvent::Plays(vec![score(9)])), (state, LinkAction::Nothing));
        assert_eq!(state.step(5, LinkEvent::Plays(vec![])), (state, LinkAction::Nothing));
        assert_eq!(
            state.step(5, LinkEvent::Signal { recent: Some(9) }),
            (state, LinkAction::Nothing)
        );
        assert_eq!(state.step(5, LinkEvent::Timeout), (state, LinkAction::Nothing));
    }
}

#[test]
fn events_out_of_turn_change_nothing() {
    let offered = LinkState::Offered { identity: 1, account: 2, mode: Mode::Std };
    assert_eq!(
        offered.step(5, LinkEvent::Signal { recent: Some(9) }),
        (offered, LinkAction::Nothing)
    );
    assert_eq!(offered.step(5, LinkEvent::Timeout), (offered, LinkAction::Nothing));
    assert_eq!(
        waiting(1).step(5, LinkEvent::Plays(vec![score(3)])),
        (waiting(1), LinkAction::Nothing)
    );
}
