use loki::memes::{
    FetchedMessage, MemeCandidate, Memes, MemesVoting, CycleStep, PageMessage, ResetOutcome,
    PING_LEAD_SECONDS, WEEK_SECONDS,
};

fn fresh() -> Memes {
    Memes::new(100, 1000)
}

#[test]
fn next_reset_is_one_week_after_cycle_start() {
    let mut m = fresh();
    m.reset(1_000_000, 2000);
    assert_eq!(m.next_reset(), 1_000_000 + WEEK_SECONDS);
    assert_eq!(m.next_reset() - 1_000_000, 604_800);
}

#[test]
fn reset_clears_reaction_and_moves_anchor() {
    let mut m = fresh();
    m.reacted();
    assert!(m.has_reacted());
    m.reset(5_000_000, 4242);
    assert!(!m.has_reacted());
    assert_eq!(m.initial_message(), 4242);
    assert_eq!(m.channel(), 100);
}

#[test]
fn intake_tracks_eligible_messages_only() {
    let mut m = fresh();
    m.intake(100, 1, false, false);
    // wrong channel, bot-authored and ephemeral messages are all ignored
    m.intake(999, 2, false, false);
    m.intake(100, 3, true, false);
    m.intake(100, 4, false, true);
    m.intake(100, 5, false, false);
    assert_eq!(m.tracked_messages, vec![1, 5]);
}

#[test]
fn intake_never_reacts_once_spent() {
    let mut m = fresh();
    m.reacted();
    for id in 0..64u64 {
        assert!(!m.intake(100, id, false, false));
    }
}

#[test]
fn catch_up_appends_each_new_message_once() {
    // Scenario: anchor message, three ids already tracked; two messages
    // arrived while the process was down.
    let mut m = fresh();
    m.intake(100, 11, false, false);
    m.intake(100, 12, false, false);
    m.intake(100, 13, false, false);
    assert_eq!(m.catch_up_cursor(), 13);
    let page = vec![
        PageMessage { message: 14, from_bot: false },
        PageMessage { message: 15, from_bot: true },
        PageMessage { message: 16, from_bot: false },
    ];
    m.absorb_page(&page);
    assert_eq!(m.tracked_messages, vec![11, 12, 13, 14, 16]);
    assert_eq!(m.catch_up_cursor(), 16);
    // a second pass with no new traffic appends nothing
    let empty: Vec<PageMessage> = Vec::new();
    m.absorb_page(&empty);
    assert_eq!(m.tracked_messages, vec![11, 12, 13, 14, 16]);
}

#[test]
fn catch_up_cursor_falls_back_to_anchor() {
    let m = fresh();
    assert_eq!(m.catch_up_cursor(), 1000);
}

#[test]
fn drain_is_atomic_with_respect_to_intake() {
    let mut m = fresh();
    m.intake(100, 1, false, false);
    m.intake(100, 2, false, false);
    m.reacted();
    let (drained, reacted) = m.drain_tracked();
    assert_eq!(drained, vec![1, 2]);
    assert!(reacted);
    assert!(m.tracked_messages.is_empty());
    // intake landing after the drain belongs to the next cycle
    m.intake(100, 3, false, false);
    assert_eq!(m.tracked_messages, vec![3]);
    // every id is accounted for exactly once
    let mut all = drained.clone();
    all.extend(&m.tracked_messages);
    assert_eq!(all, vec![1, 2, 3]);
}

#[test]
fn reaction_totals_are_summed() {
    assert_eq!(MemesVoting::reaction_total(&vec![5, 0, 3]), 8);
    assert_eq!(MemesVoting::reaction_total(&Vec::new()), 0);
}

#[test]
fn evaluation_discards_bot_and_unfetchable_entries() {
    let fetched = vec![
        Some(FetchedMessage { message: 1, author: 10, from_bot: false, reactions: vec![2, 3] }),
        None,
        Some(FetchedMessage { message: 2, author: 99, from_bot: true, reactions: vec![7] }),
        Some(FetchedMessage { message: 3, author: 11, from_bot: false, reactions: vec![] }),
    ];
    let c = MemesVoting::evaluate_entries(&fetched);
    assert_eq!(c.len(), 2);
    assert_eq!((c[0].message, c[0].author, c[0].total), (1, 10, 5));
    assert_eq!((c[1].message, c[1].author, c[1].total), (3, 11, 0));
}

#[test]
fn tie_break_prefers_fetch_order() {
    let c = vec![
        MemeCandidate { message: 1, author: 10, total: 5 },
        MemeCandidate { message: 2, author: 20, total: 5 },
        MemeCandidate { message: 3, author: 30, total: 2 },
    ];
    assert_eq!(MemesVoting::select_victor(&c), Some(0));
}

#[test]
fn contest_scenario_with_votes() {
    // Scenario: totals of five, five and two; the forced self-reaction lands
    // on the two-vote entry, raising it to three; the earlier five wins.
    let mut m = fresh();
    for id in [1, 2, 3] {
        m.intake(100, id, false, false);
    }
    let (drained, reacted) = m.drain_tracked();
    assert_eq!(drained, vec![1, 2, 3]);
    assert!(!reacted);
    let mut c = vec![
        MemeCandidate { message: 1, author: 10, total: 5 },
        MemeCandidate { message: 2, author: 20, total: 5 },
        MemeCandidate { message: 3, author: 30, total: 2 },
    ];
    let pick = MemesVoting::forced_reaction_pick(reacted, c.len());
    assert!(pick.is_some());
    // the draw is random; the scenario has it land on the third entry
    MemesVoting::boost_total(&mut c, 2);
    m.reacted();
    assert_eq!(c[2].total, 3);
    match MemesVoting::decide_outcome(&c) {
        ResetOutcome::Victory { author, message, votes } => {
            assert_eq!(author, 10);
            assert_eq!(message, 1);
            assert_eq!(votes, 5);
        }
        other => panic!("expected a victory, got {:?}", other),
    }
    assert_eq!(m.victors().len(), 0);
    m.add_victory(10);
    assert_eq!(m.victors(), &vec![(10, 1)]);
    m.add_victory(10);
    assert_eq!(m.victors(), &vec![(10, 2)]);
    m.reset(9_000_000, 777);
    assert!(m.tracked_messages.is_empty());
    assert!(!m.has_reacted());
}

#[test]
fn contest_scenario_without_entries() {
    // Scenario: nothing tracked at the reset.
    let mut m = fresh();
    let (drained, _) = m.drain_tracked();
    assert!(drained.is_empty());
    let c = MemesVoting::evaluate_entries(&Vec::new());
    assert_eq!(MemesVoting::decide_outcome(&c), ResetOutcome::NoEntries);
    assert!(m.victors().is_empty());
}

#[test]
fn contest_without_votes() {
    let c = vec![
        MemeCandidate { message: 1, author: 10, total: 0 },
        MemeCandidate { message: 2, author: 20, total: 0 },
    ];
    assert_eq!(MemesVoting::decide_outcome(&c), ResetOutcome::NoVotes);
}

#[test]
fn forced_pick_needs_unspent_reaction_and_candidates() {
    assert_eq!(MemesVoting::forced_reaction_pick(true, 5), None);
    assert_eq!(MemesVoting::forced_reaction_pick(false, 0), None);
    let pick = MemesVoting::forced_reaction_pick(false, 5).expect("a candidate is picked");
    assert!(pick < 5);
}

#[test]
fn cycle_steps() {
    let mut m = fresh();
    m.reset(1_000_000, 1);
    let ping = 1_000_000 + WEEK_SECONDS - PING_LEAD_SECONDS;
    let reset = 1_000_000 + WEEK_SECONDS;
    assert_eq!(MemesVoting::cycle_step(&m, 1_000_100), CycleStep::SleepUntilPing { wake: ping });
    assert_eq!(MemesVoting::cycle_step(&m, ping), CycleStep::SleepUntilReset { wake: reset });
    assert_eq!(MemesVoting::cycle_step(&m, reset - 1), CycleStep::SleepUntilReset { wake: reset });
    assert_eq!(MemesVoting::cycle_step(&m, reset), CycleStep::ResetDue);
    assert_eq!(MemesVoting::cycle_step(&m, reset + 50), CycleStep::ResetDue);
}

#[test]
fn leaderboard_ranks_victors_descending() {
    let mut m = fresh();
    m.add_victory(1);
    m.add_victory(2);
    m.add_victory(2);
    m.add_victory(3);
    m.add_victory(2);
    assert_eq!(m.leaderboard(), vec![(2, 3), (1, 1), (3, 1)]);
}

#[test]
fn reminder_only_for_an_empty_cycle() {
    let mut m = fresh();
    assert!(MemesVoting::reminder_due(&m));
    m.intake(100, 8, false, false);
    assert!(!MemesVoting::reminder_due(&m));
}
