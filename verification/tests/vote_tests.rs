use std::collections::HashMap;

use sylk_bot::commands::vote::{
    author_name, cancel_reply, description_or_empty, end_reply, end_time_from,
    end_time_from_now, find_vote, insert_vote, post_reply, take_vote, tally_reactions, vote_key, vote_list,
    Vote, VoteTally, ABSTAIN_REACTION, NO_REACTION, YES_REACTION,
};
use sylk_bot::utils::cloud::Unique;
use sylk_bot::utils::time::Timestamp;

fn ts(secs: i64, nanos: u32) -> Timestamp {
    Timestamp { secs, nanos }
}

fn vote(msg_id: u64, end: Timestamp) -> Vote {
    Vote::new(
        format!("vote {}", msg_id),
        "a description".to_string(),
        msg_id,
        20,
        30,
        40,
        end,
    )
}

#[test]
fn new_vote_keeps_its_fields() {
    let v = Vote::new("Lunch".to_string(), "Pizza?".to_string(), 1, 2, 3, 4, ts(50, 6));
    assert_eq!(v.name(), "Lunch");
    assert_eq!(v.desc(), "Pizza?");
    assert_eq!(v.msg_id(), 1);
    assert_eq!(v.ch_id(), 2);
    assert_eq!(v.guild_id(), 3);
    assert_eq!(v.creator(), 4);
    assert_eq!(v.end_time(), ts(50, 6));
    assert_eq!(v.uuid(), 1);
    assert_eq!(Vote::clname(), "votes");
}

#[test]
fn a_vote_ends_strictly_after_its_end_time() {
    let v = vote(1, ts(100, 500));
    assert!(!v.ended_at(&ts(100, 500)));
    assert!(!v.ended_at(&ts(100, 499)));
    assert!(!v.ended_at(&ts(99, 900)));
    assert!(v.ended_at(&ts(100, 501)));
    assert!(v.ended_at(&ts(101, 0)));
}

#[test]
fn ended_votes_stay_ended_later() {
    let v = vote(1, ts(100, 0));
    assert!(v.ended_at(&ts(100, 1)));
    assert!(v.ended_at(&ts(200, 0)));
    assert!(v.ended_at(&ts(i64::MAX, 0)));
}

#[test]
fn split_puts_each_vote_on_one_side() {
    let mut votes = HashMap::new();
    votes.insert(1, vote(1, ts(10, 0)));
    votes.insert(2, vote(2, ts(30, 0)));
    votes.insert(3, vote(3, ts(20, 0)));
    votes.insert(4, vote(4, ts(20, 1)));
    let (open, ended) = Vote::split_finished_votes(votes, ts(20, 1));
    let mut open_keys: Vec<u64> = open.keys().copied().collect();
    open_keys.sort();
    assert_eq!(open_keys, vec![2, 4]);
    let mut ended_keys: Vec<u64> = ended.iter().map(|(k, v)| {
        assert_eq!(*k, v.msg_id());
        *k
    }).collect();
    ended_keys.sort();
    assert_eq!(ended_keys, vec![1, 3]);
}

#[test]
fn splitting_the_open_votes_again_ends_nothing() {
    let mut votes = HashMap::new();
    votes.insert(1, vote(1, ts(10, 0)));
    votes.insert(2, vote(2, ts(30, 0)));
    let (open, _) = Vote::split_finished_votes(votes, ts(20, 0));
    let (open_again, ended_again) = Vote::split_finished_votes(open, ts(20, 0));
    assert_eq!(open_again.len(), 1);
    assert!(open_again.contains_key(&2));
    assert!(ended_again.is_empty());
}

#[test]
fn split_of_no_votes_is_empty() {
    let (open, ended) = Vote::split_finished_votes(HashMap::new(), ts(0, 0));
    assert!(open.is_empty());
    assert!(ended.is_empty());
}

#[test]
fn end_finished_votes_reads_the_clock() {
    let mut votes = HashMap::new();
    votes.insert(7, vote(7, ts(0, 0)));
    votes.insert(8, vote(8, ts(i64::MAX, 0)));
    let (open, ended) = Vote::end_finished_votes(votes);
    assert_eq!(open.len(), 1);
    assert!(open.contains_key(&8));
    assert_eq!(ended.len(), 1);
    assert_eq!(ended[0].0, 7);
}

#[test]
fn vote_key_is_the_uuid_when_it_fits_64_bits() {
    assert_eq!(vote_key(5), Some(5));
    assert_eq!(vote_key(u64::MAX as u128), Some(u64::MAX));
    assert_eq!(vote_key((1u128 << 64) + 5), None);
    assert_eq!(vote_key(u128::MAX), None);
}

#[test]
fn a_uuid_past_64_bits_names_no_vote() {
    let mut votes = HashMap::new();
    insert_vote(&mut votes, vote(5, ts(1, 0)));
    assert!(find_vote(&votes, (1u128 << 64) + 5).is_none());
    assert!(take_vote(&mut votes, (1u128 << 64) + 5).is_none());
    assert_eq!(votes.len(), 1);
    assert!(votes.contains_key(&5));
}

#[test]
fn find_vote_leaves_the_votes_alone() {
    let mut votes = HashMap::new();
    insert_vote(&mut votes, vote(5, ts(1, 0)));
    assert_eq!(find_vote(&votes, 5).map(|v| v.msg_id()), Some(5));
    assert!(find_vote(&votes, 6).is_none());
    assert_eq!(votes.len(), 1);
}

#[test]
fn a_filed_vote_is_taken_back_by_its_uuid() {
    let mut votes = HashMap::new();
    insert_vote(&mut votes, vote(11, ts(1, 0)));
    insert_vote(&mut votes, vote(12, ts(1, 0)));
    let taken = take_vote(&mut votes, 11).expect("vote 11 was filed");
    assert_eq!(taken.msg_id(), 11);
    assert_eq!(votes.len(), 1);
    assert!(votes.contains_key(&12));
}

#[test]
fn an_unknown_uuid_takes_nothing() {
    let mut votes = HashMap::new();
    insert_vote(&mut votes, vote(11, ts(1, 0)));
    assert!(take_vote(&mut votes, 99).is_none());
    assert_eq!(votes.len(), 1);
    assert_eq!(end_reply(false), "Invalid Vote ID");
    assert_eq!(cancel_reply(false), "Invalid Vote ID");
}

#[test]
fn filing_a_vote_twice_keeps_the_newer() {
    let mut votes = HashMap::new();
    insert_vote(&mut votes, vote(11, ts(1, 0)));
    insert_vote(&mut votes, vote(11, ts(2, 0)));
    assert_eq!(votes.len(), 1);
    assert_eq!(votes[&11].end_time(), ts(2, 0));
}

#[test]
fn end_time_adds_the_minutes() {
    assert_eq!(end_time_from(ts(100, 5), 1, 30), ts(100 + 90 * 60, 5));
    assert_eq!(end_time_from(ts(100, 5), 0, 0), ts(100, 5));
    assert_eq!(end_time_from(ts(0, 0), 0, 1), ts(60, 0));
}

#[test]
fn end_time_from_now_starts_at_the_clock() {
    let t = end_time_from_now(2, 0);
    // The clock reads some time after 2020, so the vote ends after 2020 plus two hours.
    assert!(t.secs > 1_577_836_800 + 7200);
    assert!(t.nanos < 1_000_000_000);
}

#[test]
fn replies_of_the_vote_commands() {
    assert_eq!(post_reply(true), "Vote Created");
    assert_eq!(post_reply(false), "Error creating a new vote");
    assert_eq!(end_reply(true), "Vote successfully ended");
    assert_eq!(cancel_reply(true), "Vote successfully canceled");
}

#[test]
fn description_defaults_to_empty() {
    assert_eq!(description_or_empty(Some("text".to_string())), "text");
    assert_eq!(description_or_empty(None), "");
}

#[test]
fn author_is_shown_by_nickname_first() {
    assert_eq!(author_name(Some("Nick".to_string()), "user".to_string()), "Nick");
    assert_eq!(author_name(None, "user".to_string()), "user");
}

#[test]
fn vote_list_puts_each_name_on_a_new_line() {
    let names = vec!["first".to_string(), "second".to_string()];
    assert_eq!(vote_list(&names), "\nfirst\nsecond");
    assert_eq!(vote_list(&Vec::new()), "");
}

#[test]
fn tally_leaves_out_the_bots_reactions() {
    let reactions = vec![
        (Some(YES_REACTION.to_string()), 3),
        (Some(NO_REACTION.to_string()), 2),
        (Some(ABSTAIN_REACTION.to_string()), 1),
        (None, 9),
        (Some("🍎".to_string()), 4),
    ];
    let t = tally_reactions(&reactions);
    assert_eq!(t, VoteTally { yes: 2, no: 1, abstain: 0 });
    assert!(t.passed());
    assert_eq!(t.color(), 0x00ff00);
    assert_eq!(t.title("Lunch"), "Vote passed : Lunch");
}

#[test]
fn tally_takes_the_last_reaction_of_each_kind() {
    let reactions = vec![
        (Some(YES_REACTION.to_string()), 5),
        (Some(YES_REACTION.to_string()), 2),
    ];
    assert_eq!(tally_reactions(&reactions), VoteTally { yes: 1, no: 0, abstain: 0 });
}

#[test]
fn a_tie_fails() {
    let reactions = vec![
        (Some(YES_REACTION.to_string()), 2),
        (Some(NO_REACTION.to_string()), 2),
    ];
    let t = tally_reactions(&reactions);
    assert!(!t.passed());
    assert_eq!(t.color(), 0xff0000);
    assert_eq!(t.title("Tie"), "Vote failed : Tie");
    assert_eq!(tally_reactions(&Vec::new()), VoteTally { yes: 0, no: 0, abstain: 0 });
}

#[test]
fn a_new_vote_is_open_when_it_starts() {
    let start = ts(1_000, 250);
    let v = vote(5, end_time_from(start, 0, 10));
    assert!(!v.ended_at(&start));
    assert!(!v.ended_at(&ts(1_600, 250)));
    assert!(v.ended_at(&ts(1_600, 251)));
}
