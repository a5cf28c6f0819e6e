use std::collections::HashMap;
use vstd::prelude::*;

use crate::utils::cloud::Unique;
use crate::utils::time::{now, Timestamp};

verus! {

broadcast use vstd::std_specs::hash::group_hash_axioms;

/// What a vote is: its text, where its message stands, who made it and when
/// it ends.
pub struct VoteView {
    pub name: Seq<char>,
    pub desc: Seq<char>,
    pub msg_id: u64,
    pub ch_id: u64,
    pub guild_id: u64,
    pub creator: u64,
    pub end_time: Timestamp,
}

/// A vote posted in a Discord channel. The id of its message is its unique id.
#[derive(Debug, Clone)]
pub struct Vote {
    name: String,
    desc: String,
    msg_id: u64,
    ch_id: u64,
    guild_id: u64,
    creator: u64,
    end_time: Timestamp,
}

impl View for Vote {
    type V = VoteView;

    closed spec fn view(&self) -> VoteView {
        VoteView {
            name: self.name@,
            desc: self.desc@,
            msg_id: self.msg_id,
            ch_id: self.ch_id,
            guild_id: self.guild_id,
            creator: self.creator,
            end_time: self.end_time,
        }
    }
}

/// A vote has ended at `now` when its end time lies strictly before `now`.
pub open spec fn ended_at(v: VoteView, now: Timestamp) -> bool {
    v.end_time.before(now)
}

/// The entries of `votes` that have not ended at `now`.
pub open spec fn open_votes(votes: Map<u64, Vote>, now: Timestamp) -> Map<u64, Vote> {
    votes.restrict(Set::new(|k: u64| votes.contains_key(k) && !ended_at(votes[k]@, now)))
}

/// The entries of `votes` that have ended at `now`.
pub open spec fn ended_votes(votes: Map<u64, Vote>, now: Timestamp) -> Map<u64, Vote> {
    votes.restrict(Set::new(|k: u64| votes.contains_key(k) && ended_at(votes[k]@, now)))
}

/// `entries` lists the entries of `m`, each exactly once.
pub open spec fn lists_entries<V>(entries: Seq<(u64, V)>, m: Map<u64, V>) -> bool {
    &&& forall|i: int, j: int|
        0 <= i < j < entries.len() ==> #[trigger] entries[i].0 != #[trigger] entries[j].0
    &&& forall|i: int|
        0 <= i < entries.len() ==> m.contains_key(#[trigger] entries[i].0) && m[entries[i].0]
            == entries[i].1
    &&& forall|k: u64| #[trigger]
        m.contains_key(k) ==> exists|i: int| 0 <= i < entries.len() && #[trigger] entries[i].0 == k
}

impl Vote {
    /// A vote with the given fields.
    pub fn new(
        name: String,
        desc: String,
        msg_id: u64,
        ch_id: u64,
        guild_id: u64,
        creator: u64,
        end_time: Timestamp,
    ) -> (v: Vote)
        ensures
            v@ == (VoteView {
                name: name@,
                desc: desc@,
                msg_id,
                ch_id,
                guild_id,
                creator,
                end_time,
            }),
    {
        Vote { name, desc, msg_id, ch_id, guild_id, creator, end_time }
    }

    /// The name of the vote.
    pub fn name(&self) -> (r: &str)
        ensures
            r@ == self@.name,
    {
        self.name.as_str()
    }

    /// The description of the vote.
    pub fn desc(&self) -> (r: &str)
        ensures
            r@ == self@.desc,
    {
        self.desc.as_str()
    }

    /// The id of the message that shows the vote.
    pub fn msg_id(&self) -> (r: u64)
        ensures
            r == self@.msg_id,
    {
        self.msg_id
    }

    /// The id of the channel that the vote was posted in.
    pub fn ch_id(&self) -> (r: u64)
        ensures
            r == self@.ch_id,
    {
        self.ch_id
    }

    /// The id of the guild that the vote was posted in.
    pub fn guild_id(&self) -> (r: u64)
        ensures
            r == self@.guild_id,
    {
        self.guild_id
    }

    /// The id of the member who created the vote.
    pub fn creator(&self) -> (r: u64)
        ensures
            r == self@.creator,
    {
        self.creator
    }

    /// When the vote ends.
    pub fn end_time(&self) -> (r: Timestamp)
        ensures
            r == self@.end_time,
    {
        self.end_time
    }

    /// The name of the cloud collection that votes are kept in.
    pub fn clname() -> (r: &'static str)
        ensures
            r@ == "votes"@,
    {
        "votes"
    }

    /// Whether the vote has ended at `now`.
    pub fn ended_at(&self, now: &Timestamp) -> (b: bool)
        ensures
            b == ended_at(self@, *now),
    {
        self.end_time.is_before(now)
    }

    /// Splits `votes` at `now` into the votes that stay open, kept under their
    /// keys, and the votes that have ended, listed with their keys.
    pub fn split_finished_votes(votes: HashMap<u64, Vote>, now: Timestamp) -> (res: (
        HashMap<u64, Vote>,
        Vec<(u64, Vote)>,
    ))
        ensures
            res.0@ == open_votes(votes@, now),
            lists_entries(res.1@, ended_votes(votes@, now)),
    {
        let ghost start = votes@;
        // Walk a list of the keys, then move each vote to the side it belongs on.
        let mut keys: Vec<u64> = Vec::new();
        for k in it: votes.keys()
            invariant
                keys@ == it.seq().take(it.index()).map_values(|r: &u64| *r),
        {
            keys.push(*k);
        }
        let ghost all = keys@;
        proof {
            assert(all =~= vstd::std_specs::iter::IteratorSpec::remaining(&vstd::std_specs::hash::spec_keys_iter(&votes)).unref());
            assert forall|k: u64| start.contains_key(k) <==> all.contains(k) by {
                assert(start.dom().contains(k) <==> all.to_set().contains(k));
            }
        }
        let mut votes = votes;
        let mut open: HashMap<u64, Vote> = HashMap::new();
        let mut ended: Vec<(u64, Vote)> = Vec::new();
        let n = keys.len();
        let mut i: usize = 0;
        while i < n
            invariant
                n == keys.len(),
                0 <= i <= n,
                all == keys@,
                all.no_duplicates(),
                forall|k: u64| start.contains_key(k) <==> all.contains(k),
                forall|k: u64|
                    #![trigger votes@.contains_key(k)]
                    votes@.contains_key(k) <==> (start.contains_key(k) && !all.subrange(
                        0,
                        i as int,
                    ).contains(k)),
                forall|k: u64| votes@.contains_key(k) ==> votes@[k] == start[k],
                forall|k: u64|
                    #![trigger open@.contains_key(k)]
                    open@.contains_key(k) <==> (all.subrange(0, i as int).contains(k)
                        && !ended_at(start[k]@, now)),
                forall|k: u64| open@.contains_key(k) ==> open@[k] == start[k],
                forall|j: int|
                    0 <= j < ended@.len() ==> {
                        &&& all.subrange(0, i as int).contains(#[trigger] ended@[j].0)
                        &&& start.contains_key(ended@[j].0)
                        &&& ended_at(start[ended@[j].0]@, now)
                        &&& start[ended@[j].0] == ended@[j].1
                    },
                forall|j1: int, j2: int|
                    0 <= j1 < j2 < ended@.len() ==> #[trigger] ended@[j1].0 != #[trigger] ended@[j2].0,
                forall|k: u64|
                    #[trigger] all.subrange(0, i as int).contains(k) && ended_at(start[k]@, now)
                        ==> exists|j: int| 0 <= j < ended@.len() && #[trigger] ended@[j].0 == k,
            decreases n - i,
        {
            let k = keys[i];
            proof {
                let pre = all.subrange(0, i as int);
                let post = all.subrange(0, i + 1);
                assert(post =~= pre.push(k));
                assert forall|k2: u64| #[trigger] post.contains(k2) <==> (pre.contains(k2) || k2 == k) by {
                    if post.contains(k2) && k2 != k {
                        let j = choose|j: int| 0 <= j < post.len() && post[j] == k2;
                        assert(pre[j] == k2);
                    }
                    if pre.contains(k2) {
                        let j = choose|j: int| 0 <= j < pre.len() && pre[j] == k2;
                        assert(post[j] == k2);
                    }
                    if k2 == k {
                        assert(post[i as int] == k2);
                    }
                }
                assert(!all.subrange(0, i as int).contains(k)) by {
                    if all.subrange(0, i as int).contains(k) {
                        let j = choose|j: int| 0 <= j < i && all.subrange(0, i as int)[j] == k;
                        assert(all[j] == all[i as int]);
                    }
                }
                assert(all.contains(k)) by {
                    assert(all[i as int] == k);
                }
            }
            let ghost old_ended = ended@;
            match votes.remove(&k) {
                Some(v) => {
                    if v.ended_at(&now) {
                        ended.push((k, v));
                        proof {
                            assert(ended@[old_ended.len() as int].0 == k);
                        }
                    } else {
                        open.insert(k, v);
                    }
                },
                None => {},
            }
            proof {
                let post = all.subrange(0, i + 1);
                assert forall|k2: u64|
                    #[trigger] post.contains(k2) && ended_at(start[k2]@, now) implies exists|j: int|
                        0 <= j < ended@.len() && #[trigger] ended@[j].0 == k2 by {
                    if k2 == k {
                        assert(ended@[old_ended.len() as int].0 == k2);
                    } else {
                        let j = choose|j: int| 0 <= j < old_ended.len() && #[trigger] old_ended[j].0 == k2;
                        assert(ended@[j].0 == k2);
                    }
                }
            }
            i = i + 1;
        }
        proof {
            assert(all.subrange(0, n as int) =~= all);
            assert(open@ =~= open_votes(start, now));
        }
        (open, ended)
    }
}


impl Unique for Vote {
    /// A vote is known by the id of its message.
    open spec fn unique_id(&self) -> u64 {
        self@.msg_id
    }

    fn uuid(&self) -> (id: u64) {
        self.msg_id
    }
}

/// The key of the vote that the vote commands name by `uuid`: the uuid itself,
/// where it fits the 64 bits of a vote's unique id; no key where it does not,
/// since no vote has such a uuid.
pub open spec fn key_of(uuid: u128) -> Option<u64> {
    if uuid <= u64::MAX {
        Some(uuid as u64)
    } else {
        None
    }
}

/// The key of the vote that the vote commands name by `uuid`, if any vote can
/// have that uuid.
pub fn vote_key(uuid: u128) -> (k: Option<u64>)
    ensures
        k == key_of(uuid),
{
    if uuid <= u64::MAX as u128 {
        Some(uuid as u64)
    } else {
        None
    }
}

/// `votes` holds a vote under the key that `uuid` names.
pub open spec fn names_vote(votes: Map<u64, Vote>, uuid: u128) -> bool {
    key_of(uuid) matches Some(k) && votes.contains_key(k)
}

/// `votes` without the vote that `uuid` names; all of `votes` where it names
/// none.
pub open spec fn without_vote(votes: Map<u64, Vote>, uuid: u128) -> Map<u64, Vote> {
    match key_of(uuid) {
        Some(k) => votes.remove(k),
        None => votes,
    }
}

/// Files a newly created vote under its unique id, replacing any vote filed
/// there before.
pub fn insert_vote(votes: &mut HashMap<u64, Vote>, vote: Vote)
    ensures
        final(votes)@ == old(votes)@.insert(vote@.msg_id, vote),
{
    let k = vote.uuid();
    votes.insert(k, vote);
}

/// The vote numbered `uuid`, for the commands that end or cancel it; `None`
/// when no vote has that number.
pub fn find_vote(votes: &HashMap<u64, Vote>, uuid: u128) -> (res: Option<&Vote>)
    ensures
        match res {
            Some(v) => names_vote(votes@, uuid) && *v == votes@[key_of(uuid)->0],
            None => !names_vote(votes@, uuid),
        },
{
    match vote_key(uuid) {
        Some(k) => votes.get(&k),
        None => None,
    }
}

/// Takes the vote numbered `uuid` out of `votes`, once the commands that end
/// or cancel it are done with it; `None`, with `votes` unchanged, when no vote
/// has that number.
pub fn take_vote(votes: &mut HashMap<u64, Vote>, uuid: u128) -> (res: Option<Vote>)
    ensures
        final(votes)@ == without_vote(old(votes)@, uuid),
        match res {
            Some(v) => names_vote(old(votes)@, uuid) && v == old(votes)@[key_of(uuid)->0],
            None => !names_vote(old(votes)@, uuid),
        },
{
    match vote_key(uuid) {
        Some(k) => votes.remove(&k),
        None => None,
    }
}

impl Vote {
    /// Splits `votes` into the votes that stay open and the votes that have
    /// ended, by the clock as it is read once here. Whatever time the clock
    /// gives, the split is the one of `split_finished_votes` at that time, a
    /// time not before 1970 and within chrono's range; so a vote that ended
    /// before 1970 is always among the ended ones.
    pub fn end_finished_votes(votes: HashMap<u64, Vote>) -> (res: (
        HashMap<u64, Vote>,
        Vec<(u64, Vote)>,
    ))
        ensures
            exists|t: Timestamp|
                #![trigger open_votes(votes@, t)]
                0 <= t.secs <= 8_210_266_876_799 && t.nanos < 1_000_000_000 && res.0@ == open_votes(
                    votes@,
                    t,
                ) && lists_entries(res.1@, ended_votes(votes@, t)),
    {
        let t = now();
        Self::split_finished_votes(votes, t)
    }
}

/// How long a vote created with `hrs` hours and `min` minutes runs, in
/// minutes.
pub open spec fn vote_minutes(hrs: u32, min: u32) -> int {
    hrs * 60 + min
}

/// When a vote that starts at `start` and runs `hrs` hours and `min` minutes
/// ends.
pub fn end_time_from(start: Timestamp, hrs: u32, min: u32) -> (t: Timestamp)
    requires
        vote_minutes(hrs, min) <= u32::MAX,
        start.secs + 60 * vote_minutes(hrs, min) <= i64::MAX,
    ensures
        t == start.plus_minutes(vote_minutes(hrs, min)),
{
    let minutes = hrs * 60 + min;
    start.add_minutes(minutes)
}

/// When a vote created now, to run `hrs` hours and `min` minutes, ends. The
/// time it starts from is the clock's, of which nothing is known but that it is
/// not before 1970, within chrono's range and a whole second plus less than a
/// second's nanoseconds.
pub fn end_time_from_now(hrs: u32, min: u32) -> (t: Timestamp)
    requires
        vote_minutes(hrs, min) <= u32::MAX,
    ensures
        exists|start: Timestamp|
            #![trigger start.plus_minutes(vote_minutes(hrs, min))]
            0 <= start.secs <= 8_210_266_876_799 && start.nanos < 1_000_000_000 && t
                == start.plus_minutes(vote_minutes(hrs, min)),
{
    let start = now();
    end_time_from(start, hrs, min)
}

/// The description that a new vote gets: the one given, or an empty one.
pub fn description_or_empty(description: Option<String>) -> (d: String)
    ensures
        d@ == match description {
            Some(x) => x@,
            None => Seq::<char>::empty(),
        },
{
    match description {
        Some(x) => x,
        None => String::new(),
    }
}

/// The name shown as the author of a vote: the member's nickname where there
/// is one, else the user's name.
pub fn author_name(nick: Option<String>, user_name: String) -> (n: String)
    ensures
        n@ == match nick {
            Some(x) => x@,
            None => user_name@,
        },
{
    match nick {
        Some(x) => x,
        None => user_name,
    }
}

/// What the post command answers: whether the vote was created.
pub fn post_reply(created: bool) -> (r: &'static str)
    ensures
        r@ == if created {
            "Vote Created"@
        } else {
            "Error creating a new vote"@
        },
{
    if created {
        "Vote Created"
    } else {
        "Error creating a new vote"
    }
}

/// What the end command answers: whether a vote had the uuid given.
pub fn end_reply(found: bool) -> (r: &'static str)
    ensures
        r@ == if found {
            "Vote successfully ended"@
        } else {
            "Invalid Vote ID"@
        },
{
    if found {
        "Vote successfully ended"
    } else {
        "Invalid Vote ID"
    }
}

/// What the cancel command answers: whether a vote had the uuid given.
pub fn cancel_reply(found: bool) -> (r: &'static str)
    ensures
        r@ == if found {
            "Vote successfully canceled"@
        } else {
            "Invalid Vote ID"@
        },
{
    if found {
        "Vote successfully canceled"
    } else {
        "Invalid Vote ID"
    }
}

/// Each name on a line of its own, each line begun by a line break.
pub open spec fn name_lines(names: Seq<Seq<char>>) -> Seq<char>
    decreases names.len(),
{
    if names.len() == 0 {
        Seq::empty()
    } else {
        name_lines(names.drop_last()) + "\n"@ + names.last()
    }
}

/// The views of a list of strings.
pub open spec fn views(names: Seq<String>) -> Seq<Seq<char>> {
    names.map_values(|n: String| n@)
}

/// The text that lists votes by their names, in the order given.
pub fn vote_list(names: &Vec<String>) -> (s: String)
    ensures
        s@ == name_lines(views(names@)),
{
    let mut s = String::new();
    let n = names.len();
    let mut i: usize = 0;
    while i < n
        invariant
            n == names.len(),
            0 <= i <= n,
            s@ == name_lines(views(names@).take(i as int)),
        decreases n - i,
    {
        proof {
            assert(views(names@).take(i + 1).drop_last() =~= views(names@).take(i as int));
        }
        s.append("\n");
        s.append(names[i].as_str());
        i = i + 1;
    }
    proof {
        assert(views(names@).take(n as int) =~= views(names@));
    }
    s
}


/// The reaction that votes for.
pub const YES_REACTION: &'static str = "👍";

/// The reaction that votes against.
pub const NO_REACTION: &'static str = "👎";

/// The reaction that abstains.
pub const ABSTAIN_REACTION: &'static str = "🤚";

/// A reaction on a vote's message: the emoji's text where it is a Unicode
/// emoji (`None` for a custom emoji), and how many users reacted with it.
pub type Reaction = (Option<String>, u64);

/// `r` is the Unicode emoji `emoji`.
pub open spec fn is_emoji(r: Reaction, emoji: Seq<char>) -> bool {
    r.0 matches Some(s) && s@ == emoji
}

/// The votes cast with `emoji`: the count of the last reaction with that
/// emoji, less the one that the bot itself added; zero where there is none.
pub open spec fn cast_with(rs: Seq<Reaction>, emoji: Seq<char>) -> int
    decreases rs.len(),
{
    if rs.len() == 0 {
        0
    } else if is_emoji(rs.last(), emoji) {
        rs.last().1 - 1
    } else {
        cast_with(rs.drop_last(), emoji)
    }
}

/// Each ballot reaction has been counted at least once (the bot's own).
pub open spec fn ballots_counted(rs: Seq<Reaction>) -> bool {
    forall|i: int|
        0 <= i < rs.len() && (is_emoji(rs[i], YES_REACTION@) || is_emoji(rs[i], NO_REACTION@)
            || is_emoji(rs[i], ABSTAIN_REACTION@)) ==> #[trigger] rs[i].1 >= 1
}

/// The result of a vote, counted from the reactions on its message.
#[derive(Clone, Copy, Debug, PartialEq, Eq)]
pub struct VoteTally {
    pub yes: u64,
    pub no: u64,
    pub abstain: u64,
}

/// Counts the votes cast by reaction, leaving out the bot's own reactions.
pub fn tally_reactions(reactions: &Vec<Reaction>) -> (t: VoteTally)
    requires
        ballots_counted(reactions@),
    ensures
        t.yes == cast_with(reactions@, YES_REACTION@),
        t.no == cast_with(reactions@, NO_REACTION@),
        t.abstain == cast_with(reactions@, ABSTAIN_REACTION@),
{
    let yes_text = YES_REACTION.to_owned();
    let no_text = NO_REACTION.to_owned();
    let abstain_text = ABSTAIN_REACTION.to_owned();
    let mut t = VoteTally { yes: 0, no: 0, abstain: 0 };
    let n = reactions.len();
    let mut i: usize = 0;
    while i < n
        invariant
            n == reactions.len(),
            0 <= i <= n,
            ballots_counted(reactions@),
            yes_text@ == YES_REACTION@,
            no_text@ == NO_REACTION@,
            abstain_text@ == ABSTAIN_REACTION@,
            t.yes == cast_with(reactions@.take(i as int), YES_REACTION@),
            t.no == cast_with(reactions@.take(i as int), NO_REACTION@),
            t.abstain == cast_with(reactions@.take(i as int), ABSTAIN_REACTION@),
        decreases n - i,
    {
        proof {
            assert(reactions@.take(i + 1).drop_last() =~= reactions@.take(i as int));
            assert(reactions@.take(i + 1).last() == reactions@[i as int]);
        }
        let r = &reactions[i];
        match &r.0 {
            Some(emoji) => {
                if *emoji == yes_text {
                    t.yes = r.1 - 1;
                }
                if *emoji == no_text {
                    t.no = r.1 - 1;
                }
                if *emoji == abstain_text {
                    t.abstain = r.1 - 1;
                }
            },
            None => {},
        }
        i = i + 1;
    }
    proof {
        assert(reactions@.take(n as int) =~= reactions@);
    }
    t
}

impl VoteTally {
    /// A vote passes when more voted for it than against it.
    pub fn passed(&self) -> (p: bool)
        ensures
            p == (self.yes > self.no),
    {
        self.yes > self.no
    }

    /// The colour of the result: green for a vote that passed, red for one that
    /// failed.
    pub fn color(&self) -> (c: u32)
        ensures
            c == if self.yes > self.no {
                0x00ff00u32
            } else {
                0xff0000u32
            },
    {
        if self.passed() {
            0x00ff00
        } else {
            0xff0000
        }
    }

    /// The title of the result of the vote named `name`.
    pub fn title(&self, name: &str) -> (s: String)
        ensures
            s@ == "Vote "@ + (if self.yes > self.no {
                "passed"@
            } else {
                "failed"@
            }) + " : "@ + name@,
    {
        let mut s = "Vote ".to_owned();
        if self.passed() {
            s.append("passed");
        } else {
            s.append("failed");
        }
        s.append(" : ");
        s.append(name);
        s
    }
}


/// A vote that has ended stays ended: at any time not before one at which it
/// had ended, it has ended too.
pub proof fn law_ended_stays_ended(v: VoteView, t1: Timestamp, t2: Timestamp)
    requires
        ended_at(v, t1),
        !t2.before(t1),
    ensures
        ended_at(v, t2),
{
}

/// A vote that runs from `start` has not ended at `start`.
pub proof fn law_new_vote_is_open(start: Timestamp, hrs: u32, min: u32)
    requires
        vote_minutes(hrs, min) <= u32::MAX,
        start.secs + 60 * vote_minutes(hrs, min) <= i64::MAX,
    ensures
        !ended_at(
            VoteView {
                name: Seq::empty(),
                desc: Seq::empty(),
                msg_id: 0,
                ch_id: 0,
                guild_id: 0,
                creator: 0,
                end_time: start.plus_minutes(vote_minutes(hrs, min)),
            },
            start,
        ),
{
}

/// Splitting the votes at a time puts each vote on exactly one side, under
/// the key it had: the open votes and the ended ones together are all the
/// votes.
pub proof fn law_split_partitions(votes: Map<u64, Vote>, now: Timestamp)
    ensures
        forall|k: u64|
            votes.contains_key(k) <==> (#[trigger] open_votes(votes, now).contains_key(k)
                || #[trigger] ended_votes(votes, now).contains_key(k)),
        forall|k: u64|
            !(#[trigger] open_votes(votes, now).contains_key(k) && #[trigger] ended_votes(
                votes,
                now,
            ).contains_key(k)),
        open_votes(votes, now).union_prefer_right(ended_votes(votes, now)) == votes,
{
    assert(open_votes(votes, now).union_prefer_right(ended_votes(votes, now)) =~= votes);
}

/// Splitting the open votes again at the same time ends none of them.
pub proof fn law_split_again_ends_nothing(votes: Map<u64, Vote>, now: Timestamp)
    ensures
        open_votes(open_votes(votes, now), now) == open_votes(votes, now),
        ended_votes(open_votes(votes, now), now) == Map::<u64, Vote>::empty(),
{
    assert(open_votes(open_votes(votes, now), now) =~= open_votes(votes, now));
    assert(ended_votes(open_votes(votes, now), now) =~= Map::<u64, Vote>::empty());
}

/// A vote filed under its uuid is found by that uuid: taking it gives it back
/// and leaves the other votes as they were.
pub proof fn law_file_then_take(votes: Map<u64, Vote>, v: Vote)
    ensures
        key_of(v@.msg_id as u128) == Some(v@.msg_id),
        names_vote(votes.insert(v@.msg_id, v), v@.msg_id as u128),
        votes.insert(v@.msg_id, v)[v@.msg_id] == v,
        without_vote(votes.insert(v@.msg_id, v), v@.msg_id as u128) == votes.remove(v@.msg_id),
{
    assert(votes.insert(v@.msg_id, v).remove(v@.msg_id) =~= votes.remove(v@.msg_id));
}

/// Ending or cancelling a uuid that no vote has changes no vote; a uuid past
/// 64 bits is no vote's.
pub proof fn law_unknown_uuid_changes_nothing(votes: Map<u64, Vote>, uuid: u128)
    ensures
        uuid > u64::MAX ==> !names_vote(votes, uuid),
        !names_vote(votes, uuid) ==> without_vote(votes, uuid) == votes,
{
    if !names_vote(votes, uuid) {
        if let Some(k) = key_of(uuid) {
            assert(votes.remove(k) =~= votes);
        }
    }
}


/// Splitting is by deadline: a vote whose end time is not before `now` stays
/// open, under its key and unchanged, and a vote whose end time is before
/// `now` is among the ended ones.
pub proof fn law_split_by_deadline(votes: Map<u64, Vote>, now: Timestamp, k: u64)
    requires
        votes.contains_key(k),
    ensures
        (votes[k]@.end_time.secs > now.secs || (votes[k]@.end_time.secs == now.secs
            && votes[k]@.end_time.nanos >= now.nanos)) ==> open_votes(votes, now).contains_key(k)
            && open_votes(votes, now)[k] == votes[k] && !ended_votes(votes, now).contains_key(k),
        (votes[k]@.end_time.secs < now.secs || (votes[k]@.end_time.secs == now.secs
            && votes[k]@.end_time.nanos < now.nanos)) ==> ended_votes(votes, now).contains_key(k)
            && ended_votes(votes, now)[k] == votes[k] && !open_votes(votes, now).contains_key(k),
{
}

/// A vote runs for the hours and minutes given: its end time lies that many
/// seconds after its start, at the same fraction of a second.
pub proof fn law_end_time_after_start(start: Timestamp, hrs: u32, min: u32)
    requires
        vote_minutes(hrs, min) <= u32::MAX,
        start.secs + 60 * vote_minutes(hrs, min) <= i64::MAX,
    ensures
        start.plus_minutes(vote_minutes(hrs, min)).secs == start.secs + 3600 * hrs + 60 * min,
        start.plus_minutes(vote_minutes(hrs, min)).nanos == start.nanos,
{
}

/// Each ballot emoji is counted alike: the votes cast with an emoji are the
/// count of the last reaction with that emoji, less one; none where no
/// reaction has it.
pub proof fn law_tally_counts_last_reaction(rs: Seq<Reaction>, e: Seq<char>)
    ensures
        forall|i: int|
            #![trigger rs[i]]
            0 <= i < rs.len() && (rs[i].0 matches Some(x) && x@ == e) && (forall|j: int|
                i < j < rs.len() ==> !(#[trigger] rs[j].0 matches Some(y) && y@ == e)) ==> cast_with(
                rs,
                e,
            ) == rs[i].1 - 1,
        (forall|i: int| 0 <= i < rs.len() ==> !(#[trigger] rs[i].0 matches Some(x) && x@ == e))
            ==> cast_with(rs, e) == 0,
    decreases rs.len(),
{
    if rs.len() > 0 {
        let init = rs.drop_last();
        let last = rs.len() - 1;
        law_tally_counts_last_reaction(init, e);
        assert(rs.last() == rs[last]);
        assert forall|i: int|
            #![trigger rs[i]]
            0 <= i < rs.len() && (rs[i].0 matches Some(x) && x@ == e) && (forall|j: int|
                i < j < rs.len() ==> !(#[trigger] rs[j].0 matches Some(y) && y@ == e)) implies cast_with(
            rs,
            e,
        ) == rs[i].1 - 1 by {
            if i < last {
                assert(!(rs[last].0 matches Some(y) && y@ == e));
                assert(init[i] == rs[i]);
                assert forall|j: int| i < j < init.len() implies !(#[trigger] init[j].0 matches Some(
                    y,
                ) && y@ == e) by {
                    assert(init[j] == rs[j]);
                    assert(!(rs[j].0 matches Some(y) && y@ == e));
                }
            }
        }
        if forall|i: int| 0 <= i < rs.len() ==> !(#[trigger] rs[i].0 matches Some(x) && x@ == e) {
            assert(!(rs[last].0 matches Some(y) && y@ == e));
            assert forall|i: int| 0 <= i < init.len() implies !(#[trigger] init[i].0 matches Some(
                x,
            ) && x@ == e) by {
                assert(init[i] == rs[i]);
                assert(!(rs[i].0 matches Some(x) && x@ == e));
            }
        }
    }
}

/// Listing names one after another lists them all: the listing of two lists
/// of names is the listing of the first followed by that of the second.
pub proof fn law_name_lines_concat(a: Seq<Seq<char>>, b: Seq<Seq<char>>)
    ensures
        name_lines(a + b) == name_lines(a) + name_lines(b),
    decreases b.len(),
{
    if b.len() == 0 {
        assert(a + b =~= a);
        assert(name_lines(a) + name_lines(b) =~= name_lines(a));
    } else {
        assert((a + b).drop_last() =~= a + b.drop_last());
        assert((a + b).last() == b.last());
        law_name_lines_concat(a, b.drop_last());
        assert(name_lines(a + b) =~= name_lines(a) + name_lines(b));
    }
}

/// One name is listed as a line break followed by the name.
pub proof fn law_name_lines_one(name: Seq<char>)
    ensures
        name_lines(seq![name]) == "\n"@ + name,
{
    let one = seq![name];
    assert(one.drop_last() =~= Seq::<Seq<char>>::empty());
    assert(name_lines(one.drop_last()) == Seq::<char>::empty());
    assert(one.last() == name);
    assert(Seq::<char>::empty() + "\n"@ + name =~= "\n"@ + name);
}

/// The listing is as long as the names and one line break for each.
pub proof fn law_name_lines_len(names: Seq<Seq<char>>)
    ensures
        name_lines(names).len() == names.len() + names.fold_left(0int, |n: int, x: Seq<char>| n + x.len()),
    decreases names.len(),
{
    if names.len() > 0 {
        law_name_lines_len(names.drop_last());
        reveal_strlit("\n");
    }
}

} // verus!
