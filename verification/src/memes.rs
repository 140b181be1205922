//! The weekly meme-voting contest. A guild's record tracks the message ids
//! posted to the contest channel since the cycle started; once a week the
//! list is drained, reaction totals decide a victor, and the cycle restarts.
//! Fetching, posting and reacting happen outside this crate: the functions
//! here take the fetched values and say exactly what they decide.

use vstd::prelude::*;

use crate::assoc::{
    alist_find, alist_map, lemma_alist_map_absent, lemma_alist_map_index, lemma_alist_push,
    lemma_alist_update, unique_keys,
};
use crate::clock::{now_ts, TS_MAX};
use crate::random::{rand_index, rand_ratio};

verus! {

/// Seconds in the seven-day contest cycle.
pub const WEEK_SECONDS: i64 = 604800;

/// Seconds between the reminder ping and the reset: two days.
pub const PING_LEAD_SECONDS: i64 = 172800;

/// Seconds a failed outcome post waits before it is retried: five minutes.
pub const RETRY_DELAY_SECONDS: u64 = 300;

/// Intake reacts to one message in this many: probability one tenth.
pub const REACTION_ODDS: u32 = 10;

/// The bot's fixed reaction emote.
pub const REACTION_EMOTE: char = '\u{1F916}';

/// A guild's contest record, persisted between wakes and across restarts.
#[derive(Clone)]
pub struct Memes {
    /// The configured contest channel.
    pub channel: u64,
    /// When the running cycle started; the reset is always one week later.
    pub last_reset: i64,
    /// The message catch-up pagination resumes after, across restarts.
    pub initial_message: u64,
    /// Ids of the messages seen since the cycle started, in arrival order;
    /// drained exactly once per cycle, at the reset.
    pub tracked_messages: Vec<u64>,
    /// Lifetime win counts by user; entries only ever increase.
    pub times_won: Vec<(u64, u32)>,
    /// Whether the bot has spent its own reaction this cycle.
    pub reacted: bool,
}

impl Memes {
    /// Internal consistency: the cycle start lies in the calendar range the
    /// crate keeps, and each user has at most one victory entry.
    pub open spec fn wf(self) -> bool {
        &&& 0 <= self.last_reset <= TS_MAX
        &&& unique_keys(self.times_won@)
    }

    /// The victory tally as a map from user to lifetime win count.
    pub open spec fn victories(self) -> Map<u64, u32> {
        alist_map(self.times_won@)
    }

    /// A fresh record for a newly configured channel; the cycle starts now.
    pub fn new(channel: u64, initial_message: u64) -> (r: Memes)
        ensures
            r.wf(),
            r.channel == channel,
            r.initial_message == initial_message,
            r.tracked_messages@ == Seq::<u64>::empty(),
            r.victories() == Map::<u64, u32>::empty(),
            !r.reacted,
    {
        let r = Memes {
            channel,
            last_reset: now_ts(),
            initial_message,
            tracked_messages: Vec::new(),
            times_won: Vec::new(),
            reacted: false,
        };
        proof {
            assert(r.tracked_messages@ =~= Seq::<u64>::empty());
            assert(r.victories() =~= Map::<u64, u32>::empty());
        }
        r
    }

    /// When the running cycle ends: always one week after it started, never
    /// stored separately.
    pub fn next_reset(&self) -> (r: i64)
        requires
            self.wf(),
        ensures
            r == self.last_reset + WEEK_SECONDS,
    {
        self.last_reset + WEEK_SECONDS
    }

    /// Close the cycle: new anchor message, new start, reaction flag
    /// cleared. The tracked list is untouched — the drain precedes this and
    /// later arrivals already belong to the new cycle.
    pub fn reset(&mut self, time: i64, initial_message: u64)
        requires
            old(self).wf(),
            0 <= time <= TS_MAX,
        ensures
            final(self).wf(),
            final(self).last_reset == time,
            final(self).initial_message == initial_message,
            !final(self).reacted,
            final(self).channel == old(self).channel,
            final(self).tracked_messages == old(self).tracked_messages,
            final(self).times_won == old(self).times_won,
    {
        self.last_reset = time;
        self.reacted = false;
        self.initial_message = initial_message;
    }

    /// The configured contest channel.
    pub fn channel(&self) -> (r: u64)
        ensures
            r == self.channel,
    {
        self.channel
    }

    /// Whether the bot's own reaction is already spent this cycle.
    pub fn has_reacted(&self) -> (r: bool)
        ensures
            r == self.reacted,
    {
        self.reacted
    }

    /// Record that the bot's reaction landed; only `reset` clears this.
    pub fn reacted(&mut self)
        ensures
            final(self).reacted,
            final(self).channel == old(self).channel,
            final(self).last_reset == old(self).last_reset,
            final(self).initial_message == old(self).initial_message,
            final(self).tracked_messages == old(self).tracked_messages,
            final(self).times_won == old(self).times_won,
    {
        self.reacted = true;
    }

    /// The victory tally entries.
    pub fn victors(&self) -> (r: &Vec<(u64, u32)>)
        ensures
            r == &self.times_won,
    {
        &self.times_won
    }

    /// One more lifetime victory for the user; every other tally entry is
    /// untouched, so counts never decrease.
    pub fn add_victory(&mut self, uid: u64)
        requires
            old(self).wf(),
            old(self).victories().contains_key(uid) ==> old(self).victories()[uid] < u32::MAX,
        ensures
            final(self).wf(),
            final(self).victories() == old(self).victories().insert(
                uid,
                if old(self).victories().contains_key(uid) {
                    (old(self).victories()[uid] + 1) as u32
                } else {
                    1u32
                },
            ),
            final(self).channel == old(self).channel,
            final(self).last_reset == old(self).last_reset,
            final(self).initial_message == old(self).initial_message,
            final(self).tracked_messages == old(self).tracked_messages,
            final(self).reacted == old(self).reacted,
    {
        let ghost s0 = self.times_won@;
        match alist_find(&self.times_won, uid) {
            Some(i) => {
                proof {
                    lemma_alist_map_index(s0, i as int);
                }
                let c = self.times_won[i].1;
                self.times_won.set(i, (uid, c + 1));
                proof {
                    lemma_alist_update(s0, i as int, (c + 1) as u32);
                }
            },
            None => {
                proof {
                    lemma_alist_map_absent(s0, uid);
                }
                self.times_won.push((uid, 1));
                proof {
                    lemma_alist_push(s0, uid, 1u32);
                }
            },
        }
    }

    /// The victory rankings: the tally arranged in weakly descending win
    /// order. Which of two users with equal counts comes first is left open.
    pub fn leaderboard(&self) -> (r: Vec<(u64, u32)>)
        ensures
            is_tally_ranking(self.times_won@, r@),
    {
        let mut out: Vec<(u64, u32)> = Vec::new();
        let mut i: usize = 0;
        proof {
            assert(out@ =~= self.times_won@.take(0));
        }
        while i < self.times_won.len()
            invariant
                i <= self.times_won@.len(),
                out@.to_multiset() == self.times_won@.take(i as int).to_multiset(),
                tally_sorted_desc(out@),
            decreases self.times_won@.len() - i,
        {
            let e = self.times_won[i];
            let ghost a = out@;
            let mut p: usize = 0;
            while p < out.len() && out[p].1 >= e.1
                invariant
                    p <= out@.len(),
                    out@ == a,
                    forall|q: int| 0 <= q < p ==> a[q].1 >= e.1,
                decreases out@.len() - p,
            {
                p = p + 1;
            }
            out.insert(p, e);
            proof {
                broadcast use vstd::seq_lib::group_to_multiset_ensures;
                broadcast use vstd::multiset::group_multiset_axioms;

                assert(a.insert(p as int, e) =~= a.take(p as int).push(e) + a.skip(p as int));
                assert(a.take(p as int) + a.skip(p as int) =~= a);
                vstd::seq_lib::lemma_multiset_commutative(
                    a.take(p as int).push(e),
                    a.skip(p as int),
                );
                vstd::seq_lib::lemma_multiset_commutative(a.take(p as int), a.skip(p as int));
                assert(out@.to_multiset() =~= a.to_multiset().insert(e));
                assert(self.times_won@.take(i + 1).drop_last() =~= self.times_won@.take(i as int));
                assert(self.times_won@.take(i + 1) =~= self.times_won@.take(i as int).push(
                    self.times_won@[i as int],
                ));
                assert(self.times_won@.take(i + 1).to_multiset() =~= self.times_won@.take(
                    i as int,
                ).to_multiset().insert(e));
                assert forall|x: int, y: int| 0 <= x < y < out@.len() implies out@[x].1
                    >= out@[y].1 by {
                    if y < p {
                        assert(out@[x] == a[x] && out@[y] == a[y]);
                    } else if x > p {
                        assert(out@[x] == a[x - 1] && out@[y] == a[y - 1]);
                    } else if x < p && y == p {
                        assert(out@[x] == a[x]);
                    } else if x < p && y > p {
                        assert(out@[x] == a[x] && out@[y] == a[y - 1]);
                    } else if x == p && y > p {
                        assert(out@[y] == a[y - 1]);
                        if p < a.len() {
                            assert(a[p as int].1 < e.1 || tally_sorted_desc(a));
                        }
                    }
                }
            }
            i = i + 1;
        }
        proof {
            assert(self.times_won@.take(self.times_won@.len() as int) =~= self.times_won@);
        }
        out
    }

    /// The message the next catch-up page is fetched after, across restarts.
    pub fn initial_message(&self) -> (r: u64)
        ensures
            r == self.initial_message,
    {
        self.initial_message
    }

    /// The pagination cursor: the last tracked message if any, else the
    /// anchor message.
    pub fn catch_up_cursor(&self) -> (r: u64)
        ensures
            self.tracked_messages@.len() > 0 ==> r == self.tracked_messages@.last(),
            self.tracked_messages@.len() == 0 ==> r == self.initial_message,
    {
        if self.tracked_messages.len() > 0 {
            self.tracked_messages[self.tracked_messages.len() - 1]
        } else {
            self.initial_message
        }
    }

    /// Catch-up absorbing one fetched page of messages newer than the
    /// cursor: every non-bot id is appended, in page order, each exactly
    /// once; an empty page appends nothing.
    pub fn absorb_page(&mut self, page: &Vec<PageMessage>)
        requires
            old(self).wf(),
        ensures
            final(self).wf(),
            final(self).tracked_messages@ == old(self).tracked_messages@ + page_ids(page@),
            final(self).channel == old(self).channel,
            final(self).last_reset == old(self).last_reset,
            final(self).initial_message == old(self).initial_message,
            final(self).times_won == old(self).times_won,
            final(self).reacted == old(self).reacted,
    {
        let ghost t0 = self.tracked_messages@;
        let mut i: usize = 0;
        while i < page.len()
            invariant
                i <= page@.len(),
                self.tracked_messages@ == t0 + page_ids(page@.take(i as int)),
                self.channel == old(self).channel,
                self.last_reset == old(self).last_reset,
                self.initial_message == old(self).initial_message,
                self.times_won == old(self).times_won,
                self.reacted == old(self).reacted,
            decreases page@.len() - i,
        {
            proof {
                assert(page@.take(i + 1).drop_last() =~= page@.take(i as int));
                assert(page@.take(i + 1).last() == page@[i as int]);
            }
            if !page[i].from_bot {
                self.tracked_messages.push(page[i].message);
                proof {
                    assert(self.tracked_messages@ =~= t0 + page_ids(page@.take(i + 1)));
                }
            } else {
                proof {
                    assert(self.tracked_messages@ =~= t0 + page_ids(page@.take(i + 1)));
                }
            }
            i = i + 1;
        }
        proof {
            assert(page@.take(page@.len() as int) =~= page@);
        }
    }

    /// Message intake: a non-bot, non-ephemeral message posted to the
    /// configured channel is tracked; anything else is ignored. Reports
    /// whether a reaction attempt is due — a one-in-ten draw, only while the
    /// cycle's own reaction is unspent, and never for an ignored message.
    pub fn intake(&mut self, channel: u64, message: u64, from_bot: bool, ephemeral: bool) -> (attempt_react:
        bool)
        requires
            old(self).wf(),
        ensures
            final(self).wf(),
            intake_eligible(*old(self), channel, from_bot, ephemeral)
                ==> final(self).tracked_messages@ == old(self).tracked_messages@.push(message),
            !intake_eligible(*old(self), channel, from_bot, ephemeral)
                ==> *final(self) == *old(self) && !attempt_react,
            attempt_react ==> intake_eligible(*old(self), channel, from_bot, ephemeral)
                && reaction_available(*old(self)),
            final(self).channel == old(self).channel,
            final(self).last_reset == old(self).last_reset,
            final(self).initial_message == old(self).initial_message,
            final(self).times_won == old(self).times_won,
            final(self).reacted == old(self).reacted,
    {
        if channel == self.channel && !from_bot && !ephemeral {
            self.tracked_messages.push(message);
            !self.reacted && rand_ratio(1, REACTION_ODDS)
        } else {
            false
        }
    }

    /// Atomically drain the cycle's tracked messages and snapshot the
    /// reaction flag: the drained list is exactly what was tracked, the list
    /// is left empty, and nothing else moves — intake that lands afterwards
    /// belongs to the next cycle.
    pub fn drain_tracked(&mut self) -> (r: (Vec<u64>, bool))
        requires
            old(self).wf(),
        ensures
            final(self).wf(),
            r.0@ == old(self).tracked_messages@,
            r.1 == old(self).reacted,
            final(self).tracked_messages@ == Seq::<u64>::empty(),
            final(self).channel == old(self).channel,
            final(self).last_reset == old(self).last_reset,
            final(self).initial_message == old(self).initial_message,
            final(self).times_won == old(self).times_won,
            final(self).reacted == old(self).reacted,
    {
        let mut drained: Vec<u64> = Vec::new();
        core::mem::swap(&mut drained, &mut self.tracked_messages);
        proof {
            assert(self.tracked_messages@ =~= Seq::<u64>::empty());
        }
        (drained, self.reacted)
    }
}

/// Victory entries in weakly descending win order.
pub open spec fn tally_sorted_desc(s: Seq<(u64, u32)>) -> bool {
    forall|i: int, j: int| 0 <= i < j < s.len() ==> s[i].1 >= s[j].1
}

/// A descending arrangement of exactly the given victory entries. Which of
/// two equal counts comes first is left open: the rankings promise nothing
/// about it.
pub open spec fn is_tally_ranking(entries: Seq<(u64, u32)>, sorted: Seq<(u64, u32)>) -> bool {
    &&& sorted.to_multiset() == entries.to_multiset()
    &&& tally_sorted_desc(sorted)
}

/// Whether intake tracks a message: right channel, not the bot's own, not
/// ephemeral.
pub open spec fn intake_eligible(m: Memes, channel: u64, from_bot: bool, ephemeral: bool) -> bool {
    channel == m.channel && !from_bot && !ephemeral
}

/// Whether the bot may still attempt its own reaction this cycle.
pub open spec fn reaction_available(m: Memes) -> bool {
    !m.reacted
}

/// One entry of a fetched catch-up page: a message id and whether the bot
/// authored it.
#[derive(Debug, Clone, Copy, PartialEq, Eq, Structural)]
pub struct PageMessage {
    pub message: u64,
    pub from_bot: bool,
}

/// The ids a page contributes to the tracked list: its non-bot messages, in
/// page order.
pub open spec fn page_ids(page: Seq<PageMessage>) -> Seq<u64>
    decreases page.len(),
{
    if page.len() == 0 {
        Seq::empty()
    } else {
        page_ids(page.drop_last()) + if !page.last().from_bot {
            seq![page.last().message]
        } else {
            Seq::empty()
        }
    }
}

/// Catch-up is idempotent: a pass that fetches no new messages — the page
/// comes back empty — appends nothing to the tracked list.
pub proof fn lemma_catch_up_idempotent(base: Seq<u64>, page: Seq<PageMessage>)
    requires
        page.len() == 0,
    ensures
        base + page_ids(page) == base,
{
    assert(base + page_ids(page) =~= base);
}

/// A page of the bot's own messages contributes nothing.
pub proof fn lemma_page_ids_all_bot(page: Seq<PageMessage>)
    requires
        forall|i: int| 0 <= i < page.len() ==> (#[trigger] page[i]).from_bot,
    ensures
        page_ids(page) == Seq::<u64>::empty(),
    decreases page.len(),
{
    if page.len() > 0 {
        lemma_page_ids_all_bot(page.drop_last());
        assert(page[page.len() - 1].from_bot);
        assert(page_ids(page) =~= Seq::<u64>::empty());
    } else {
        assert(page_ids(page) =~= Seq::<u64>::empty());
    }
}

/// Running catch-up a second time with no intervening new messages appends
/// zero ids: once the cursor stands at or past every non-bot message of the
/// channel, the page of messages after it — however the channel's history
/// reads — contributes nothing to the tracked list.
pub proof fn lemma_catch_up_converges(history: Seq<PageMessage>, cursor: u64)
    requires
        forall|i: int|
            0 <= i < history.len() && !(#[trigger] history[i]).from_bot ==> history[i].message
                <= cursor,
    ensures
        page_ids(history.filter(|p: PageMessage| p.message > cursor)) == Seq::<u64>::empty(),
{
    let pred = |p: PageMessage| p.message > cursor;
    let page = history.filter(pred);
    assert forall|i: int| 0 <= i < page.len() implies (#[trigger] page[i]).from_bot by {
        history.lemma_filter_pred(pred, i);
        lemma_filter_is_subset(history, pred, i);
    }
    lemma_page_ids_all_bot(page);
}

/// Every entry of a filtered sequence stands somewhere in the sequence it
/// was filtered from.
proof fn lemma_filter_is_subset(s: Seq<PageMessage>, pred: spec_fn(PageMessage) -> bool, i: int)
    requires
        0 <= i < s.filter(pred).len(),
    ensures
        exists|j: int| 0 <= j < s.len() && s[j] == s.filter(pred)[i],
    decreases s.len(),
{
    reveal(Seq::filter);
    if s.len() > 0 {
        let f = s.filter(pred);
        let g = s.drop_last().filter(pred);
        if pred(s.last()) {
            assert(f =~= g.push(s.last()));
            if i < g.len() {
                lemma_filter_is_subset(s.drop_last(), pred, i);
                let j = choose|j: int| 0 <= j < s.drop_last().len() && s.drop_last()[j] == g[i];
                assert(s[j] == f[i]);
            } else {
                assert(s[s.len() - 1] == f[i]);
            }
        } else {
            assert(f =~= g);
            lemma_filter_is_subset(s.drop_last(), pred, i);
            let j = choose|j: int| 0 <= j < s.drop_last().len() && s.drop_last()[j] == g[i];
            assert(s[j] == f[i]);
        }
    }
}

/// The tracked list after a run of intakes, each appending one id.
pub open spec fn intake_all(base: Seq<u64>, msgs: Seq<u64>) -> Seq<u64>
    decreases msgs.len(),
{
    if msgs.len() == 0 {
        base
    } else {
        intake_all(base, msgs.drop_last()).push(msgs.last())
    }
}

/// A run of intakes appends exactly its ids, in order.
pub proof fn lemma_intake_all_appends(base: Seq<u64>, msgs: Seq<u64>)
    ensures
        intake_all(base, msgs) == base + msgs,
    decreases msgs.len(),
{
    if msgs.len() == 0 {
        assert(intake_all(base, msgs) =~= base + msgs);
    } else {
        lemma_intake_all_appends(base, msgs.drop_last());
        assert(intake_all(base, msgs) =~= base + msgs);
    }
}

/// The drain is atomic with respect to intake: the drained list holds
/// exactly the ids tracked before it, the record afterwards tracks exactly
/// the ids taken in after it, and together they hold every id exactly once —
/// none lost, none duplicated.
pub proof fn lemma_drain_intake_partition(before: Seq<u64>, later: Seq<u64>)
    ensures
        intake_all(Seq::<u64>::empty(), later) == later,
        before.to_multiset().add(intake_all(Seq::<u64>::empty(), later).to_multiset()) == (before
            + later).to_multiset(),
{
    lemma_intake_all_appends(Seq::<u64>::empty(), later);
    assert(Seq::<u64>::empty() + later =~= later);
    vstd::seq_lib::lemma_multiset_commutative(before, later);
}

/// Everything the reset evaluation needs of one fetched message: its id,
/// its author, whether the bot wrote it, and its reaction counts by kind.
pub struct FetchedMessage {
    pub message: u64,
    pub author: u64,
    pub from_bot: bool,
    pub reactions: Vec<u64>,
}

/// A contest candidate: a fetched non-bot message with its reaction total.
#[derive(Debug, Clone, Copy, PartialEq, Eq, Structural)]
pub struct MemeCandidate {
    pub message: u64,
    pub author: u64,
    pub total: u128,
}

/// The sum of a sequence of reaction counts.
pub open spec fn seq_sum(s: Seq<u64>) -> int
    decreases s.len(),
{
    if s.len() == 0 {
        0
    } else {
        seq_sum(s.drop_last()) + s.last()
    }
}

/// A sum of counts is bounded by their number times the largest count.
pub proof fn lemma_seq_sum_bound(s: Seq<u64>)
    ensures
        0 <= seq_sum(s) <= s.len() * u64::MAX,
    decreases s.len(),
{
    if s.len() == 0 {
    } else {
        lemma_seq_sum_bound(s.drop_last());
        assert((s.len() - 1) * u64::MAX + u64::MAX == s.len() * u64::MAX) by (nonlinear_arith);
    }
}

/// The candidate a fetched message yields.
pub open spec fn candidate_of(f: FetchedMessage) -> MemeCandidate {
    MemeCandidate { message: f.message, author: f.author, total: seq_sum(f.reactions@) as u128 }
}

/// The candidates of a fetch result: unfetchable entries and the bot's own
/// messages are discarded, the rest keep fetch order.
pub open spec fn candidates_of(fetched: Seq<Option<FetchedMessage>>) -> Seq<MemeCandidate>
    decreases fetched.len(),
{
    if fetched.len() == 0 {
        Seq::empty()
    } else {
        candidates_of(fetched.drop_last()) + match fetched.last() {
            Some(f) => if !f.from_bot {
                seq![candidate_of(f)]
            } else {
                Seq::empty()
            },
            None => Seq::empty(),
        }
    }
}

/// The state machine owning the weekly contest: pure evaluation steps over
/// plain values; the loop around them sleeps, fetches and posts elsewhere.
pub struct MemesVoting;

/// What a contest wake does next: sleep towards the reminder ping, sleep
/// towards the reset, or run the reset now.
#[derive(Debug, Clone, Copy, PartialEq, Eq, Structural)]
pub enum CycleStep {
    SleepUntilPing { wake: i64 },
    SleepUntilReset { wake: i64 },
    ResetDue,
}

/// The outcome a reset posts: no entries at all, entries but not a single
/// vote, or a victor with its author, message and total.
#[derive(Debug, Clone, Copy, PartialEq, Eq, Structural)]
pub enum ResetOutcome {
    NoEntries,
    NoVotes,
    Victory { author: u64, message: u64, votes: u128 },
}

impl MemesVoting {
    /// Where the cycle stands: more than two days before the reset the loop
    /// sleeps towards the reminder ping; inside the final two days it sleeps
    /// towards the reset; past the reset it resets. Re-evaluated from the
    /// persisted start on every wake, so configuration edits made during a
    /// sleep are honoured at the next wake.
    pub fn cycle_step(m: &Memes, now: i64) -> (r: CycleStep)
        requires
            m.wf(),
            0 <= now <= TS_MAX,
        ensures
            ({
                let next = m.last_reset + WEEK_SECONDS;
                let ping = next - PING_LEAD_SECONDS;
                r == if now < ping {
                    CycleStep::SleepUntilPing { wake: ping as i64 }
                } else if now < next {
                    CycleStep::SleepUntilReset { wake: next as i64 }
                } else {
                    CycleStep::ResetDue
                }
            }),
    {
        let next = m.last_reset + WEEK_SECONDS;
        let ping = next - PING_LEAD_SECONDS;
        if now < ping {
            CycleStep::SleepUntilPing { wake: ping }
        } else if now < next {
            CycleStep::SleepUntilReset { wake: next }
        } else {
            CycleStep::ResetDue
        }
    }

    /// Whether the ping wake sends the reminder: only when nothing has been
    /// tracked this cycle.
    pub fn reminder_due(m: &Memes) -> (r: bool)
        ensures
            r == (m.tracked_messages@.len() == 0),
    {
        m.tracked_messages.len() == 0
    }

    /// The reaction total of one message: the sum of its per-kind counts.
    pub fn reaction_total(counts: &Vec<u64>) -> (r: u128)
        ensures
            r == seq_sum(counts@),
    {
        proof {
            lemma_seq_sum_bound(counts@);
        }
        let mut total: u128 = 0;
        let mut i: usize = 0;
        while i < counts.len()
            invariant
                i <= counts@.len(),
                total == seq_sum(counts@.take(i as int)),
                total <= i * u64::MAX,
            decreases counts@.len() - i,
        {
            proof {
                assert(counts@.take(i + 1).drop_last() =~= counts@.take(i as int));
                assert(counts@.take(i + 1).last() == counts@[i as int]);
                assert(i * u64::MAX + u64::MAX == (i + 1) * u64::MAX) by (nonlinear_arith);
                assert((i + 1) * u64::MAX < u128::MAX) by (nonlinear_arith)
                    requires
                        0 <= i < usize::MAX,
                ;
            }
            total = total + counts[i] as u128;
            i = i + 1;
        }
        proof {
            assert(counts@.take(counts@.len() as int) =~= counts@);
        }
        total
    }

    /// Build the candidate list from the fetched drained messages:
    /// unfetchable ones and the bot's own are discarded, the rest keep fetch
    /// order, each with its reaction total.
    pub fn evaluate_entries(fetched: &Vec<Option<FetchedMessage>>) -> (r: Vec<MemeCandidate>)
        ensures
            r@ == candidates_of(fetched@),
            forall|i: int| 0 <= i < r@.len() ==> (#[trigger] r@[i].total) < u128::MAX,
    {
        let mut out: Vec<MemeCandidate> = Vec::new();
        let mut i: usize = 0;
        while i < fetched.len()
            invariant
                i <= fetched@.len(),
                out@ == candidates_of(fetched@.take(i as int)),
                forall|k: int| 0 <= k < out@.len() ==> (#[trigger] out@[k].total) < u128::MAX,
            decreases fetched@.len() - i,
        {
            proof {
                assert(fetched@.take(i + 1).drop_last() =~= fetched@.take(i as int));
                assert(fetched@.take(i + 1).last() == fetched@[i as int]);
            }
            match &fetched[i] {
                Some(f) => {
                    if !f.from_bot {
                        let n = f.reactions.len();
                        proof {
                            lemma_seq_sum_bound(f.reactions@);
                            assert(n * u64::MAX < u128::MAX) by (nonlinear_arith)
                                requires
                                    0 <= n <= usize::MAX,
                            ;
                        }
                        let total = Self::reaction_total(&f.reactions);
                        out.push(MemeCandidate { message: f.message, author: f.author, total });
                        proof {
                            assert(out@ =~= candidates_of(fetched@.take(i + 1)));
                        }
                    } else {
                        proof {
                            assert(out@ =~= candidates_of(fetched@.take(i + 1)));
                        }
                    }
                },
                None => {
                    proof {
                        assert(out@ =~= candidates_of(fetched@.take(i + 1)));
                    }
                },
            }
            i = i + 1;
        }
        proof {
            assert(fetched@.take(fetched@.len() as int) =~= fetched@);
        }
        out
    }

    /// The forced pick before the tally: while the cycle's reaction is
    /// unspent and candidates exist, one of them — uniformly random — gets
    /// the bot's reaction; otherwise nothing is picked.
    pub fn forced_reaction_pick(reacted: bool, n: usize) -> (r: Option<usize>)
        ensures
            r is Some <==> (!reacted && n > 0),
            r matches Some(i) ==> i < n,
    {
        if !reacted && n > 0 {
            Some(rand_index(n))
        } else {
            None
        }
    }

    /// Count the bot's own landed reaction into a candidate's total.
    pub fn boost_total(c: &mut Vec<MemeCandidate>, i: usize)
        requires
            i < old(c)@.len(),
            old(c)@[i as int].total < u128::MAX,
        ensures
            final(c)@ == old(c)@.update(
                i as int,
                MemeCandidate {
                    message: old(c)@[i as int].message,
                    author: old(c)@[i as int].author,
                    total: (old(c)@[i as int].total + 1) as u128,
                },
            ),
    {
        let e = c[i];
        c.set(i, MemeCandidate { message: e.message, author: e.author, total: e.total + 1 });
    }

    /// Select the victor: the candidate with the strictly highest total,
    /// ties broken by fetch order — the first carrying the maximum wins.
    /// `None` exactly when there are no candidates.
    pub fn select_victor(c: &Vec<MemeCandidate>) -> (r: Option<usize>)
        ensures
            r is None <==> c@.len() == 0,
            r matches Some(i) ==> {
                &&& i < c@.len()
                &&& forall|j: int| 0 <= j < c@.len() ==> c@[j].total <= c@[i as int].total
                &&& forall|j: int| 0 <= j < i ==> c@[j].total < c@[i as int].total
            },
    {
        if c.len() == 0 {
            return None;
        }
        let mut best: usize = 0;
        let mut i: usize = 1;
        while i < c.len()
            invariant
                best < i <= c@.len(),
                forall|j: int| 0 <= j < i ==> c@[j].total <= c@[best as int].total,
                forall|j: int| 0 <= j < best ==> c@[j].total < c@[best as int].total,
            decreases c@.len() - i,
        {
            if c[i].total > c[best].total {
                best = i;
            }
            i = i + 1;
        }
        Some(best)
    }

    /// Decide what the reset posts: no candidates at all, candidates but a
    /// zero maximum, or the first candidate carrying the strictly highest
    /// total, named with its author, message and votes.
    pub fn decide_outcome(c: &Vec<MemeCandidate>) -> (r: ResetOutcome)
        ensures
            (r is NoEntries) <==> c@.len() == 0,
            (r is NoVotes) <==> (c@.len() > 0 && (forall|j: int|
                0 <= j < c@.len() ==> c@[j].total == 0)),
            r matches ResetOutcome::Victory { author, message, votes } ==> exists|i: int|
                {
                    &&& 0 <= i < c@.len()
                    &&& author == c@[i].author
                    &&& message == c@[i].message
                    &&& votes == c@[i].total
                    &&& votes > 0
                    &&& forall|j: int| 0 <= j < c@.len() ==> c@[j].total <= c@[i].total
                    &&& forall|j: int| 0 <= j < i ==> c@[j].total < c@[i].total
                },
    {
        match Self::select_victor(c) {
            None => ResetOutcome::NoEntries,
            Some(i) => {
                if c[i].total == 0 {
                    ResetOutcome::NoVotes
                } else {
                    let v = c[i];
                    proof {
                        assert(exists|k: int|
                            {
                                &&& 0 <= k < c@.len()
                                &&& v.author == c@[k].author
                                &&& v.message == c@[k].message
                                &&& v.total == c@[k].total
                                &&& v.total > 0
                                &&& forall|j: int| 0 <= j < c@.len() ==> c@[j].total <= c@[k].total
                                &&& forall|j: int| 0 <= j < k ==> c@[j].total < c@[k].total
                            }) by {
                            assert(0 <= i < c@.len());
                        }
                    }
                    ResetOutcome::Victory { author: v.author, message: v.message, votes: v.total }
                }
            },
        }
    }
}

/// Tie-break determinism: when an earlier and a later candidate share the
/// maximum total, any index satisfying the selection contract lies at or
/// before the earlier one and carries the same total — the later candidate
/// never wins.
pub proof fn lemma_tie_break(c: Seq<MemeCandidate>, i: int, j: int, k: int)
    requires
        0 <= i < j < c.len(),
        c[i].total == c[j].total,
        forall|m: int| 0 <= m < c.len() ==> c[m].total <= c[i].total,
        0 <= k < c.len(),
        forall|m: int| 0 <= m < c.len() ==> c[m].total <= c[k].total,
        forall|m: int| 0 <= m < k ==> c[m].total < c[k].total,
    ensures
        k <= i,
        c[k].total == c[i].total,
        k != j,
{
    if k > i {
        assert(c[i].total < c[k].total);
        assert(c[k].total <= c[i].total);
    }
}

/// How many reaction attempts land over a run of draws within one cycle:
/// an attempt is only made while the flag is unspent — as intake and the
/// forced pick both demand — and a landed attempt sets the flag, which only
/// the reset clears.
pub open spec fn landed_reactions(flag: bool, draws: Seq<bool>) -> int
    decreases draws.len(),
{
    if draws.len() == 0 {
        0
    } else {
        let first_lands = !flag && draws.first();
        (if first_lands {
            1int
        } else {
            0int
        }) + landed_reactions(flag || first_lands, draws.drop_first())
    }
}

/// The bot reacts at most once per cycle: from a spent flag no attempt ever
/// lands, and from the cleared flag a reset leaves behind, at most one of
/// any run of draws lands before the flag is spent again.
pub proof fn lemma_single_reaction_per_cycle(flag: bool, draws: Seq<bool>)
    ensures
        flag ==> landed_reactions(flag, draws) == 0,
        landed_reactions(flag, draws) <= 1,
    decreases draws.len(),
{
    if draws.len() > 0 {
        let first_lands = !flag && draws.first();
        lemma_single_reaction_per_cycle(flag || first_lands, draws.drop_first());
    }
}

} // verus!
