//! The nickname lottery: each guild keeps per-user lists of nicknames; at
//! randomly sampled intervals one user is drawn and renamed to one of their
//! nicknames. On the override date — April the first — the interval is
//! forced to its minimum, and a draw that would cross that date is clamped
//! to land exactly at its start. Member resolution, the rename call and the
//! announcements happen outside this crate.

use vstd::prelude::*;

use crate::assoc::{
    alist_find, alist_map, lemma_alist_map_absent, lemma_alist_map_index, lemma_alist_push,
    lemma_alist_remove, lemma_alist_update, unique_keys,
};
use crate::clock::{civil_start, civil_ts, day_of, month_of, now_ts, ts_day, ts_month, ts_year,
    year_of, TS_MAX};
use crate::random::{rand_between, rand_index};
use crate::stream_indicator::{has_streaming_prefix, prefix_string, streaming_prefix,
    StreamIndicator};

verus! {

/// The default shortest wait between draws: thirty minutes.
pub const DEFAULT_REFRESH_MIN: u64 = 1800;

/// The default longest wait between draws: five days.
pub const DEFAULT_REFRESH_MAX: u64 = 432000;

/// The month of the override date (April the first).
pub const OVERRIDE_MONTH: u32 = 4;

/// The day of the override date (April the first).
pub const OVERRIDE_DAY: u32 = 1;

/// One nickname with its provenance.
#[derive(Debug, Clone)]
pub struct NicknameData {
    /// The nickname itself.
    pub nickname: String,
    /// Who added it; unknown for entries migrated from older data.
    pub author: Option<u64>,
    /// When it was added; unknown for entries migrated from older data.
    pub time: Option<i64>,
    /// Free-text context, if any was offered.
    pub context: Option<String>,
}

impl NicknameData {
    /// A fresh entry, stamped with the current time.
    pub fn new(nickname: String, author: u64) -> (r: NicknameData)
        ensures
            r.nickname == nickname,
            r.author == Some(author),
            r.time is Some,
            r.context is None,
    {
        NicknameData { nickname, author: Some(author), time: Some(now_ts()), context: None }
    }

    /// The nickname itself.
    pub fn nickname(&self) -> (r: &String)
        ensures
            r == &self.nickname,
    {
        &self.nickname
    }

    /// Who added the nickname, if known.
    pub fn author(&self) -> (r: Option<u64>)
        ensures
            r == self.author,
    {
        self.author
    }

    /// When the nickname was added, if known.
    pub fn time(&self) -> (r: Option<i64>)
        ensures
            r == self.time,
    {
        self.time
    }

    /// The context behind the nickname, if any was offered.
    pub fn context(&self) -> (r: Option<&String>)
        ensures
            r is Some <==> self.context is Some,
            r matches Some(c) ==> self.context matches Some(d) && c == &d,
    {
        match &self.context {
            Some(c) => Some(c),
            None => None,
        }
    }

    /// Attach or replace the context.
    pub fn set_context(&mut self, context: String)
        ensures
            *final(self) == with_context(*old(self), context),
    {
        self.context = Some(context);
    }
}

/// A nickname entry with its context replaced.
pub open spec fn with_context(nd: NicknameData, context: String) -> NicknameData {
    NicknameData { nickname: nd.nickname, author: nd.author, time: nd.time, context: Some(context) }
}

/// A guild's lottery data: nickname lists by user, and the announcement and
/// interval configuration.
pub struct NicknameLotteryGuildData {
    /// Nickname lists by user; a listed user always has at least one entry.
    pub user_specific_nicknames: Vec<(u64, Vec<NicknameData>)>,
    /// Where rename failures — and every override-date rename — are
    /// announced; unset means announcements go to the notification sink.
    pub channel: Option<u64>,
    /// Overrides the announcement title, else a default is used.
    pub title_override: Option<String>,
    /// Overrides the wait range between draws, in seconds.
    pub refresh_interval: Option<(u64, u64)>,
}

impl NicknameLotteryGuildData {
    /// Internal consistency: one list per user, never left empty, and any
    /// interval override is a non-empty range within the calendar bound.
    pub open spec fn wf(self) -> bool {
        &&& unique_keys(self.user_specific_nicknames@)
        &&& forall|i: int|
            0 <= i < self.user_specific_nicknames@.len()
                ==> (#[trigger] self.user_specific_nicknames@[i]).1@.len() >= 1
        &&& forall|i: int, k: int|
            0 <= i < self.user_specific_nicknames@.len() && 0 <= k
                < self.user_specific_nicknames@[i].1@.len()
                ==> (#[trigger] self.user_specific_nicknames@[i].1@[k]).nickname@.len() <= 30
        &&& (self.refresh_interval matches Some(iv) ==> iv.0 <= iv.1 <= TS_MAX as u64)
    }

    /// The nickname lists as a map from user to list.
    pub open spec fn nicknames_map(self) -> Map<u64, Vec<NicknameData>> {
        alist_map(self.user_specific_nicknames@)
    }

    /// The nickname list of a user, or `None` for an unlisted user.
    pub fn user_nicknames(&self, user: u64) -> (r: Option<&Vec<NicknameData>>)
        requires
            self.wf(),
        ensures
            r is Some <==> self.nicknames_map().contains_key(user),
            r matches Some(v) ==> *v == self.nicknames_map()[user],
    {
        match alist_find(&self.user_specific_nicknames, user) {
            Some(i) => {
                proof {
                    lemma_alist_map_index(self.user_specific_nicknames@, i as int);
                }
                Some(&self.user_specific_nicknames[i].1)
            },
            None => {
                proof {
                    lemma_alist_map_absent(self.user_specific_nicknames@, user);
                }
                None
            },
        }
    }

    /// Add a nickname for a user, creating their list if need be; returns
    /// the position the entry landed at, counting from zero. The text is at
    /// most thirty characters, as every stored entry is.
    pub fn add_user_nickname(&mut self, user: u64, nickname: NicknameData) -> (n: usize)
        requires
            old(self).wf(),
            nickname.nickname@.len() <= 30,
        ensures
            final(self).wf(),
            final(self).nicknames_map().contains_key(user),
            final(self).nicknames_map()[user]@ == (if old(self).nicknames_map().contains_key(user) {
                old(self).nicknames_map()[user]@
            } else {
                Seq::<NicknameData>::empty()
            }).push(nickname),
            n as int == (if old(self).nicknames_map().contains_key(user) {
                old(self).nicknames_map()[user]@.len() as int
            } else {
                0
            }),
            forall|k: u64|
                #![auto]
                k != user ==> (final(self).nicknames_map().contains_key(k) <==> old(
                    self,
                ).nicknames_map().contains_key(k)) && (old(self).nicknames_map().contains_key(k)
                    ==> final(self).nicknames_map()[k] == old(self).nicknames_map()[k]),
            final(self).channel == old(self).channel,
            final(self).title_override == old(self).title_override,
            final(self).refresh_interval == old(self).refresh_interval,
    {
        let ghost s0 = self.user_specific_nicknames@;
        match alist_find(&self.user_specific_nicknames, user) {
            Some(i) => {
                proof {
                    lemma_alist_map_index(s0, i as int);
                }
                let mut entry = self.user_specific_nicknames.remove(i);
                let n = entry.1.len();
                entry.1.push(nickname);
                let ghost newentry = entry;
                self.user_specific_nicknames.insert(i, entry);
                proof {
                    assert(self.user_specific_nicknames@ =~= s0.update(i as int, newentry));
                    lemma_alist_update(s0, i as int, newentry.1);
                }
                n
            },
            None => {
                proof {
                    lemma_alist_map_absent(s0, user);
                }
                let mut list: Vec<NicknameData> = Vec::new();
                list.push(nickname);
                let ghost newlist = list;
                self.user_specific_nicknames.push((user, list));
                proof {
                    lemma_alist_push(s0, user, newlist);
                    assert(newlist@ =~= Seq::<NicknameData>::empty().push(nickname));
                }
                0
            },
        }
    }

    /// Replace the context of a user's `n`th nickname, counting from one; a
    /// request for an unlisted user changes nothing.
    pub fn set_user_nickname_context(&mut self, user: u64, n: usize, context: String)
        requires
            old(self).wf(),
            n >= 1,
            old(self).nicknames_map().contains_key(user) ==> n <= old(
                self,
            ).nicknames_map()[user]@.len(),
        ensures
            final(self).wf(),
            old(self).nicknames_map().contains_key(user) ==> {
                &&& final(self).nicknames_map().contains_key(user)
                &&& final(self).nicknames_map()[user]@ == old(self).nicknames_map()[user]@.update(
                    n - 1,
                    with_context(old(self).nicknames_map()[user]@[n - 1], context),
                )
                &&& forall|k: u64|
                    #![auto]
                    k != user ==> (final(self).nicknames_map().contains_key(k) <==> old(
                        self,
                    ).nicknames_map().contains_key(k)) && (old(self).nicknames_map().contains_key(
                        k,
                    ) ==> final(self).nicknames_map()[k] == old(self).nicknames_map()[k])
            },
            !old(self).nicknames_map().contains_key(user) ==> *final(self) == *old(self),
            final(self).channel == old(self).channel,
            final(self).title_override == old(self).title_override,
            final(self).refresh_interval == old(self).refresh_interval,
    {
        let ghost s0 = self.user_specific_nicknames@;
        match alist_find(&self.user_specific_nicknames, user) {
            Some(i) => {
                proof {
                    lemma_alist_map_index(s0, i as int);
                }
                let mut entry = self.user_specific_nicknames.remove(i);
                let ghost list0 = entry.1@;
                let mut nd = entry.1.remove(n - 1);
                nd.set_context(context);
                entry.1.insert(n - 1, nd);
                proof {
                    assert(entry.1@ =~= list0.update(
                        n - 1,
                        with_context(list0[n - 1], context),
                    ));
                }
                let ghost newentry = entry;
                self.user_specific_nicknames.insert(i, entry);
                proof {
                    assert(self.user_specific_nicknames@ =~= s0.update(i as int, newentry));
                    lemma_alist_update(s0, i as int, newentry.1);
                }
            },
            None => {
                proof {
                    lemma_alist_map_absent(s0, user);
                }
            },
        }
    }

    /// Remove a user's `n`th nickname, counting from one; an emptied list
    /// disappears with its user, and a request for an unlisted user changes
    /// nothing.
    pub fn remove_user_nickname(&mut self, user: u64, n: usize)
        requires
            old(self).wf(),
            n >= 1,
            old(self).nicknames_map().contains_key(user) ==> n <= old(
                self,
            ).nicknames_map()[user]@.len(),
        ensures
            final(self).wf(),
            old(self).nicknames_map().contains_key(user) && old(
                self,
            ).nicknames_map()[user]@.len() > 1 ==> {
                &&& final(self).nicknames_map().contains_key(user)
                &&& final(self).nicknames_map()[user]@ == old(self).nicknames_map()[user]@.remove(
                    n - 1,
                )
            },
            old(self).nicknames_map().contains_key(user) && old(
                self,
            ).nicknames_map()[user]@.len() == 1 ==> !final(self).nicknames_map().contains_key(user),
            old(self).nicknames_map().contains_key(user) ==> forall|k: u64|
                #![auto]
                k != user ==> (final(self).nicknames_map().contains_key(k) <==> old(
                    self,
                ).nicknames_map().contains_key(k)) && (old(self).nicknames_map().contains_key(k)
                    ==> final(self).nicknames_map()[k] == old(self).nicknames_map()[k]),
            !old(self).nicknames_map().contains_key(user) ==> *final(self) == *old(self),
            final(self).channel == old(self).channel,
            final(self).title_override == old(self).title_override,
            final(self).refresh_interval == old(self).refresh_interval,
    {
        let ghost s0 = self.user_specific_nicknames@;
        match alist_find(&self.user_specific_nicknames, user) {
            Some(i) => {
                proof {
                    lemma_alist_map_index(s0, i as int);
                }
                let mut entry = self.user_specific_nicknames.remove(i);
                entry.1.remove(n - 1);
                if entry.1.len() == 0 {
                    proof {
                        lemma_alist_remove(s0, i as int);
                    }
                } else {
                    let ghost newentry = entry;
                    self.user_specific_nicknames.insert(i, entry);
                    proof {
                        assert(self.user_specific_nicknames@ =~= s0.update(i as int, newentry));
                        lemma_alist_update(s0, i as int, newentry.1);
                    }
                }
            },
            None => {
                proof {
                    lemma_alist_map_absent(s0, user);
                }
            },
        }
    }

    /// Draw a nickname for a user: `None` for an unlisted user, else one of
    /// their entries, uniformly at random.
    pub fn get_nickname_for_user(&self, user: u64) -> (r: Option<&String>)
        requires
            self.wf(),
        ensures
            r is Some <==> self.nicknames_map().contains_key(user),
            r matches Some(s) ==> exists|k: int|
                0 <= k < self.nicknames_map()[user]@.len() && *s
                    == (#[trigger] self.nicknames_map()[user]@[k]).nickname,
    {
        match alist_find(&self.user_specific_nicknames, user) {
            Some(i) => {
                proof {
                    lemma_alist_map_index(self.user_specific_nicknames@, i as int);
                }
                let list = &self.user_specific_nicknames[i].1;
                let k = rand_index(list.len());
                proof {
                    assert((self.nicknames_map()[user]@[k as int]).nickname == list@[k as int].nickname);
                }
                Some(&list[k].nickname)
            },
            None => {
                proof {
                    lemma_alist_map_absent(self.user_specific_nicknames@, user);
                }
                None
            },
        }
    }

    /// Draw a user to rename: `None` when nobody is listed, else one of the
    /// listed users, uniformly at random.
    pub fn get_random_user(&self) -> (r: Option<u64>)
        requires
            self.wf(),
        ensures
            r is Some <==> self.user_specific_nicknames@.len() > 0,
            r matches Some(u) ==> self.nicknames_map().contains_key(u),
    {
        if self.user_specific_nicknames.len() == 0 {
            None
        } else {
            let i = rand_index(self.user_specific_nicknames.len());
            proof {
                lemma_alist_map_index(self.user_specific_nicknames@, i as int);
            }
            Some(self.user_specific_nicknames[i].0)
        }
    }

    /// Set or clear the announcement channel.
    pub fn set_channel(&mut self, channel: Option<u64>)
        ensures
            final(self).channel == channel,
            final(self).user_specific_nicknames == old(self).user_specific_nicknames,
            final(self).title_override == old(self).title_override,
            final(self).refresh_interval == old(self).refresh_interval,
    {
        self.channel = channel;
    }

    /// The announcement channel, if set.
    pub fn channel(&self) -> (r: Option<u64>)
        ensures
            r == self.channel,
    {
        self.channel
    }

    /// Set or clear the announcement title override.
    pub fn set_title_override(&mut self, title_override: Option<String>)
        ensures
            final(self).title_override == title_override,
            final(self).user_specific_nicknames == old(self).user_specific_nicknames,
            final(self).channel == old(self).channel,
            final(self).refresh_interval == old(self).refresh_interval,
    {
        self.title_override = title_override;
    }

    /// The announcement title: the override if set, else the default.
    pub fn title(&self) -> (r: String)
        ensures
            self.title_override matches Some(t) ==> r@ == t@,
            self.title_override is None ==> r@ == "Bot demands new nickname"@,
    {
        match &self.title_override {
            Some(t) => t.clone(),
            None => String::from_str("Bot demands new nickname"),
        }
    }

    /// The interval override, if set.
    pub fn refresh_interval(&self) -> (r: Option<(u64, u64)>)
        ensures
            r == self.refresh_interval,
    {
        self.refresh_interval
    }

    /// Set or clear the interval override. The range must be non-empty, and
    /// is capped at the calendar bound so that waits stay representable.
    pub fn set_refresh_interval(&mut self, refresh_interval: Option<(u64, u64)>)
        requires
            refresh_interval matches Some(iv) ==> iv.0 <= iv.1 <= TS_MAX as u64,
        ensures
            final(self).refresh_interval == refresh_interval,
            final(self).user_specific_nicknames == old(self).user_specific_nicknames,
            final(self).channel == old(self).channel,
            final(self).title_override == old(self).title_override,
    {
        self.refresh_interval = refresh_interval;
    }

    /// The wait range draws sample from: the override if set, else the
    /// default.
    pub fn effective_interval(&self) -> (r: (u64, u64))
        requires
            self.wf(),
        ensures
            r.0 == effective_min(*self),
            r.1 == effective_max(*self),
            r.0 <= r.1 <= TS_MAX as u64,
    {
        match self.refresh_interval {
            Some(iv) => iv,
            None => (DEFAULT_REFRESH_MIN, DEFAULT_REFRESH_MAX),
        }
    }
}

impl Default for NicknameLotteryGuildData {
    /// Empty data: nobody listed, nothing configured.
    fn default() -> (r: Self)
        ensures
            r.wf(),
            r.user_specific_nicknames@.len() == 0,
            r.nicknames_map() == Map::<u64, Vec<NicknameData>>::empty(),
            r.channel is None,
            r.title_override is None,
            r.refresh_interval is None,
    {
        let r = NicknameLotteryGuildData {
            user_specific_nicknames: Vec::new(),
            channel: None,
            title_override: None,
            refresh_interval: None,
        };
        proof {
            assert(r.nicknames_map() =~= Map::<u64, Vec<NicknameData>>::empty());
        }
        r
    }
}

/// The shortest wait the guild's configuration allows.
pub open spec fn effective_min(d: NicknameLotteryGuildData) -> u64 {
    match d.refresh_interval {
        Some(iv) => iv.0,
        None => DEFAULT_REFRESH_MIN,
    }
}

/// The longest wait the guild's configuration allows.
pub open spec fn effective_max(d: NicknameLotteryGuildData) -> u64 {
    match d.refresh_interval {
        Some(iv) => iv.1,
        None => DEFAULT_REFRESH_MAX,
    }
}

/// The name a draw would set: the drawn nickname, keeping the streaming
/// prefix whenever the current display name carries it.
pub open spec fn composed_nick(drawn: Seq<char>, current: Seq<char>) -> Seq<char> {
    if has_streaming_prefix(current) {
        streaming_prefix() + drawn
    } else {
        drawn
    }
}

/// Where a draw's announcement goes.
#[derive(Debug, Clone, Copy, PartialEq, Eq, Structural)]
pub enum AnnounceRoute {
    Skip,
    Channel(u64),
    Escalate,
}

/// The lottery's decision logic; the loop around it sleeps, resolves
/// members and performs the rename elsewhere.
pub struct NicknameLottery;

impl NicknameLottery {
    /// The wait rule over a drawn sample: on the override date the wait is
    /// forced to the minimum; otherwise a sample that would land on or past
    /// the override date's start is clamped to land exactly there, and any
    /// other sample stands.
    pub fn lottery_wait(
        now: i64,
        min: u64,
        max: u64,
        draw: u64,
        is_override: bool,
        override_start: Option<i64>,
    ) -> (r: u64)
        requires
            min <= draw <= max,
            max <= TS_MAX as u64,
            0 <= now <= TS_MAX,
            override_start matches Some(s) ==> now < s <= TS_MAX,
        ensures
            is_override ==> r == min,
            !is_override ==> match override_start {
                Some(s) => if now + draw >= s {
                    r == s - now
                } else {
                    r == draw
                },
                None => r == draw,
            },
    {
        if is_override {
            min
        } else {
            match override_start {
                Some(s) => {
                    if now + (draw as i64) >= s {
                        (s - now) as u64
                    } else {
                        draw
                    }
                },
                None => draw,
            }
        }
    }

    /// Whether a moment falls on the override date.
    pub fn is_override_date(now: i64) -> (r: bool)
        requires
            0 <= now <= TS_MAX,
        ensures
            r == (month_of(now) == OVERRIDE_MONTH && day_of(now) == OVERRIDE_DAY),
    {
        ts_month(now) == OVERRIDE_MONTH && ts_day(now) == OVERRIDE_DAY
    }

    /// One full wait decision: sample the configured range uniformly and
    /// apply the override-date rule to the calendar facts of `now`.
    pub fn compute_wait(data: &NicknameLotteryGuildData, now: i64) -> (r: u64)
        requires
            data.wf(),
            0 <= now <= TS_MAX,
        ensures
            month_of(now) == OVERRIDE_MONTH && day_of(now) == OVERRIDE_DAY ==> r == effective_min(
                *data,
            ),
            !(month_of(now) == OVERRIDE_MONTH && day_of(now) == OVERRIDE_DAY) ==> (effective_min(
                *data,
            ) <= r <= effective_max(*data)) || (month_of(now) < OVERRIDE_MONTH && now + r
                == civil_ts(year_of(now), OVERRIDE_MONTH, OVERRIDE_DAY)),
    {
        let (min, max) = data.effective_interval();
        let draw = rand_between(min, max);
        let m = ts_month(now);
        let is_override = Self::is_override_date(now);
        let override_start: Option<i64> = if !is_override && m < OVERRIDE_MONTH {
            match civil_start(ts_year(now), OVERRIDE_MONTH, OVERRIDE_DAY) {
                Some(s) => if s > now && s <= TS_MAX {
                    Some(s)
                } else {
                    None
                },
                None => None,
            }
        } else {
            None
        };
        Self::lottery_wait(now, min, max, draw, is_override, override_start)
    }

    /// The rename a draw performs, if any: the drawn nickname with the
    /// streaming prefix preserved — and nothing at all when that equals the
    /// current display name.
    pub fn nickname_update(drawn: &String, current_display: &String) -> (r: Option<String>)
        ensures
            r is None <==> composed_nick(drawn@, current_display@) == current_display@,
            r matches Some(s) ==> s@ == composed_nick(drawn@, current_display@),
    {
        let composed: String = if StreamIndicator::is_marked(current_display) {
            let mut out = prefix_string();
            out.append(drawn.as_str());
            out
        } else {
            drawn.clone()
        };
        if String::eq(&composed, current_display) {
            None
        } else {
            Some(composed)
        }
    }

    /// Where the draw's announcement goes: nowhere unless the rename failed
    /// or today is the override date; then to the configured channel, or to
    /// the notification sink when none is set.
    pub fn announce_route(edit_failed: bool, is_override: bool, channel: Option<u64>) -> (r:
        AnnounceRoute)
        ensures
            !(edit_failed || is_override) ==> r == AnnounceRoute::Skip,
            (edit_failed || is_override) && channel is Some ==> r == AnnounceRoute::Channel(
                channel->0,
            ),
            (edit_failed || is_override) && channel is None ==> r == AnnounceRoute::Escalate,
    {
        if edit_failed || is_override {
            match channel {
                Some(c) => AnnounceRoute::Channel(c),
                None => AnnounceRoute::Escalate,
            }
        } else {
            AnnounceRoute::Skip
        }
    }
}

} // verus!
