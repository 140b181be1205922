//! The persistent per-guild store: one record per guild, holding the contest
//! record, the lottery data and the supervisor's started flag, plus the
//! subscriber lists of the notification events. Loading, saving and locking
//! live outside this crate; callers take a guild record out, mutate it
//! through its own verified operations, and put it back before persisting.

use vstd::prelude::*;

use crate::assoc::{
    alist_find, alist_map, lemma_alist_map_absent, lemma_alist_map_index, lemma_alist_push,
    lemma_alist_update, unique_keys,
};
use crate::events::Event;
use crate::memes::Memes;
use crate::nickname_lottery::NicknameLotteryGuildData;

verus! {

/// One guild's persisted record.
pub struct Guild {
    /// Set once, the first time the guild is observed: the supervisor's
    /// guard against spawning the background workflows twice.
    pub threads_started: bool,
    /// The meme-voting record; absent while the feature is unconfigured.
    pub memes: Option<Memes>,
    /// The nickname-lottery data.
    pub nickname_lottery: NicknameLotteryGuildData,
}

impl Guild {
    /// Internal consistency of the records held.
    pub open spec fn wf(self) -> bool {
        &&& (self.memes matches Some(m) ==> m.wf())
        &&& self.nickname_lottery.wf()
    }

    /// A fresh record: nothing configured, workflows not yet started.
    pub fn new() -> (r: Guild)
        ensures
            r.wf(),
            !r.threads_started,
            r.memes is None,
            r.nickname_lottery.user_specific_nicknames@.len() == 0,
            r.nickname_lottery.channel is None,
            r.nickname_lottery.title_override is None,
            r.nickname_lottery.refresh_interval is None,
    {
        Guild { threads_started: false, memes: None, nickname_lottery: Default::default() }
    }

    /// Whether the background workflows were already spawned for this guild.
    pub fn threads_started(&self) -> (r: bool)
        ensures
            r == self.threads_started,
    {
        self.threads_started
    }

    /// Mark the workflows as spawned; nothing in scope ever clears this.
    pub fn set_threads_started(&mut self)
        ensures
            final(self).threads_started,
            final(self).memes == old(self).memes,
            final(self).nickname_lottery == old(self).nickname_lottery,
    {
        self.threads_started = true;
    }

    /// Configure or clear the meme-voting channel: configuring replaces the
    /// record with a fresh one anchored at the given message, clearing
    /// removes the record — and with it the tally.
    pub fn set_memes_channel(&mut self, channel: Option<(u64, u64)>)
        ensures
            final(self).wf() <== old(self).wf(),
            channel matches Some((c, anchor)) ==> final(self).memes matches Some(m) && m.channel
                == c && m.initial_message == anchor && m.tracked_messages@.len() == 0 && !m.reacted
                && m.victories() == Map::<u64, u32>::empty(),
            channel is None ==> final(self).memes is None,
            final(self).threads_started == old(self).threads_started,
            final(self).nickname_lottery == old(self).nickname_lottery,
    {
        match channel {
            Some((c, anchor)) => {
                self.memes = Some(Memes::new(c, anchor));
            },
            None => {
                self.memes = None;
            },
        }
    }

    /// The meme-voting record, while the feature is configured.
    pub fn memes(&self) -> (r: Option<&Memes>)
        ensures
            r is Some <==> self.memes is Some,
            r matches Some(m) ==> self.memes matches Some(n) && m == &n,
    {
        match &self.memes {
            Some(m) => Some(m),
            None => None,
        }
    }
}

/// The process-wide store of guild records and event subscribers. One
/// instance lives behind the process's lock; every mutation is followed by a
/// persist, both outside this crate.
pub struct Config {
    /// What the manager's current status means, if they shared it.
    pub status_meaning: Option<String>,
    /// The guild records, keyed by guild id.
    pub guilds: Vec<(u64, Guild)>,
    /// Users subscribed to startup events.
    pub startup_subscribers: Vec<u64>,
    /// Users subscribed to streaming events.
    pub stream_subscribers: Vec<u64>,
    /// Users subscribed to error events.
    pub error_subscribers: Vec<u64>,
}

impl Config {
    /// Internal consistency: one record per guild, each well-formed.
    pub open spec fn wf(self) -> bool {
        &&& unique_keys(self.guilds@)
        &&& forall|i: int|
            0 <= i < self.guilds@.len() ==> (#[trigger] self.guilds@[i]).1.wf()
    }

    /// The records as a map from guild id to record.
    pub open spec fn guild_map(self) -> Map<u64, Guild> {
        alist_map(self.guilds@)
    }

    /// The subscriber list of an event kind, as the contracts see it.
    pub open spec fn spec_subscribers(self, event: Event) -> Seq<u64> {
        match event {
            Event::Startup => self.startup_subscribers@,
            Event::Stream => self.stream_subscribers@,
            Event::Error => self.error_subscribers@,
        }
    }

    /// An empty store.
    pub fn new() -> (r: Config)
        ensures
            r.wf(),
            r.status_meaning is None,
            r.guilds@.len() == 0,
            r.guild_map() == Map::<u64, Guild>::empty(),
            r.startup_subscribers@.len() == 0,
            r.stream_subscribers@.len() == 0,
            r.error_subscribers@.len() == 0,
    {
        let r = Config {
            status_meaning: None,
            guilds: Vec::new(),
            startup_subscribers: Vec::new(),
            stream_subscribers: Vec::new(),
            error_subscribers: Vec::new(),
        };
        proof {
            assert(r.guild_map() =~= Map::<u64, Guild>::empty());
        }
        r
    }

    /// Every guild entry, keyed by id.
    pub fn guilds(&self) -> (r: &Vec<(u64, Guild)>)
        ensures
            r == &self.guilds,
    {
        &self.guilds
    }

    /// A guild's record, or `None` for an unknown guild.
    pub fn guild(&self, id: u64) -> (r: Option<&Guild>)
        requires
            self.wf(),
        ensures
            r is Some <==> self.guild_map().contains_key(id),
            r matches Some(g) ==> *g == self.guild_map()[id],
    {
        match alist_find(&self.guilds, id) {
            Some(i) => {
                proof {
                    lemma_alist_map_index(self.guilds@, i as int);
                }
                Some(&self.guilds[i].1)
            },
            None => {
                proof {
                    lemma_alist_map_absent(self.guilds@, id);
                }
                None
            },
        }
    }

    /// Take a guild's record out for mutation — its entry is removed, and a
    /// fresh record stands in for an unknown guild. Pair with `put_guild`.
    pub fn take_guild(&mut self, id: u64) -> (r: Guild)
        requires
            old(self).wf(),
        ensures
            final(self).wf(),
            r.wf(),
            old(self).guild_map().contains_key(id) ==> r == old(self).guild_map()[id],
            !old(self).guild_map().contains_key(id) ==> !r.threads_started && r.memes is None
                && r.nickname_lottery.user_specific_nicknames@.len() == 0
                && r.nickname_lottery.channel is None && r.nickname_lottery.title_override is None
                && r.nickname_lottery.refresh_interval is None,
            final(self).guild_map() == old(self).guild_map().remove(id),
            final(self).status_meaning == old(self).status_meaning,
            final(self).startup_subscribers == old(self).startup_subscribers,
            final(self).stream_subscribers == old(self).stream_subscribers,
            final(self).error_subscribers == old(self).error_subscribers,
    {
        let ghost s0 = self.guilds@;
        match alist_find(&self.guilds, id) {
            Some(i) => {
                proof {
                    lemma_alist_map_index(s0, i as int);
                    crate::assoc::lemma_alist_remove(s0, i as int);
                }
                let entry = self.guilds.remove(i);
                entry.1
            },
            None => {
                proof {
                    lemma_alist_map_absent(s0, id);
                    assert(alist_map(s0) =~= alist_map(s0).remove(id));
                }
                Guild::new()
            },
        }
    }

    /// Put a guild's record back under its id, replacing any entry there.
    pub fn put_guild(&mut self, id: u64, g: Guild)
        requires
            old(self).wf(),
            g.wf(),
        ensures
            final(self).wf(),
            final(self).guild_map() == old(self).guild_map().insert(id, g),
            final(self).status_meaning == old(self).status_meaning,
            final(self).startup_subscribers == old(self).startup_subscribers,
            final(self).stream_subscribers == old(self).stream_subscribers,
            final(self).error_subscribers == old(self).error_subscribers,
    {
        let ghost s0 = self.guilds@;
        match alist_find(&self.guilds, id) {
            Some(i) => {
                proof {
                    lemma_alist_map_index(s0, i as int);
                }
                self.guilds.set(i, (id, g));
                proof {
                    assert(self.guilds@ =~= s0.update(i as int, (s0[i as int].0, g)));
                    lemma_alist_update(s0, i as int, g);
                }
            },
            None => {
                proof {
                    lemma_alist_map_absent(s0, id);
                }
                self.guilds.push((id, g));
                proof {
                    lemma_alist_push(s0, id, g);
                }
            },
        }
    }

    /// The supervisor's rule on a guild-observed event: the first
    /// observation marks the guild started and asks for its background
    /// workflows to be spawned, exactly once; every later observation asks
    /// for nothing, so repeated observation never duplicates a workflow.
    pub fn observe_guild(&mut self, id: u64) -> (spawn: bool)
        requires
            old(self).wf(),
        ensures
            final(self).wf(),
            spawn == !(old(self).guild_map().contains_key(id)
                && old(self).guild_map()[id].threads_started),
            final(self).guild_map().contains_key(id),
            final(self).guild_map()[id].threads_started,
            old(self).guild_map().contains_key(id) ==> final(self).guild_map()[id].memes == old(self).guild_map()[id].memes && final(self).guild_map()[id].nickname_lottery == old(self).guild_map()[id].nickname_lottery,
            !old(self).guild_map().contains_key(id) ==> final(self).guild_map()[id].memes is None,
            forall|k: u64|
                #![auto]
                k != id ==> (final(self).guild_map().contains_key(k) <==> old(self).guild_map().contains_key(k)) && (old(self).guild_map().contains_key(k) ==> final(self).guild_map()[k] == old(self).guild_map()[k]),
            final(self).status_meaning == old(self).status_meaning,
            final(self).startup_subscribers == old(self).startup_subscribers,
            final(self).stream_subscribers == old(self).stream_subscribers,
            final(self).error_subscribers == old(self).error_subscribers,
    {
        let ghost m0 = self.guild_map();
        let mut g = self.take_guild(id);
        let started = g.threads_started();
        g.set_threads_started();
        self.put_guild(id, g);
        proof {
            assert(self.guild_map() =~= m0.insert(id, self.guild_map()[id]));
        }
        !started
    }

    /// What the manager's current status means, if they shared it.
    pub fn get_status_meaning(&self) -> (r: Option<String>)
        ensures
            r is Some <==> self.status_meaning is Some,
            r matches Some(s) ==> self.status_meaning matches Some(t) && s@ == t@,
    {
        match &self.status_meaning {
            Some(s) => Some(s.clone()),
            None => None,
        }
    }

    /// Share or withdraw the meaning of the manager's status.
    pub fn set_status_meaning(&mut self, s: Option<String>)
        ensures
            final(self).status_meaning == s,
            final(self).guilds == old(self).guilds,
            final(self).startup_subscribers == old(self).startup_subscribers,
            final(self).stream_subscribers == old(self).stream_subscribers,
            final(self).error_subscribers == old(self).error_subscribers,
    {
        self.status_meaning = s;
    }

    /// The subscriber list of an event kind.
    pub fn subscribers(&self, event: Event) -> (r: &Vec<u64>)
        ensures
            r@ == self.spec_subscribers(event),
    {
        match event {
            Event::Startup => &self.startup_subscribers,
            Event::Stream => &self.stream_subscribers,
            Event::Error => &self.error_subscribers,
        }
    }

    /// The subscriber list of an event kind, for mutation.
    pub fn subscribers_mut(&mut self, event: Event) -> (r: &mut Vec<u64>)
        ensures
            r@ == old(self).spec_subscribers(event),
            final(self).spec_subscribers(event) == final(r)@,
            forall|e: Event| e != event ==> final(self).spec_subscribers(e) == old(self).spec_subscribers(e),
            final(self).guilds == old(self).guilds,
            final(self).status_meaning == old(self).status_meaning,
    {
        match event {
            Event::Startup => &mut self.startup_subscribers,
            Event::Stream => &mut self.stream_subscribers,
            Event::Error => &mut self.error_subscribers,
        }
    }
}

/// A guild's record out of the store, or `None` for an unknown guild.
pub fn get_guild(config: &Config, guild: u64) -> (r: Option<&Guild>)
    requires
        config.wf(),
    ensures
        r is Some <==> config.guild_map().contains_key(guild),
        r matches Some(g) ==> *g == config.guild_map()[guild],
{
    config.guild(guild)
}

/// A guild's meme-voting record, or `None` when the guild is unknown or the
/// feature unconfigured.
pub fn get_memes(config: &Config, guild: u64) -> (r: Option<&Memes>)
    requires
        config.wf(),
    ensures
        r is Some <==> (config.guild_map().contains_key(guild)
            && config.guild_map()[guild].memes is Some),
        r matches Some(m) ==> config.guild_map()[guild].memes matches Some(n) && m == &n,
{
    match get_guild(config, guild) {
        Some(g) => g.memes(),
        None => None,
    }
}

} // verus!
