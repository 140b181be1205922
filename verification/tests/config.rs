use loki::config::{get_guild, get_memes, Config};
use loki::events::Event;

#[test]
fn supervisor_spawns_exactly_once() {
    let mut cfg = Config::new();
    assert!(cfg.observe_guild(5));
    assert!(!cfg.observe_guild(5));
    assert!(!cfg.observe_guild(5));
    assert!(cfg.observe_guild(6));
    assert!(!cfg.observe_guild(6));
}

#[test]
fn guild_records_are_created_on_demand() {
    let mut cfg = Config::new();
    assert!(get_guild(&cfg, 1).is_none());
    let mut g = cfg.take_guild(1);
    assert!(!g.threads_started());
    g.set_memes_channel(Some((100, 1000)));
    cfg.put_guild(1, g);
    let g = get_guild(&cfg, 1).expect("the record was put back");
    let m = g.memes().expect("the contest is configured");
    assert_eq!(m.channel(), 100);
    assert_eq!(m.initial_message(), 1000);
    assert!(!m.has_reacted());
    let m = get_memes(&cfg, 1).expect("the contest is configured");
    assert_eq!(m.channel(), 100);
    assert!(get_memes(&cfg, 2).is_none());
}

#[test]
fn unsetting_the_contest_channel_clears_the_record() {
    let mut cfg = Config::new();
    let mut g = cfg.take_guild(1);
    g.set_memes_channel(Some((100, 1000)));
    g.set_memes_channel(None);
    cfg.put_guild(1, g);
    assert!(get_memes(&cfg, 1).is_none());
}

#[test]
fn subscriber_lists_are_kept_per_event() {
    let mut cfg = Config::new();
    assert!(loki::events::Events::subscribe(cfg.subscribers_mut(Event::Error), 7));
    assert!(!loki::events::Events::subscribe(cfg.subscribers_mut(Event::Error), 7));
    assert!(loki::events::Events::subscribe(cfg.subscribers_mut(Event::Startup), 8));
    assert_eq!(cfg.subscribers(Event::Error), &vec![7]);
    assert_eq!(cfg.subscribers(Event::Startup), &vec![8]);
    assert_eq!(cfg.subscribers(Event::Stream), &Vec::<u64>::new());
    assert!(loki::events::Events::unsubscribe(cfg.subscribers_mut(Event::Error), 7));
    assert!(!loki::events::Events::unsubscribe(cfg.subscribers_mut(Event::Error), 7));
    assert!(cfg.subscribers(Event::Error).is_empty());
}

#[test]
fn guilds_listing() {
    let mut cfg = Config::new();
    assert!(cfg.guilds().is_empty());
    cfg.observe_guild(3);
    cfg.observe_guild(9);
    let ids: Vec<u64> = cfg.guilds().iter().map(|(id, _)| *id).collect();
    assert_eq!(ids, vec![3, 9]);
}
