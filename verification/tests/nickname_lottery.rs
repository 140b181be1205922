use loki::clock::TS_MAX;
use loki::nickname_lottery::{
    NicknameData, NicknameLottery, NicknameLotteryGuildData, AnnounceRoute, DEFAULT_REFRESH_MAX,
    DEFAULT_REFRESH_MIN,
};

// 2023-04-01T00:00:00Z
const APRIL_FOOLS_2023: i64 = 1_680_307_200;

#[test]
fn test_setting_and_selecting_nicknames() {
    let users: [u64; 2] = [1, 2];
    let mut data: NicknameLotteryGuildData = NicknameLotteryGuildData::default();
    assert_eq!(data.get_nickname_for_user(users[0]), None);
    assert_eq!(data.get_nickname_for_user(users[1]), None);
    data.add_user_nickname(
        users[0],
        NicknameData {
            nickname: String::from("user0"),
            author: None,
            time: None,
            context: None,
        },
    );
    data.add_user_nickname(
        users[1],
        NicknameData {
            nickname: String::from("user1"),
            author: None,
            time: None,
            context: None,
        },
    );
    assert_eq!(data.get_nickname_for_user(users[0]), Some(&"user0".to_string()));
    assert_eq!(data.get_nickname_for_user(users[1]), Some(&"user1".to_string()));
    data.remove_user_nickname(users[0], 1);
    assert_eq!(data.get_nickname_for_user(users[0]), None);
    assert_eq!(data.get_nickname_for_user(users[1]), Some(&"user1".to_string()));
}

#[test]
fn select_random_user() {
    let users: [u64; 1] = [1];
    let mut data: NicknameLotteryGuildData = NicknameLotteryGuildData::default();
    assert_eq!(data.get_random_user(), None);
    data.add_user_nickname(
        users[0],
        NicknameData {
            nickname: String::from("user0"),
            author: None,
            time: None,
            context: None,
        },
    );
    assert_eq!(data.get_random_user(), Some(users[0]));
    data.remove_user_nickname(users[0], 1);
    assert_eq!(data.get_random_user(), None);
}

#[test]
fn nickname_entry_metadata() {
    let mut nd = NicknameData::new(String::from("Trickster"), 42);
    assert_eq!(nd.nickname(), "Trickster");
    assert_eq!(nd.author(), Some(42));
    assert!(nd.time().is_some());
    assert_eq!(nd.context(), None);
    nd.set_context(String::from("an old joke"));
    assert_eq!(nd.context(), Some(&"an old joke".to_string()));
}

#[test]
fn context_by_position() {
    let mut data = NicknameLotteryGuildData::default();
    data.add_user_nickname(
        7,
        NicknameData { nickname: String::from("a"), author: None, time: None, context: None },
    );
    let n = data.add_user_nickname(
        7,
        NicknameData { nickname: String::from("b"), author: None, time: None, context: None },
    );
    assert_eq!(n, 1);
    data.set_user_nickname_context(7, 2, String::from("second"));
    let list = data.user_nicknames(7).unwrap();
    assert_eq!(list[0].context, None);
    assert_eq!(list[1].context, Some(String::from("second")));
    // removing the first leaves the second, now at position one
    data.remove_user_nickname(7, 1);
    let list = data.user_nicknames(7).unwrap();
    assert_eq!(list.len(), 1);
    assert_eq!(list[0].nickname, "b");
}

#[test]
fn title_default_and_override() {
    let mut data = NicknameLotteryGuildData::default();
    assert_eq!(data.title(), "Bot demands new nickname");
    data.set_title_override(Some(String::from("New name time")));
    assert_eq!(data.title(), "New name time");
    data.set_title_override(None);
    assert_eq!(data.title(), "Bot demands new nickname");
}

#[test]
fn interval_sampling_default_range() {
    // Scenario: default interval, a date far from the override date.
    let data = NicknameLotteryGuildData::default();
    // 2023-06-15T00:00:00Z
    let now: i64 = 1_686_787_200;
    for _ in 0..32 {
        let wait = NicknameLottery::compute_wait(&data, now);
        assert!(wait >= DEFAULT_REFRESH_MIN && wait <= DEFAULT_REFRESH_MAX);
    }
}

#[test]
fn interval_sampling_override_date_forces_minimum() {
    let mut data = NicknameLotteryGuildData::default();
    data.set_refresh_interval(Some((3600, 7200)));
    // 2023-04-01T12:00:00Z
    let now = APRIL_FOOLS_2023 + 12 * 3600;
    for _ in 0..8 {
        assert_eq!(NicknameLottery::compute_wait(&data, now), 3600);
    }
}

#[test]
fn interval_sampling_clamps_to_override_date_start() {
    let mut data = NicknameLotteryGuildData::default();
    // a degenerate one-day range makes the draw deterministic
    data.set_refresh_interval(Some((86_400, 86_400)));
    // 2023-03-31T23:59:00Z: one minute before the override date
    let now = APRIL_FOOLS_2023 - 60;
    assert_eq!(NicknameLottery::compute_wait(&data, now), 60);
}

#[test]
fn interval_sampling_no_clamp_when_not_crossing() {
    let mut data = NicknameLotteryGuildData::default();
    data.set_refresh_interval(Some((60, 60)));
    // 2023-02-01T00:00:00Z: two months early, a one-minute wait cannot cross
    let now: i64 = 1_675_209_600;
    assert_eq!(NicknameLottery::compute_wait(&data, now), 60);
}

#[test]
fn override_date_detection() {
    assert!(NicknameLottery::is_override_date(APRIL_FOOLS_2023));
    assert!(NicknameLottery::is_override_date(APRIL_FOOLS_2023 + 23 * 3600));
    assert!(!NicknameLottery::is_override_date(APRIL_FOOLS_2023 - 1));
    assert!(!NicknameLottery::is_override_date(APRIL_FOOLS_2023 + 24 * 3600));
}

#[test]
fn refresh_interval_roundtrip() {
    let mut data = NicknameLotteryGuildData::default();
    assert_eq!(data.refresh_interval(), None);
    data.set_refresh_interval(Some((1800, 3600)));
    assert_eq!(data.refresh_interval(), Some((1800, 3600)));
    data.set_refresh_interval(None);
    assert_eq!(data.refresh_interval(), None);
    assert!(TS_MAX > 0);
}

#[test]
fn no_op_suppression() {
    // the drawn name equals the current display name: no rename happens
    let drawn = String::from("Alice");
    let current = String::from("Alice");
    assert_eq!(NicknameLottery::nickname_update(&drawn, &current), None);
}

#[test]
fn rename_keeps_streaming_prefix() {
    let drawn = String::from("Bob");
    let current = String::from("\u{1F534} Alice");
    assert_eq!(
        NicknameLottery::nickname_update(&drawn, &current),
        Some(String::from("\u{1F534} Bob"))
    );
    // preserving the prefix can itself make the draw a no-op
    let same = String::from("Alice");
    let streaming_alice = String::from("\u{1F534} Alice");
    assert_eq!(NicknameLottery::nickname_update(&same, &streaming_alice), None);
}

#[test]
fn plain_rename() {
    let drawn = String::from("Bob");
    let current = String::from("Alice");
    assert_eq!(NicknameLottery::nickname_update(&drawn, &current), Some(String::from("Bob")));
}

#[test]
fn announce_routing() {
    assert_eq!(NicknameLottery::announce_route(false, false, Some(9)), AnnounceRoute::Skip);
    assert_eq!(NicknameLottery::announce_route(true, false, Some(9)), AnnounceRoute::Channel(9));
    assert_eq!(NicknameLottery::announce_route(false, true, None), AnnounceRoute::Escalate);
    assert_eq!(NicknameLottery::announce_route(true, true, Some(3)), AnnounceRoute::Channel(3));
}

#[test]
fn lottery_draw_scenario() {
    // Scenario: two users registered, default interval, a non-override date.
    let mut data = NicknameLotteryGuildData::default();
    data.add_user_nickname(
        1,
        NicknameData { nickname: String::from("Odin"), author: None, time: None, context: None },
    );
    data.add_user_nickname(
        2,
        NicknameData { nickname: String::from("Thor"), author: None, time: None, context: None },
    );
    let now: i64 = 1_686_787_200;
    let wait = NicknameLottery::compute_wait(&data, now);
    assert!((1800..=432_000).contains(&wait));
    let user = data.get_random_user().expect("two users are registered");
    assert!(user == 1 || user == 2);
    let drawn = data.get_nickname_for_user(user).expect("the user has a nickname").clone();
    // exactly one member's name changes, or none when the draw matches
    let current = String::from("Odin");
    match NicknameLottery::nickname_update(&drawn, &current) {
        None => assert_eq!(drawn, "Odin"),
        Some(newname) => {
            assert_eq!(newname, drawn);
            assert_ne!(newname, current);
        }
    }
}
