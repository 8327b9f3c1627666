use mac_changer::clock::{parse_schedule_time, LocalMoment, TimeOfDay, Weekday};
use mac_changer::error::MacError;
use mac_changer::mac::MacAddress;
use mac_changer::rules::{AppRule, RuleManager, Schedule};

fn at(weekday: Weekday, hour: u8, minute: u8) -> LocalMoment {
    LocalMoment { weekday, time: TimeOfDay { hour, minute, second: 0, nanosecond: 0 } }
}

fn rule(app: &str, interface: &str, mac: &str, schedule: Option<Schedule>, enabled: bool) -> AppRule {
    AppRule {
        app_name: app.to_string(),
        service_name: None,
        mac_address: MacAddress::parse(mac).unwrap(),
        interface: interface.to_string(),
        schedule,
        last_applied: None,
        enabled,
    }
}

fn office_hours() -> Schedule {
    Schedule::new(vec!["monday".to_string()], "09:00", "17:00").unwrap()
}

#[test]
fn schedule_is_active_inside_its_window_only() {
    let manager = RuleManager::new();
    let r = rule("firefox", "eth0", "02:00:00:00:00:01", Some(office_hours()), true);
    assert!(manager.is_rule_active_at(&r, &at(Weekday::Monday, 12, 0)));
    assert!(!manager.is_rule_active_at(&r, &at(Weekday::Monday, 8, 59)));
    assert!(!manager.is_rule_active_at(&r, &at(Weekday::Monday, 17, 1)));
    assert!(!manager.is_rule_active_at(&r, &at(Weekday::Tuesday, 12, 0)));
}

#[test]
fn schedule_bounds_are_included() {
    let manager = RuleManager::new();
    let r = rule("firefox", "eth0", "02:00:00:00:00:01", Some(office_hours()), true);
    assert!(manager.is_rule_active_at(&r, &at(Weekday::Monday, 9, 0)));
    assert!(manager.is_rule_active_at(&r, &at(Weekday::Monday, 17, 0)));
    let just_after = LocalMoment {
        weekday: Weekday::Monday,
        time: TimeOfDay { hour: 17, minute: 0, second: 0, nanosecond: 1 },
    };
    assert!(!manager.is_rule_active_at(&r, &just_after));
    let second_after = LocalMoment {
        weekday: Weekday::Monday,
        time: TimeOfDay { hour: 17, minute: 0, second: 1, nanosecond: 0 },
    };
    assert!(!manager.is_rule_active_at(&r, &second_after));
}

#[test]
fn schedule_days_match_without_regard_to_case() {
    let manager = RuleManager::new();
    let schedule =
        Schedule::new(vec!["SATURDAY".to_string(), "Sunday".to_string()], "00:00", "23:59").unwrap();
    let r = rule("steam", "wlan0", "02:00:00:00:00:02", Some(schedule), true);
    assert!(manager.is_rule_active_at(&r, &at(Weekday::Saturday, 3, 0)));
    assert!(manager.is_rule_active_at(&r, &at(Weekday::Sunday, 23, 59)));
    assert!(!manager.is_rule_active_at(&r, &at(Weekday::Friday, 3, 0)));
}

#[test]
fn disabled_rule_is_never_active() {
    let manager = RuleManager::new();
    let r = rule("firefox", "eth0", "02:00:00:00:00:01", Some(office_hours()), false);
    assert!(!manager.is_rule_active_at(&r, &at(Weekday::Monday, 12, 0)));
    let plain = rule("firefox", "eth0", "02:00:00:00:00:01", None, false);
    assert!(!manager.is_rule_active_at(&plain, &at(Weekday::Monday, 12, 0)));
    assert!(!manager.is_rule_active(&plain));
}

#[test]
fn enabled_rule_without_schedule_is_always_active() {
    let manager = RuleManager::new();
    let r = rule("firefox", "eth0", "02:00:00:00:00:01", None, true);
    assert!(manager.is_rule_active_at(&r, &at(Weekday::Wednesday, 0, 0)));
    assert!(manager.is_rule_active(&r));
}

#[test]
fn schedule_times_are_read_by_the_clock_format() {
    let t = parse_schedule_time("09:05").unwrap();
    assert_eq!(t, TimeOfDay { hour: 9, minute: 5, second: 0, nanosecond: 0 });
    let lenient = parse_schedule_time("7:15").unwrap();
    assert_eq!(lenient, TimeOfDay { hour: 7, minute: 15, second: 0, nanosecond: 0 });
    assert!(parse_schedule_time("17:60").is_none());
    assert!(parse_schedule_time("24:00").is_none());
    assert!(parse_schedule_time("noon").is_none());
    assert!(parse_schedule_time("").is_none());
}

#[test]
fn schedule_rejects_unreadable_times() {
    let made = Schedule::new(vec!["monday".to_string()], "9 o'clock", "17:00");
    assert_eq!(
        made.unwrap_err(),
        MacError::InvalidFormat("Schedule times must be written as HH:MM".to_string())
    );
    let made = Schedule::new(vec!["monday".to_string()], "09:00", "25:00");
    assert_eq!(
        made.unwrap_err(),
        MacError::InvalidFormat("Schedule times must be written as HH:MM".to_string())
    );
}

#[test]
fn schedule_rejects_overnight_windows() {
    let made = Schedule::new(vec!["monday".to_string()], "22:00", "06:00");
    assert_eq!(
        made.unwrap_err(),
        MacError::ValidationFailed("Schedule start time must not be after its end time".to_string())
    );
    let same = Schedule::new(vec!["monday".to_string()], "06:00", "06:00").unwrap();
    assert_eq!(same.start_time(), same.end_time());
    assert_eq!(same.days(), &vec!["monday".to_string()]);
}

#[test]
fn select_override_is_none_without_a_running_match() {
    let mut manager = RuleManager::new();
    manager.add_rule(rule("firefox", "eth0", "02:00:00:00:00:01", None, true));
    manager.add_rule(rule("steam", "wlan0", "02:00:00:00:00:02", None, true));
    let now = at(Weekday::Monday, 12, 0);
    let running = vec!["bash".to_string(), "steam".to_string()];
    assert!(manager.select_override("eth0", &running, &now).is_none());
    assert!(manager.select_override("eth1", &running, &now).is_none());
    assert!(manager.select_override("eth0", &Vec::new(), &now).is_none());
    assert!(RuleManager::new().select_override("eth0", &running, &now).is_none());
}

#[test]
fn select_override_returns_the_sole_match() {
    let mut manager = RuleManager::new();
    manager.add_rule(rule("firefox", "eth0", "02:00:00:00:00:01", None, true));
    manager.add_rule(rule("steam", "eth0", "02:00:00:00:00:02", None, true));
    let now = at(Weekday::Monday, 12, 0);
    let running = vec!["steam".to_string()];
    let chosen = manager.select_override("eth0", &running, &now).unwrap();
    assert_eq!(chosen.get_bytes(), &[2, 0, 0, 0, 0, 2]);
}

#[test]
fn select_override_prefers_the_rule_added_first() {
    let mut manager = RuleManager::new();
    manager.add_rule(rule("firefox", "eth0", "02:00:00:00:00:01", None, true));
    manager.add_rule(rule("steam", "eth0", "02:00:00:00:00:02", None, true));
    let now = at(Weekday::Monday, 12, 0);
    let running = vec!["steam".to_string(), "firefox".to_string()];
    let chosen = manager.select_override("eth0", &running, &now).unwrap();
    assert_eq!(chosen.get_bytes(), &[2, 0, 0, 0, 0, 1]);
}

#[test]
fn select_override_passes_over_inactive_rules() {
    let mut manager = RuleManager::new();
    manager.add_rule(rule("firefox", "eth0", "02:00:00:00:00:01", Some(office_hours()), true));
    manager.add_rule(rule("steam", "eth0", "02:00:00:00:00:02", None, false));
    manager.add_rule(rule("vlc", "eth0", "02:00:00:00:00:03", None, true));
    let running = vec!["steam".to_string(), "firefox".to_string(), "vlc".to_string()];
    let evening = at(Weekday::Monday, 20, 0);
    let chosen = manager.select_override("eth0", &running, &evening).unwrap();
    assert_eq!(chosen.get_bytes(), &[2, 0, 0, 0, 0, 3]);
    let noon = at(Weekday::Monday, 12, 0);
    let chosen = manager.select_override("eth0", &running, &noon).unwrap();
    assert_eq!(chosen.get_bytes(), &[2, 0, 0, 0, 0, 1]);
}

#[test]
fn store_keeps_one_rule_for_each_key() {
    let mut manager = RuleManager::new();
    manager.add_rule(rule("firefox", "eth0", "02:00:00:00:00:01", None, true));
    manager.add_rule(rule("steam", "eth0", "02:00:00:00:00:02", None, true));
    manager.add_rule(rule("firefox", "wlan0", "02:00:00:00:00:03", None, true));
    manager.add_rule(rule("firefox", "eth0", "02:00:00:00:00:04", None, true));
    assert_eq!(manager.len(), 3);
    let listed = manager.list_rules();
    assert_eq!(listed.len(), 3);
    assert_eq!(listed[0].app_name, "firefox");
    assert_eq!(listed[0].interface, "eth0");
    assert_eq!(listed[0].mac_address.get_bytes(), &[2, 0, 0, 0, 0, 4]);
    assert_eq!(listed[1].app_name, "steam");
    assert_eq!(listed[2].interface, "wlan0");
    let found = manager.get_rule("firefox", "wlan0").unwrap();
    assert_eq!(found.mac_address.get_bytes(), &[2, 0, 0, 0, 0, 3]);
    assert!(manager.get_rule("steam", "wlan0").is_none());
}

#[test]
fn store_removes_by_key() {
    let mut manager = RuleManager::new();
    manager.add_rule(rule("firefox", "eth0", "02:00:00:00:00:01", None, true));
    manager.add_rule(rule("steam", "eth0", "02:00:00:00:00:02", None, true));
    manager.remove_rule("firefox", "eth0");
    assert_eq!(manager.len(), 1);
    assert!(manager.get_rule("firefox", "eth0").is_none());
    assert!(manager.get_rule("steam", "eth0").is_some());
    manager.remove_rule("firefox", "eth0");
    assert_eq!(manager.len(), 1);
}

#[test]
fn store_key_is_the_pair_not_the_joined_text() {
    let mut manager = RuleManager::new();
    manager.add_rule(rule("a:b", "c", "02:00:00:00:00:01", None, true));
    manager.add_rule(rule("a", "b:c", "02:00:00:00:00:02", None, true));
    assert_eq!(manager.len(), 2);
    assert_eq!(manager.get_rule("a", "b:c").unwrap().mac_address.get_bytes(), &[2, 0, 0, 0, 0, 2]);
}

#[test]
fn from_rules_adds_in_order() {
    let manager = RuleManager::from_rules(vec![
        rule("firefox", "eth0", "02:00:00:00:00:01", None, true),
        rule("steam", "eth0", "02:00:00:00:00:02", None, true),
        rule("firefox", "eth0", "02:00:00:00:00:03", None, false),
    ]);
    assert_eq!(manager.len(), 2);
    let listed = manager.list_rules();
    assert_eq!(listed[0].mac_address.get_bytes(), &[2, 0, 0, 0, 0, 3]);
    assert!(!listed[0].enabled);
    assert_eq!(listed[1].app_name, "steam");
}

#[test]
fn cloned_rule_says_the_same() {
    let r = rule("firefox", "eth0", "02:00:00:00:00:01", Some(office_hours()), true);
    let copy = r.clone();
    assert_eq!(copy.app_name, r.app_name);
    assert_eq!(copy.interface, r.interface);
    assert_eq!(copy.mac_address.get_bytes(), r.mac_address.get_bytes());
    assert_eq!(copy.schedule.as_ref().unwrap().days(), r.schedule.as_ref().unwrap().days());
    assert_eq!(copy.schedule.as_ref().unwrap().start_time(), r.schedule.as_ref().unwrap().start_time());
}

#[test]
fn rule_is_filed_under_application_and_interface() {
    let r = rule("firefox", "eth0", "02:00:00:00:00:01", None, true);
    assert_eq!(r.file_key(), "firefox:eth0");
}

#[test]
fn schedule_times_are_written_with_two_digits() {
    assert_eq!(TimeOfDay { hour: 9, minute: 5, second: 0, nanosecond: 0 }.hour_and_minute(), "09:05");
    assert_eq!(TimeOfDay { hour: 23, minute: 59, second: 7, nanosecond: 1 }.hour_and_minute(), "23:59");
    assert_eq!(TimeOfDay { hour: 0, minute: 0, second: 0, nanosecond: 0 }.hour_and_minute(), "00:00");
    assert_eq!(TimeOfDay { hour: 10, minute: 10, second: 0, nanosecond: 0 }.hour_and_minute(), "10:10");
    let schedule = office_hours();
    assert_eq!(schedule.start_time().hour_and_minute(), "09:00");
    assert_eq!(schedule.end_time().hour_and_minute(), "17:00");
}
