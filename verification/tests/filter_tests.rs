use mac_changer::filter::MacFilter;
use mac_changer::mac::{MacAddress, MacFormat};
use mac_changer::orchestrator::{Action, Phase, Platform};
use mac_changer::platform::screen_change;

#[test]
fn empty_filter_allows_everything() {
    let filter = MacFilter::new();
    assert!(filter.is_allowed("00:1a:11:00:00:01"));
    assert!(filter.is_allowed("ff:ff:ff:ff:ff:ff"));
    assert!(filter.whitelist().is_empty());
    assert!(filter.blacklist().is_empty());
}

#[test]
fn whitelist_alone_decides_once_it_holds_a_prefix() {
    let mut filter = MacFilter::new();
    filter.add_to_blacklist("00:1a:11");
    filter.add_to_whitelist("00:1a:11");
    assert!(filter.is_allowed("00:1A:11:22:33:44"));
    assert!(filter.is_allowed("00:1a:11:22:33:44"));
    assert!(!filter.is_allowed("00:17:f2:22:33:44"));
}

#[test]
fn blacklist_denies_its_prefixes() {
    let mut filter = MacFilter::new();
    filter.add_to_blacklist("00:17:f2");
    assert!(!filter.is_allowed("00:17:F2:00:00:01"));
    assert!(!filter.is_allowed("00:17:f2:00:00:01"));
    assert!(filter.is_allowed("00:1a:11:00:00:01"));
}

#[test]
fn prefixes_are_kept_in_upper_case_and_once() {
    let mut filter = MacFilter::new();
    filter.add_to_whitelist("00:1a:11");
    filter.add_to_whitelist("00:1A:11");
    filter.add_to_whitelist("de:ad:be");
    assert_eq!(filter.whitelist(), vec!["00:1A:11", "DE:AD:BE"]);
    filter.add_to_blacklist("aa:bb:cc");
    filter.add_to_blacklist("aa:bb:cc");
    assert_eq!(filter.blacklist(), vec!["AA:BB:CC"]);
}

#[test]
fn only_the_first_eight_bytes_count() {
    let mut filter = MacFilter::new();
    filter.add_to_whitelist("00:1a:11");
    assert!(filter.is_allowed("00:1a:11"));
    assert!(filter.is_allowed("00:1a:11 and anything after"));
    assert!(!filter.is_allowed("000:1a:11"));
}

#[test]
fn from_lists_drops_repeats() {
    let filter = MacFilter::from_lists(
        vec!["A".to_string(), "B".to_string(), "A".to_string()],
        vec!["C".to_string(), "C".to_string()],
    );
    assert_eq!(filter.whitelist(), vec!["A", "B"]);
    assert_eq!(filter.blacklist(), vec!["C"]);
}

#[test]
fn typed_address_is_judged_in_colon_notation() {
    let mut filter = MacFilter::new();
    filter.add_to_blacklist("00:17:f2");
    let apple = MacAddress::parse("0017.F2aa.bbcc").unwrap();
    let other = MacAddress::new([0x00, 0x1a, 0x11, 1, 2, 3], MacFormat::Raw);
    assert!(!filter.allows(&apple));
    assert!(filter.allows(&other));
    filter.add_to_whitelist("00:17:F2");
    assert!(filter.allows(&apple));
    assert!(!filter.allows(&other));
}

#[test]
fn change_of_a_denied_address_does_not_start() {
    let mut filter = MacFilter::new();
    filter.add_to_blacklist("02:11:22");
    let denied = MacAddress::parse("02-11-22-33-44-55").unwrap();
    let started = screen_change(Platform::Linux, "eth0", denied, false, &filter);
    assert_eq!(started.phase(), Phase::Aborted);
    assert_eq!(started.pending(), Action::Finished);
    let allowed = MacAddress::parse("02-11-23-33-44-55").unwrap();
    let started = screen_change(Platform::Linux, "eth0", allowed, false, &filter);
    assert_eq!(started.phase(), Phase::Idle);
    assert_eq!(started.pending(), Action::CheckPrivilege);
}
