use mac_changer::error::MacError;
use mac_changer::network::{
    get_current_mac, mac_from_listing, mac_from_sysfs, mac_from_table, AddressReport, CardSource, NetworkCard,
    SysfsProbe,
};

fn probe(link_type: &str, uevent: Option<&str>, has_address: bool) -> SysfsProbe {
    SysfsProbe {
        present: true,
        link_type: Some(link_type.to_string()),
        uevent: uevent.map(|u| u.to_string()),
        has_address,
    }
}

#[test]
fn card_is_built_from_the_device_tree() {
    let p = probe("1\n", Some("DRIVER=e1000e\nPCI_CLASS=20000\nPCI_ID=8086:15B8\n"), true);
    let card = NetworkCard::from_probe("eth0", &p).unwrap();
    assert_eq!(card.interface, "eth0");
    assert_eq!(card.driver, "e1000e");
    assert_eq!(card.vendor.as_deref(), Some("e1000e"));
    assert!(card.supports_mac_change);
    assert!(card.permanent_change_supported);
}

#[test]
fn card_without_device_has_no_driver() {
    let card = NetworkCard::from_probe("veth0", &probe("1", None, true)).unwrap();
    assert_eq!(card.driver, "");
    assert!(card.vendor.is_none());
    let card = NetworkCard::from_probe("veth0", &probe("1", Some("PCI_ID=1\n"), true)).unwrap();
    assert_eq!(card.driver, "");
    assert!(card.vendor.is_none());
    let card = NetworkCard::from_probe("veth0", &probe("1", Some("X=1\nDRIVER=a=b\nDRIVER=c\n"), true)).unwrap();
    assert_eq!(card.driver, "a");
    let card = NetworkCard::from_probe("veth0", &probe("1", Some("DRIVER=\n"), true)).unwrap();
    assert_eq!(card.vendor.as_deref(), Some(""));
}

#[test]
fn loopback_is_refused() {
    assert_eq!(
        NetworkCard::from_probe("lo", &probe(" 772\n", None, true)).unwrap_err(),
        MacError::ValidationFailed("Cannot change MAC address of loopback interface lo".to_string())
    );
}

#[test]
fn point_to_point_cannot_change_its_address() {
    let card = NetworkCard::from_probe("ppp0", &probe("768\n", None, true)).unwrap();
    assert!(!card.supports_mac_change);
    assert!(!card.permanent_change_supported);
    let card = NetworkCard::from_probe("eth1", &probe("1\n", None, false)).unwrap();
    assert!(!card.supports_mac_change);
}

#[test]
fn missing_entry_and_unreadable_type_are_refused() {
    let absent = SysfsProbe { present: false, link_type: None, uevent: None, has_address: false };
    assert_eq!(
        NetworkCard::from_probe("eth7", &absent).unwrap_err(),
        MacError::ValidationFailed("Interface eth7 not found in sysfs".to_string())
    );
    let unreadable = SysfsProbe { present: true, link_type: None, uevent: None, has_address: true };
    assert_eq!(
        NetworkCard::from_probe("eth7", &unreadable).unwrap_err(),
        MacError::ValidationFailed("Failed to read interface type for eth7".to_string())
    );
}

#[test]
fn interface_must_be_listed_by_the_host() {
    let host = vec!["lo".to_string(), "eth0".to_string()];
    let p = CardSource::Sysfs(probe("1\n", None, true));
    assert!(NetworkCard::verify_interface("eth0", &host, &p).is_ok());
    assert_eq!(
        NetworkCard::verify_interface("eth1", &host, &p).unwrap_err(),
        MacError::ValidationFailed("Interface eth1 not found".to_string())
    );
    assert_eq!(
        NetworkCard::verify_interface("lo", &host, &CardSource::Sysfs(probe("772", None, true))).unwrap_err(),
        MacError::ValidationFailed("Cannot change MAC address of loopback interface lo".to_string())
    );
}

#[test]
fn listed_card_supports_change() {
    let card = NetworkCard::new("en0", &CardSource::Listing { failure: None, keeps_address: false }).unwrap();
    assert!(card.supports_mac_change);
    assert!(!card.permanent_change_supported);
    assert_eq!(card.interface, "en0");
    assert_eq!(card.driver, "");
    assert!(card.vendor.is_none());
    let kept = NetworkCard::new("Ethernet", &CardSource::Listing { failure: None, keeps_address: true }).unwrap();
    assert!(kept.permanent_change_supported);
    let failed = CardSource::Listing { failure: Some("wmic: not found".to_string()), keeps_address: true };
    assert_eq!(
        NetworkCard::new("Ethernet", &failed).unwrap_err(),
        MacError::SystemError("wmic: not found".to_string())
    );
    let from_tree = NetworkCard::new("eth0", &CardSource::Sysfs(probe("1", None, true))).unwrap();
    assert!(from_tree.supports_mac_change);
}

#[test]
fn address_file_is_trimmed() {
    assert_eq!(mac_from_sysfs("02:11:22:33:44:55\n").unwrap(), "02:11:22:33:44:55");
    assert!(mac_from_sysfs("  \n").is_none());
    assert!(mac_from_sysfs("").is_none());
}

const IP_LINK: &str = "2: eth0: <BROADCAST,MULTICAST,UP,LOWER_UP> mtu 1500 qdisc fq_codel state UP mode DEFAULT group default qlen 1000\n    link/ether 02:11:22:33:44:55 brd ff:ff:ff:ff:ff:ff\n";

const IFCONFIG: &str = "en0: flags=8863<UP,BROADCAST,SMART,RUNNING,SIMPLEX,MULTICAST> mtu 1500\n\toptions=400<CHANNEL_IO>\n\tether a4:83:e7:11:22:33 \n\tinet 192.168.1.7 netmask 0xffffff00 broadcast 192.168.1.255\n";

const GETMAC: &str = "\"Connection Name\",\"Network Adapter\",\"Physical Address\",\"Transport Name\"\r\n\"Ethernet\",\"Intel(R) Ethernet Connection\",\"A4-83-E7-11-22-33\",\"\\Device\\Tcpip_{X}\"\r\n\"Wi-Fi\",\"Intel(R) Wi-Fi 6\",\"A4-83-E7-44-55-66\",\"Media disconnected\"\r\n";

#[test]
fn address_is_read_from_listings() {
    assert_eq!(mac_from_listing(IP_LINK, "link/ether").unwrap(), "02:11:22:33:44:55");
    assert_eq!(mac_from_listing(IFCONFIG, "ether").unwrap(), "a4:83:e7:11:22:33");
    assert!(mac_from_listing("1: lo: <LOOPBACK>\n    link/loopback 00:00:00:00:00:00\n", "link/ether").is_none());
    assert!(mac_from_listing("link/ether\n link/ether 02:00:00:00:00:01\n", "link/ether").is_none());
    assert_eq!(mac_from_table(GETMAC, "Wi-Fi").unwrap(), "A4-83-E7-44-55-66");
    assert_eq!(mac_from_table(GETMAC, "Ethernet").unwrap(), "A4-83-E7-11-22-33");
    assert!(mac_from_table(GETMAC, "Bluetooth").is_none());
    assert!(mac_from_table("Ethernet,only\n", "Ethernet").is_none());
}

#[test]
fn current_mac_comes_from_whatever_the_host_reports() {
    assert_eq!(
        get_current_mac("eth0", &AddressReport::Sysfs("02:11:22:33:44:55\n".to_string())).unwrap(),
        "02:11:22:33:44:55"
    );
    assert_eq!(
        get_current_mac("eth0", &AddressReport::IpLink(Ok(IP_LINK.to_string()))).unwrap(),
        "02:11:22:33:44:55"
    );
    assert_eq!(
        get_current_mac("en0", &AddressReport::Ifconfig(Ok(IFCONFIG.to_string()))).unwrap(),
        "a4:83:e7:11:22:33"
    );
    assert_eq!(
        get_current_mac("Wi-Fi", &AddressReport::Getmac(Ok(GETMAC.to_string()))).unwrap(),
        "A4-83-E7-44-55-66"
    );
}

#[test]
fn current_mac_errors() {
    assert_eq!(
        get_current_mac("eth0", &AddressReport::Sysfs("\n".to_string())).unwrap_err(),
        MacError::ValidationFailed("Could not get current MAC address for interface eth0".to_string())
    );
    assert_eq!(
        get_current_mac("eth0", &AddressReport::IpLink(Ok("nothing".to_string()))).unwrap_err(),
        MacError::ValidationFailed("Could not get current MAC address for interface eth0".to_string())
    );
    assert_eq!(
        get_current_mac("eth0", &AddressReport::IpLink(Err("Device \"eth0\" does not exist.".to_string())))
            .unwrap_err(),
        MacError::SystemError("Device \"eth0\" does not exist.".to_string())
    );
    assert_eq!(
        get_current_mac("en0", &AddressReport::Ifconfig(Err("no such interface".to_string()))).unwrap_err(),
        MacError::SystemError("no such interface".to_string())
    );
    assert_eq!(
        get_current_mac("x", &AddressReport::Getmac(Err("denied".to_string()))).unwrap_err(),
        MacError::SystemError("denied".to_string())
    );
    assert_eq!(
        get_current_mac("x", &AddressReport::Unsupported).unwrap_err(),
        MacError::UnsupportedPlatform("Unsupported operating system".to_string())
    );
}
