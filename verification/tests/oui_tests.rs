use mac_changer::error::MacError;
use mac_changer::geolocation::{GeoLocationService, VendorInfo as GeoVendor};
use mac_changer::oui::{OUIDatabase, VendorInfo};
use mac_changer::table::Table;

fn vendor(prefix: &str, name: &str, country: &str) -> VendorInfo {
    VendorInfo { prefix: prefix.to_string(), name: name.to_string(), country: country.to_string() }
}

fn sample() -> OUIDatabase {
    let mut db = OUIDatabase::empty();
    db.insert("0017F2".to_string(), vendor("00:17:F2", "Apple, Inc.", "US"));
    db.insert("001A11".to_string(), vendor("00:1A:11", "Google, Inc.", "us"));
    db.insert("00E04C".to_string(), vendor("00:E0:4C", "Realtek", "TW"));
    db.insert("001122".to_string(), vendor("00:11:22", "Cimsys", "KR"));
    db
}

#[test]
fn default_database_holds_two_vendors() {
    let db = OUIDatabase::new();
    assert_eq!(db.len(), 2);
    assert_eq!(db.list_countries(), vec!["US"]);
    let all = db.vendors_by_country("us");
    assert_eq!(all.len(), 2);
    assert_eq!(all[0].name, "Apple, Inc.");
    assert_eq!(all[0].prefix, "00:17:F2");
    assert_eq!(all[1].name, "Google, Inc.");
    assert!(db.get_vendor("00:17:F2").is_none());
}

#[test]
fn vendor_is_found_under_six_upper_case_digits() {
    let db = sample();
    assert_eq!(db.get_vendor("00:17:f2").unwrap().name, "Apple, Inc.");
    assert_eq!(db.get_vendor("00-17-F2-aa-bb-cc").unwrap().name, "Apple, Inc.");
    assert_eq!(db.get_vendor("0017.f2aa.bbcc").unwrap().name, "Apple, Inc.");
    assert_eq!(db.get_vendor("00e04c").unwrap().name, "Realtek");
    assert!(db.get_vendor("00:17").is_none());
    assert!(db.get_vendor("").is_none());
    assert!(db.get_vendor("ff:ff:ff:00:00:00").is_none());
}

#[test]
fn find_vendor_refuses_what_cannot_be_cut() {
    let db = sample();
    assert_eq!(db.find_vendor("00:17:f2").unwrap().unwrap().name, "Apple, Inc.");
    assert!(db.find_vendor("00:17").unwrap().is_none());
    assert!(db.find_vendor("00:17:é2").unwrap().is_none());
    assert_eq!(
        db.find_vendor("00:17:aé").unwrap_err(),
        MacError::InvalidFormat("Vendor prefix cannot be cut after six bytes".to_string())
    );
}

#[test]
fn insert_replaces_under_the_same_key() {
    let mut db = sample();
    db.insert("0017F2".to_string(), vendor("00:17:F2", "Apple", "IE"));
    assert_eq!(db.len(), 4);
    assert_eq!(db.get_vendor("0017f2").unwrap().name, "Apple");
    assert_eq!(db.vendors_by_country("ie").len(), 1);
}

#[test]
fn vendors_by_country_keeps_the_order_of_the_database() {
    let db = sample();
    let us = db.vendors_by_country("US");
    assert_eq!(us.len(), 2);
    assert_eq!(us[0].name, "Apple, Inc.");
    assert_eq!(us[1].name, "Google, Inc.");
    assert!(db.vendors_by_country("DE").is_empty());
    assert_eq!(db.vendors_by_country("tw")[0].prefix, "00:E0:4C");
}

#[test]
fn countries_are_listed_once_in_ascending_order() {
    let db = sample();
    assert_eq!(db.list_countries(), vec!["KR", "TW", "US", "us"]);
    assert!(OUIDatabase::empty().list_countries().is_empty());
}

#[test]
fn listing_is_read_line_by_line() {
    let listing = "OUI/MA-L                                                    Organization\n\
company_id                                                  Organization\n\
                                                            Address\n\
\n\
00-22-72   (hex)\t\tAmerican Micro-Fuel Device Corp.\n\
002272     (base 16)\t\tAmerican Micro-Fuel Device Corp.\n\
\t\t\t\t2181 Buchanan Loop\n\
\t\t\t\tFerndale  WA  98248\n\
\t\t\t\tUS\n\
\n\
00-D0-EF   (hex)\t\tIGT\n\
00D0EF     (base 16)\t\tIGT\n\
\t\t\t\t9295 PROTOTYPE DRIVE\n\
\t\t\t\tRENO  NV  89511\n\
\t\t\t\tUS\n\
\n\
08-61-95   (hex)\t\tRockwell Automation GmbH and Co. KG extra\n\
086195     (base 16)\t\tRockwell Automation\n\
\t\t\t\tMunich  80331\n\
\t\t\t\tDE\n";
    let db = OUIDatabase::from_listing(listing);
    assert_eq!(db.len(), 2);
    let us = db.vendors_by_country("US");
    assert_eq!(us.len(), 1);
    assert_eq!(us[0].prefix, "00:22:72");
    assert_eq!(us[0].name, "Micro-Fuel Device Corp.");
    let de = db.vendors_by_country("DE");
    assert_eq!(de[0].prefix, "08:61:95");
    assert_eq!(de[0].name, "Automation GmbH and Co.");
    assert_eq!(db.list_countries(), vec!["DE", "US"]);
}

#[test]
fn listing_without_address_defaults_to_us() {
    let db = OUIDatabase::from_listing("AA-BB-CC (hex) Some Vendor Name\n\nnext\n");
    assert_eq!(db.len(), 1);
    let all = db.vendors_by_country("us");
    assert_eq!(all[0].prefix, "AA:BB:CC");
    assert_eq!(all[0].name, "Vendor Name");
    assert_eq!(all[0].country, "US");
}

#[test]
fn update_keeps_the_old_vendors_when_the_listing_gives_none() {
    let mut db = sample();
    assert!(!db.update("nothing of use\n"));
    assert_eq!(db.len(), 4);
    assert!(db.update("AA-BB-CC (hex) One Two Three.\n Street 1\n Berlin DE\n"));
    assert_eq!(db.len(), 1);
    assert_eq!(db.list_countries(), vec!["DE"]);
    assert_eq!(db.vendors_by_country("de")[0].name, "Two Three.");
}

fn geo_vendors() -> Table<GeoVendor> {
    let mut db: Table<GeoVendor> = Table::new();
    db.insert(
        "00:17:F2".to_string(),
        GeoVendor { prefix: "00:17:F2".to_string(), name: "Apple, Inc.".to_string(), country: "US".to_string() },
    );
    db.insert(
        "00:E0:4C".to_string(),
        GeoVendor { prefix: "00:E0:4C".to_string(), name: "Realtek".to_string(), country: "TW".to_string() },
    );
    db.insert(
        "00:1A:11".to_string(),
        GeoVendor { prefix: "00:1A:11".to_string(), name: "Google, Inc.".to_string(), country: "US".to_string() },
    );
    db
}

#[test]
fn location_is_that_of_the_vendor() {
    let mut service = GeoLocationService::with_vendors(geo_vendors());
    let found = service.get_location("00:e0:4c:12:34:56").unwrap();
    assert_eq!(found.country, "TW");
    assert_eq!(found.vendor, "Realtek");
    assert_eq!(found.region, "");
    assert_eq!(found.city, "");
    let again = service.get_location("00:e0:4c:12:34:56").unwrap();
    assert_eq!(again.country, "TW");
}

#[test]
fn unknown_vendor_has_no_location() {
    let mut service = GeoLocationService::with_vendors(geo_vendors());
    assert_eq!(
        service.get_location("ff:ff:ff:00:00:00").unwrap_err(),
        MacError::ValidationFailed("Location not found".to_string())
    );
    let mut empty = GeoLocationService::new();
    assert!(empty.get_location("00:17:f2:00:00:00").is_err());
}

#[test]
fn suggestion_uses_the_first_vendor_of_the_country() {
    let service = GeoLocationService::with_vendors(geo_vendors());
    assert_eq!(service.suggest_mac_for_location("US").unwrap(), "00:17:F2:00:00:00");
    assert_eq!(service.suggest_mac_for_location("TW").unwrap(), "00:E0:4C:00:00:00");
    assert!(service.suggest_mac_for_location("us").is_none());
    assert!(service.suggest_mac_for_location("DE").is_none());
    assert!(GeoLocationService::new().suggest_mac_for_location("US").is_none());
}

#[test]
fn table_keeps_first_order_and_replaces_in_place() {
    let mut t: Table<u32> = Table::new();
    t.insert("b".to_string(), 1);
    t.insert("a".to_string(), 2);
    t.insert("b".to_string(), 3);
    assert_eq!(t.len(), 2);
    assert_eq!(t.get("b"), Some(&3));
    assert_eq!(t.get("a"), Some(&2));
    assert_eq!(t.get("c"), None);
    assert_eq!(t.position("b"), 0);
    assert_eq!(t.position("a"), 1);
    assert_eq!(t.position("c"), 2);
    assert_eq!(t.key_at(1), "a");
    assert_eq!(*t.value_at(0), 3);
}
