use vstd::prelude::*;
use crate::error::MacError;
use crate::filter::prefix_len;
use crate::table::Table;
use crate::text::{can_cut, cut_head, head_of, same_text, uppercase_of};

verus! {

/// Where the vendor of an address is at home.
#[derive(Debug)]
pub struct GeoLocation {
    pub country: String,
    pub region: String,
    pub city: String,
    pub vendor: String,
}

/// What a location says, with its texts as sequences of characters.
pub struct LocationView {
    pub country: Seq<char>,
    pub region: Seq<char>,
    pub city: Seq<char>,
    pub vendor: Seq<char>,
}

impl View for GeoLocation {
    type V = LocationView;

    open spec fn view(&self) -> LocationView {
        LocationView {
            country: self.country@,
            region: self.region@,
            city: self.city@,
            vendor: self.vendor@,
        }
    }
}

impl Clone for GeoLocation {
    fn clone(&self) -> (copy: GeoLocation)
        ensures
            copy@ == self@,
    {
        GeoLocation {
            country: self.country.clone(),
            region: self.region.clone(),
            city: self.city.clone(),
            vendor: self.vendor.clone(),
        }
    }
}

/// A vendor and the address prefix assigned to it.
#[derive(Debug)]
pub struct VendorInfo {
    pub prefix: String,
    pub name: String,
    pub country: String,
}

/// What a vendor record says, with its texts as sequences of characters.
pub struct VendorView {
    pub prefix: Seq<char>,
    pub name: Seq<char>,
    pub country: Seq<char>,
}

impl View for VendorInfo {
    type V = VendorView;

    open spec fn view(&self) -> VendorView {
        VendorView { prefix: self.prefix@, name: self.name@, country: self.country@ }
    }
}

impl Clone for VendorInfo {
    fn clone(&self) -> (copy: VendorInfo)
        ensures
            copy@ == self@,
    {
        VendorInfo {
            prefix: self.prefix.clone(),
            name: self.name.clone(),
            country: self.country.clone(),
        }
    }
}

/// Finds the home of an address's vendor and proposes addresses for a country.
pub struct GeoLocationService {
    vendor_db: Table<VendorInfo>,
    cache: Table<GeoLocation>,
}

/// The key under which the vendor of an address is looked up: the first
/// eight bytes of its text, in upper case.
pub open spec fn vendor_key(mac: Seq<char>) -> Seq<char> {
    uppercase_of(head_of(mac, prefix_len()))
}

/// The location that a vendor record gives: its country and its name;
/// region and city are not known.
pub open spec fn location_of(vendor: VendorView) -> LocationView {
    LocationView {
        country: vendor.country,
        region: Seq::empty(),
        city: Seq::empty(),
        vendor: vendor.name,
    }
}

/// The text that explains an address whose vendor is not known.
pub open spec fn not_found_text() -> Seq<char> {
    "Location not found"@
}

/// The octets that follow the vendor prefix in a proposed address.
pub open spec fn zero_tail() -> Seq<char> {
    ":00:00:00"@
}

/// The first of the records that is of a country, if any.
pub open spec fn first_of_country(records: Seq<VendorInfo>, country: Seq<char>) -> Option<
    VendorView,
>
    decreases records.len(),
{
    if records.len() == 0 {
        None
    } else if records[0].country@ == country {
        Some(records[0]@)
    } else {
        first_of_country(records.skip(1), country)
    }
}

impl GeoLocationService {
    /// The vendor records, in the order of the database.
    pub closed spec fn vendors(&self) -> Seq<VendorInfo> {
        self.vendor_db.values()
    }

    /// The vendor stored under a key, if any.
    pub closed spec fn vendor_under(&self, key: Seq<char>) -> Option<VendorView> {
        match self.vendor_db.lookup(key) {
            Some(vendor) => Some(vendor@),
            None => None,
        }
    }

    /// The location remembered for an address text, if any.
    pub closed spec fn cached(&self, mac: Seq<char>) -> Option<LocationView> {
        match self.cache.lookup(mac) {
            Some(location) => Some(location@),
            None => None,
        }
    }

    /// A service that knows no vendor and remembers no location.
    pub fn new() -> (service: GeoLocationService)
        ensures
            service.vendors().len() == 0,
            forall|key: Seq<char>| service.vendor_under(key) is None,
            forall|mac: Seq<char>| service.cached(mac) is None,
    {
        let service = GeoLocationService { vendor_db: Table::new(), cache: Table::new() };
        proof {
            service.vendor_db.lemma_paired();
            service.cache.lemma_paired();
        }
        service
    }

    /// A service over a vendor database, with nothing remembered.
    pub fn with_vendors(vendor_db: Table<VendorInfo>) -> (service: GeoLocationService)
        ensures
            service.vendors() == vendor_db.values(),
            forall|key: Seq<char>|
                service.vendor_under(key) == match vendor_db.lookup(key) {
                    Some(vendor) => Some(vendor@),
                    None => None,
                },
            forall|mac: Seq<char>| service.cached(mac) is None,
    {
        let service = GeoLocationService { vendor_db, cache: Table::new() };
        proof {
            service.cache.lemma_paired();
        }
        service
    }

    /// The home of an address's vendor. A location that is remembered for
    /// the text is returned as it is. Otherwise the vendor is looked up
    /// under the first eight bytes of the text, in upper case; its location
    /// is remembered and returned. An unknown vendor is an error.
    pub fn get_location(&mut self, mac: &str) -> (found: Result<GeoLocation, MacError>)
        requires
            old(self).cached(mac@) is None ==> can_cut(mac@, prefix_len()),
        ensures
            final(self).vendors() == old(self).vendors(),
            forall|key: Seq<char>| final(self).vendor_under(key) == old(self).vendor_under(key),
            forall|other: Seq<char>|
                other != mac@ ==> final(self).cached(other) == old(self).cached(other),
            match old(self).cached(mac@) {
                Some(location) => found matches Ok(l) && l@ == location && final(self).cached(mac@)
                    == Some(location),
                None => match old(self).vendor_under(vendor_key(mac@)) {
                    Some(vendor) => found matches Ok(l) && l@ == location_of(vendor)
                        && final(self).cached(mac@) == Some(location_of(vendor)),
                    None => (found matches Err(MacError::ValidationFailed(m)) && m@
                        == not_found_text()) && final(self).cached(mac@) is None,
                },
            },
    {
        match self.cache.get(mac) {
            Some(location) => {
                return Ok(location.clone());
            },
            None => {},
        }
        let prefix = cut_head(mac, 8).to_uppercase();
        let location = match self.vendor_db.get(prefix.as_str()) {
            Some(vendor) => GeoLocation {
                country: vendor.country.clone(),
                region: String::new(),
                city: String::new(),
                vendor: vendor.name.clone(),
            },
            None => {
                return Err(MacError::ValidationFailed("Location not found".to_string()));
            },
        };
        let copy = location.clone();
        self.cache.insert(mac.to_string(), copy);
        Ok(location)
    }

    /// An address for a country: the prefix of the first vendor of that
    /// country, in the order of the database, followed by zero octets.
    pub fn suggest_mac_for_location(&self, country: &str) -> (suggested: Option<String>)
        ensures
            match suggested {
                Some(mac) => first_of_country(self.vendors(), country@) matches Some(vendor)
                    && mac@ == vendor.prefix + zero_tail(),
                None => first_of_country(self.vendors(), country@) is None,
            },
    {
        let n = self.vendor_db.len();
        let mut i: usize = 0;
        assert(self.vendors().skip(0) =~= self.vendors());
        while i < n
            invariant
                i <= n,
                n == self.vendors().len(),
                first_of_country(self.vendors(), country@) == first_of_country(
                    self.vendors().skip(i as int),
                    country@,
                ),
            decreases n - i,
        {
            let vendor = self.vendor_db.value_at(i);
            let ghost rest = self.vendors().skip(i as int);
            assert(rest[0] == *vendor);
            assert(rest.skip(1) =~= self.vendors().skip(i + 1));
            if same_text(vendor.country.as_str(), country) {
                let mut mac = vendor.prefix.clone();
                mac.append(":00:00:00");
                return Some(mac);
            }
            i += 1;
        }
        None
    }
}

} // verus!
