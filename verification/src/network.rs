use vstd::prelude::*;
use crate::error::{ErrorKind, Fault, MacError};
use crate::text::{chars_of, fields, find_holding, find_starting, first_where, holding, is_listed, join2, join3, lines, names, same_text, split_fields, split_lines, split_words, starting, string_of, texts, trim, trim_char, trimmed, trimmed_of, words};

verus! {

/// What is known of a network interface when a change is about to be made.
#[derive(Debug)]
pub struct NetworkCard {
    pub interface: String,
    pub vendor: Option<String>,
    pub supports_mac_change: bool,
    pub permanent_change_supported: bool,
    pub driver: String,
}

/// What a card says, with its texts as sequences of characters.
pub struct CardView {
    pub interface: Seq<char>,
    pub vendor: Option<Seq<char>>,
    pub supports_mac_change: bool,
    pub permanent_change_supported: bool,
    pub driver: Seq<char>,
}

impl View for NetworkCard {
    type V = CardView;

    open spec fn view(&self) -> CardView {
        CardView {
            interface: self.interface@,
            vendor: match self.vendor {
                Some(v) => Some(v@),
                None => None,
            },
            supports_mac_change: self.supports_mac_change,
            permanent_change_supported: self.permanent_change_supported,
            driver: self.driver@,
        }
    }
}

/// What the system's device tree shows of an interface.
#[derive(Debug)]
pub struct SysfsProbe {
    /// Whether the interface has an entry.
    pub present: bool,
    /// What the entry gives as the link type, where it can be read.
    pub link_type: Option<String>,
    /// What the device's event file holds, where the device has one.
    pub uevent: Option<String>,
    /// Whether the entry shows an address.
    pub has_address: bool,
}

/// What a probe says, with its texts as sequences of characters.
pub struct ProbeView {
    pub present: bool,
    pub link_type: Option<Seq<char>>,
    pub uevent: Option<Seq<char>>,
    pub has_address: bool,
}

impl View for SysfsProbe {
    type V = ProbeView;

    open spec fn view(&self) -> ProbeView {
        ProbeView {
            present: self.present,
            link_type: match self.link_type {
                Some(t) => Some(t@),
                None => None,
            },
            uevent: match self.uevent {
                Some(t) => Some(t@),
                None => None,
            },
            has_address: self.has_address,
        }
    }
}

/// Where the knowledge of an interface comes from.
#[derive(Debug)]
pub enum CardSource {
    /// The system's device tree.
    Sysfs(SysfsProbe),
    /// The host's listing of its network hardware: what the listing wrote
    /// to its error stream where it failed, and whether the host keeps a
    /// changed address across restarts.
    Listing { failure: Option<String>, keeps_address: bool },
}

/// A source, with its texts as sequences of characters.
pub enum SourceView {
    Sysfs(ProbeView),
    Listing { failure: Option<Seq<char>>, keeps_address: bool },
}

impl View for CardSource {
    type V = SourceView;

    open spec fn view(&self) -> SourceView {
        match self {
            CardSource::Sysfs(probe) => SourceView::Sysfs(probe@),
            CardSource::Listing { failure: Some(text), keeps_address } => SourceView::Listing {
                failure: Some(text@),
                keeps_address: *keeps_address,
            },
            CardSource::Listing { failure: None, keeps_address } => SourceView::Listing {
                failure: None,
                keeps_address: *keeps_address,
            },
        }
    }
}

/// The link type of a loopback interface.
pub open spec fn loopback_type() -> Seq<char> {
    "772"@
}

/// The link type of a point-to-point interface.
pub open spec fn point_to_point_type() -> Seq<char> {
    "768"@
}

/// The field after the first `=` of a line; empty where the line has none.
pub open spec fn value_of(line: Seq<char>) -> Seq<char> {
    let cut = fields(line, seq!['=']);
    if cut.len() > 1 {
        cut[1]
    } else {
        Seq::empty()
    }
}

/// The driver that a device's event file names: the value of its first
/// line that starts with `DRIVER=`.
pub open spec fn driver_named(uevent: Seq<char>) -> Option<Seq<char>> {
    let all = lines(uevent);
    let at = first_where(all, starting("DRIVER="@));
    if 0 <= at < all.len() {
        Some(value_of(all[at]))
    } else {
        None
    }
}

/// The card that a probe gives, or the reason why the interface cannot be
/// used. An interface without an entry, one whose link type cannot be read
/// and a loopback interface are refused. The driver is taken from the
/// device's event file and also stands for the vendor. An interface can
/// change its address, and keep the change, if it shows an address and is
/// neither loopback nor point-to-point.
pub open spec fn card_from_probe(interface: Seq<char>, probe: ProbeView) -> Result<CardView, Fault> {
    if !probe.present {
        Err(
            Fault {
                kind: ErrorKind::ValidationFailed,
                detail: "Interface "@ + interface + " not found in sysfs"@,
            },
        )
    } else if probe.link_type is None {
        Err(
            Fault {
                kind: ErrorKind::ValidationFailed,
                detail: "Failed to read interface type for "@ + interface,
            },
        )
    } else if trimmed(probe.link_type.unwrap()) == loopback_type() {
        Err(
            Fault {
                kind: ErrorKind::ValidationFailed,
                detail: "Cannot change MAC address of loopback interface "@ + interface,
            },
        )
    } else {
        let named = match probe.uevent {
            Some(content) => driver_named(content),
            None => None,
        };
        let changeable = probe.has_address && trimmed(probe.link_type.unwrap())
            != point_to_point_type();
        Ok(
            CardView {
                interface,
                vendor: named,
                supports_mac_change: changeable,
                permanent_change_supported: changeable,
                driver: match named {
                    Some(driver) => driver,
                    None => Seq::empty(),
                },
            },
        )
    }
}

/// The card that a listing of the host's hardware gives: where the
/// listing failed, a system error with what it wrote; otherwise a card
/// without details whose address can be changed.
pub open spec fn card_from_listing(
    interface: Seq<char>,
    failure: Option<Seq<char>>,
    keeps_address: bool,
) -> Result<CardView, Fault> {
    match failure {
        Some(text) => Err(Fault { kind: ErrorKind::SystemError, detail: text }),
        None => Ok(
            CardView {
                interface,
                vendor: None,
                supports_mac_change: true,
                permanent_change_supported: keeps_address,
                driver: Seq::empty(),
            },
        ),
    }
}

/// The card that a source gives.
pub open spec fn card_from(interface: Seq<char>, source: SourceView) -> Result<CardView, Fault> {
    match source {
        SourceView::Sysfs(probe) => card_from_probe(interface, probe),
        SourceView::Listing { failure, keeps_address } => card_from_listing(
            interface,
            failure,
            keeps_address,
        ),
    }
}

/// The card of an interface of the host, or the reason why the interface
/// cannot be used: first of all, that the host does not list it.
pub open spec fn verified_card(
    interface: Seq<char>,
    host: Seq<Seq<char>>,
    source: SourceView,
) -> Result<CardView, Fault> {
    if !host.contains(interface) {
        Err(
            Fault {
                kind: ErrorKind::ValidationFailed,
                detail: "Interface "@ + interface + " not found"@,
            },
        )
    } else {
        card_from(interface, source)
    }
}

/// Whether a result is the card or the fault that was called for.
pub open spec fn gives_card(made: Result<NetworkCard, MacError>, wanted: Result<CardView, Fault>) -> bool {
    match made {
        Ok(card) => wanted == Ok::<CardView, Fault>(card@),
        Err(e) => wanted == Err::<CardView, Fault>(e@),
    }
}

fn driver_in(uevent: &str) -> (named: Option<String>)
    ensures
        match named {
            Some(driver) => driver_named(uevent@) == Some(driver@),
            None => driver_named(uevent@) is None,
        },
{
    let all = split_lines(&chars_of(uevent));
    let start = chars_of("DRIVER=");
    let at = find_starting(&all, &start);
    if at < all.len() {
        assert(texts(all@)[at as int] == all@[at as int]@);
        let seps: Vec<char> = vec!['='];
        assert(seps@ =~= seq!['=']);
        let cut = split_fields(&all[at], &seps);
        assert(texts(cut@).len() == cut@.len());
        if cut.len() > 1 {
            assert(texts(cut@)[1] == cut@[1]@);
            Some(string_of(&cut[1]))
        } else {
            Some(String::new())
        }
    } else {
        None
    }
}

impl NetworkCard {
    /// The card of an interface, from what the system's device tree shows
    /// of it.
    pub fn from_probe(interface: &str, probe: &SysfsProbe) -> (made: Result<NetworkCard, MacError>)
        ensures
            gives_card(made, card_from_probe(interface@, probe@)),
    {
        if !probe.present {
            return Err(
                MacError::ValidationFailed(join3("Interface ", interface, " not found in sysfs")),
            );
        }
        let link_type = match &probe.link_type {
            Some(text) => string_of(&trim(&chars_of(text.as_str()))),
            None => {
                return Err(
                    MacError::ValidationFailed(
                        join2("Failed to read interface type for ", interface),
                    ),
                );
            },
        };
        if same_text(link_type.as_str(), "772") {
            return Err(
                MacError::ValidationFailed(
                    join2("Cannot change MAC address of loopback interface ", interface),
                ),
            );
        }
        let named = match &probe.uevent {
            Some(content) => driver_in(content.as_str()),
            None => None,
        };
        let changeable = probe.has_address && !same_text(link_type.as_str(), "768");
        let driver = match &named {
            Some(driver) => driver.clone(),
            None => String::new(),
        };
        Ok(
            NetworkCard {
                interface: interface.to_string(),
                vendor: named,
                supports_mac_change: changeable,
                permanent_change_supported: changeable,
                driver,
            },
        )
    }

    /// The card of an interface, from what a source shows of it.
    pub fn new(interface: &str, source: &CardSource) -> (made: Result<NetworkCard, MacError>)
        ensures
            gives_card(made, card_from(interface@, source@)),
    {
        match source {
            CardSource::Sysfs(probe) => NetworkCard::from_probe(interface, probe),
            CardSource::Listing { failure: Some(text), keeps_address } => Err(
                MacError::SystemError(text.clone()),
            ),
            CardSource::Listing { failure: None, keeps_address } => Ok(
                NetworkCard {
                    interface: interface.to_string(),
                    vendor: None,
                    supports_mac_change: true,
                    permanent_change_supported: *keeps_address,
                    driver: String::new(),
                },
            ),
        }
    }

    /// The card of an interface, provided the host lists the interface.
    pub fn verify_interface(interface: &str, host_interfaces: &Vec<String>, source: &CardSource) -> (made:
        Result<NetworkCard, MacError>)
        ensures
            gives_card(made, verified_card(interface@, names(host_interfaces@), source@)),
    {
        if !is_listed(host_interfaces, interface) {
            return Err(MacError::ValidationFailed(join3("Interface ", interface, " not found")));
        }
        NetworkCard::new(interface, source)
    }
}

/// The second word of a line, if it has two.
pub open spec fn second_word(line: Seq<char>) -> Option<Seq<char>> {
    let all = words(line);
    if all.len() > 1 {
        Some(all[1])
    } else {
        None
    }
}

/// The address that a listing shows: the second word of its first line
/// that holds the label, if there is such a line and it has two words.
pub open spec fn labelled_address(output: Seq<char>, label: Seq<char>) -> Option<Seq<char>> {
    let all = lines(output);
    let at = first_where(all, holding(label));
    if 0 <= at < all.len() {
        second_word(all[at])
    } else {
        None
    }
}

/// The address that a table of comma-separated values shows for an
/// interface: the third field of the first line that holds the
/// interface's name, without the quotes around it.
pub open spec fn tabled_address(output: Seq<char>, interface: Seq<char>) -> Option<Seq<char>> {
    let all = lines(output);
    let at = first_where(all, holding(interface));
    if 0 <= at < all.len() {
        let cut = fields(all[at], seq![',']);
        if cut.len() > 2 {
            Some(trimmed_of(cut[2], '"'))
        } else {
            None
        }
    } else {
        None
    }
}

/// The address that the device tree's address file holds: its content
/// without surrounding whitespace, unless nothing is left.
pub open spec fn filed_address(content: Seq<char>) -> Option<Seq<char>> {
    if trimmed(content).len() > 0 {
        Some(trimmed(content))
    } else {
        None
    }
}

/// The text that explains that no address could be found.
pub open spec fn no_address_text(interface: Seq<char>) -> Seq<char> {
    "Could not get current MAC address for interface "@ + interface
}

/// What the host answered when it was asked for an interface's address.
#[derive(Debug)]
pub enum AddressReport {
    /// The content of the address file in the device tree.
    Sysfs(String),
    /// What `ip link show` printed, or what it wrote to its error stream
    /// when it failed.
    IpLink(Result<String, String>),
    /// What `ifconfig` printed for the interface, or its error stream.
    Ifconfig(Result<String, String>),
    /// What `getmac /v /fo csv` printed, or its error stream.
    Getmac(Result<String, String>),
    /// The host has no way of telling.
    Unsupported,
}

/// A report, with its texts as sequences of characters.
pub enum ReportView {
    Sysfs(Seq<char>),
    IpLink(Result<Seq<char>, Seq<char>>),
    Ifconfig(Result<Seq<char>, Seq<char>>),
    Getmac(Result<Seq<char>, Seq<char>>),
    Unsupported,
}

impl View for AddressReport {
    type V = ReportView;

    open spec fn view(&self) -> ReportView {
        match self {
            AddressReport::Sysfs(content) => ReportView::Sysfs(content@),
            AddressReport::IpLink(Ok(out)) => ReportView::IpLink(Ok(out@)),
            AddressReport::IpLink(Err(e)) => ReportView::IpLink(Err(e@)),
            AddressReport::Ifconfig(Ok(out)) => ReportView::Ifconfig(Ok(out@)),
            AddressReport::Ifconfig(Err(e)) => ReportView::Ifconfig(Err(e@)),
            AddressReport::Getmac(Ok(out)) => ReportView::Getmac(Ok(out@)),
            AddressReport::Getmac(Err(e)) => ReportView::Getmac(Err(e@)),
            AddressReport::Unsupported => ReportView::Unsupported,
        }
    }
}

/// The address that a report shows, if it shows one.
pub open spec fn reported_address(interface: Seq<char>, report: ReportView) -> Option<Seq<char>> {
    match report {
        ReportView::Sysfs(content) => filed_address(content),
        ReportView::IpLink(Ok(out)) => labelled_address(out, "link/ether"@),
        ReportView::Ifconfig(Ok(out)) => labelled_address(out, "ether"@),
        ReportView::Getmac(Ok(out)) => tabled_address(out, interface),
        _ => None,
    }
}

/// The address of an interface as a report shows it, or the reason why it
/// shows none: the error text of a failed command as a system error, a
/// host without support as such, and a report without an address as a
/// failed validation.
pub open spec fn current_mac(interface: Seq<char>, report: ReportView) -> Result<Seq<char>, Fault> {
    match reported_address(interface, report) {
        Some(address) => Ok(address),
        None => match report {
            ReportView::IpLink(Err(e)) => Err(Fault { kind: ErrorKind::SystemError, detail: e }),
            ReportView::Ifconfig(Err(e)) => Err(Fault { kind: ErrorKind::SystemError, detail: e }),
            ReportView::Getmac(Err(e)) => Err(Fault { kind: ErrorKind::SystemError, detail: e }),
            ReportView::Unsupported => Err(
                Fault {
                    kind: ErrorKind::UnsupportedPlatform,
                    detail: "Unsupported operating system"@,
                },
            ),
            _ => Err(
                Fault { kind: ErrorKind::ValidationFailed, detail: no_address_text(interface) },
            ),
        },
    }
}

/// The address that the device tree's address file holds.
pub fn mac_from_sysfs(content: &str) -> (found: Option<String>)
    ensures
        match found {
            Some(address) => filed_address(content@) == Some(address@),
            None => filed_address(content@) is None,
        },
{
    let kept = trim(&chars_of(content));
    if kept.len() > 0 {
        Some(string_of(&kept))
    } else {
        None
    }
}

/// The address that a listing shows under a label.
pub fn mac_from_listing(output: &str, label: &str) -> (found: Option<String>)
    ensures
        match found {
            Some(address) => labelled_address(output@, label@) == Some(address@),
            None => labelled_address(output@, label@) is None,
        },
{
    let all = split_lines(&chars_of(output));
    let part = chars_of(label);
    let at = find_holding(&all, &part);
    if at < all.len() {
        assert(texts(all@)[at as int] == all@[at as int]@);
        let found = split_words(&all[at]);
        assert(texts(found@).len() == found@.len());
        if found.len() > 1 {
            assert(texts(found@)[1] == found@[1]@);
            Some(string_of(&found[1]))
        } else {
            None
        }
    } else {
        None
    }
}

/// The address that a table of comma-separated values shows for an interface.
pub fn mac_from_table(output: &str, interface: &str) -> (found: Option<String>)
    ensures
        match found {
            Some(address) => tabled_address(output@, interface@) == Some(address@),
            None => tabled_address(output@, interface@) is None,
        },
{
    let all = split_lines(&chars_of(output));
    let part = chars_of(interface);
    let at = find_holding(&all, &part);
    if at < all.len() {
        assert(texts(all@)[at as int] == all@[at as int]@);
        let seps: Vec<char> = vec![','];
        assert(seps@ =~= seq![',']);
        let cut = split_fields(&all[at], &seps);
        assert(texts(cut@).len() == cut@.len());
        if cut.len() > 2 {
            assert(texts(cut@)[2] == cut@[2]@);
            Some(string_of(&trim_char(&cut[2], '"')))
        } else {
            None
        }
    } else {
        None
    }
}

/// The address of an interface as a report of the host shows it.
pub fn get_current_mac(interface: &str, report: &AddressReport) -> (found: Result<String, MacError>)
    ensures
        match found {
            Ok(address) => current_mac(interface@, report@) == Ok::<Seq<char>, Fault>(address@),
            Err(e) => current_mac(interface@, report@) == Err::<Seq<char>, Fault>(e@),
        },
{
    let shown = match report {
        AddressReport::Sysfs(content) => mac_from_sysfs(content.as_str()),
        AddressReport::IpLink(Ok(out)) => mac_from_listing(out.as_str(), "link/ether"),
        AddressReport::Ifconfig(Ok(out)) => mac_from_listing(out.as_str(), "ether"),
        AddressReport::Getmac(Ok(out)) => mac_from_table(out.as_str(), interface),
        _ => None,
    };
    match shown {
        Some(address) => Ok(address),
        None => match report {
            AddressReport::IpLink(Err(e)) => Err(MacError::SystemError(e.clone())),
            AddressReport::Ifconfig(Err(e)) => Err(MacError::SystemError(e.clone())),
            AddressReport::Getmac(Err(e)) => Err(MacError::SystemError(e.clone())),
            AddressReport::Unsupported => Err(
                MacError::UnsupportedPlatform("Unsupported operating system".to_string()),
            ),
            _ => Err(
                MacError::ValidationFailed(
                    join2("Could not get current MAC address for interface ", interface),
                ),
            ),
        },
    }
}

} // verus!
