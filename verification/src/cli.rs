use vstd::prelude::*;
use crate::error::{ErrorKind, Fault, MacError};
use crate::mac::{after_plus, family_of, has_shape, hex_byte_of, hex_number, hex_value, is_hex_digit, leading_pieces, parse_spec, prefix_separators, reads_vendor_prefix, MacFormat};
use crate::orchestrator::Platform;
use crate::text::{chars_of, fields, lemma_field_end};

verus! {

/// What a caller asks for on the command line.
#[derive(Debug)]
pub struct Cli {
    /// The network interface to change.
    pub interface: String,
    /// Whether a random address is asked for.
    pub random: bool,
    /// The address that is asked for.
    pub mac: Option<String>,
    /// Whether the change is to outlast a restart.
    pub permanent: bool,
    /// The vendor prefix of the random address.
    pub vendor: Option<String>,
    /// Whether the original address is to be restored.
    pub restore: bool,
    /// The country whose vendors the address should look like.
    pub spoof_location: Option<String>,
    /// A prefix to put on the whitelist.
    pub whitelist: Option<String>,
    /// A prefix to put on the blacklist.
    pub blacklist: Option<String>,
    /// Whether the history is to be shown.
    pub history: bool,
    /// Whether a rule is to be added.
    pub add_rule: bool,
    /// The application of the rule.
    pub app_name: Option<String>,
    /// The service of the rule.
    pub service_name: Option<String>,
    /// The schedule of the rule.
    pub schedule: Option<String>,
    /// Whether the rules are to be listed.
    pub list_rules: bool,
    /// Whether a rule is to be removed.
    pub remove_rule: bool,
}

/// Whether a text is `pairs` pairs of hexadecimal digits with a colon or a
/// hyphen between each two pairs, and nothing else.
pub open spec fn is_pairs(s: Seq<char>, pairs: int) -> bool {
    &&& s.len() == 3 * pairs - 1
    &&& forall|i: int|
        0 <= i < s.len() ==> if i % 3 == 2 {
            #[trigger] s[i] == ':' || s[i] == '-'
        } else {
            is_hex_digit(s[i])
        }
}

/// Whether a text is an address as the command line takes it: six pairs.
pub open spec fn is_mac_format(s: Seq<char>) -> bool {
    is_pairs(s, 6)
}

/// Whether a text is a vendor prefix as the command line takes it: three
/// pairs.
pub open spec fn is_vendor_format(s: Seq<char>) -> bool {
    is_pairs(s, 3)
}

fn has_pairs(text: &str, pairs: usize) -> (ok: bool)
    requires
        1 <= pairs <= 6,
    ensures
        ok == is_pairs(text@, pairs as int),
{
    let chars = chars_of(text);
    if chars.len() != 3 * pairs - 1 {
        return false;
    }
    let mut i: usize = 0;
    while i < chars.len()
        invariant
            i <= chars.len(),
            chars@ == text@,
            chars@.len() == 3 * pairs - 1,
            forall|j: int|
                0 <= j < i ==> if j % 3 == 2 {
                    #[trigger] chars@[j] == ':' || chars@[j] == '-'
                } else {
                    is_hex_digit(chars@[j])
                },
        decreases chars.len() - i,
    {
        let c = chars[i];
        if i % 3 == 2 {
            if c != ':' && c != '-' {
                return false;
            }
        } else {
            if !(('0' <= c && c <= '9') || ('a' <= c && c <= 'f') || ('A' <= c && c <= 'F')) {
                return false;
            }
        }
        i += 1;
    }
    true
}

/// Whether a text is an address as the command line takes it.
pub fn is_valid_mac_format(mac: &str) -> (ok: bool)
    ensures
        ok == is_mac_format(mac@),
{
    has_pairs(mac, 6)
}

/// Whether a text is a vendor prefix as the command line takes it.
pub fn is_valid_vendor_format(vendor: &str) -> (ok: bool)
    ensures
        ok == is_vendor_format(vendor@),
{
    has_pairs(vendor, 3)
}

/// The fault of a command line, if it has one: an empty interface name,
/// else an address in no valid format, else a vendor prefix in none.
pub open spec fn cli_fault(
    interface: Seq<char>,
    mac: Option<Seq<char>>,
    vendor: Option<Seq<char>>,
) -> Option<Fault> {
    if interface.len() == 0 {
        Some(
            Fault { kind: ErrorKind::ValidationFailed, detail: "Interface name cannot be empty"@ },
        )
    } else if mac matches Some(m) && !is_mac_format(m) {
        Some(
            Fault {
                kind: ErrorKind::InvalidFormat,
                detail: "Invalid MAC address format. Use XX:XX:XX:XX:XX:XX"@,
            },
        )
    } else if vendor matches Some(v) && !is_vendor_format(v) {
        Some(
            Fault {
                kind: ErrorKind::InvalidFormat,
                detail: "Invalid vendor prefix format. Use XX:XX:XX"@,
            },
        )
    } else {
        None
    }
}

impl Cli {
    /// The fault of this command line, if it has one.
    pub open spec fn fault(&self) -> Option<Fault> {
        cli_fault(
            self.interface@,
            match self.mac {
                Some(m) => Some(m@),
                None => None,
            },
            match self.vendor {
                Some(v) => Some(v@),
                None => None,
            },
        )
    }

    /// Checks the interface name, the address and the vendor prefix.
    pub fn validate(&self) -> (checked: Result<(), MacError>)
        ensures
            match checked {
                Ok(_) => self.fault() is None,
                Err(e) => self.fault() == Some(e@),
            },
    {
        if self.interface.as_str().is_empty() {
            return Err(MacError::ValidationFailed("Interface name cannot be empty".to_string()));
        }
        match &self.mac {
            Some(mac) => {
                if !is_valid_mac_format(mac.as_str()) {
                    return Err(
                        MacError::InvalidFormat(
                            "Invalid MAC address format. Use XX:XX:XX:XX:XX:XX".to_string(),
                        ),
                    );
                }
            },
            None => {},
        }
        match &self.vendor {
            Some(vendor) => {
                if !is_valid_vendor_format(vendor.as_str()) {
                    return Err(
                        MacError::InvalidFormat(
                            "Invalid vendor prefix format. Use XX:XX:XX".to_string(),
                        ),
                    );
                }
            },
            None => {},
        }
        Ok(())
    }
}

/// The text that turns away a caller without elevated rights.
pub open spec fn unprivileged_text(platform: Platform) -> Seq<char> {
    match platform {
        Platform::Windows => "Must run with administrator privileges"@,
        _ => "Must run with root privileges"@,
    }
}

/// Checks that the caller holds elevated rights.
pub fn check_privileges(platform: Platform, elevated: bool) -> (checked: Result<(), MacError>)
    ensures
        match checked {
            Ok(_) => elevated,
            Err(e) => !elevated && e@ == (Fault {
                kind: ErrorKind::PermissionDenied,
                detail: unprivileged_text(platform),
            }),
        },
{
    if elevated {
        Ok(())
    } else {
        match platform {
            Platform::Windows => Err(
                MacError::PermissionDenied("Must run with administrator privileges".to_string()),
            ),
            _ => Err(MacError::PermissionDenied("Must run with root privileges".to_string())),
        }
    }
}

/// An address that the command line takes is read as an address exactly
/// if its five separators are alike: the command line lets colons and
/// hyphens mix, the reader does not.
pub proof fn law_cli_format_and_parse(s: Seq<char>)
    requires
        is_mac_format(s),
    ensures
        parse_spec(s) is Some <==> (forall|i: int|
            0 <= i < s.len() && i % 3 == 2 ==> #[trigger] s[i] == s[2]),
{
    assert(s[2] == ':' || s[2] == '-');
    assert forall|i: int| 0 <= i < s.len() && i % 3 != 2 implies #[trigger] s[i] != ':' && s[i]
        != '-' by {
        assert(is_hex_digit(s[i]));
    }
    let format = family_of(s);
    if forall|i: int| 0 <= i < s.len() && i % 3 == 2 ==> #[trigger] s[i] == s[2] {
        if s[2] == ':' {
            assert(s.contains(':'));
            assert(has_shape(s, MacFormat::Colon));
        } else {
            assert(!s.contains(':')) by {
                if s.contains(':') {
                    let i = choose|i: int| 0 <= i < s.len() && s[i] == ':';
                    if i % 3 == 2 {
                        assert(s[i] == s[2]);
                    }
                }
            }
            assert(s.contains('-'));
            assert(has_shape(s, MacFormat::Hyphen));
        }
    }
    if parse_spec(s) is Some {
        assert(has_shape(s, format));
        assert forall|i: int| 0 <= i < s.len() && i % 3 == 2 implies #[trigger] s[i] == s[2] by {
            if s.contains(':') {
                assert(format == MacFormat::Colon);
                assert(s[i] == ':' && s[2] == ':');
            } else {
                assert(s.contains('-'));
                assert(format == MacFormat::Hyphen);
                assert(s[i] == '-' && s[2] == '-');
            }
        }
    }
}

/// The octet that two hexadecimal digits write.
proof fn lemma_pair_is_octet(pair: Seq<char>)
    requires
        pair.len() == 2,
        is_hex_digit(pair[0]),
        is_hex_digit(pair[1]),
    ensures
        hex_byte_of(pair) == Some((16 * hex_value(pair[0]) + hex_value(pair[1])) as u8),
{
    assert(after_plus(pair) == pair);
    let one = pair.drop_last();
    assert(one.len() == 1 && one.last() == pair[0]);
    assert(one.drop_last().len() == 0);
    assert(hex_number(one.drop_last()) == 0);
    assert(hex_number(one) == hex_value(pair[0]));
    assert(hex_number(pair) == 16 * hex_value(pair[0]) + hex_value(pair[1]));
}

/// A vendor prefix that the command line takes can always be read, and
/// gives the three octets that its three pairs write.
pub proof fn law_vendor_format_is_readable(s: Seq<char>)
    requires
        is_vendor_format(s),
    ensures
        reads_vendor_prefix(
            s,
            Ok(
                seq![
                    (16 * hex_value(s[0]) + hex_value(s[1])) as u8,
                    (16 * hex_value(s[3]) + hex_value(s[4])) as u8,
                    (16 * hex_value(s[6]) + hex_value(s[7])) as u8,
                ],
            ),
        ),
{
    let seps = prefix_separators();
    assert forall|i: int| 0 <= i < s.len() && i % 3 != 2 implies !seps.contains(#[trigger] s[i]) by {
        assert(is_hex_digit(s[i]));
    }
    assert forall|i: int| 0 <= i < s.len() && i % 3 == 2 implies seps.contains(#[trigger] s[i]) by {
        assert(s[i] == ':' || s[i] == '-');
        assert(seps[0] == ':' && seps[1] == '-');
    }
    let second = s.skip(3);
    let third = second.skip(3);
    assert(s[2] == s[2] && seps.contains(s[2]));
    lemma_field_end(s, seps, 2);
    assert(second[0] == s[3] && second[1] == s[4] && second[2] == s[5]);
    assert(seps.contains(second[2]));
    lemma_field_end(second, seps, 2);
    assert(third[0] == s[6] && third[1] == s[7]);
    lemma_field_end(third, seps, 2);
    assert(fields(third, seps) =~= seq![third]);
    assert(fields(second, seps) =~= seq![second.take(2), third]);
    assert(fields(s, seps) =~= seq![s.take(2), second.take(2), third]);
    let pieces = leading_pieces(s);
    assert(pieces =~= seq![s.take(2), second.take(2), third]);
    lemma_pair_is_octet(s.take(2));
    lemma_pair_is_octet(second.take(2));
    lemma_pair_is_octet(third);
}

} // verus!
