use vstd::prelude::*;
use crate::error::{ErrorKind, Fault, MacError};
use crate::mac::{MacAddress, render};
use crate::filter::{prefix_len, verdict, MacFilter};
use crate::mac::MacFormat;
use crate::orchestrator::{confirms, initial, is_confirmed_by, is_sound, mismatch_message, mismatch_text, output_message, output_text, privilege_text, screened_start, Action, ChangeAttempt, Platform};
use crate::text::uppercase_of;
use crate::text::{chars_of, contains_part, same_chars, fields, first_where, has_part, join2, join3, lemma_fields_nonempty, lemma_first_where, lines, lowercase_of, names, split_fields, split_lines, string_of, strip_chars, texts, trim, trim_char, trimmed, trimmed_of, without_chars};

verus! {

/// The directories in which a command is looked for, in order.
pub open spec fn search_dirs(platform: Platform) -> Seq<Seq<char>> {
    match platform {
        Platform::Windows => seq![
            "C:\\tools"@,
            "C:\\ProgramData"@,
            "C:\\Users\\Nathan\\AppData\\Roaming"@,
            "C:\\ProgramData\\chocolatey"@,
            "C:\\Program Files\\Common Files"@,
            "C:\\Program Files (x86)\\Common Files"@,
            "C:\\Program Files\\Common Files"@,
            "C:\\Windows"@,
        ],
        Platform::Linux => seq![
            "/sbin"@,
            "/usr/sbin"@,
            "/bin"@,
            "/usr/bin"@,
            "/usr/local/sbin"@,
            "/usr/local/bin"@,
        ],
        Platform::Other => Seq::empty(),
    }
}

/// The places at which a command may be: each search directory, a slash
/// and the command's name.
pub open spec fn candidates(platform: Platform, cmd: Seq<char>) -> Seq<Seq<char>> {
    Seq::new(search_dirs(platform).len(), |i: int| search_dirs(platform)[i] + "/"@ + cmd)
}

/// The first place that is present, by a list that says of each place
/// whether a file is there; places beyond the list count as absent.
pub open spec fn first_present(present: Seq<bool>, limit: int) -> int
    decreases present.len(),
{
    if present.len() == 0 || limit <= 0 {
        0
    } else if present[0] {
        0
    } else {
        1 + first_present(present.skip(1), limit - 1)
    }
}

/// The path of a command: the first candidate at which a file is present.
pub open spec fn found_command(platform: Platform, cmd: Seq<char>, present: Seq<bool>) -> Option<
    Seq<char>,
> {
    let all = candidates(platform, cmd);
    let at = first_present(present, all.len() as int);
    if 0 <= at < all.len() && at < present.len() {
        Some(all[at])
    } else {
        None
    }
}

/// The search directories of a platform, in order.
fn dirs_of(platform: Platform) -> (dirs: Vec<&'static str>)
    ensures
        dirs@.len() == search_dirs(platform).len(),
        forall|i: int| 0 <= i < dirs@.len() ==> (#[trigger] dirs@[i])@ == search_dirs(platform)[i],
{
    match platform {
        Platform::Windows => vec![
            "C:\\tools",
            "C:\\ProgramData",
            "C:\\Users\\Nathan\\AppData\\Roaming",
            "C:\\ProgramData\\chocolatey",
            "C:\\Program Files\\Common Files",
            "C:\\Program Files (x86)\\Common Files",
            "C:\\Program Files\\Common Files",
            "C:\\Windows",
        ],
        Platform::Linux => vec![
            "/sbin",
            "/usr/sbin",
            "/bin",
            "/usr/bin",
            "/usr/local/sbin",
            "/usr/local/bin",
        ],
        Platform::Other => Vec::new(),
    }
}

/// The places at which a command may be, in the order in which they are
/// tried.
pub fn command_candidates(platform: Platform, cmd: &str) -> (paths: Vec<String>)
    ensures
        names(paths@) == candidates(platform, cmd@),
{
    let dirs = dirs_of(platform);
    let mut paths: Vec<String> = Vec::new();
    let mut i: usize = 0;
    while i < dirs.len()
        invariant
            i <= dirs.len(),
            dirs@.len() == search_dirs(platform).len(),
            forall|j: int| 0 <= j < dirs@.len() ==> (#[trigger] dirs@[j])@ == search_dirs(platform)[j],
            paths@.len() == i,
            forall|j: int| 0 <= j < i ==> (#[trigger] paths@[j])@ == candidates(platform, cmd@)[j],
        decreases dirs.len() - i,
    {
        paths.push(join3(dirs[i], "/", cmd));
        i += 1;
    }
    assert(names(paths@) =~= candidates(platform, cmd@));
    paths
}

proof fn lemma_first_present(present: Seq<bool>, limit: int, at: int)
    requires
        0 <= at <= present.len(),
        at <= limit,
        forall|j: int| 0 <= j < at ==> !present[j],
        at == present.len() || at == limit || present[at],
    ensures
        first_present(present, limit) == at,
    decreases at,
{
    if at > 0 {
        let rest = present.skip(1);
        assert forall|j: int| 0 <= j < at - 1 implies !rest[j] by {
            assert(rest[j] == present[j + 1]);
        }
        lemma_first_present(rest, limit - 1, at - 1);
    }
}

/// The path of a command, given for each candidate, in order, whether a
/// file is present there.
pub fn find_command(platform: Platform, cmd: &str, present: &Vec<bool>) -> (path: Option<String>)
    ensures
        match path {
            Some(p) => found_command(platform, cmd@, present@) == Some(p@),
            None => found_command(platform, cmd@, present@) is None,
        },
{
    let paths = command_candidates(platform, cmd);
    assert(names(paths@).len() == paths@.len());
    let mut i: usize = 0;
    while i < paths.len() && i < present.len()
        invariant
            i <= paths.len(),
            i <= present.len(),
            names(paths@) == candidates(platform, cmd@),
            forall|j: int| 0 <= j < i ==> !present@[j],
        decreases paths.len() - i,
    {
        if present[i] {
            proof {
                lemma_first_present(present@, paths@.len() as int, i as int);
                assert(names(paths@)[i as int] == paths@[i as int]@);
            }
            return Some(paths[i].clone());
        }
        i += 1;
    }
    proof {
        lemma_first_present(present@, paths@.len() as int, i as int);
    }
    None
}

/// Whether a listing of the host's adapters names an interface, letter
/// case aside.
pub open spec fn listing_names(listing: Seq<char>, interface: Seq<char>) -> bool {
    has_part(lowercase_of(listing), lowercase_of(interface))
}

/// The text that explains an interface that the host does not have.
pub open spec fn missing_interface_text(interface: Seq<char>) -> Seq<char> {
    "Interface "@ + interface + " does not exist"@
}

/// What the host shows of an interface's existence.
#[derive(Debug)]
pub enum ExistenceReport {
    /// Whether the device tree has an entry for the interface.
    Sysfs(bool),
    /// The host's listing of its adapters.
    Listing(String),
}

/// Whether a report shows that the interface exists.
pub open spec fn shows_interface(report: ExistenceReport, interface: Seq<char>) -> bool {
    match report {
        ExistenceReport::Sysfs(present) => present,
        ExistenceReport::Listing(listing) => listing_names(listing@, interface),
    }
}

/// Checks that the host has the interface.
pub fn verify_interface_exists(interface: &str, report: &ExistenceReport) -> (checked: Result<
    (),
    MacError,
>)
    ensures
        match checked {
            Ok(_) => shows_interface(*report, interface@),
            Err(e) => !shows_interface(*report, interface@) && e@ == (Fault {
                kind: ErrorKind::ValidationFailed,
                detail: missing_interface_text(interface@),
            }),
        },
{
    let exists = match report {
        ExistenceReport::Sysfs(present) => *present,
        ExistenceReport::Listing(listing) => {
            let all = chars_of(listing.as_str().to_lowercase().as_str());
            let name = chars_of(interface.to_lowercase().as_str());
            contains_part(&all, &name)
        },
    };
    if exists {
        Ok(())
    } else {
        Err(MacError::ValidationFailed(join3("Interface ", interface, " does not exist")))
    }
}

/// Checks that the caller holds the rights that a change needs.
pub fn check_permissions(platform: Platform, elevated: bool) -> (checked: Result<(), MacError>)
    ensures
        match checked {
            Ok(_) => elevated,
            Err(e) => !elevated && e@ == (Fault {
                kind: ErrorKind::PermissionDenied,
                detail: privilege_text(platform),
            }),
        },
{
    if elevated {
        Ok(())
    } else {
        match platform {
            Platform::Windows => Err(
                MacError::PermissionDenied(
                    "This program must be run with Administrator privileges. Please use as admin.".to_string(),
                ),
            ),
            _ => Err(
                MacError::PermissionDenied(
                    "This program must be run with root privileges. Please use sudo.".to_string(),
                ),
            ),
        }
    }
}

/// What a finished command left behind.
#[derive(Debug)]
pub struct CommandOutput {
    pub success: bool,
    pub stdout: String,
    pub stderr: String,
}

/// Judges a finished command: a failure is a system error that carries
/// what the command printed.
pub fn execute_command(output: &CommandOutput) -> (done: Result<(), MacError>)
    ensures
        match done {
            Ok(_) => output.success,
            Err(e) => !output.success && e@ == (Fault {
                kind: ErrorKind::SystemError,
                detail: output_text(output.stdout@, output.stderr@),
            }),
        },
{
    if output.success {
        return Ok(());
    }
    Err(MacError::SystemError(output_message(output.stdout.as_str(), output.stderr.as_str())))
}

/// Starts the change of an interface's address to the address that a text
/// names. A text that names no address is refused.
pub fn change_mac(platform: Platform, interface: &str, mac: &str, permanent: bool) -> (started: Result<
    ChangeAttempt,
    MacError,
>)
    ensures
        match started {
            Ok(attempt) => crate::mac::parse_spec(mac@) matches Some(read) && attempt@ == initial(
                platform,
                interface@,
                attempt@.target,
                permanent,
            ) && attempt@.target.octets() == read.0 && attempt@.target.notation() == read.1
                && is_sound(attempt@),
            Err(e) => crate::mac::parse_spec(mac@) is None && e@ == (Fault {
                kind: ErrorKind::InvalidFormat,
                detail: crate::mac::invalid_mac_text(),
            }),
        },
{
    match MacAddress::parse(mac) {
        Ok(target) => Ok(ChangeAttempt::new(platform, interface, target, permanent)),
        Err(e) => Err(e),
    }
}

/// Starts the change of an interface's address once the filter has given
/// its verdict on the address: a change of an address that the filter
/// turns away has ended before it starts, so that nothing is asked of the
/// host.
pub fn screen_change(
    platform: Platform,
    interface: &str,
    target: MacAddress,
    permanent: bool,
    filter: &MacFilter,
) -> (started: ChangeAttempt)
    ensures
        started@ == screened_start(
            platform,
            interface@,
            target,
            permanent,
            verdict(
                filter.allowed(),
                filter.denied(),
                uppercase_of(render(target.octets(), MacFormat::Colon).take(prefix_len())),
            ),
        ),
        is_sound(started@),
{
    let allowed = filter.allows(&target);
    ChangeAttempt::screened(platform, interface, target, permanent, allowed)
}

/// Checks that an interface reports the address that was asked for. The
/// two are compared octet by octet, whatever their notation and letter
/// case; a text that names another address, or none, fails the check with
/// both named.
pub fn verify_mac_change(expected: &MacAddress, current: &str) -> (checked: Result<(), MacError>)
    ensures
        match checked {
            Ok(_) => confirms(current@, *expected),
            Err(e) => !confirms(current@, *expected) && e@ == (Fault {
                kind: ErrorKind::ValidationFailed,
                detail: mismatch_text(render(expected.octets(), expected.notation()), current@),
            }),
        },
{
    if is_confirmed_by(expected, current) {
        Ok(())
    } else {
        let wanted = expected.as_string();
        Err(MacError::ValidationFailed(mismatch_message(wanted.as_str(), current)))
    }
}

/// The rule that makes the device manager give an interface an address
/// whenever the interface appears.
pub open spec fn udev_rule(interface: Seq<char>, mac: Seq<char>) -> Seq<char> {
    "ACTION==\"add\", SUBSYSTEM==\"net\", ATTR{address}==\"*\", ATTR{dev_id}==\"0x0\", ATTR{type}==\"1\", KERNEL==\""@
        + interface + "\", ATTR{address}=\""@ + mac + "\"\n"@
}

/// The file that holds the rule.
pub open spec fn udev_rule_path() -> Seq<char> {
    "/etc/udev/rules.d/70-persistent-net.rules"@
}

/// A file to write so that a change outlasts a restart.
#[derive(Debug)]
pub struct PersistArtifact {
    pub path: String,
    pub content: String,
}

/// What has to be written to make a change permanent. On Linux it is a
/// rule for the device manager, which needs its rules directory; on
/// Windows nothing, as the change is permanent as it is made. Elsewhere
/// there is no way.
pub fn make_permanent(platform: Platform, interface: &str, mac: &str, rules_dir_present: bool) -> (plan:
    Result<Option<PersistArtifact>, MacError>)
    ensures
        match plan {
            Ok(Some(artifact)) => platform == Platform::Linux && rules_dir_present
                && artifact.path@ == udev_rule_path() && artifact.content@ == udev_rule(
                interface@,
                mac@,
            ),
            Ok(None) => platform == Platform::Windows,
            Err(e) => match platform {
                Platform::Linux => !rules_dir_present && e@ == (Fault {
                    kind: ErrorKind::SystemError,
                    detail: "Directory /etc/udev/rules.d does not exist"@,
                }),
                Platform::Windows => false,
                Platform::Other => e@ == (Fault {
                    kind: ErrorKind::UnsupportedPlatform,
                    detail: "Unsupported operating system"@,
                }),
            },
        },
{
    match platform {
        Platform::Linux => {
            if !rules_dir_present {
                return Err(
                    MacError::SystemError("Directory /etc/udev/rules.d does not exist".to_string()),
                );
            }
            let mut content =
                "ACTION==\"add\", SUBSYSTEM==\"net\", ATTR{address}==\"*\", ATTR{dev_id}==\"0x0\", ATTR{type}==\"1\", KERNEL==\"".to_string();
            content.append(interface);
            content.append("\", ATTR{address}=\"");
            content.append(mac);
            content.append("\"\n");
            Ok(
                Some(
                    PersistArtifact {
                        path: "/etc/udev/rules.d/70-persistent-net.rules".to_string(),
                        content,
                    },
                ),
            )
        },
        Platform::Windows => Ok(None),
        Platform::Other => Err(
            MacError::UnsupportedPlatform("Unsupported operating system".to_string()),
        ),
    }
}

/// An address as the registry takes it: without separators.
pub open spec fn registry_address(mac: Seq<char>) -> Seq<char> {
    without_chars(mac, seq![':', '-', '.'])
}

/// An address as the registry takes it: without separators.
pub fn registry_value(mac: &str) -> (value: String)
    ensures
        value@ == registry_address(mac@),
{
    let marks: Vec<char> = vec![':', '-', '.'];
    assert(marks@ =~= seq![':', '-', '.']);
    string_of(&strip_chars(&chars_of(mac), &marks))
}

/// What the host shows of its running applications.
#[derive(Debug)]
pub enum ProcessReport {
    /// The name file of each process, as far as it could be read.
    Names(Vec<String>),
    /// A listing with one command name on each line.
    Listing(String),
    /// A table of comma-separated values with the image name first.
    Table(String),
}

/// The first field of a line of comma-separated values, without the
/// quotes around it.
pub open spec fn image_name(line: Seq<char>) -> Seq<char> {
    trimmed_of(fields(line, seq![','])[0], '"')
}

/// The names of the running applications that a report shows.
pub open spec fn running_applications(report: ProcessReport) -> Seq<Seq<char>> {
    match report {
        ProcessReport::Names(files) => Seq::new(files@.len(), |i: int| trimmed(files@[i]@)),
        ProcessReport::Listing(listing) => Seq::new(
            lines(listing@).len(),
            |i: int| trimmed(lines(listing@)[i]),
        ),
        ProcessReport::Table(table) => Seq::new(
            lines(table@).len(),
            |i: int| image_name(lines(table@)[i]),
        ),
    }
}

/// The names of the running applications that a report shows, in its order.
pub fn get_running_applications(report: &ProcessReport) -> (apps: Vec<String>)
    ensures
        names(apps@) == running_applications(*report),
{
    let mut apps: Vec<String> = Vec::new();
    match report {
        ProcessReport::Names(files) => {
            let mut i: usize = 0;
            while i < files.len()
                invariant
                    i <= files.len(),
                    apps@.len() == i,
                    forall|j: int| 0 <= j < i ==> (#[trigger] apps@[j])@ == trimmed(files@[j]@),
                decreases files.len() - i,
            {
                apps.push(string_of(&trim(&chars_of(files[i].as_str()))));
                i += 1;
            }
            assert(names(apps@) =~= running_applications(*report));
        },
        ProcessReport::Listing(listing) => {
            let all = split_lines(&chars_of(listing.as_str()));
            assert(texts(all@).len() == all@.len());
            let mut i: usize = 0;
            while i < all.len()
                invariant
                    i <= all.len(),
                    apps@.len() == i,
                    texts(all@) == lines(listing@),
                    forall|j: int| 0 <= j < i ==> (#[trigger] apps@[j])@ == trimmed(lines(listing@)[j]),
                decreases all.len() - i,
            {
                assert(texts(all@)[i as int] == all@[i as int]@);
                apps.push(string_of(&trim(&all[i])));
                i += 1;
            }
            assert(names(apps@) =~= running_applications(*report));
        },
        ProcessReport::Table(table) => {
            let all = split_lines(&chars_of(table.as_str()));
            assert(texts(all@).len() == all@.len());
            let seps: Vec<char> = vec![','];
            assert(seps@ =~= seq![',']);
            let mut i: usize = 0;
            while i < all.len()
                invariant
                    i <= all.len(),
                    apps@.len() == i,
                    seps@ == seq![','],
                    texts(all@) == lines(table@),
                    forall|j: int| 0 <= j < i ==> (#[trigger] apps@[j])@ == image_name(lines(table@)[j]),
                decreases all.len() - i,
            {
                assert(texts(all@)[i as int] == all@[i as int]@);
                let cut = split_fields(&all[i], &seps);
                proof {
                    lemma_fields_nonempty(all@[i as int]@, seq![',']);
                    assert(texts(cut@).len() == cut@.len());
                    assert(texts(cut@)[0] == cut@[0]@);
                }
                apps.push(string_of(&trim_char(&cut[0], '"')));
                i += 1;
            }
            assert(names(apps@) =~= running_applications(*report));
        },
    }
    apps
}

/// Whether a line of the adapter table is the line of an interface: it has
/// three fields or more and its third, without surrounding whitespace, is
/// the interface's name.
pub open spec fn is_row_of(line: Seq<char>, interface: Seq<char>) -> bool {
    let cut = fields(line, seq![',']);
    cut.len() >= 3 && trimmed(cut[2]) == interface
}

/// The test that holds of the lines of an interface.
pub open spec fn row_of(interface: Seq<char>) -> spec_fn(Seq<char>) -> bool {
    |line: Seq<char>| is_row_of(line, interface)
}

/// The lines of the adapter table below its heading.
pub open spec fn adapter_rows(table: Seq<char>) -> Seq<Seq<char>> {
    if lines(table).len() > 0 {
        lines(table).skip(1)
    } else {
        lines(table)
    }
}

/// The name of the adapter behind an interface: the second field, without
/// surrounding whitespace, of the first line of the interface.
pub open spec fn adapter_name(table: Seq<char>, interface: Seq<char>) -> Option<Seq<char>> {
    let rows = adapter_rows(table);
    let at = first_where(rows, row_of(interface));
    if 0 <= at < rows.len() {
        Some(trimmed(fields(rows[at], seq![','])[1]))
    } else {
        None
    }
}

/// The place of the first description that is the adapter's name, without
/// surrounding whitespace; the number of descriptions where none is.
/// Descriptions that could not be read are passed over.
pub open spec fn described_at(descriptions: Seq<Option<Seq<char>>>, name: Seq<char>) -> int
    decreases descriptions.len(),
{
    if descriptions.len() == 0 {
        0
    } else if descriptions[0] matches Some(d) && trimmed(d) == name {
        0
    } else {
        1 + described_at(descriptions.skip(1), name)
    }
}

/// The descriptions of a list, with their texts as sequences of characters.
pub open spec fn descriptions_of(v: Seq<Option<String>>) -> Seq<Option<Seq<char>>> {
    Seq::new(
        v.len(),
        |i: int|
            match v[i] {
                Some(d) => Some(d@),
                None => None,
            },
    )
}

/// Where the adapter of an interface stands among the registry's
/// adapters, or why it cannot be found: the adapter table has no line for
/// the interface, or no description in the registry is the adapter's name.
pub open spec fn adapter_place(
    interface: Seq<char>,
    table: Seq<char>,
    descriptions: Seq<Option<Seq<char>>>,
) -> Result<int, Fault> {
    match adapter_name(table, interface) {
        None => Err(
            Fault {
                kind: ErrorKind::ValidationFailed,
                detail: "Could not find adapter with name "@ + interface,
            },
        ),
        Some(name) => if described_at(descriptions, name) < descriptions.len() {
            Ok(described_at(descriptions, name))
        } else {
            Err(
                Fault {
                    kind: ErrorKind::SystemError,
                    detail: "Could not find registry key for interface "@ + interface,
                },
            )
        },
    }
}

proof fn lemma_described_at(descriptions: Seq<Option<Seq<char>>>, name: Seq<char>, at: int)
    requires
        0 <= at <= descriptions.len(),
        forall|j: int|
            0 <= j < at ==> !((#[trigger] descriptions[j]) matches Some(d) && trimmed(d) == name),
        at == descriptions.len() || (descriptions[at] matches Some(d) && trimmed(d) == name),
    ensures
        described_at(descriptions, name) == at,
    decreases at,
{
    if at > 0 {
        let rest = descriptions.skip(1);
        assert forall|j: int| 0 <= j < at - 1 implies !((#[trigger] rest[j]) matches Some(d)
            && trimmed(d) == name) by {
            assert(rest[j] == descriptions[j + 1]);
        }
        lemma_described_at(rest, name, at - 1);
    }
}

/// The name of the adapter behind an interface, out of the host's table
/// of adapters.
pub fn find_adapter_name(table: &str, interface: &str) -> (found: Option<String>)
    ensures
        match found {
            Some(name) => adapter_name(table@, interface@) == Some(name@),
            None => adapter_name(table@, interface@) is None,
        },
{
    let all = split_lines(&chars_of(table));
    let wanted = chars_of(interface);
    let seps: Vec<char> = vec![','];
    assert(seps@ =~= seq![',']);
    assert(texts(all@).len() == all@.len());
    let ghost rows = adapter_rows(table@);
    let mut i: usize = 1;
    while i < all.len()
        invariant
            1 <= i,
            i <= all.len() || i == 1,
            seps@ == seq![','],
            wanted@ == interface@,
            texts(all@) == lines(table@),
            rows == adapter_rows(table@),
            i <= all.len() ==> forall|j: int| 0 <= j < i - 1 ==> !row_of(interface@)(#[trigger] rows[j]),
        decreases all.len() - i,
    {
        assert(texts(all@)[i as int] == all@[i as int]@);
        assert(rows[i - 1] == all@[i as int]@);
        let cut = split_fields(&all[i], &seps);
        assert(texts(cut@).len() == cut@.len());
        if cut.len() >= 3 {
            assert(texts(cut@)[2] == cut@[2]@);
            assert(texts(cut@)[1] == cut@[1]@);
            let third = trim(&cut[2]);
            if same_chars(&third, &wanted) {
                proof {
                    lemma_first_where(rows, row_of(interface@), i - 1);
                }
                return Some(string_of(&trim(&cut[1])));
            }
        }
        assert(!is_row_of(rows[i - 1], interface@));
        i += 1;
    }
    proof {
        assert(texts(all@).len() == all@.len());
        if all@.len() > 0 {
            assert(rows.len() == all@.len() - 1);
        } else {
            assert(rows.len() == 0);
        }
        lemma_first_where(rows, row_of(interface@), rows.len() as int);
    }
    None
}

/// Where the adapter of an interface stands among the registry's
/// adapters, given the host's table of adapters and the description of
/// each adapter in the registry, as far as it could be read.
pub fn find_network_adapter(interface: &str, table: &str, descriptions: &Vec<Option<String>>) -> (found:
    Result<usize, MacError>)
    ensures
        match found {
            Ok(at) => adapter_place(interface@, table@, descriptions_of(descriptions@)) == Ok::<
                int,
                Fault,
            >(at as int),
            Err(e) => adapter_place(interface@, table@, descriptions_of(descriptions@)) == Err::<
                int,
                Fault,
            >(e@),
        },
{
    let name = match find_adapter_name(table, interface) {
        Some(name) => chars_of(name.as_str()),
        None => {
            return Err(
                MacError::ValidationFailed(join2("Could not find adapter with name ", interface)),
            );
        },
    };
    let ghost all = descriptions_of(descriptions@);
    let mut i: usize = 0;
    while i < descriptions.len()
        invariant
            i <= descriptions.len(),
            all == descriptions_of(descriptions@),
            adapter_name(table@, interface@) == Some(name@),
            forall|j: int|
                0 <= j < i ==> !((#[trigger] all[j]) matches Some(d) && trimmed(d) == name@),
        decreases descriptions.len() - i,
    {
        match &descriptions[i] {
            Some(description) => {
                assert(all[i as int] == Some(description@));
                let kept = trim(&chars_of(description.as_str()));
                if same_chars(&kept, &name) {
                    proof {
                        lemma_described_at(all, name@, i as int);
                    }
                    return Ok(i);
                }
            },
            None => {
                assert(all[i as int] is None);
            },
        }
        i += 1;
    }
    proof {
        lemma_described_at(all, name@, i as int);
    }
    Err(MacError::SystemError(join2("Could not find registry key for interface ", interface)))
}

/// The command that carries out a step on a platform, as its words, the
/// program first; none where the step takes no command there. On Linux
/// the link is driven by the link tool, run with elevated rights; on
/// Windows the adapter is disabled and enabled, and its address is not set
/// by a command.
pub open spec fn command_words(
    platform: Platform,
    action: Action,
    tool: Seq<char>,
    interface: Seq<char>,
    mac: Seq<char>,
) -> Option<Seq<Seq<char>>> {
    match platform {
        Platform::Linux => match action {
            Action::DrainService => Some(seq!["sudo"@, "systemctl"@, "stop"@, "NetworkManager"@]),
            Action::SetLinkDown => Some(
                seq!["sudo"@, tool, "link"@, "set"@, "dev"@, interface, "down"@],
            ),
            Action::PauseThenSetLinkDown => Some(
                seq!["sudo"@, tool, "link"@, "set"@, "dev"@, interface, "down"@],
            ),
            Action::SetAddress => Some(
                seq!["sudo"@, tool, "link"@, "set"@, "dev"@, interface, "address"@, mac],
            ),
            Action::SetLinkUp => Some(
                seq!["sudo"@, tool, "link"@, "set"@, "dev"@, interface, "up"@],
            ),
            Action::RestoreService => Some(
                seq!["sudo"@, "systemctl"@, "start"@, "NetworkManager"@],
            ),
            Action::PersistAddress => Some(seq!["udevadm"@, "control"@, "--reload-rules"@]),
            _ => None,
        },
        Platform::Windows => match action {
            Action::SetLinkDown => Some(
                seq!["netsh"@, "interface"@, "set"@, "interface"@, interface, "admin=disable"@],
            ),
            Action::PauseThenSetLinkDown => Some(
                seq!["netsh"@, "interface"@, "set"@, "interface"@, interface, "admin=disable"@],
            ),
            Action::SetLinkUp => Some(
                seq!["netsh"@, "interface"@, "set"@, "interface"@, interface, "admin=enable"@],
            ),
            _ => None,
        },
        Platform::Other => None,
    }
}

fn words_of(parts: Vec<&str>) -> (out: Vec<String>)
    ensures
        out@.len() == parts@.len(),
        forall|i: int| 0 <= i < out@.len() ==> (#[trigger] out@[i])@ == parts@[i]@,
{
    let mut out: Vec<String> = Vec::new();
    let mut i: usize = 0;
    while i < parts.len()
        invariant
            i <= parts.len(),
            out@.len() == i,
            forall|j: int| 0 <= j < i ==> (#[trigger] out@[j])@ == parts@[j]@,
        decreases parts.len() - i,
    {
        out.push(parts[i].to_string());
        i += 1;
    }
    out
}

/// The command that carries out a step on a platform, as its words, the
/// program first.
pub fn command_for(platform: Platform, action: Action, tool: &str, interface: &str, mac: &str) -> (line:
    Option<Vec<String>>)
    ensures
        match line {
            Some(words) => command_words(platform, action, tool@, interface@, mac@) == Some(
                names(words@),
            ),
            None => command_words(platform, action, tool@, interface@, mac@) is None,
        },
{
    let parts: Vec<&str> = match platform {
        Platform::Linux => match action {
            Action::DrainService => vec!["sudo", "systemctl", "stop", "NetworkManager"],
            Action::SetLinkDown => vec!["sudo", tool, "link", "set", "dev", interface, "down"],
            Action::PauseThenSetLinkDown => vec![
                "sudo",
                tool,
                "link",
                "set",
                "dev",
                interface,
                "down",
            ],
            Action::SetAddress => vec![
                "sudo",
                tool,
                "link",
                "set",
                "dev",
                interface,
                "address",
                mac,
            ],
            Action::SetLinkUp => vec!["sudo", tool, "link", "set", "dev", interface, "up"],
            Action::RestoreService => vec!["sudo", "systemctl", "start", "NetworkManager"],
            Action::PersistAddress => vec!["udevadm", "control", "--reload-rules"],
            _ => {
                return None;
            },
        },
        Platform::Windows => match action {
            Action::SetLinkDown => vec![
                "netsh",
                "interface",
                "set",
                "interface",
                interface,
                "admin=disable",
            ],
            Action::PauseThenSetLinkDown => vec![
                "netsh",
                "interface",
                "set",
                "interface",
                interface,
                "admin=disable",
            ],
            Action::SetLinkUp => vec![
                "netsh",
                "interface",
                "set",
                "interface",
                interface,
                "admin=enable",
            ],
            _ => {
                return None;
            },
        },
        Platform::Other => {
            return None;
        },
    };
    let words = words_of(parts);
    assert(names(words@) =~= command_words(platform, action, tool@, interface@, mac@).unwrap());
    Some(words)
}

} // verus!
