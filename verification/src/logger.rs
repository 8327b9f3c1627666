use vstd::prelude::*;
use crate::clock::Timestamp;
use crate::text::{decimal, decimal_text};

verus! {

/// One change of an address, as it is written to the history.
#[derive(Debug)]
pub struct MacChange {
    pub timestamp: Timestamp,
    pub interface: String,
    pub old_mac: String,
    pub new_mac: String,
    pub geo_location: Option<String>,
    pub permanent: bool,
}

/// Where the history is kept and when it is rotated.
#[derive(Debug)]
pub struct MacLogger {
    pub log_dir: String,
    pub max_log_size: u64,
    pub max_log_files: usize,
}

/// One renaming of a history file: from a name to a name.
#[derive(Debug)]
pub struct LogMove {
    pub from: String,
    pub to: String,
}

/// The size above which the history file is rotated: ten mebibytes.
pub open spec fn default_max_log_size() -> u64 {
    10485760
}

/// How many rotated history files are kept.
pub open spec fn default_max_log_files() -> usize {
    5
}

/// The name of the history file that is written to.
pub open spec fn current_log() -> Seq<char> {
    "mac_changes.log"@
}

/// The name of the history file that has been rotated `i` times.
pub open spec fn numbered_log(i: nat) -> Seq<char> {
    "mac_changes."@ + decimal(i) + ".log"@
}

/// The renamings of a rotation, in the order in which they are made:
/// each rotated file moves up by one, the oldest first, and the current
/// file becomes the first rotated one.
pub open spec fn rotation(max_log_files: nat) -> Seq<(Seq<char>, Seq<char>)> {
    let older = if max_log_files >= 1 {
        (max_log_files - 1) as nat
    } else {
        0
    };
    Seq::new(older, |k: int| (numbered_log((older - k) as nat), numbered_log((older - k + 1) as nat))).push(
        (current_log(), numbered_log(1)),
    )
}

/// The renamings that a list holds.
pub open spec fn moves_of(v: Seq<LogMove>) -> Seq<(Seq<char>, Seq<char>)> {
    Seq::new(v.len(), |i: int| (v[i].from@, v[i].to@))
}

fn numbered_log_name(i: usize) -> (name: String)
    ensures
        name@ == numbered_log(i as nat),
{
    let mut name = "mac_changes.".to_string();
    let number = decimal_text(i);
    name.append(number.as_str());
    name.append(".log");
    name
}

impl MacLogger {
    /// A logger that keeps its files in a directory, rotates at ten
    /// mebibytes and keeps five rotated files.
    pub fn new(log_dir: String) -> (logger: MacLogger)
        ensures
            logger.log_dir@ == log_dir@,
            logger.max_log_size == default_max_log_size(),
            logger.max_log_files == default_max_log_files(),
    {
        MacLogger { log_dir, max_log_size: 10 * 1024 * 1024, max_log_files: 5 }
    }

    /// The name of the history file that is written to.
    pub fn current_file(&self) -> (name: String)
        ensures
            name@ == current_log(),
    {
        "mac_changes.log".to_string()
    }

    /// Whether a history file of the given size is rotated before more is
    /// written: only when it is larger than the limit.
    pub fn needs_rotation(&self, size: u64) -> (rotate: bool)
        ensures
            rotate == (size > self.max_log_size),
    {
        size > self.max_log_size
    }

    /// The renamings of a rotation, in the order in which they are made.
    /// A renaming whose source does not exist is left out by the caller.
    pub fn rotate_logs(&self) -> (moves: Vec<LogMove>)
        ensures
            moves_of(moves@) == rotation(self.max_log_files as nat),
    {
        let older: usize = if self.max_log_files >= 1 {
            self.max_log_files - 1
        } else {
            0
        };
        let mut moves: Vec<LogMove> = Vec::new();
        let mut k: usize = 0;
        while k < older
            invariant
                k <= older,
                older < usize::MAX,
                older == if self.max_log_files >= 1 {
                    (self.max_log_files - 1) as int
                } else {
                    0
                },
                moves@.len() == k,
                forall|j: int|
                    0 <= j < k ==> (#[trigger] moves@[j]).from@ == numbered_log((older - j) as nat)
                        && moves@[j].to@ == numbered_log((older - j + 1) as nat),
            decreases older - k,
        {
            let i = older - k;
            moves.push(LogMove { from: numbered_log_name(i), to: numbered_log_name(i + 1) });
            k += 1;
        }
        moves.push(LogMove { from: "mac_changes.log".to_string(), to: numbered_log_name(1) });
        assert(moves_of(moves@) =~= rotation(self.max_log_files as nat));
        moves
    }
}

impl MacChange {
    /// The entry for a change that was made.
    pub fn new(
        timestamp: Timestamp,
        interface: String,
        old_mac: String,
        new_mac: String,
        geo_location: Option<String>,
        permanent: bool,
    ) -> (change: MacChange)
        ensures
            change.timestamp == timestamp,
            change.interface@ == interface@,
            change.old_mac@ == old_mac@,
            change.new_mac@ == new_mac@,
            change.geo_location == geo_location,
            change.permanent == permanent,
    {
        MacChange { timestamp, interface, old_mac, new_mac, geo_location, permanent }
    }
}

} // verus!
