//! Portable-mode detection and crash detection for the single-instance
//! guard. The file and environment reads stay with the caller; the
//! decisions are made here, on plain values.

use vstd::prelude::*;
use crate::strings::{
    chars_of, contains_seq, contains_chars, trim_spec, trim_chars, parse_u64_spec, parse_u64,
    lower_of, lowercase,
};

verus! {

/// Where the application keeps its data.
#[derive(Debug, Clone, Copy, PartialEq, Eq, Structural)]
pub enum PortableMode {
    /// Installed mode: data lives in the per-user application-data folder.
    Installed,
    /// Portable mode: data lives beside the executable.
    Portable,
}

/// A keepalive stamp counts as crashed when it is missing, unreadable as a
/// number, or more than five minutes older than `now`.
pub open spec fn crashed_spec(content: Option<Seq<char>>, now: u64) -> bool {
    match content {
        None => true,
        Some(s) => match parse_u64_spec(trim_spec(s)) {
            Some(ts) => (if ts > now {
                0int
            } else {
                now - ts
            }) > 300,
            None => true,
        },
    }
}

/// Decide from the keepalive file's content (or its absence) and the
/// current clock whether a previous instance appears to have crashed.
pub fn should_restart_after_crash(content: Option<&str>, now: u64) -> (r: bool)
    ensures
        r == crashed_spec(
            match content {
                Some(s) => Some(s@),
                None => None,
            },
            now,
        ),
{
    match content {
        None => true,
        Some(s) => {
            let cs = chars_of(s);
            let t = trim_chars(&cs);
            match parse_u64(&t) {
                Some(ts) => {
                    let age: u64 = if ts > now {
                        0
                    } else {
                        now - ts
                    };
                    age > 300
                },
                None => true,
            }
        },
    }
}

/// The standard install locations: an executable elsewhere is taken as a
/// portable copy.
pub open spec fn installed_location(dir_low: Seq<char>) -> bool {
    contains_seq(dir_low, "program files"@) || contains_seq(dir_low, "\\windows\\"@)
        || contains_seq(dir_low, "appdatalocal"@) || contains_seq(dir_low, "programdata"@)
}

/// The detection rule: an explicit flag wins, then a marker file beside the
/// executable, then the executable's location; with no known location the
/// mode is installed.
pub open spec fn portable_mode_spec(
    flag: bool,
    marker_exists: bool,
    exe_dir: Option<Seq<char>>,
) -> PortableMode {
    if flag {
        PortableMode::Portable
    } else if marker_exists {
        PortableMode::Portable
    } else {
        match exe_dir {
            Some(d) => if !installed_location(lower_of(d)) {
                PortableMode::Portable
            } else {
                PortableMode::Installed
            },
            None => PortableMode::Installed,
        }
    }
}

/// Decide the storage mode from the command-line flag, the marker file and
/// the executable's directory.
pub fn detect_portable_mode(flag: bool, marker_exists: bool, exe_dir: Option<&str>) -> (r:
    PortableMode)
    ensures
        r == portable_mode_spec(
            flag,
            marker_exists,
            match exe_dir {
                Some(d) => Some(d@),
                None => None,
            },
        ),
{
    if flag {
        return PortableMode::Portable;
    }
    if marker_exists {
        return PortableMode::Portable;
    }
    match exe_dir {
        Some(d) => {
            let dl = lowercase(d);
            let dc = chars_of(dl.as_str());
            let pf = chars_of("program files");
            let win = chars_of("\\windows\\");
            let adl = chars_of("appdatalocal");
            let pd = chars_of("programdata");
            if !contains_chars(&dc, &pf) && !contains_chars(&dc, &win) && !contains_chars(&dc, &adl)
                && !contains_chars(&dc, &pd) {
                PortableMode::Portable
            } else {
                PortableMode::Installed
            }
        },
        None => PortableMode::Installed,
    }
}

} // verus!
