//! Catalog population helpers: cleaning shortcut names, the fixed system
//! utilities, and deduplication. Walking the file system is the caller's
//! business; what becomes a catalog entry is decided here.

use vstd::prelude::*;
use crate::strings::{
    chars_of, string_from_chars, lowercase, lower_of, trim_chars, trim_spec, is_prefix_of,
    starts_with_chars, occurs_at_exec, contains_seq, contains_chars, seq_eq_str, str_eq,
};
use crate::model::{AppEntry, AppType};

verus! {

/// `s` with every occurrence of `pat` removed, scanning left to right
/// without overlap, as `str::replace` with an empty replacement does.
pub open spec fn remove_all(s: Seq<char>, pat: Seq<char>) -> Seq<char>
    decreases s.len(),
{
    if pat.len() == 0 || s.len() == 0 {
        s
    } else if is_prefix_of(pat, s) {
        remove_all(s.skip(pat.len() as int), pat)
    } else {
        seq![s[0]] + remove_all(s.skip(1), pat)
    }
}

/// Remove every occurrence of `pat` from `v`.
fn remove_all_exec(v: &Vec<char>, pat: &Vec<char>) -> (r: Vec<char>)
    requires
        pat@.len() > 0,
    ensures
        r@ == remove_all(v@, pat@),
{
    let mut out: Vec<char> = Vec::new();
    let mut i: usize = 0;
    proof {
        assert(v@.skip(0) =~= v@);
    }
    while i < v.len()
        invariant
            pat@.len() > 0,
            i <= v@.len(),
            out@ + remove_all(v@.skip(i as int), pat@) == remove_all(v@, pat@),
        decreases v@.len() - i,
    {
        let rest: usize = v.len() - i;
        let ghost tail = v@.skip(i as int);
        let here: bool = pat.len() <= rest && occurs_at_exec(v, pat, i);
        proof {
            if pat@.len() <= tail.len() {
                assert(tail.subrange(0, pat@.len() as int) =~= v@.subrange(
                    i as int,
                    i + pat@.len(),
                ));
                assert(here == is_prefix_of(pat@, tail));
            } else {
                assert(!is_prefix_of(pat@, tail));
            }
        }
        let ghost pre = out@;
        if here {
            proof {
                assert(tail.skip(pat@.len() as int) =~= v@.skip(i + pat@.len()));
            }
            i += pat.len();
        } else {
            proof {
                assert(tail[0] == v@[i as int]);
                assert(tail.skip(1) =~= v@.skip(i + 1));
            }
            out.push(v[i]);
            proof {
                assert(pre + (seq![tail[0]] + remove_all(tail.skip(1), pat@)) =~= out@
                    + remove_all(tail.skip(1), pat@));
            }
            i += 1;
        }
    }
    proof {
        assert(remove_all(v@.skip(i as int), pat@) =~= Seq::<char>::empty());
        assert(out@ + Seq::<char>::empty() =~= out@);
    }
    out
}

/// A shortcut name that is skipped outright: uninstallers, documentation
/// and hidden files.
pub open spec fn skipped_stem(lower_name: Seq<char>) -> bool {
    contains_seq(lower_name, "uninstall"@) || contains_seq(lower_name, "readme"@) || contains_seq(
        lower_name,
        "help"@,
    ) || contains_seq(lower_name, "manual"@) || is_prefix_of("."@, lower_name)
}

/// The cleaned display name of a shortcut: shortcut suffixes removed, then
/// trimmed.
pub open spec fn cleaned_name(stem: Seq<char>) -> Seq<char> {
    trim_spec(remove_all(remove_all(stem, " - Shortcut"@), ".lnk"@))
}

/// What `parse_shortcut` returns for a file stem, the parent folder's name
/// and the launch path.
pub open spec fn shortcut_spec(
    stem: Seq<char>,
    parent: Option<Seq<char>>,
    path: Seq<char>,
) -> Option<(Seq<char>, Seq<char>, Seq<char>, AppType)> {
    if skipped_stem(lower_of(stem)) {
        None
    } else {
        let name = cleaned_name(stem);
        if name.len() == 0 {
            None
        } else {
            let description = match parent {
                Some(p) => p,
                None => "Application"@,
            };
            Some((name, path, description, AppType::DesktopApp))
        }
    }
}

/// The observable fields of a catalog entry.
pub open spec fn entry_view(e: AppEntry) -> (Seq<char>, Seq<char>, Seq<char>, AppType) {
    (e.name@, e.path@, e.description@, e.app_type)
}

/// Turn a shortcut or executable into a catalog entry: skip system
/// clutter, clean the display name, describe it by its folder.
pub fn parse_shortcut(stem: &str, parent: Option<&str>, path: &str) -> (r: Option<AppEntry>)
    ensures
        match r {
            Some(e) => shortcut_spec(
                stem@,
                match parent {
                    Some(p) => Some(p@),
                    None => None,
                },
                path@,
            ) == Some(entry_view(e)),
            None => shortcut_spec(
                stem@,
                match parent {
                    Some(p) => Some(p@),
                    None => None,
                },
                path@,
            ) is None,
        },
{
    let low = lowercase(stem);
    let lc = chars_of(low.as_str());
    let uninstall = chars_of("uninstall");
    let readme = chars_of("readme");
    let help = chars_of("help");
    let manual = chars_of("manual");
    let dot = chars_of(".");
    if contains_chars(&lc, &uninstall) || contains_chars(&lc, &readme) || contains_chars(
        &lc,
        &help,
    ) || contains_chars(&lc, &manual) || starts_with_chars(&lc, &dot) {
        return None;
    }
    let sc = chars_of(stem);
    let shortcut_suffix = chars_of(" - Shortcut");
    let lnk = chars_of(".lnk");
    proof {
        reveal_strlit(" - Shortcut");
        reveal_strlit(".lnk");
    }
    let step1 = remove_all_exec(&sc, &shortcut_suffix);
    let step2 = remove_all_exec(&step1, &lnk);
    let name = trim_chars(&step2);
    if name.len() == 0 {
        return None;
    }
    let description: String = match parent {
        Some(p) => p.to_owned(),
        None => "Application".to_owned(),
    };
    Some(
        AppEntry {
            name: string_from_chars(&name),
            path: path.to_owned(),
            description,
            app_type: AppType::DesktopApp,
        },
    )
}

/// The entries kept by deduplication: the first entry for each lowercased
/// name wins, later ones are dropped.
pub open spec fn dedupe_rec(s: Seq<AppEntry>, seen: Set<Seq<char>>) -> Seq<AppEntry>
    decreases s.len(),
{
    if s.len() == 0 {
        Seq::empty()
    } else if seen.contains(lower_of(s[0].name@)) {
        dedupe_rec(s.skip(1), seen)
    } else {
        seq![s[0]] + dedupe_rec(s.skip(1), seen.insert(lower_of(s[0].name@)))
    }
}

/// The catalog with duplicate names removed, first occurrence kept.
pub open spec fn dedupe_spec(s: Seq<AppEntry>) -> Seq<AppEntry> {
    dedupe_rec(s, Set::empty())
}

fn contains_string(v: &Vec<String>, s: &str) -> (r: bool)
    ensures
        r == exists|j: int| 0 <= j < v@.len() && v@[j]@ == s@,
{
    let mut i: usize = 0;
    while i < v.len()
        invariant
            i <= v@.len(),
            forall|j: int| 0 <= j < i ==> v@[j]@ != s@,
        decreases v@.len() - i,
    {
        if str_eq(v[i].as_str(), s) {
            return true;
        }
        i += 1;
    }
    false
}

/// Drop every entry whose lowercased name was already taken by an earlier
/// entry.
pub fn dedupe_entries(apps: Vec<AppEntry>) -> (r: Vec<AppEntry>)
    ensures
        r@ == dedupe_spec(apps@),
{
    let mut out: Vec<AppEntry> = Vec::new();
    let mut names: Vec<String> = Vec::new();
    let ghost mut seen = Set::<Seq<char>>::empty();
    let mut i: usize = 0;
    proof {
        assert(apps@.skip(0) =~= apps@);
    }
    while i < apps.len()
        invariant
            i <= apps@.len(),
            out@ + dedupe_rec(apps@.skip(i as int), seen) == dedupe_spec(apps@),
            forall|x: Seq<char>|
                seen.contains(x) <==> exists|j: int| 0 <= j < names@.len() && names@[j]@ == x,
        decreases apps@.len() - i,
    {
        proof {
            assert(apps@.skip(i as int)[0] == apps@[i as int]);
            assert(apps@.skip(i as int).skip(1) =~= apps@.skip(i + 1));
        }
        let low = lowercase(apps[i].name.as_str());
        let ghost pre = out@;
        if !contains_string(&names, low.as_str()) {
            proof {
                assert(!seen.contains(lower_of(apps@[i as int].name@)));
            }
            let entry = apps[i].clone();
            out.push(entry);
            let ghost old_names = names@;
            names.push(low);
            proof {
                let lname = lower_of(apps@[i as int].name@);
                assert(pre + (seq![apps@[i as int]] + dedupe_rec(
                    apps@.skip(i + 1),
                    seen.insert(lname),
                )) =~= out@ + dedupe_rec(apps@.skip(i + 1), seen.insert(lname)));
                assert forall|x: Seq<char>| seen.insert(lname).contains(x) <==> exists|j: int|
                    0 <= j < names@.len() && names@[j]@ == x by {
                    assert(names@.len() == old_names.len() + 1);
                    assert(names@[names@.len() - 1]@ == lname);
                    if x == lname {
                        assert(names@[names@.len() - 1]@ == x);
                    } else {
                        if seen.insert(lname).contains(x) {
                            assert(seen.contains(x));
                            let j = choose|j: int| 0 <= j < old_names.len() && old_names[j]@ == x;
                            assert(names@[j]@ == x);
                        }
                        if exists|j: int| 0 <= j < names@.len() && names@[j]@ == x {
                            let j = choose|j: int| 0 <= j < names@.len() && names@[j]@ == x;
                            assert(j < old_names.len());
                            assert(old_names[j]@ == x);
                        }
                    }
                }
                seen = seen.insert(lname);
            }
        } else {
            proof {
                assert(seen.contains(lower_of(apps@[i as int].name@)));
            }
        }
        i += 1;
    }
    proof {
        assert(dedupe_rec(apps@.skip(i as int), seen) =~= Seq::<AppEntry>::empty());
        assert(out@ + Seq::<AppEntry>::empty() =~= out@);
    }
    out
}

/// A directory worth scanning: not hidden and not the login-items folder.
pub fn should_scan_dir(name: &str) -> (r: bool)
    ensures
        r == (!is_prefix_of("."@, name@) && name@ != "Startup"@),
{
    let nc = chars_of(name);
    let dot = chars_of(".");
    if starts_with_chars(&nc, &dot) {
        return false;
    }
    !seq_eq_str(&nc, "Startup")
}

/// A file extension that names a launchable target.
pub fn is_launchable_ext(ext: &str) -> (r: bool)
    ensures
        r == (lower_of(ext@) == "lnk"@ || lower_of(ext@) == "exe"@),
{
    let low = lowercase(ext);
    let lc = chars_of(low.as_str());
    seq_eq_str(&lc, "lnk") || seq_eq_str(&lc, "exe")
}

/// The fixed system utilities every catalog carries.
pub open spec fn system_apps_view() -> Seq<(Seq<char>, Seq<char>, Seq<char>, AppType)> {
    seq![
        ("Settings"@, "ms-settings:"@, "Windows Settings"@, AppType::UwpApp),
        ("Control Panel"@, "control.exe"@, "System Control Panel"@, AppType::DesktopApp),
        ("Task Manager"@, "taskmgr.exe"@, "System Task Manager"@, AppType::DesktopApp),
        ("File Explorer"@, "explorer.exe"@, "Windows File Explorer"@, AppType::DesktopApp),
        ("Command Prompt"@, "cmd.exe"@, "Windows Command Line"@, AppType::DesktopApp),
        ("PowerShell"@, "powershell.exe"@, "Windows PowerShell"@, AppType::DesktopApp),
        ("Calculator"@, "calc.exe"@, "Windows Calculator"@, AppType::DesktopApp),
        ("Notepad"@, "notepad.exe"@, "Text Editor"@, AppType::DesktopApp),
        ("Snipping Tool"@, "snippingtool.exe"@, "Screenshot Tool"@, AppType::DesktopApp),
        ("Device Manager"@, "devmgmt.msc"@, "Hardware Management"@, AppType::DesktopApp),
        ("Disk Management"@, "diskmgmt.msc"@, "Disk Partitioning"@, AppType::DesktopApp),
        ("Event Viewer"@, "eventvwr.msc"@, "System Event Logs"@, AppType::DesktopApp),
        ("Registry Editor"@, "regedit.exe"@, "Windows Registry"@, AppType::DesktopApp),
        ("System Information"@, "msinfo32.exe"@, "System Details"@, AppType::DesktopApp),
    ]
}

fn system_entry(name: &str, path: &str, description: &str, app_type: AppType) -> (r: AppEntry)
    ensures
        entry_view(r) == (name@, path@, description@, app_type),
{
    AppEntry {
        name: name.to_owned(),
        path: path.to_owned(),
        description: description.to_owned(),
        app_type,
    }
}

/// The common system utilities added to every discovered catalog.
pub fn get_system_apps() -> (r: Vec<AppEntry>)
    ensures
        r@.map_values(|e: AppEntry| entry_view(e)) == system_apps_view(),
{
    let mut r: Vec<AppEntry> = Vec::new();
    r.push(system_entry("Settings", "ms-settings:", "Windows Settings", AppType::UwpApp));
    r.push(
        system_entry("Control Panel", "control.exe", "System Control Panel", AppType::DesktopApp),
    );
    r.push(system_entry("Task Manager", "taskmgr.exe", "System Task Manager", AppType::DesktopApp));
    r.push(
        system_entry("File Explorer", "explorer.exe", "Windows File Explorer", AppType::DesktopApp),
    );
    r.push(system_entry("Command Prompt", "cmd.exe", "Windows Command Line", AppType::DesktopApp));
    r.push(system_entry("PowerShell", "powershell.exe", "Windows PowerShell", AppType::DesktopApp));
    r.push(system_entry("Calculator", "calc.exe", "Windows Calculator", AppType::DesktopApp));
    r.push(system_entry("Notepad", "notepad.exe", "Text Editor", AppType::DesktopApp));
    r.push(system_entry("Snipping Tool", "snippingtool.exe", "Screenshot Tool", AppType::DesktopApp));
    r.push(system_entry("Device Manager", "devmgmt.msc", "Hardware Management", AppType::DesktopApp));
    r.push(system_entry("Disk Management", "diskmgmt.msc", "Disk Partitioning", AppType::DesktopApp));
    r.push(system_entry("Event Viewer", "eventvwr.msc", "System Event Logs", AppType::DesktopApp));
    r.push(system_entry("Registry Editor", "regedit.exe", "Windows Registry", AppType::DesktopApp));
    r.push(
        system_entry("System Information", "msinfo32.exe", "System Details", AppType::DesktopApp),
    );
    proof {
        assert(r@.map_values(|e: AppEntry| entry_view(e)) =~= system_apps_view());
    }
    r
}

/// Store applications are enumerated by a platform collaborator; until
/// one is wired in, discovery contributes none.
pub fn discover_uwp_apps() -> (r: Vec<AppEntry>)
    ensures
        r@.len() == 0,
{
    Vec::new()
}

} // verus!
