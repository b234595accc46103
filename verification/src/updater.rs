//! Release inspection for the update checker: version comparison and the
//! selection of an installer asset. Fetching releases is the caller's
//! business; every decision about them is made here.

use vstd::prelude::*;
use crate::strings::{
    chars_of, string_from_chars, contains_seq, contains_chars, ends_with, ends_with_chars, lex_lt,
    lex_lt_exec, push_tail,
};

verus! {

/// One downloadable file attached to a release.
#[derive(Debug)]
pub struct GitHubAsset {
    pub name: String,
    pub browser_download_url: String,
    pub size: u64,
}

/// One published release.
#[derive(Debug)]
pub struct GitHubRelease {
    pub tag_name: String,
    pub name: String,
    pub body: String,
    pub published_at: String,
    pub assets: Vec<GitHubAsset>,
}

/// What the caller needs to offer an update.
#[derive(Debug)]
pub struct UpdateInfo {
    pub version: String,
    pub download_url: String,
    pub release_notes: String,
    pub published_at: String,
    pub file_size: u64,
}

/// Why inspecting releases failed.
#[derive(Debug, Clone, Copy, PartialEq, Eq, Structural)]
pub enum UpdateError {
    /// The running application's own version string does not parse.
    InvalidCurrentVersion,
    /// A newer release exists but carries no installer package.
    NoInstallerAsset,
}

/// Whether `semver::Version::parse` accepts a string; a pure function of
/// the string.
pub uninterp spec fn semver_valid(s: Seq<char>) -> bool;

/// The order `semver::Version`'s `Ord` puts two parsed versions in; only
/// consulted where both strings are valid.
pub uninterp spec fn semver_lt(a: Seq<char>, b: Seq<char>) -> bool;

/// Relies on `semver::Version::parse`: acceptance depends on the string
/// alone.
#[verifier::external_body]
fn semver_is_valid(s: &str) -> (r: bool)
    ensures
        r == semver_valid(s@),
{
    semver::Version::parse(s).is_ok()
}

/// Relies on `semver::Version::parse` and `Version`'s `Ord`: both depend
/// on the two strings alone; comparison follows semantic-versioning
/// precedence.
#[verifier::external_body]
fn semver_less(a: &str, b: &str) -> (r: Option<bool>)
    ensures
        r is Some <==> (semver_valid(a@) && semver_valid(b@)),
        r is Some ==> r->Some_0 == semver_lt(a@, b@),
{
    match (semver::Version::parse(a), semver::Version::parse(b)) {
        (Ok(x), Ok(y)) => Some(x < y),
        _ => None,
    }
}

/// A tag with every leading `v` removed, as release tags are written.
pub open spec fn strip_v(s: Seq<char>) -> Seq<char>
    decreases s.len(),
{
    if s.len() > 0 && s[0] == 'v' {
        strip_v(s.skip(1))
    } else {
        s
    }
}

fn strip_v_exec(v: &Vec<char>) -> (r: Vec<char>)
    ensures
        r@ == strip_v(v@),
{
    let mut a: usize = 0;
    proof {
        assert(v@.skip(0) =~= v@);
    }
    while a < v.len() && v[a] == 'v'
        invariant
            a <= v@.len(),
            strip_v(v@) == strip_v(v@.skip(a as int)),
        decreases v@.len() - a,
    {
        proof {
            assert(v@.skip(a as int)[0] == v@[a as int]);
            assert(v@.skip(a as int).skip(1) =~= v@.skip(a + 1));
        }
        a += 1;
    }
    proof {
        if a < v@.len() {
            assert(v@.skip(a as int)[0] == v@[a as int]);
        }
    }
    let mut r: Vec<char> = Vec::new();
    push_tail(&mut r, v, a);
    r
}

/// Whether `latest` names a strictly newer version than `current`: by
/// semantic versioning when both parse (the tag's leading `v` removed),
/// else by plain string order.
pub open spec fn newer_version_spec(current: Seq<char>, latest: Seq<char>) -> bool {
    if semver_valid(current) && semver_valid(strip_v(latest)) {
        semver_lt(current, strip_v(latest))
    } else {
        lex_lt(current, latest)
    }
}

/// Compare two version strings, falling back to string comparison when one
/// of them is not a semantic version.
pub fn is_newer_version(current: &str, latest: &str) -> (r: bool)
    ensures
        r == newer_version_spec(current@, latest@),
{
    let lc = chars_of(latest);
    let trimmed = strip_v_exec(&lc);
    let ts = string_from_chars(&trimmed);
    match semver_less(current, ts.as_str()) {
        Some(b) => b,
        None => {
            let cc = chars_of(current);
            lex_lt_exec(&cc, &lc)
        },
    }
}

/// An installer asset carries the `.msi` extension in either case.
pub open spec fn is_msi_name(n: Seq<char>) -> bool {
    ends_with(n, ".msi"@) || ends_with(n, ".MSI"@)
}

/// The first installer asset of a release, if any.
pub open spec fn first_msi(assets: Seq<GitHubAsset>) -> Option<GitHubAsset>
    decreases assets.len(),
{
    if assets.len() == 0 {
        None
    } else if is_msi_name(assets[0].name@) {
        Some(assets[0])
    } else {
        first_msi(assets.skip(1))
    }
}

/// The update row built from a release and one of its assets.
pub open spec fn info_matches(info: UpdateInfo, release: GitHubRelease, a: GitHubAsset) -> bool {
    info.version@ == release.tag_name@ && info.download_url@ == a.browser_download_url@
        && info.release_notes@ == release.body@ && info.published_at@ == release.published_at@
        && info.file_size == a.size
}

/// Find the installer package of a release: the first asset whose name ends
/// in `.msi` or `.MSI`.
pub fn find_msi_asset(release: &GitHubRelease) -> (r: Result<UpdateInfo, UpdateError>)
    ensures
        r is Ok <==> first_msi(release.assets@) is Some,
        r is Ok ==> info_matches(r->Ok_0, *release, first_msi(release.assets@)->Some_0),
        r is Err ==> r->Err_0 == UpdateError::NoInstallerAsset,
{
    let msi = chars_of(".msi");
    let msi_upper = chars_of(".MSI");
    let n = release.assets.len();
    let mut i: usize = 0;
    proof {
        assert(release.assets@.skip(0) =~= release.assets@);
    }
    while i < n
        invariant
            i <= n,
            n == release.assets@.len(),
            msi@ == ".msi"@,
            msi_upper@ == ".MSI"@,
            first_msi(release.assets@) == first_msi(release.assets@.skip(i as int)),
        decreases n - i,
    {
        proof {
            assert(release.assets@.skip(i as int)[0] == release.assets@[i as int]);
            assert(release.assets@.skip(i as int).skip(1) =~= release.assets@.skip(i + 1));
        }
        let name_chars = chars_of(release.assets[i].name.as_str());
        if ends_with_chars(&name_chars, &msi) || ends_with_chars(&name_chars, &msi_upper) {
            let a = &release.assets[i];
            return Ok(
                UpdateInfo {
                    version: release.tag_name.clone(),
                    download_url: a.browser_download_url.clone(),
                    release_notes: release.body.clone(),
                    published_at: release.published_at.clone(),
                    file_size: a.size,
                },
            );
        }
        i += 1;
    }
    Err(UpdateError::NoInstallerAsset)
}

/// A tag that marks a pre-release and is skipped on the stable channel.
pub open spec fn is_prerelease_tag(tag: Seq<char>) -> bool {
    contains_seq(tag, "rc"@) || contains_seq(tag, "beta"@) || contains_seq(tag, "alpha"@)
}

/// What one release yields against the current version: the release itself
/// when its tag parses and is newer.
pub open spec fn release_is_newer(release: GitHubRelease, current: Seq<char>) -> bool {
    semver_valid(strip_v(release.tag_name@)) && semver_lt(current, strip_v(release.tag_name@))
}

/// Decide from a single release whether an update is available.
pub fn process_release_for_update(release: &GitHubRelease, current: &str) -> (r: Result<
    Option<UpdateInfo>,
    UpdateError,
>)
    ensures
        !semver_valid(current@) ==> r == Result::<Option<UpdateInfo>, UpdateError>::Err(
            UpdateError::InvalidCurrentVersion,
        ),
        semver_valid(current@) ==> (if release_is_newer(*release, current@) {
            match first_msi(release.assets@) {
                Some(a) => r is Ok && r->Ok_0 is Some && info_matches(
                    r->Ok_0->Some_0,
                    *release,
                    a,
                ),
                None => r == Result::<Option<UpdateInfo>, UpdateError>::Err(
                    UpdateError::NoInstallerAsset,
                ),
            }
        } else {
            r == Result::<Option<UpdateInfo>, UpdateError>::Ok(None::<UpdateInfo>)
        }),
{
    if !semver_is_valid(current) {
        return Err(UpdateError::InvalidCurrentVersion);
    }
    let tc = chars_of(release.tag_name.as_str());
    let trimmed = strip_v_exec(&tc);
    let ts = string_from_chars(&trimmed);
    match semver_less(current, ts.as_str()) {
        Some(true) => match find_msi_asset(release) {
            Ok(info) => Ok(Some(info)),
            Err(e) => Err(e),
        },
        _ => Ok(None),
    }
}

/// The first stable release that is newer than the current version.
pub open spec fn first_newer_release(
    releases: Seq<GitHubRelease>,
    current: Seq<char>,
) -> Option<GitHubRelease>
    decreases releases.len(),
{
    if releases.len() == 0 {
        None
    } else if !is_prerelease_tag(releases[0].tag_name@) && release_is_newer(releases[0], current) {
        Some(releases[0])
    } else {
        first_newer_release(releases.skip(1), current)
    }
}

/// Decide from a list of releases (newest first, pre-releases skipped)
/// whether an update is available.
pub fn process_releases_for_update(releases: &Vec<GitHubRelease>, current: &str) -> (r: Result<
    Option<UpdateInfo>,
    UpdateError,
>)
    ensures
        !semver_valid(current@) ==> r == Result::<Option<UpdateInfo>, UpdateError>::Err(
            UpdateError::InvalidCurrentVersion,
        ),
        semver_valid(current@) ==> (match first_newer_release(releases@, current@) {
            Some(rel) => match first_msi(rel.assets@) {
                Some(a) => r is Ok && r->Ok_0 is Some && info_matches(r->Ok_0->Some_0, rel, a),
                None => r == Result::<Option<UpdateInfo>, UpdateError>::Err(
                    UpdateError::NoInstallerAsset,
                ),
            },
            None => r == Result::<Option<UpdateInfo>, UpdateError>::Ok(None::<UpdateInfo>),
        }),
{
    if !semver_is_valid(current) {
        return Err(UpdateError::InvalidCurrentVersion);
    }
    let rc = chars_of("rc");
    let beta = chars_of("beta");
    let alpha = chars_of("alpha");
    let n = releases.len();
    let mut i: usize = 0;
    proof {
        assert(releases@.skip(0) =~= releases@);
    }
    while i < n
        invariant
            i <= n,
            n == releases@.len(),
            rc@ == "rc"@,
            beta@ == "beta"@,
            alpha@ == "alpha"@,
            semver_valid(current@),
            first_newer_release(releases@, current@) == first_newer_release(
                releases@.skip(i as int),
                current@,
            ),
        decreases n - i,
    {
        proof {
            assert(releases@.skip(i as int)[0] == releases@[i as int]);
            assert(releases@.skip(i as int).skip(1) =~= releases@.skip(i + 1));
        }
        let tag_chars = chars_of(releases[i].tag_name.as_str());
        let pre = contains_chars(&tag_chars, &rc) || contains_chars(&tag_chars, &beta)
            || contains_chars(&tag_chars, &alpha);
        if !pre {
            let trimmed = strip_v_exec(&tag_chars);
            let ts = string_from_chars(&trimmed);
            match semver_less(current, ts.as_str()) {
                Some(true) => {
                    return match find_msi_asset(&releases[i]) {
                        Ok(info) => Ok(Some(info)),
                        Err(e) => Err(e),
                    };
                },
                _ => {},
            }
        }
        i += 1;
    }
    Ok(None)
}

} // verus!
