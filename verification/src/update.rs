//! In-app updates: which source and which release asset to use, whether to
//! check at launch, and the texts the status bar and the About page show.
//! Checking, downloading and installing are the updater's own work.
use vstd::prelude::*;

use crate::i18n::ZH_CN;
use crate::model::UpdateSourcePref;
use crate::text::{decimal, digit, push_char, push_decimal, str_eq, str_eq_ignore_ascii_case, trim, trim_bounds, eq_ignore_ascii_case};

verus! {

pub const REPO_OWNER: &'static str = "nermalcat69";

pub const REPO_NAME: &'static str = "Germal";

/// The releases page: the way out when updating in place is not possible.
pub const RELEASES_URL: &'static str = "https://github.com/nermalcat69/germal/releases";

/// The static manifest of the mainland-China mirror.
pub const MIRROR_MANIFEST_URL: &'static str =
    "https://github.com/nermalcat69/germal/releases/latest/download/latest.json";

/// Seconds after launch before the first check, so the first frame and the
/// data load come first.
pub const LAUNCH_CHECK_DELAY_SECS: u64 = 5;

/// The marker file an MSI installation puts beside the executable (its
/// content is `msi`); a portable copy has none.
pub const INSTALL_SOURCE_FILE: &'static str = "install-source.txt";

/// Whether this run may install an update in place. Checking is always allowed.
#[derive(Debug, Clone, Copy, PartialEq, Eq, Structural)]
pub enum InstallKind {
    /// A normal installation (a release build; on macOS inside the `.app`).
    Installed,
    /// A development build, or on macOS outside an `.app`.
    DevBuild,
    /// macOS App Translocation: run from the disk image or Downloads, mounted
    /// read-only at a random path.
    Translocated,
}

/// The two real sources an `Auto` preference settles on.
#[derive(Debug, Clone, Copy, PartialEq, Eq, Structural)]
pub enum ResolvedSource {
    /// GitHub Releases (the default everywhere).
    Global,
    /// The mainland-China mirror, read through [`MIRROR_MANIFEST_URL`].
    ChinaMirror,
}

/// The source for a preference: `Auto` follows the interface language
/// (Chinese uses the mirror), an explicit choice wins.
pub fn resolve_source(pref: UpdateSourcePref, ui_locale: &str) -> (s: ResolvedSource)
    ensures
        s == (match pref {
            UpdateSourcePref::Global => ResolvedSource::Global,
            UpdateSourcePref::ChinaMirror => ResolvedSource::ChinaMirror,
            UpdateSourcePref::Auto => if ui_locale@ == ZH_CN@ {
                ResolvedSource::ChinaMirror
            } else {
                ResolvedSource::Global
            },
        }),
{
    match pref {
        UpdateSourcePref::Global => ResolvedSource::Global,
        UpdateSourcePref::ChinaMirror => ResolvedSource::ChinaMirror,
        UpdateSourcePref::Auto => {
            if str_eq(ui_locale, ZH_CN) {
                ResolvedSource::ChinaMirror
            } else {
                ResolvedSource::Global
            }
        },
    }
}

/// How this copy was installed on Windows; decides which asset to fetch.
#[derive(Debug, Clone, Copy, PartialEq, Eq, Structural)]
pub enum WindowsPackage {
    /// A single portable executable, replaced in place. Other platforms
    /// report this too (they have a single kind of asset).
    Portable,
    /// A per-user MSI installation.
    Msi,
}

/// The package kind from the marker file's content (`None`: no readable
/// marker). Only a marker saying `msi` (surrounding white space and case
/// aside) means MSI; anything else is portable, the cheaper mistake.
pub fn windows_package_from_marker(marker: Option<&str>) -> (p: WindowsPackage)
    ensures
        p == (match marker {
            Some(m) => if eq_ignore_ascii_case(trim(m@), "msi"@) {
                WindowsPackage::Msi
            } else {
                WindowsPackage::Portable
            },
            None => WindowsPackage::Portable,
        }),
{
    match marker {
        Some(m) => {
            let (a, b) = trim_bounds(m);
            if str_eq_ignore_ascii_case(m.substring_char(a, b), "msi") {
                WindowsPackage::Msi
            } else {
                WindowsPackage::Portable
            }
        },
        None => WindowsPackage::Portable,
    }
}

/// The release asset name fragment for a platform; `None` when nothing is
/// released for it. Only Windows has two kinds of asset.
pub fn asset_pattern_for(os: &str, arch: &str, win: WindowsPackage) -> (p: Option<&'static str>)
    ensures
        p == (if os@ == "macos"@ && arch@ == "aarch64"@ {
            Some("macos-arm64.dmg")
        } else if os@ == "macos"@ && arch@ == "x86_64"@ {
            Some("macos-x64.dmg")
        } else if os@ == "linux"@ && arch@ == "x86_64"@ {
            Some("linux-x64.tar.gz")
        } else if os@ == "linux"@ && arch@ == "aarch64"@ {
            Some("linux-arm64.tar.gz")
        } else if os@ == "windows"@ && arch@ == "x86_64"@ {
            Some(
                match win {
                    WindowsPackage::Portable => "windows-x64.exe",
                    WindowsPackage::Msi => "windows-x64.msi",
                },
            )
        } else if os@ == "windows"@ && arch@ == "aarch64"@ {
            Some(
                match win {
                    WindowsPackage::Portable => "windows-arm64.exe",
                    WindowsPackage::Msi => "windows-arm64.msi",
                },
            )
        } else {
            None
        }),
{
    let mac = str_eq(os, "macos");
    let linux = str_eq(os, "linux");
    let windows = str_eq(os, "windows");
    let arm = str_eq(arch, "aarch64");
    let x64 = str_eq(arch, "x86_64");
    if mac && arm {
        Some("macos-arm64.dmg")
    } else if mac && x64 {
        Some("macos-x64.dmg")
    } else if linux && x64 {
        Some("linux-x64.tar.gz")
    } else if linux && arm {
        Some("linux-arm64.tar.gz")
    } else if windows && x64 {
        Some(
            match win {
                WindowsPackage::Portable => "windows-x64.exe",
                WindowsPackage::Msi => "windows-x64.msi",
            },
        )
    } else if windows && arm {
        Some(
            match win {
                WindowsPackage::Portable => "windows-arm64.exe",
                WindowsPackage::Msi => "windows-arm64.msi",
            },
        )
    } else {
        None
    }
}

/// Whether `s` begins with `prefix`.
pub open spec fn starts_with(s: Seq<char>, prefix: Seq<char>) -> bool {
    prefix.len() <= s.len() && s.take(prefix.len() as int) == prefix
}

/// Index of the first line break in `s`.
pub open spec fn first_newline(s: Seq<char>) -> Option<int> {
    if exists|i: int| 0 <= i < s.len() && s[i] == '\n' {
        Some(choose|i: int| 0 <= i < s.len() && s[i] == '\n' && forall|j: int| 0 <= j < i ==> s[j] != '\n')
    } else {
        None
    }
}

/// The key line of a minisign public-key file: the first line that is not
/// blank and not the `untrusted comment:` line, trimmed; empty when there
/// is none. Lines are split at `\n` (a `\r` before it is white space).
pub open spec fn key_line(file: Seq<char>) -> Seq<char>
    decreases file.len(),
{
    let (line, rest) = match first_newline(file) {
        Some(i) => (file.take(i), Some(file.skip(i + 1))),
        None => (file, None),
    };
    let t = trim(line);
    if t.len() > 0 && !starts_with(t, "untrusted comment:"@) {
        t
    } else {
        match rest {
            Some(r) => if r.len() < file.len() {
                key_line(r)
            } else {
                Seq::empty()
            },
            None => Seq::empty(),
        }
    }
}

fn find_newline(s: &str) -> (r: Option<usize>)
    ensures
        match r {
            Some(i) => first_newline(s@) == Some(i as int) && i < s@.len(),
            None => first_newline(s@) is None,
        },
{
    let n = s.unicode_len();
    let mut i: usize = 0;
    while i < n
        invariant
            n == s@.len(),
            i <= n,
            forall|j: int| 0 <= j < i ==> s@[j] != '\n',
        decreases n - i,
    {
        if s.get_char(i) == '\n' {
            proof {
                let k = choose|k: int|
                    0 <= k < s@.len() && s@[k] == '\n' && forall|j: int| 0 <= j < k ==> s@[j] != '\n';
                assert(k == i as int) by {
                    if k > i {
                        assert(s@[i as int] == '\n');
                    }
                }
            }
            return Some(i);
        }
        i = i + 1;
    }
    None
}

fn starts_with_str(s: &str, prefix: &str) -> (r: bool)
    ensures
        r == starts_with(s@, prefix@),
{
    let n = prefix.unicode_len();
    if n > s.unicode_len() {
        return false;
    }
    let head = s.substring_char(0, n);
    str_eq(head, prefix)
}

/// The base64 key of a minisign public-key file (see [`key_line`]).
pub fn minisign_public_key(file: &str) -> (key: String)
    ensures
        key@ == key_line(file@),
    decreases file@.len(),
{
    let n = file.unicode_len();
    let (line, rest) = match find_newline(file) {
        Some(i) => (file.substring_char(0, i), Some(file.substring_char(i + 1, n))),
        None => (file, None),
    };
    let (a, b) = trim_bounds(line);
    let t = line.substring_char(a, b);
    if t.unicode_len() > 0 && !starts_with_str(t, "untrusted comment:") {
        return String::from_str(t);
    }
    match rest {
        Some(r) => {
            if r.unicode_len() < n {
                minisign_public_key(r)
            } else {
                String::new()
            }
        },
        None => String::new(),
    }
}

/// How the running copy was installed. A debug build is a development
/// build. On macOS the install root decides: unknown, or not an `.app`
/// bundle, is a development build; a root under App Translocation (its path
/// holds `/AppTranslocation/`) is translocated. Otherwise it is installed.
pub fn install_kind_for(
    debug_build: bool,
    macos: bool,
    root_known: bool,
    translocated: bool,
    app_bundle: bool,
) -> (k: InstallKind)
    ensures
        k == (if debug_build {
            InstallKind::DevBuild
        } else if macos && !root_known {
            InstallKind::DevBuild
        } else if macos && translocated {
            InstallKind::Translocated
        } else if macos && !app_bundle {
            InstallKind::DevBuild
        } else {
            InstallKind::Installed
        }),
{
    if debug_build {
        return InstallKind::DevBuild;
    }
    if macos {
        if !root_known {
            return InstallKind::DevBuild;
        }
        if translocated {
            return InstallKind::Translocated;
        }
        if !app_bundle {
            return InstallKind::DevBuild;
        }
    }
    InstallKind::Installed
}

/// Whether to check once after launch: the user's setting, and only in a
/// real installation unless forced (for trying it in a development build).
pub fn launch_check_enabled(check_updates_on_launch: bool, kind: InstallKind, force: bool) -> (r: bool)
    ensures
        r == (check_updates_on_launch && (kind == InstallKind::Installed || force)),
{
    check_updates_on_launch && (kind == InstallKind::Installed || force)
}

/// What the updater is doing; versions are their display text.
#[derive(Debug, Clone, PartialEq, Eq)]
pub enum UpdateStatus {
    Idle,
    Checking,
    UpToDate,
    Available(String),
    Downloading { downloaded: u64, total: Option<u64> },
    Installing,
    Staged(String),
    Errored(String),
}

/// Whether an update can be installed now: there is one, and this run may
/// install in place.
pub fn can_install(kind: InstallKind, status: &UpdateStatus) -> (r: bool)
    ensures
        r == (kind == InstallKind::Installed && status is Available),
{
    kind == InstallKind::Installed && match status {
        UpdateStatus::Available(_) => true,
        _ => false,
    }
}

/// The status bar hint: the version on offer, and whether it is already
/// installed and only needs a restart.
pub fn hint_version(status: &UpdateStatus) -> (h: Option<(&String, bool)>)
    ensures
        h == (match status {
            UpdateStatus::Available(v) => Some((v, false)),
            UpdateStatus::Staged(v) => Some((v, true)),
            _ => None,
        }),
{
    match status {
        UpdateStatus::Available(v) => Some((v, false)),
        UpdateStatus::Staged(v) => Some((v, true)),
        _ => None,
    }
}

/// 2 to the `n`.
pub open spec fn two_pow(n: nat) -> nat
    decreases n,
{
    if n == 0 {
        1
    } else {
        2 * two_pow((n - 1) as nat)
    }
}

/// How many low bits of `b` a 53-bit significand cannot hold.
pub open spec fn excess_bits(b: nat) -> nat
    decreases b,
{
    if b < 0x20000000000000 {
        0
    } else {
        1 + excess_bits(b / 2)
    }
}

/// `n / d` rounded to the nearest integer, ties to even.
pub open spec fn round_div_even(n: nat, d: nat) -> nat {
    let q = n / d;
    let r = n % d;
    if r * 2 > d || (r * 2 == d && q % 2 == 1) {
        q + 1
    } else {
        q
    }
}

/// The value of `b` as a double (`b as f64`): rounded to 53 significant
/// bits, ties to even. It is an integer for every `u64`.
pub open spec fn as_f64(b: nat) -> nat {
    let p = two_pow(excess_bits(b));
    round_div_even(b, p) * p
}

/// A byte count in tenths of a MiB, as `{:.1}` rounds the double
/// `b as f64 / 1048576.0`: that quotient is exact (a power-of-two
/// divisor), and the decimal rounding goes to the nearest tenth, ties to even.
pub open spec fn tenths_of_mib(b: nat) -> nat {
    round_div_even(as_f64(b) * 10, 1048576)
}

/// `"<MiB with one decimal> MB"`.
pub open spec fn spec_format_mb(b: nat) -> Seq<char> {
    let t = tenths_of_mib(b);
    decimal(t / 10) + seq!['.', digit(t % 10)] + " MB"@
}

proof fn lemma_excess_step(b: nat, s: nat, x: nat)
    requires
        x == b / two_pow(s),
        x >= 0x20000000000000,
    ensures
        x / 2 == b / two_pow(s + 1),
        excess_bits(x) == 1 + excess_bits(x / 2),
{
    assert(two_pow(s + 1) == 2 * two_pow(s));
    lemma_two_pow_pos(s);
    vstd::arithmetic::div_mod::lemma_div_denominator(b as int, two_pow(s) as int, 2);
    assert(two_pow(s) * 2 == two_pow(s + 1)) by (nonlinear_arith)
        requires
            two_pow(s + 1) == 2 * two_pow(s),
    ;
}

proof fn lemma_two_pow_pos(n: nat)
    ensures
        two_pow(n) > 0,
    decreases n,
{
    if n > 0 {
        lemma_two_pow_pos((n - 1) as nat);
    }
}

/// `round_div_even` on machine integers.
fn round_div_even_u128(n: u128, d: u128) -> (r: u128)
    requires
        d > 0,
        n / d < u128::MAX,
    ensures
        r == round_div_even(n as nat, d as nat),
{
    let q = n / d;
    let rem = n % d;
    assert(rem < d);
    if rem > d - rem || (rem == d - rem && q % 2 == 1) {
        q + 1
    } else {
        q
    }
}

/// The value of `b as f64`, computed on integers.
fn as_f64_exact(b: u64) -> (f: u128)
    ensures
        f == as_f64(b as nat),
        f <= 0x1_0000_0000_0000_1000,
{
    let mut x: u64 = b;
    let mut p: u128 = 1;
    let ghost mut s: nat = 0;
    assert(two_pow(0) == 1);
    assert((b as nat) / two_pow(s) == b);
    while x >= 0x20000000000000
        invariant
            x == (b as nat) / two_pow(s),
            p == two_pow(s),
            excess_bits(b as nat) == s + excess_bits(x as nat),
            p <= 4096,
        decreases x,
    {
        proof {
            lemma_excess_step(b as nat, s, x as nat);
            lemma_two_pow_pos(s);
            assert(p < 2048) by (nonlinear_arith)
                requires
                    x == (b as int) / (p as int),
                    x >= 0x20000000000000,
                    b < 0x1_0000_0000_0000_0000,
                    p > 0,
            ;
        }
        x = x / 2;
        p = p * 2;
        proof {
            s = s + 1;
        }
    }
    proof {
        lemma_two_pow_pos(s);
    }
    let bb = b as u128;
    let r = bb % p;
    let q = x as u128;
    assert(q == bb / p);
    let up = r > p - r || (r == p - r && q % 2 == 1);
    let rounded = if up {
        q + 1
    } else {
        q
    };
    assert(rounded == round_div_even(b as nat, p as nat));
    assert(rounded * p <= bb + p) by (nonlinear_arith)
        requires
            q == bb / p,
            p > 0,
            rounded <= q + 1,
    {
        vstd::arithmetic::div_mod::lemma_fundamental_div_mod(bb as int, p as int);
    }
    rounded * p
}

/// The size in MiB with one decimal, as `format!("{:.1} MB", b as f64 / 1048576.0)`
/// writes it (see [`spec_format_mb`]).
pub fn format_mb(bytes: u64) -> (s: String)
    ensures
        s@ == spec_format_mb(bytes as nat),
{
    let f = as_f64_exact(bytes);
    let t = round_div_even_u128(f * 10, 1048576);
    assert(t <= 0x10_0000_0000_0001) by (nonlinear_arith)
        requires
            t <= (f * 10) / 1048576 + 1,
            f <= 0x1_0000_0000_0000_1000,
    ;
    let t64 = t as u64;
    let mut out = String::new();
    push_decimal(&mut out, t64 / 10);
    push_char(&mut out, '.');
    let d = t64 % 10;
    push_decimal(&mut out, d);
    assert(decimal(d as nat) == seq![digit(d as nat)]);
    out.append(" MB");
    assert(out@ =~= spec_format_mb(bytes as nat));
    out
}

/// An About-page status line before translation: the message key and its
/// named arguments.
#[derive(Debug, Clone, PartialEq, Eq)]
pub struct StatusLine {
    pub key: &'static str,
    pub args: Vec<(&'static str, String)>,
}

/// The About page's status line for `status`; `current` is the running version.
pub fn status_line(status: &UpdateStatus, current: &str) -> (l: StatusLine)
    ensures
        match *status {
            UpdateStatus::Idle => l.key == "update.idle" && l.args@.len() == 1 && l.args@[0].0
                == "current" && l.args@[0].1@ == current@,
            UpdateStatus::Checking => l.key == "update.checking" && l.args@.len() == 0,
            UpdateStatus::UpToDate => l.key == "update.up_to_date" && l.args@.len() == 1
                && l.args@[0].0 == "current" && l.args@[0].1@ == current@,
            UpdateStatus::Available(v) => l.key == "update.available" && l.args@.len() == 1
                && l.args@[0].0 == "version" && l.args@[0].1@ == v@,
            UpdateStatus::Downloading { downloaded, total: Some(total) } => l.key
                == "update.downloading" && l.args@.len() == 2 && l.args@[0].0 == "downloaded"
                && l.args@[0].1@ == spec_format_mb(downloaded as nat) && l.args@[1].0 == "total"
                && l.args@[1].1@ == spec_format_mb(total as nat),
            UpdateStatus::Downloading { downloaded, total: None } => l.key == "update.downloaded"
                && l.args@.len() == 1 && l.args@[0].0 == "downloaded" && l.args@[0].1@
                == spec_format_mb(downloaded as nat),
            UpdateStatus::Installing => l.key == "update.installing" && l.args@.len() == 0,
            UpdateStatus::Staged(v) => l.key == "update.staged" && l.args@.len() == 1
                && l.args@[0].0 == "version" && l.args@[0].1@ == v@,
            UpdateStatus::Errored(m) => l.key == "update.failed" && l.args@.len() == 1
                && l.args@[0].0 == "error" && l.args@[0].1@ == m@,
        },
{
    match status {
        UpdateStatus::Idle => StatusLine {
            key: "update.idle",
            args: vec![("current", String::from_str(current))],
        },
        UpdateStatus::Checking => StatusLine { key: "update.checking", args: Vec::new() },
        UpdateStatus::UpToDate => StatusLine {
            key: "update.up_to_date",
            args: vec![("current", String::from_str(current))],
        },
        UpdateStatus::Available(v) => StatusLine {
            key: "update.available",
            args: vec![("version", v.clone())],
        },
        UpdateStatus::Downloading { downloaded, total: Some(total) } => StatusLine {
            key: "update.downloading",
            args: vec![("downloaded", format_mb(*downloaded)), ("total", format_mb(*total))],
        },
        UpdateStatus::Downloading { downloaded, total: None } => StatusLine {
            key: "update.downloaded",
            args: vec![("downloaded", format_mb(*downloaded))],
        },
        UpdateStatus::Installing => StatusLine { key: "update.installing", args: Vec::new() },
        UpdateStatus::Staged(v) => StatusLine {
            key: "update.staged",
            args: vec![("version", v.clone())],
        },
        UpdateStatus::Errored(m) => StatusLine {
            key: "update.failed",
            args: vec![("error", m.clone())],
        },
    }
}

} // verus!
