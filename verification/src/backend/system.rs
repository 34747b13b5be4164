//! The system: what `/etc/os-release`, `/proc/meminfo`, `uname` and the
//! environment say, the Wine installations found in the usual places, and
//! where yabridge lives.
use vstd::prelude::*;

use crate::paths::join;
use crate::paths::join_path;
use crate::sorting::seq_views;
use crate::sorting::sort_by_key;
use crate::sorting::sort_items_by_key;
use crate::sorting::sorted_by_key;
use crate::sorting::lemma_sort_by_key_sorted;
use crate::sorting::lemma_sort_by_key_permutes;
use crate::text::chars_eq;
use crate::text::chars_of;
use crate::text::contains;
use crate::text::has_prefix;
use crate::text::lines;
use crate::text::parse_u64;
use crate::text::parse_u64_chars;
use crate::text::split_lines;
use crate::text::split_words;
use crate::text::starts_with;
use crate::text::str_contains;
use crate::text::str_eq;
use crate::text::str_starts_with;
use crate::text::string_of;
use crate::text::string_views;
use crate::text::trim;
use crate::text::trim_char;
use crate::text::trim_char_chars;
use crate::text::trim_start_matches;
use crate::text::trim_start_matches_chars;
use crate::text::trim_str;
use crate::text::views;
use crate::text::words;

verus! {

/// What the system reports about itself.
#[derive(Clone, Debug)]
pub struct SystemInfo {
    pub distro: String,
    pub kernel: String,
    pub arch: String,
    pub desktop: String,
    pub wayland_display: Option<String>,
    pub x11_display: Option<String>,
    pub display_server: String,
    pub ram_mb: u64,
    pub cpu_cores: usize,
}

/// The model of a [`SystemInfo`].
pub struct SystemInfoView {
    pub distro: Seq<char>,
    pub kernel: Seq<char>,
    pub arch: Seq<char>,
    pub desktop: Seq<char>,
    pub wayland_display: Option<Seq<char>>,
    pub x11_display: Option<Seq<char>>,
    pub display_server: Seq<char>,
    pub ram_mb: u64,
    pub cpu_cores: usize,
}

/// The view of an optional string.
pub open spec fn opt_view(o: Option<String>) -> Option<Seq<char>> {
    match o {
        Some(s) => Some(s@),
        None => None,
    }
}

impl View for SystemInfo {
    type V = SystemInfoView;

    open spec fn view(&self) -> SystemInfoView {
        SystemInfoView {
            distro: self.distro@,
            kernel: self.kernel@,
            arch: self.arch@,
            desktop: self.desktop@,
            wayland_display: opt_view(self.wayland_display),
            x11_display: opt_view(self.x11_display),
            display_server: self.display_server@,
            ram_mb: self.ram_mb,
            cpu_cores: self.cpu_cores,
        }
    }
}

/// The raw readings [`SystemInfo`] is made from: the text of
/// `/etc/os-release` and `/proc/meminfo` (when readable), the output of
/// `uname -r` and `uname -m` (when they ran), the environment variables
/// `XDG_CURRENT_DESKTOP`, `DESKTOP_SESSION`, `WAYLAND_DISPLAY` and `DISPLAY`
/// (when set), and the available parallelism (when known).
#[derive(Clone, Debug)]
pub struct SystemProbe {
    pub os_release: Option<String>,
    pub uname_r: Option<String>,
    pub uname_m: Option<String>,
    pub xdg_current_desktop: Option<String>,
    pub desktop_session: Option<String>,
    pub wayland_display: Option<String>,
    pub display: Option<String>,
    pub meminfo: Option<String>,
    pub parallelism: Option<usize>,
}

/// The model of a [`SystemProbe`].
pub struct SystemProbeView {
    pub os_release: Option<Seq<char>>,
    pub uname_r: Option<Seq<char>>,
    pub uname_m: Option<Seq<char>>,
    pub xdg_current_desktop: Option<Seq<char>>,
    pub desktop_session: Option<Seq<char>>,
    pub wayland_display: Option<Seq<char>>,
    pub display: Option<Seq<char>>,
    pub meminfo: Option<Seq<char>>,
    pub parallelism: Option<usize>,
}

impl View for SystemProbe {
    type V = SystemProbeView;

    open spec fn view(&self) -> SystemProbeView {
        SystemProbeView {
            os_release: opt_view(self.os_release),
            uname_r: opt_view(self.uname_r),
            uname_m: opt_view(self.uname_m),
            xdg_current_desktop: opt_view(self.xdg_current_desktop),
            desktop_session: opt_view(self.desktop_session),
            wayland_display: opt_view(self.wayland_display),
            display: opt_view(self.display),
            meminfo: opt_view(self.meminfo),
            parallelism: self.parallelism,
        }
    }
}

/// A Wine installation.
#[derive(Clone, Debug)]
pub struct WineInstall {
    pub version: String,
    pub path: String,
    pub is_staging: bool,
    pub winegpp_path: String,
    pub has_wayland: bool,
}

/// The model of a [`WineInstall`].
pub struct WineInstallView {
    pub version: Seq<char>,
    pub path: Seq<char>,
    pub is_staging: bool,
    pub winegpp_path: Seq<char>,
    pub has_wayland: bool,
}

impl View for WineInstall {
    type V = WineInstallView;

    open spec fn view(&self) -> WineInstallView {
        WineInstallView {
            version: self.version@,
            path: self.path@,
            is_staging: self.is_staging,
            winegpp_path: self.winegpp_path@,
            has_wayland: self.has_wayland,
        }
    }
}

impl WineInstall {
    /// A copy of the installation record.
    pub fn duplicate(&self) -> (r: WineInstall)
        ensures
            r == *self,
    {
        WineInstall {
            version: self.version.clone(),
            path: self.path.clone(),
            is_staging: self.is_staging,
            winegpp_path: self.winegpp_path.clone(),
            has_wayland: self.has_wayland,
        }
    }
}

/// What was found in one directory searched for Wine: the output of
/// `wine --version` when the `wine` binary exists there and ran, and whether
/// a Wayland driver lies beside it.
#[derive(Clone, Debug)]
pub struct WineProbe {
    pub bin_dir: String,
    pub version_output: Option<String>,
    pub has_wayland: bool,
}

/// The model of a [`WineProbe`].
pub struct WineProbeView {
    pub bin_dir: Seq<char>,
    pub version_output: Option<Seq<char>>,
    pub has_wayland: bool,
}

impl View for WineProbe {
    type V = WineProbeView;

    open spec fn view(&self) -> WineProbeView {
        WineProbeView {
            bin_dir: self.bin_dir@,
            version_output: opt_view(self.version_output),
            has_wayland: self.has_wayland,
        }
    }
}

/// A yabridge installation.
#[derive(Clone, Debug)]
pub struct YabridgeInstall {
    pub version: String,
    pub host_exe: String,
    pub lib_vst2: String,
    pub lib_vst3: String,
    pub config_dir: String,
    pub data_dir: String,
}

/// The model of a [`YabridgeInstall`].
pub struct YabridgeInstallView {
    pub version: Seq<char>,
    pub host_exe: Seq<char>,
    pub lib_vst2: Seq<char>,
    pub lib_vst3: Seq<char>,
    pub config_dir: Seq<char>,
    pub data_dir: Seq<char>,
}

impl View for YabridgeInstall {
    type V = YabridgeInstallView;

    open spec fn view(&self) -> YabridgeInstallView {
        YabridgeInstallView {
            version: self.version@,
            host_exe: self.host_exe@,
            lib_vst2: self.lib_vst2@,
            lib_vst3: self.lib_vst3@,
            config_dir: self.config_dir@,
            data_dir: self.data_dir@,
        }
    }
}

// ---------------------------------------------------------------------------
// Specification
// ---------------------------------------------------------------------------
/// The first of `ls` that starts with `p`.
pub open spec fn first_with_prefix(ls: Seq<Seq<char>>, p: Seq<char>) -> Option<Seq<char>>
    decreases ls.len(),
{
    if ls.len() == 0 {
        None
    } else if starts_with(ls[0], p) {
        Some(ls[0])
    } else {
        first_with_prefix(ls.drop_first(), p)
    }
}

/// The distribution's name: the `PRETTY_NAME=` line of `os-release` with the
/// key and the surrounding quotes removed; `Unknown` without one.
pub open spec fn distro_of(os_release: Option<Seq<char>>) -> Seq<char> {
    match os_release {
        Some(s) => match first_with_prefix(lines(s), "PRETTY_NAME="@) {
            Some(l) => trim_char(trim_start_matches(l, "PRETTY_NAME="@), '"'),
            None => "Unknown"@,
        },
        None => "Unknown"@,
    }
}

/// The trimmed output of a command, or the empty text when it did not run.
pub open spec fn command_text(out: Option<Seq<char>>) -> Seq<char> {
    match out {
        Some(s) => trim(s),
        None => Seq::empty(),
    }
}

/// The desktop: `XDG_CURRENT_DESKTOP`, else `DESKTOP_SESSION`, else
/// `Unknown`.
pub open spec fn desktop_of(xdg: Option<Seq<char>>, session: Option<Seq<char>>) -> Seq<char> {
    match xdg {
        Some(x) => x,
        None => match session {
            Some(s) => s,
            None => "Unknown"@,
        },
    }
}

/// The display server: Wayland when `WAYLAND_DISPLAY` is set, else X11 when
/// `DISPLAY` is set, else `Unknown`.
pub open spec fn display_server_of(wayland: Option<Seq<char>>, x11: Option<Seq<char>>) -> Seq<
    char,
> {
    if wayland is Some {
        "Wayland"@
    } else if x11 is Some {
        "X11"@
    } else {
        "Unknown"@
    }
}

/// The memory in MiB: the second word of the `MemTotal:` line of `meminfo`
/// (a number of KiB) divided by 1024; 0 when there is no such number.
pub open spec fn ram_mb_of(meminfo: Option<Seq<char>>) -> u64 {
    match meminfo {
        Some(s) => match first_with_prefix(lines(s), "MemTotal:"@) {
            Some(l) => if words(l).len() > 1 {
                match parse_u64(words(l)[1]) {
                    Some(v) => (v / 1024) as u64,
                    None => 0,
                }
            } else {
                0
            },
            None => 0,
        },
        None => 0,
    }
}

/// The number of CPU cores, 1 when unknown.
pub open spec fn cpu_cores_of(parallelism: Option<usize>) -> usize {
    match parallelism {
        Some(n) => n,
        None => 1,
    }
}

/// The system information the readings `p` give.
pub open spec fn system_info_of(p: SystemProbeView) -> SystemInfoView {
    SystemInfoView {
        distro: distro_of(p.os_release),
        kernel: command_text(p.uname_r),
        arch: command_text(p.uname_m),
        desktop: desktop_of(p.xdg_current_desktop, p.desktop_session),
        wayland_display: p.wayland_display,
        x11_display: p.display,
        display_server: display_server_of(p.wayland_display, p.display),
        ram_mb: ram_mb_of(p.meminfo),
        cpu_cores: cpu_cores_of(p.parallelism),
    }
}

/// The Wine directories under `/opt` that are always searched first, in
/// this order.
pub open spec fn usual_wine_names() -> Seq<Seq<char>> {
    seq!["wine-11.16"@, "wine-staging"@, "wine-devel"@]
}

/// The names, among the entries of `/opt`, of the other Wine installations:
/// those that begin with `wine-` and are not among the usual ones, in
/// listing order.
pub open spec fn wine_dir_names(names: Seq<Seq<char>>) -> Seq<Seq<char>>
    decreases names.len(),
{
    if names.len() == 0 {
        Seq::empty()
    } else {
        let prev = wine_dir_names(names.drop_last());
        if starts_with(names.last(), "wine-"@) && !usual_wine_names().contains(names.last()) {
            prev.push(names.last())
        } else {
            prev
        }
    }
}

/// The `bin` directory of the Wine installed as `/opt/<name>`.
pub open spec fn opt_wine_bin_dir(name: Seq<char>) -> Seq<char> {
    join(join("/opt"@, name), "bin"@)
}

/// A name as its own sort key.
pub open spec fn name_key(n: Seq<char>) -> Seq<char> {
    n
}

/// The directories searched for Wine, in order, given the names of the
/// entries of `/opt`: the `bin` directories of the usual `/opt` Wine
/// installations, then that of every other `/opt/wine-*` entry, in name
/// order, then `/usr/local/bin` and `/usr/bin`.
pub open spec fn wine_search_dirs_spec(opt_names: Seq<Seq<char>>) -> Seq<Seq<char>> {
    usual_wine_names().map_values(|n: Seq<char>| opt_wine_bin_dir(n)) + sort_by_key(wine_dir_names(opt_names), |n: Seq<char>| name_key(n), false).map_values(
        |n: Seq<char>| opt_wine_bin_dir(n),
    ) + seq!["/usr/local/bin"@, "/usr/bin"@]
}

/// The Wine installation in `bin_dir` with the given version.
pub open spec fn wine_install_of(p: WineProbeView, version: Seq<char>) -> WineInstallView {
    WineInstallView {
        version: version,
        path: p.bin_dir,
        is_staging: contains(join(p.bin_dir, "wine"@), "staging"@),
        winegpp_path: join(p.bin_dir, "wineg++"@),
        has_wayland: p.has_wayland,
    }
}

/// The versions of some installations.
pub open spec fn versions_of(ws: Seq<WineInstallView>) -> Seq<Seq<char>> {
    ws.map_values(|w: WineInstallView| w.version)
}

/// The installations the probes show, in search order, each version kept
/// only the first time it is seen.
pub open spec fn wine_installs_found(ps: Seq<WineProbeView>) -> Seq<WineInstallView>
    decreases ps.len(),
{
    if ps.len() == 0 {
        Seq::empty()
    } else {
        let prev = wine_installs_found(ps.drop_last());
        match ps.last().version_output {
            Some(o) => if versions_of(prev).contains(trim(o)) {
                prev
            } else {
                prev.push(wine_install_of(ps.last(), trim(o)))
            },
            None => prev,
        }
    }
}

/// An installation's sort key: its version.
pub open spec fn wine_version_key(w: WineInstallView) -> Seq<char> {
    w.version
}

/// The Wine installations the probes show, newest version (in `String`
/// order) first.
pub open spec fn wine_installs_of(ps: Seq<WineProbeView>) -> Seq<WineInstallView> {
    sort_by_key(wine_installs_found(ps), |w: WineInstallView| wine_version_key(w), true)
}

/// The directories where yabridge may be installed, in order.
pub open spec fn yabridge_data_dirs_spec(home: Seq<char>) -> Seq<Seq<char>> {
    seq![join(home, ".local/share/yabridge"@), "/usr/share/yabridge"@, "/usr/local/share/yabridge"@]
}

/// The places where `yabridgectl` may be, in order.
pub open spec fn yabridgectl_candidates_spec(home: Seq<char>) -> Seq<Seq<char>> {
    seq![
        join(home, ".local/share/yabridge/yabridgectl"@),
        "/usr/local/bin/yabridgectl"@,
        join(home, ".cargo/bin/yabridgectl"@),
        "/usr/bin/yabridgectl"@,
    ]
}

/// The yabridge installation in `dir`: its version is the trimmed output of
/// `yabridgectl --version` (`unknown` when it did not run), its
/// configuration lives in `yabridge` under the configuration directory
/// (the empty path when there is none).
pub open spec fn yabridge_install_of(
    dir: Seq<char>,
    version_output: Option<Seq<char>>,
    config_dir: Option<Seq<char>>,
) -> YabridgeInstallView {
    YabridgeInstallView {
        version: match version_output {
            Some(o) => trim(o),
            None => "unknown"@,
        },
        host_exe: join(dir, "yabridge-host.exe"@),
        lib_vst2: join(dir, "libyabridge-vst2.so"@),
        lib_vst3: join(dir, "libyabridge-vst3.so"@),
        config_dir: match config_dir {
            Some(c) => join(c, "yabridge"@),
            None => Seq::empty(),
        },
        data_dir: dir,
    }
}

// ---------------------------------------------------------------------------
// Implementation
// ---------------------------------------------------------------------------
/// The first line of `text` that starts with `prefix`.
pub fn first_line_with_prefix(text: &str, prefix: &str) -> (r: Option<Vec<char>>)
    ensures
        match r {
            Some(l) => first_with_prefix(lines(text@), prefix@) == Some(l@),
            None => first_with_prefix(lines(text@), prefix@).is_none(),
        },
{
    let ls = split_lines(&chars_of(text));
    let p = chars_of(prefix);
    let ghost all = views(ls@);
    let n = ls.len();
    let mut i: usize = 0;
    assert(all.skip(0) =~= all);
    while i < n
        invariant
            i <= n,
            n == ls@.len(),
            all == views(ls@),
            all == lines(text@),
            p@ == prefix@,
            first_with_prefix(all, prefix@) == first_with_prefix(all.skip(i as int), prefix@),
        decreases n - i,
    {
        proof {
            assert(all.skip(i as int)[0] == ls@[i as int]@);
            assert(all.skip(i as int).drop_first() =~= all.skip(i + 1));
        }
        if has_prefix(&ls[i], &p) {
            let l = crate::text::slice_chars(&ls[i], 0, ls[i].len());
            proof {
                assert(l@ =~= ls@[i as int]@);
            }
            return Some(l);
        }
        i += 1;
    }
    None
}

/// The distribution's name from the text of `/etc/os-release`.
pub fn distro_name(os_release: &Option<String>) -> (r: String)
    ensures
        r@ == distro_of(opt_view(*os_release)),
{
    match os_release {
        Some(s) => match first_line_with_prefix(s.as_str(), "PRETTY_NAME=") {
            Some(l) => {
                let key = chars_of("PRETTY_NAME=");
                proof {
                    reveal_strlit("PRETTY_NAME=");
                }
                let v = trim_start_matches_chars(&l, &key);
                string_of(&trim_char_chars(&v, '"'))
            },
            None => String::from_str("Unknown"),
        },
        None => String::from_str("Unknown"),
    }
}

/// The trimmed output of a command, or the empty string.
pub fn command_output_text(out: &Option<String>) -> (r: String)
    ensures
        r@ == command_text(opt_view(*out)),
{
    match out {
        Some(s) => trim_str(s.as_str()),
        None => String::new(),
    }
}

/// The memory size in MiB from the text of `/proc/meminfo`.
pub fn ram_mb_from(meminfo: &Option<String>) -> (r: u64)
    ensures
        r == ram_mb_of(opt_view(*meminfo)),
{
    match meminfo {
        Some(s) => match first_line_with_prefix(s.as_str(), "MemTotal:") {
            Some(l) => {
                let ws = split_words(&l);
                if ws.len() > 1 {
                    proof {
                        assert(views(ws@)[1] == ws@[1]@);
                    }
                    match parse_u64_chars(&ws[1]) {
                        Some(v) => v / 1024,
                        None => 0,
                    }
                } else {
                    0
                }
            },
            None => 0,
        },
        None => 0,
    }
}

/// A copy of an optional string.
pub fn copy_opt(o: &Option<String>) -> (r: Option<String>)
    ensures
        opt_view(r) == opt_view(*o),
{
    match o {
        Some(s) => Some(s.clone()),
        None => None,
    }
}

impl SystemInfo {
    /// The system information the readings `probe` give. The parallelism
    /// read, when there is one, is a number of cores and so at least one.
    pub fn from_probe(probe: &SystemProbe) -> (r: SystemInfo)
        requires
            probe.parallelism matches Some(n) ==> n >= 1,
        ensures
            r@ == system_info_of(probe@),
            r.cpu_cores >= 1,
    {
        let desktop = match &probe.xdg_current_desktop {
            Some(x) => x.clone(),
            None => match &probe.desktop_session {
                Some(s) => s.clone(),
                None => String::from_str("Unknown"),
            },
        };
        let display_server = if probe.wayland_display.is_some() {
            String::from_str("Wayland")
        } else if probe.display.is_some() {
            String::from_str("X11")
        } else {
            String::from_str("Unknown")
        };
        let cpu_cores = match probe.parallelism {
            Some(n) => n,
            None => 1,
        };
        SystemInfo {
            distro: distro_name(&probe.os_release),
            kernel: command_output_text(&probe.uname_r),
            arch: command_output_text(&probe.uname_m),
            desktop: desktop,
            wayland_display: copy_opt(&probe.wayland_display),
            x11_display: copy_opt(&probe.display),
            display_server: display_server,
            ram_mb: ram_mb_from(&probe.meminfo),
            cpu_cores: cpu_cores,
        }
    }
}

/// The directories searched for Wine, in order, given the names of the
/// entries of `/opt` (see [`wine_search_dirs_spec`]).
pub fn wine_search_dirs(opt_names: &Vec<String>) -> (r: Vec<String>)
    ensures
        string_views(r@) == wine_search_dirs_spec(string_views(opt_names@)),
{
    let ghost names = string_views(opt_names@);
    let mut kept: Vec<String> = Vec::new();
    let mut keys: Vec<Vec<char>> = Vec::new();
    let n = opt_names.len();
    let mut i: usize = 0;
    proof {
        assert(names.take(0) =~= Seq::<Seq<char>>::empty());
        assert(seq_views(kept@) =~= Seq::<Seq<char>>::empty());
    }
    while i < n
        invariant
            i <= n,
            n == opt_names@.len(),
            names == string_views(opt_names@),
            seq_views(kept@) == wine_dir_names(names.take(i as int)),
            kept@.len() == keys@.len(),
            forall|j: int| 0 <= j < kept@.len() ==> #[trigger] keys@[j]@ == name_key(kept@[j]@),
        decreases n - i,
    {
        let name = &opt_names[i];
        proof {
            assert(names.take(i + 1).drop_last() =~= names.take(i as int));
            assert(names.take(i + 1).last() == name@);
        }
        let usual = str_eq(name.as_str(), "wine-11.16") || str_eq(name.as_str(), "wine-staging")
            || str_eq(name.as_str(), "wine-devel");
        proof {
            reveal_strlit("wine-11.16");
            reveal_strlit("wine-staging");
            reveal_strlit("wine-devel");
            lemma_usual_wine_names(name@);
        }
        if str_starts_with(name.as_str(), "wine-") && !usual {
            let ghost before = seq_views(kept@);
            kept.push(name.clone());
            keys.push(chars_of(name.as_str()));
            proof {
                assert(seq_views(kept@) =~= before.push(name@));
            }
        }
        i += 1;
    }
    proof {
        assert(names.take(n as int) =~= names);
    }
    let sorted = sort_items_by_key(kept, keys, Ghost(|n: Seq<char>| name_key(n)), false);
    let ghost sorted_names = sort_by_key(
        wine_dir_names(names),
        |n: Seq<char>| name_key(n),
        false,
    );
    let mut r: Vec<String> = Vec::new();
    let d1 = join_path("/opt", "wine-11.16");
    r.push(join_path(d1.as_str(), "bin"));
    let d2 = join_path("/opt", "wine-staging");
    r.push(join_path(d2.as_str(), "bin"));
    let d3 = join_path("/opt", "wine-devel");
    r.push(join_path(d3.as_str(), "bin"));
    let ghost usual_dirs = usual_wine_names().map_values(|n: Seq<char>| opt_wine_bin_dir(n));
    proof {
        assert(string_views(r@) =~= usual_dirs);
    }
    let m = sorted.len();
    let mut k: usize = 0;
    proof {
        assert(usual_dirs + sorted_names.take(0).map_values(|n: Seq<char>| opt_wine_bin_dir(n))
            =~= usual_dirs);
    }
    while k < m
        invariant
            k <= m,
            m == sorted@.len(),
            seq_views(sorted@) == sorted_names,
            usual_dirs == usual_wine_names().map_values(|n: Seq<char>| opt_wine_bin_dir(n)),
            string_views(r@) == usual_dirs + sorted_names.take(k as int).map_values(
                |n: Seq<char>| opt_wine_bin_dir(n),
            ),
        decreases m - k,
    {
        let dir = join_path("/opt", sorted[k].as_str());
        let bin = join_path(dir.as_str(), "bin");
        let ghost before = string_views(r@);
        r.push(bin);
        proof {
            assert(seq_views(sorted@)[k as int] == sorted@[k as int]@);
            assert(bin@ == opt_wine_bin_dir(sorted_names[k as int]));
            assert(string_views(r@) =~= before.push(bin@));
            assert(sorted_names.take(k + 1) =~= sorted_names.take(k as int).push(
                sorted_names[k as int],
            ));
            assert(string_views(r@) =~= usual_dirs + sorted_names.take(k + 1).map_values(
                |n: Seq<char>| opt_wine_bin_dir(n),
            ));
        }
        k += 1;
    }
    let ghost opt_dirs = string_views(r@);
    r.push(String::from_str("/usr/local/bin"));
    r.push(String::from_str("/usr/bin"));
    proof {
        assert(sorted_names.take(m as int) =~= sorted_names);
        assert(string_views(r@) =~= opt_dirs + seq!["/usr/local/bin"@, "/usr/bin"@]);
        assert(string_views(r@) =~= wine_search_dirs_spec(names));
    }
    r
}

/// A name is one of the usual ones exactly when it equals one of the three.
proof fn lemma_usual_wine_names(n: Seq<char>)
    ensures
        usual_wine_names().contains(n) <==> (n == "wine-11.16"@ || n == "wine-staging"@ || n
            == "wine-devel"@),
{
    let u = usual_wine_names();
    if n == "wine-11.16"@ {
        assert(u[0] == n);
    }
    if n == "wine-staging"@ {
        assert(u[1] == n);
    }
    if n == "wine-devel"@ {
        assert(u[2] == n);
    }
}

/// The `wine` binary in a directory.
pub fn wine_binary(bin_dir: &str) -> (r: String)
    ensures
        r@ == join(bin_dir@, "wine"@),
{
    join_path(bin_dir, "wine")
}

/// Where a Wayland driver may lie for the Wine in `bin_dir`.
pub fn wayland_driver_paths(bin_dir: &str) -> (r: Vec<String>)
    ensures
        string_views(r@) == seq![
            join(bin_dir@, "lib/wine/x86_64-unix/winewayland.drv.so"@),
            join(bin_dir@, "../lib/wine/x86_64-unix/winewayland.drv.so"@),
        ],
{
    let mut r: Vec<String> = Vec::new();
    r.push(join_path(bin_dir, "lib/wine/x86_64-unix/winewayland.drv.so"));
    r.push(join_path(bin_dir, "../lib/wine/x86_64-unix/winewayland.drv.so"));
    proof {
        assert(string_views(r@) =~= seq![
            join(bin_dir@, "lib/wine/x86_64-unix/winewayland.drv.so"@),
            join(bin_dir@, "../lib/wine/x86_64-unix/winewayland.drv.so"@),
        ]);
    }
    r
}

/// The Wine installation a probe shows, with the given version.
fn wine_install_from(p: &WineProbe, version: String) -> (r: WineInstall)
    ensures
        r@ == wine_install_of(p@, version@),
{
    let wine_bin = wine_binary(p.bin_dir.as_str());
    WineInstall {
        version: version,
        path: p.bin_dir.clone(),
        is_staging: str_contains(wine_bin.as_str(), "staging"),
        winegpp_path: join_path(p.bin_dir.as_str(), "wineg++"),
        has_wayland: p.has_wayland,
    }
}

/// Whether `v` is among the versions `seen`.
fn version_seen(seen: &Vec<Vec<char>>, v: &Vec<char>) -> (r: bool)
    ensures
        r == views(seen@).contains(v@),
{
    let n = seen.len();
    let mut i: usize = 0;
    while i < n
        invariant
            i <= n,
            n == seen@.len(),
            forall|j: int| 0 <= j < i ==> seen@[j]@ != v@,
        decreases n - i,
    {
        if chars_eq(&seen[i], v) {
            proof {
                assert(views(seen@)[i as int] == v@);
            }
            return true;
        }
        i += 1;
    }
    proof {
        if views(seen@).contains(v@) {
            let j = choose|j: int| 0 <= j < views(seen@).len() && views(seen@)[j] == v@;
            assert(seen@[j]@ == v@);
        }
    }
    false
}

/// The Wine installations the probes show (see [`wine_installs_of`]):
/// distinct versions, newest first.
pub fn wine_installs_from(probes: &Vec<WineProbe>) -> (r: Vec<WineInstall>)
    ensures
        seq_views(r@) == wine_installs_of(seq_views(probes@)),
{
    let ghost ps = seq_views(probes@);
    let n = probes.len();
    let mut found: Vec<WineInstall> = Vec::new();
    let mut keys: Vec<Vec<char>> = Vec::new();
    let mut i: usize = 0;
    proof {
        assert(ps.take(0) =~= Seq::<WineProbeView>::empty());
        assert(seq_views(found@) =~= Seq::<WineInstallView>::empty());
        assert(views(keys@) =~= versions_of(seq_views(found@)));
    }
    while i < n
        invariant
            i <= n,
            n == probes@.len(),
            ps == seq_views(probes@),
            seq_views(found@) == wine_installs_found(ps.take(i as int)),
            views(keys@) == versions_of(seq_views(found@)),
            found@.len() == keys@.len(),
        decreases n - i,
    {
        let ghost prefix = ps.take(i as int);
        let ghost next = ps.take(i + 1);
        let ghost before = seq_views(found@);
        let ghost before_keys = views(keys@);
        proof {
            assert(next.drop_last() =~= prefix);
            assert(next.last() == probes@[i as int]@);
        }
        match &probes[i].version_output {
            Some(o) => {
                let v = crate::text::trim_chars(&chars_of(o.as_str()));
                if !version_seen(&keys, &v) {
                    let install = wine_install_from(&probes[i], string_of(&v));
                    found.push(install);
                    keys.push(v);
                    proof {
                        assert(seq_views(found@) =~= before.push(wine_install_of(next.last(), v@)));
                        assert(views(keys@) =~= before_keys.push(v@));
                        assert(versions_of(seq_views(found@)) =~= versions_of(before).push(v@));
                    }
                }
            },
            None => {},
        }
        i += 1;
    }
    proof {
        assert(ps.take(n as int) =~= ps);
        assert forall|j: int| 0 <= j < found@.len() implies #[trigger] keys@[j]@ == wine_version_key(
            found@[j]@,
        ) by {
            assert(views(keys@)[j] == versions_of(seq_views(found@))[j]);
        }
    }
    sort_items_by_key(found, keys, Ghost(|w: WineInstallView| wine_version_key(w)), true)
}

/// The directories where yabridge may be installed, in order.
pub fn yabridge_data_dirs(home: &str) -> (r: Vec<String>)
    ensures
        string_views(r@) == yabridge_data_dirs_spec(home@),
{
    let mut r: Vec<String> = Vec::new();
    r.push(join_path(home, ".local/share/yabridge"));
    r.push(String::from_str("/usr/share/yabridge"));
    r.push(String::from_str("/usr/local/share/yabridge"));
    proof {
        assert(string_views(r@) =~= yabridge_data_dirs_spec(home@));
    }
    r
}

/// The places where `yabridgectl` may be, in order.
pub fn yabridgectl_candidates(home: &str) -> (r: Vec<String>)
    ensures
        string_views(r@) == yabridgectl_candidates_spec(home@),
{
    let mut r: Vec<String> = Vec::new();
    r.push(join_path(home, ".local/share/yabridge/yabridgectl"));
    r.push(String::from_str("/usr/local/bin/yabridgectl"));
    r.push(join_path(home, ".cargo/bin/yabridgectl"));
    r.push(String::from_str("/usr/bin/yabridgectl"));
    proof {
        assert(string_views(r@) =~= yabridgectl_candidates_spec(home@));
    }
    r
}

/// The yabridge host executable in a directory.
pub fn yabridge_host_exe(dir: &str) -> (r: String)
    ensures
        r@ == join(dir@, "yabridge-host.exe"@),
{
    join_path(dir, "yabridge-host.exe")
}

/// The yabridge installation in `dir` (see [`yabridge_install_of`]).
pub fn yabridge_install_at(
    dir: &str,
    version_output: &Option<String>,
    config_dir: &Option<String>,
) -> (r: YabridgeInstall)
    ensures
        r@ == yabridge_install_of(dir@, opt_view(*version_output), opt_view(*config_dir)),
{
    let version = match version_output {
        Some(o) => trim_str(o.as_str()),
        None => String::from_str("unknown"),
    };
    let config = match config_dir {
        Some(c) => join_path(c.as_str(), "yabridge"),
        None => String::new(),
    };
    YabridgeInstall {
        version: version,
        host_exe: join_path(dir, "yabridge-host.exe"),
        lib_vst2: join_path(dir, "libyabridge-vst2.so"),
        lib_vst3: join_path(dir, "libyabridge-vst3.so"),
        config_dir: config,
        data_dir: String::from_str(dir),
    }
}

// ---------------------------------------------------------------------------
// Laws
// ---------------------------------------------------------------------------
/// The versions found so far are distinct, and each installation comes from
/// a probe whose `wine` ran.
proof fn lemma_wine_installs_found(ps: Seq<WineProbeView>)
    ensures
        forall|i: int, j: int|
            0 <= i < j < wine_installs_found(ps).len() ==> #[trigger] wine_installs_found(ps)[i].version
                != #[trigger] wine_installs_found(ps)[j].version,
        forall|i: int|
            0 <= i < wine_installs_found(ps).len() ==> exists|k: int|
                0 <= k < ps.len() && ps[k].version_output is Some && #[trigger] wine_installs_found(
                    ps,
                )[i] == wine_install_of(ps[k], trim(ps[k].version_output.unwrap())),
    decreases ps.len(),
{
    if ps.len() > 0 {
        let prev = wine_installs_found(ps.drop_last());
        lemma_wine_installs_found(ps.drop_last());
        let cur = wine_installs_found(ps);
        assert forall|i: int|
            0 <= i < cur.len() implies exists|k: int|
            0 <= k < ps.len() && ps[k].version_output is Some && #[trigger] cur[i] == wine_install_of(
                ps[k],
                trim(ps[k].version_output.unwrap()),
            ) by {
            if i < prev.len() {
                assert(cur[i] == prev[i]);
                let k = choose|k: int|
                    0 <= k < ps.drop_last().len() && ps.drop_last()[k].version_output is Some
                        && prev[i] == wine_install_of(
                        ps.drop_last()[k],
                        trim(ps.drop_last()[k].version_output.unwrap()),
                    );
                assert(ps[k] == ps.drop_last()[k]);
            } else {
                assert(ps[ps.len() - 1] == ps.last());
            }
        }
        assert forall|i: int, j: int| 0 <= i < j < cur.len() implies #[trigger] cur[i].version
            != #[trigger] cur[j].version by {
            if j < prev.len() {
                assert(cur[i] == prev[i] && cur[j] == prev[j]);
            } else {
                assert(cur[i] == prev[i]);
                assert(versions_of(prev)[i] == prev[i].version);
            }
        }
    }
}

/// Law: the Wine installations reported have distinct versions, come newest
/// first, and are exactly those the search found.
pub proof fn lemma_wine_installs(ps: Seq<WineProbeView>)
    ensures
        forall|i: int, j: int|
            0 <= i < j < wine_installs_of(ps).len() ==> #[trigger] wine_installs_of(ps)[i].version
                != #[trigger] wine_installs_of(ps)[j].version,
        sorted_by_key(wine_installs_of(ps), |w: WineInstallView| wine_version_key(w), true),
        wine_installs_of(ps).to_multiset() == wine_installs_found(ps).to_multiset(),
{
    let key = |w: WineInstallView| wine_version_key(w);
    let found = wine_installs_found(ps);
    lemma_sort_by_key_sorted(found, key, true);
    lemma_sort_by_key_permutes(found, key, true);
    lemma_wine_installs_found(ps);
    let r = wine_installs_of(ps);
    assert forall|i: int, j: int| 0 <= i < j < r.len() implies #[trigger] r[i].version
        != #[trigger] r[j].version by {
        lemma_distinct_keys_sorted(found, r, i, j);
    }
}

/// In a sequence with the same elements as one whose versions are distinct,
/// two different positions hold different versions.
proof fn lemma_distinct_keys_sorted(
    found: Seq<WineInstallView>,
    r: Seq<WineInstallView>,
    i: int,
    j: int,
)
    requires
        r.to_multiset() == found.to_multiset(),
        forall|a: int, b: int|
            0 <= a < b < found.len() ==> #[trigger] found[a].version != #[trigger] found[b].version,
        0 <= i < j < r.len(),
    ensures
        r[i].version != r[j].version,
{
    if r[i].version == r[j].version {
        vstd::seq_lib::to_multiset_contains(r, r[i]);
        vstd::seq_lib::to_multiset_contains(r, r[j]);
        vstd::seq_lib::to_multiset_contains(found, r[i]);
        vstd::seq_lib::to_multiset_contains(found, r[j]);
        let a = choose|a: int| 0 <= a < found.len() && found[a] == r[i];
        let b = choose|b: int| 0 <= b < found.len() && found[b] == r[j];
        if a != b {
            if a < b {
                assert(found[a].version != found[b].version);
            } else {
                assert(found[b].version != found[a].version);
            }
        } else {
            // the same element twice in r would occur twice in found
            assert(r[i] == r[j]);
            lemma_count_two(r, i, j);
            assert(found.to_multiset().count(r[i]) >= 2);
            lemma_distinct_count_one(found, a);
        }
    }
}

/// An element at two positions occurs at least twice.
proof fn lemma_count_two<T>(s: Seq<T>, i: int, j: int)
    requires
        0 <= i < j < s.len(),
        s[i] == s[j],
    ensures
        s.to_multiset().count(s[i]) >= 2,
    decreases s.len(),
{
    broadcast use vstd::seq_lib::group_to_multiset_ensures;

    if j < s.len() - 1 {
        lemma_count_two(s.drop_last(), i, j);
        assert(s.drop_last().push(s.last()) =~= s);
        assert(s.drop_last()[i] == s[i]);
    } else {
        assert(s.drop_last().push(s.last()) =~= s);
        assert(s.drop_last()[i] == s[i]);
        vstd::seq_lib::to_multiset_contains(s.drop_last(), s[i]);
    }
}

/// In a sequence whose versions are distinct, each element occurs once.
proof fn lemma_distinct_count_one(s: Seq<WineInstallView>, a: int)
    requires
        forall|x: int, y: int| 0 <= x < y < s.len() ==> #[trigger] s[x].version != #[trigger] s[y].version,
        0 <= a < s.len(),
    ensures
        s.to_multiset().count(s[a]) == 1,
    decreases s.len(),
{
    broadcast use vstd::seq_lib::group_to_multiset_ensures;

    assert(s.drop_last().push(s.last()) =~= s);
    if a < s.len() - 1 {
        lemma_distinct_count_one(s.drop_last(), a);
        assert(s.drop_last()[a] == s[a]);
        assert(s.last() != s[a]) by {
            assert(s[a].version != s[s.len() - 1].version);
        }
    } else {
        if s.drop_last().contains(s[a]) {
            let x = choose|x: int| 0 <= x < s.drop_last().len() && s.drop_last()[x] == s[a];
            assert(s[x].version != s[a].version);
        }
        vstd::seq_lib::to_multiset_contains(s.drop_last(), s[a]);
    }
}

/// Every `wine-*` entry of the listing is among the Wine names.
proof fn lemma_wine_dir_names_contains(names: Seq<Seq<char>>, i: int)
    requires
        0 <= i < names.len(),
        starts_with(names[i], "wine-"@),
        !usual_wine_names().contains(names[i]),
    ensures
        wine_dir_names(names).contains(names[i]),
    decreases names.len(),
{
    let prev = wine_dir_names(names.drop_last());
    if i < names.len() - 1 {
        lemma_wine_dir_names_contains(names.drop_last(), i);
        assert(names.drop_last()[i] == names[i]);
        let k = choose|k: int| 0 <= k < prev.len() && prev[k] == names[i];
        if starts_with(names.last(), "wine-"@) && !usual_wine_names().contains(names.last()) {
            assert(wine_dir_names(names)[k] == names[i]);
        }
    } else {
        assert(wine_dir_names(names)[prev.len() as int] == names[i]);
    }
}

/// Law: the search for Wine looks first in the usual `/opt` Wine
/// directories, in order, then in the `bin` directory of every entry of
/// `/opt` whose name begins with `wine-`, and last in `/usr/local/bin` and
/// `/usr/bin`.
pub proof fn lemma_wine_search_covers_opt(opt_names: Seq<Seq<char>>)
    ensures
        forall|i: int|
            0 <= i < opt_names.len() && starts_with(opt_names[i], "wine-"@)
                ==> #[trigger] wine_search_dirs_spec(opt_names).contains(
                opt_wine_bin_dir(opt_names[i]),
            ),
        wine_search_dirs_spec(opt_names).take(3) == usual_wine_names().map_values(
            |n: Seq<char>| opt_wine_bin_dir(n),
        ),
        wine_search_dirs_spec(opt_names).len() >= 5,
        wine_search_dirs_spec(opt_names)[wine_search_dirs_spec(opt_names).len() - 2]
            == "/usr/local/bin"@,
        wine_search_dirs_spec(opt_names).last() == "/usr/bin"@,
{
    let key = |n: Seq<char>| name_key(n);
    let found = wine_dir_names(opt_names);
    let sorted = sort_by_key(found, key, false);
    let dirs = sorted.map_values(|n: Seq<char>| opt_wine_bin_dir(n));
    let usual = usual_wine_names().map_values(|n: Seq<char>| opt_wine_bin_dir(n));
    let all = wine_search_dirs_spec(opt_names);
    assert(all.take(3) =~= usual);
    lemma_sort_by_key_permutes(found, key, false);
    assert forall|i: int|
        0 <= i < opt_names.len() && starts_with(opt_names[i], "wine-"@) implies #[trigger] all.contains(
        opt_wine_bin_dir(opt_names[i]),
    ) by {
        if usual_wine_names().contains(opt_names[i]) {
            let k = choose|k: int|
                0 <= k < usual_wine_names().len() && usual_wine_names()[k] == opt_names[i];
            assert(all[k] == usual[k]);
        } else {
            lemma_wine_dir_names_contains(opt_names, i);
            vstd::seq_lib::to_multiset_contains(found, opt_names[i]);
            vstd::seq_lib::to_multiset_contains(sorted, opt_names[i]);
            let k = choose|k: int| 0 <= k < sorted.len() && sorted[k] == opt_names[i];
            assert(all[3 + k] == dirs[k]);
        }
    }
}

/// A probe whose `wine` printed a version that no other probe printed shows
/// up among the installations found.
proof fn lemma_wine_found_contains(ps: Seq<WineProbeView>, j: int)
    requires
        0 <= j < ps.len(),
        ps[j].version_output is Some,
        forall|k: int|
            0 <= k < ps.len() && k != j && (#[trigger] ps[k].version_output) is Some ==> trim(
                ps[k].version_output.unwrap(),
            ) != trim(ps[j].version_output.unwrap()),
    ensures
        wine_installs_found(ps).contains(
            wine_install_of(ps[j], trim(ps[j].version_output.unwrap())),
        ),
    decreases ps.len(),
{
    let w = wine_install_of(ps[j], trim(ps[j].version_output.unwrap()));
    let prev = wine_installs_found(ps.drop_last());
    if j < ps.len() - 1 {
        assert forall|k: int|
            0 <= k < ps.drop_last().len() && k != j && (
            #[trigger] ps.drop_last()[k].version_output) is Some implies trim(
            ps.drop_last()[k].version_output.unwrap(),
        ) != trim(ps.drop_last()[j].version_output.unwrap()) by {
            assert(ps.drop_last()[k] == ps[k]);
        }
        assert(ps.drop_last()[j] == ps[j]);
        lemma_wine_found_contains(ps.drop_last(), j);
        let i = choose|i: int| 0 <= i < prev.len() && prev[i] == w;
        match ps.last().version_output {
            Some(o) => if !versions_of(prev).contains(trim(o)) {
                assert(wine_installs_found(ps)[i] == w);
            },
            None => {},
        }
    } else {
        lemma_wine_installs_found(ps.drop_last());
        assert(ps.last() == ps[j]);
        if versions_of(prev).contains(trim(ps[j].version_output.unwrap())) {
            let i = choose|i: int|
                0 <= i < versions_of(prev).len() && versions_of(prev)[i] == trim(
                    ps[j].version_output.unwrap(),
                );
            let k = choose|k: int|
                0 <= k < ps.drop_last().len() && ps.drop_last()[k].version_output is Some
                    && #[trigger] prev[i] == wine_install_of(
                    ps.drop_last()[k],
                    trim(ps.drop_last()[k].version_output.unwrap()),
                );
            assert(ps.drop_last()[k] == ps[k]);
            assert(ps[k].version_output is Some);
            assert(false);
        }
        assert(wine_installs_found(ps)[prev.len() as int] == w);
    }
}

/// Law: a directory searched whose `wine` printed a version that no other
/// directory's `wine` printed is reported as a Wine installation, with that
/// directory as path and the trimmed output as version.
pub proof fn lemma_wine_found_in_dir(ps: Seq<WineProbeView>, j: int)
    requires
        0 <= j < ps.len(),
        ps[j].version_output is Some,
        forall|k: int|
            0 <= k < ps.len() && k != j && (#[trigger] ps[k].version_output) is Some ==> trim(
                ps[k].version_output.unwrap(),
            ) != trim(ps[j].version_output.unwrap()),
    ensures
        exists|i: int|
            0 <= i < wine_installs_of(ps).len() && (#[trigger] wine_installs_of(ps)[i]).path
                == ps[j].bin_dir && wine_installs_of(ps)[i].version == trim(
                ps[j].version_output.unwrap(),
            ),
{
    let w = wine_install_of(ps[j], trim(ps[j].version_output.unwrap()));
    let found = wine_installs_found(ps);
    lemma_wine_found_contains(ps, j);
    lemma_sort_by_key_permutes(found, |w: WineInstallView| wine_version_key(w), true);
    vstd::seq_lib::to_multiset_contains(found, w);
    vstd::seq_lib::to_multiset_contains(wine_installs_of(ps), w);
    let i = choose|i: int| 0 <= i < wine_installs_of(ps).len() && wine_installs_of(ps)[i] == w;
    assert(wine_installs_of(ps)[i].path == ps[j].bin_dir);
}

/// Law: the display server reported is Wayland whenever `WAYLAND_DISPLAY`
/// is set, whatever `DISPLAY` is; X11 when only `DISPLAY` is set; and
/// Unknown when neither is.
pub proof fn lemma_display_server(p: SystemProbeView)
    ensures
        p.wayland_display is Some ==> system_info_of(p).display_server == "Wayland"@,
        p.wayland_display is None && p.display is Some ==> system_info_of(p).display_server
            == "X11"@,
        p.wayland_display is None && p.display is None ==> system_info_of(p).display_server
            == "Unknown"@,
        system_info_of(p).wayland_display == p.wayland_display,
        system_info_of(p).x11_display == p.display,
{
}

/// The first line that starts with `p`, as a position: the line at `k`
/// starts with `p` and none before it does.
pub open spec fn first_line_at(ls: Seq<Seq<char>>, p: Seq<char>, k: int) -> bool {
    0 <= k < ls.len() && starts_with(ls[k], p) && forall|j: int|
        0 <= j < k ==> !starts_with(#[trigger] ls[j], p)
}

/// The first line with the prefix is the one at the first position that
/// has it; none when no line has it.
proof fn lemma_first_with_prefix(ls: Seq<Seq<char>>, p: Seq<char>)
    ensures
        forall|k: int| #[trigger] first_line_at(ls, p, k) ==> first_with_prefix(ls, p) == Some(ls[k]),
        (forall|j: int| 0 <= j < ls.len() ==> !starts_with(#[trigger] ls[j], p))
            ==> first_with_prefix(ls, p) is None,
    decreases ls.len(),
{
    if ls.len() > 0 {
        lemma_first_with_prefix(ls.drop_first(), p);
        assert forall|k: int| #[trigger] first_line_at(ls, p, k) implies first_with_prefix(ls, p)
            == Some(ls[k]) by {
            if k > 0 {
                assert(!starts_with(ls[0], p));
                assert(first_line_at(ls.drop_first(), p, k - 1)) by {
                    assert forall|j: int| 0 <= j < k - 1 implies !starts_with(
                        #[trigger] ls.drop_first()[j],
                        p,
                    ) by {
                        assert(ls.drop_first()[j] == ls[j + 1]);
                    }
                }
            }
        }
        if forall|j: int| 0 <= j < ls.len() ==> !starts_with(#[trigger] ls[j], p) {
            assert(!starts_with(ls[0], p));
            assert forall|j: int| 0 <= j < ls.drop_first().len() implies !starts_with(
                #[trigger] ls.drop_first()[j],
                p,
            ) by {
                assert(ls.drop_first()[j] == ls[j + 1]);
            }
        }
    }
}

/// Law: what the system readings give. The distribution is the first
/// `PRETTY_NAME=` line of `os-release` without its key and quotes, else
/// Unknown; the kernel and the architecture are the trimmed outputs of
/// `uname -r` and `uname -m`; the desktop is `XDG_CURRENT_DESKTOP`, else
/// `DESKTOP_SESSION`, else Unknown; the memory is the number after the first
/// `MemTotal:` line's key divided by 1024, else 0; the cores are the
/// parallelism read, else 1.
pub proof fn lemma_system_readings(p: SystemProbeView, k: int)
    ensures
        p.os_release is None ==> system_info_of(p).distro == "Unknown"@,
        p.os_release matches Some(s) ==> (first_line_at(lines(s), "PRETTY_NAME="@, k)
            ==> system_info_of(p).distro == trim_char(
            trim_start_matches(lines(s)[k], "PRETTY_NAME="@),
            '"',
        )),
        p.os_release matches Some(s) ==> ((forall|j: int|
            0 <= j < lines(s).len() ==> !starts_with(#[trigger] lines(s)[j], "PRETTY_NAME="@))
            ==> system_info_of(p).distro == "Unknown"@),
        p.uname_r matches Some(r) ==> system_info_of(p).kernel == trim(r),
        p.uname_m matches Some(m) ==> system_info_of(p).arch == trim(m),
        p.xdg_current_desktop matches Some(x) ==> system_info_of(p).desktop == x,
        p.xdg_current_desktop is None ==> (p.desktop_session matches Some(d)
            ==> system_info_of(p).desktop == d),
        p.xdg_current_desktop is None && p.desktop_session is None ==> system_info_of(p).desktop
            == "Unknown"@,
        p.meminfo is None ==> system_info_of(p).ram_mb == 0,
        p.meminfo matches Some(s) ==> (first_line_at(lines(s), "MemTotal:"@, k) && words(
            lines(s)[k],
        ).len() > 1 ==> (parse_u64(words(lines(s)[k])[1]) matches Some(v)
            ==> system_info_of(p).ram_mb == v / 1024)),
        p.meminfo matches Some(s) ==> ((forall|j: int|
            0 <= j < lines(s).len() ==> !starts_with(#[trigger] lines(s)[j], "MemTotal:"@))
            ==> system_info_of(p).ram_mb == 0),
        p.parallelism matches Some(n) ==> system_info_of(p).cpu_cores == n,
        p.parallelism is None ==> system_info_of(p).cpu_cores == 1,
{
    if let Some(s) = p.os_release {
        lemma_first_with_prefix(lines(s), "PRETTY_NAME="@);
    }
    if let Some(s) = p.meminfo {
        lemma_first_with_prefix(lines(s), "MemTotal:"@);
    }
}

/// Law: the Wine installations are listed newest version first: of any two,
/// the later one's version comes first in the order of
/// [`crate::text::lex_le`].
pub proof fn lemma_wine_newest_first(ps: Seq<WineProbeView>)
    ensures
        forall|i: int, j: int|
            0 <= i < j < wine_installs_of(ps).len() ==> crate::text::lex_le(
                #[trigger] wine_installs_of(ps)[j].version,
                #[trigger] wine_installs_of(ps)[i].version,
            ),
{
    lemma_wine_installs(ps);
    let r = wine_installs_of(ps);
    assert forall|i: int, j: int| 0 <= i < j < r.len() implies crate::text::lex_le(
        #[trigger] r[j].version,
        #[trigger] r[i].version,
    ) by {
        let key = |w: WineInstallView| wine_version_key(w);
        assert(sorted_by_key(r, key, true));
        assert(!crate::sorting::goes_before(key(r[j]), key(r[i]), true));
    }
}

} // verus!
