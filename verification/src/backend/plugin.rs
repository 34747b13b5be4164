//! Plugins: which files are VST2, VST3 or CLAP plugins, their names and
//! vendors, and the result of a scan over what a directory walk found.
use vstd::prelude::*;

use crate::backend::home::home_dir;
use crate::paths::extension;
use crate::paths::extension_of;
use crate::paths::file_name;
use crate::paths::file_name_of;
use crate::paths::file_stem;
use crate::paths::file_stem_of;
use crate::paths::join;
use crate::paths::join_path;
use crate::paths::parent;
use crate::paths::parent_of;
use crate::sorting::seq_views;
use crate::sorting::sort_by_key;
use crate::sorting::sort_items_by_key;
use crate::sorting::sorted_by_key;
use crate::sorting::lemma_sort_by_key_sorted;
use crate::sorting::lemma_sort_by_key_permutes;
use crate::sorting::lemma_sort_by_key_stable;
use crate::sorting::with_key;
use crate::text::chars_of;
use crate::text::contains;
use crate::text::ends_with;
use crate::text::has_substring;
use crate::text::str_ends_with;
use crate::text::str_eq;
use crate::text::string_views;

verus! {

/// A plugin format.
#[derive(Clone, Copy, Debug, PartialEq, Eq, Structural)]
pub enum PluginFormat {
    Vst2,
    Vst3,
    Clap,
}

/// The name shown for a format.
pub open spec fn format_label(f: PluginFormat) -> Seq<char> {
    match f {
        PluginFormat::Vst2 => "VST2"@,
        PluginFormat::Vst3 => "VST3"@,
        PluginFormat::Clap => "CLAP"@,
    }
}

impl PluginFormat {
    /// The name shown for the format (what `Display` writes).
    pub fn to_string(&self) -> (r: String)
        ensures
            r@ == format_label(*self),
    {
        match self {
            PluginFormat::Vst2 => String::from_str("VST2"),
            PluginFormat::Vst3 => String::from_str("VST3"),
            PluginFormat::Clap => String::from_str("CLAP"),
        }
    }
}

/// A plugin found on disk.
#[derive(Clone, Debug)]
pub struct Plugin {
    pub name: String,
    pub path: String,
    pub format: PluginFormat,
    pub vendor: String,
    pub enabled: bool,
    pub size_kb: u64,
}

/// The model of a [`Plugin`].
pub struct PluginView {
    pub name: Seq<char>,
    pub path: Seq<char>,
    pub format: PluginFormat,
    pub vendor: Seq<char>,
    pub enabled: bool,
    pub size_kb: u64,
}

impl View for Plugin {
    type V = PluginView;

    open spec fn view(&self) -> PluginView {
        PluginView {
            name: self.name@,
            path: self.path@,
            format: self.format,
            vendor: self.vendor@,
            enabled: self.enabled,
            size_kb: self.size_kb,
        }
    }
}

/// The outcome of a scan.
#[derive(Clone, Debug)]
pub struct PluginScanResult {
    pub plugins: Vec<Plugin>,
    pub total_size_kb: u64,
    pub scan_dirs: Vec<String>,
}

/// The model of a [`PluginScanResult`].
pub struct PluginScanResultView {
    pub plugins: Seq<PluginView>,
    pub total_size_kb: u64,
    pub scan_dirs: Seq<Seq<char>>,
}

impl View for PluginScanResult {
    type V = PluginScanResultView;

    open spec fn view(&self) -> PluginScanResultView {
        PluginScanResultView {
            plugins: seq_views(self.plugins@),
            total_size_kb: self.total_size_kb,
            scan_dirs: string_views(self.scan_dirs@),
        }
    }
}

/// A file that a directory walk met: its path and, when its metadata could
/// be read, its length in bytes.
#[derive(Clone, Debug)]
pub struct ScanEntry {
    pub path: String,
    pub byte_len: Option<u64>,
}

/// The model of a [`ScanEntry`].
pub struct ScanEntryView {
    pub path: Seq<char>,
    pub byte_len: Option<u64>,
}

impl View for ScanEntry {
    type V = ScanEntryView;

    open spec fn view(&self) -> ScanEntryView {
        ScanEntryView { path: self.path@, byte_len: self.byte_len }
    }
}

// ---------------------------------------------------------------------------
// Specification
// ---------------------------------------------------------------------------
/// An optional text, or the empty text.
pub open spec fn or_empty(o: Option<Seq<char>>) -> Seq<char> {
    match o {
        Some(s) => s,
        None => Seq::empty(),
    }
}

/// The file name of `path` ends in `.dll`, `.so` or `.vst`.
pub open spec fn has_vst2_name(path: Seq<char>) -> bool {
    let n = or_empty(file_name_of(path));
    ends_with(n, ".dll"@) || ends_with(n, ".so"@) || ends_with(n, ".vst"@)
}

/// The format of the file at `path`, if it is a plugin: `.dll`/`.so` files
/// with a VST2 name are VST2, `.vst3` is VST3, `.clap` is CLAP.
pub open spec fn format_of(path: Seq<char>) -> Option<PluginFormat> {
    let e = or_empty(extension_of(path));
    if (e == "dll"@ || e == "so"@) && has_vst2_name(path) {
        Some(PluginFormat::Vst2)
    } else if e == "vst3"@ {
        Some(PluginFormat::Vst3)
    } else if e == "clap"@ {
        Some(PluginFormat::Clap)
    } else {
        None
    }
}

/// How many vendors the library recognises by name.
pub open spec fn known_vendor_count() -> nat {
    22
}

/// The `i`-th known vendor: a name pattern and the vendor it stands for.
pub open spec fn known_vendor(i: int) -> (Seq<char>, Seq<char>) {
    if i == 0 {
        ("FabFilter"@, "FabFilter"@)
    } else if i == 1 {
        ("Soundtoys"@, "Soundtoys"@)
    } else if i == 2 {
        ("Waves"@, "Waves"@)
    } else if i == 3 {
        ("Valhalla"@, "ValhallaDSP"@)
    } else if i == 4 {
        ("iZotope"@, "iZotope"@)
    } else if i == 5 {
        ("Slate"@, "Slate Digital"@)
    } else if i == 6 {
        ("Arturia"@, "Arturia"@)
    } else if i == 7 {
        ("Native Instruments"@, "NI"@)
    } else if i == 8 {
        ("Plugin Alliance"@, "Plugin Alliance"@)
    } else if i == 9 {
        ("U-he"@, "U-he"@)
    } else if i == 10 {
        ("Kilohearts"@, "Kilohearts"@)
    } else if i == 11 {
        ("MeldaProduction"@, "MeldaProduction"@)
    } else if i == 12 {
        ("TDR"@, "Tokyo Dawn Records"@)
    } else if i == 13 {
        ("TAL"@, "Togu Audio Line"@)
    } else if i == 14 {
        ("Voxengo"@, "Voxengo"@)
    } else if i == 15 {
        ("LennarDigital"@, "LennarDigital"@)
    } else if i == 16 {
        ("Xfer"@, "Xfer Records"@)
    } else if i == 17 {
        ("Cableguys"@, "Cableguys"@)
    } else if i == 18 {
        ("Devious"@, "Devious Machines"@)
    } else if i == 19 {
        ("Eventide"@, "Eventide"@)
    } else if i == 20 {
        ("Sonnox"@, "Sonnox"@)
    } else {
        ("Toontrack"@, "Toontrack"@)
    }
}

/// What `str::to_lowercase` returns for `s`.
pub uninterp spec fn lowercase(s: Seq<char>) -> Seq<char>;

/// The first known vendor, from the `i`-th on, whose lowercased pattern
/// occurs in the lowercased name `lname`; `Unknown` when none does.
pub open spec fn vendor_from(lname: Seq<char>, i: nat) -> Seq<char>
    decreases known_vendor_count() - i,
{
    if i >= known_vendor_count() {
        "Unknown"@
    } else if contains(lname, lowercase(known_vendor(i as int).0)) {
        known_vendor(i as int).1
    } else {
        vendor_from(lname, i + 1)
    }
}

/// The name of the directory that holds `path`, or the empty text.
pub open spec fn parent_dir_name(path: Seq<char>) -> Seq<char> {
    match parent_of(path) {
        Some(p) => or_empty(file_name_of(p)),
        None => Seq::empty(),
    }
}

/// The vendor of the plugin named `name` at `path`: the holding directory's
/// name when it is not empty and differs from the plugin's name, otherwise
/// the first known vendor whose pattern occurs in the name (case aside).
pub open spec fn vendor_of(name: Seq<char>, path: Seq<char>) -> Seq<char> {
    vendor_choice(name, parent_dir_name(path), lowercase(name))
}

/// The vendor given the plugin's name, the name of its holding directory and
/// the lowercased plugin name: the directory's name when it is not empty and
/// differs from the plugin's name, otherwise the first known vendor whose
/// lowercased pattern occurs in `lname`.
pub open spec fn vendor_choice(name: Seq<char>, parent_name: Seq<char>, lname: Seq<char>) -> Seq<
    char,
> {
    if parent_name.len() > 0 && parent_name != name {
        parent_name
    } else {
        vendor_from(lname, 0)
    }
}

/// The plugin's name: the file stem, or `Unknown`.
pub open spec fn stem_or_unknown(path: Seq<char>) -> Seq<char> {
    match file_stem_of(path) {
        Some(s) => s,
        None => "Unknown"@,
    }
}

/// A size in whole kibibytes, 0 when unknown.
pub open spec fn size_kb_of(byte_len: Option<u64>) -> u64 {
    match byte_len {
        Some(n) => (n / 1024) as u64,
        None => 0,
    }
}

/// The plugin a scanned file is, if it is one.
pub open spec fn plugin_of(e: ScanEntryView) -> Option<PluginView> {
    match format_of(e.path) {
        Some(f) => {
            let name = stem_or_unknown(e.path);
            Some(
                PluginView {
                    name: name,
                    path: e.path,
                    format: f,
                    vendor: vendor_of(name, e.path),
                    enabled: true,
                    size_kb: size_kb_of(e.byte_len),
                },
            )
        },
        None => None,
    }
}

/// The plugins among the scanned files, in walk order.
pub open spec fn found_plugins(es: Seq<ScanEntryView>) -> Seq<PluginView>
    decreases es.len(),
{
    if es.len() == 0 {
        Seq::empty()
    } else {
        let prev = found_plugins(es.drop_last());
        match plugin_of(es.last()) {
            Some(p) => prev.push(p),
            None => prev,
        }
    }
}

/// The sum of the plugins' sizes.
pub open spec fn total_kb(ps: Seq<PluginView>) -> nat
    decreases ps.len(),
{
    if ps.len() == 0 {
        0
    } else {
        total_kb(ps.drop_last()) + ps.last().size_kb as nat
    }
}

/// A plugin's sort key: its name.
pub open spec fn plugin_name(p: PluginView) -> Seq<char> {
    p.name
}

/// The scan result for the files found, walking the directories `dirs`:
/// the plugins sorted by name (stably), their total size, and the
/// directories.
pub open spec fn scan_result_of(es: Seq<ScanEntryView>, dirs: Seq<Seq<char>>) -> PluginScanResultView {
    PluginScanResultView {
        plugins: sort_by_key(found_plugins(es), |p: PluginView| plugin_name(p), false),
        total_size_kb: total_kb(found_plugins(es)) as u64,
        scan_dirs: dirs,
    }
}

/// The directories under `home` where Windows plugins usually live in the
/// default Wine prefix.
pub open spec fn plugin_dirs_under(home: Seq<char>) -> Seq<Seq<char>> {
    seq![
        join(home, ".wine/drive_c/Program Files/Common Files/VST2"@),
        join(home, ".wine/drive_c/Program Files/Common Files/VST3"@),
        join(home, ".wine/drive_c/Program Files/VSTPlugins"@),
        join(home, ".wine/drive_c/Program Files/Steinberg/VSTPlugins"@),
        join(home, ".wine/drive_c/Program Files/Cakewalk/VST Plugins"@),
    ]
}

// ---------------------------------------------------------------------------
// Implementation
// ---------------------------------------------------------------------------
/// Calls `str::to_lowercase`; the result is named `lowercase`.
#[verifier::external_body]
pub(crate) fn to_lowercase(s: &str) -> (r: String)
    ensures
        r@ == lowercase(s@),
{
    s.to_lowercase()
}

/// Whether the file name of `path` ends in `.dll`, `.so` or `.vst`.
pub fn is_vst2(path: &str) -> (r: bool)
    ensures
        r == has_vst2_name(path@),
{
    let name = match file_name(path) {
        Some(n) => n,
        None => String::new(),
    };
    str_ends_with(name.as_str(), ".dll") || str_ends_with(name.as_str(), ".so") || str_ends_with(
        name.as_str(),
        ".vst",
    )
}

/// The `i`-th known vendor.
fn known_vendor_at(i: usize) -> (r: (&'static str, &'static str))
    requires
        i < known_vendor_count(),
    ensures
        r.0@ == known_vendor(i as int).0,
        r.1@ == known_vendor(i as int).1,
{
    if i == 0 {
        ("FabFilter", "FabFilter")
    } else if i == 1 {
        ("Soundtoys", "Soundtoys")
    } else if i == 2 {
        ("Waves", "Waves")
    } else if i == 3 {
        ("Valhalla", "ValhallaDSP")
    } else if i == 4 {
        ("iZotope", "iZotope")
    } else if i == 5 {
        ("Slate", "Slate Digital")
    } else if i == 6 {
        ("Arturia", "Arturia")
    } else if i == 7 {
        ("Native Instruments", "NI")
    } else if i == 8 {
        ("Plugin Alliance", "Plugin Alliance")
    } else if i == 9 {
        ("U-he", "U-he")
    } else if i == 10 {
        ("Kilohearts", "Kilohearts")
    } else if i == 11 {
        ("MeldaProduction", "MeldaProduction")
    } else if i == 12 {
        ("TDR", "Tokyo Dawn Records")
    } else if i == 13 {
        ("TAL", "Togu Audio Line")
    } else if i == 14 {
        ("Voxengo", "Voxengo")
    } else if i == 15 {
        ("LennarDigital", "LennarDigital")
    } else if i == 16 {
        ("Xfer", "Xfer Records")
    } else if i == 17 {
        ("Cableguys", "Cableguys")
    } else if i == 18 {
        ("Devious", "Devious Machines")
    } else if i == 19 {
        ("Eventide", "Eventide")
    } else if i == 20 {
        ("Sonnox", "Sonnox")
    } else {
        ("Toontrack", "Toontrack")
    }
}

/// The vendor of the plugin named `name` at `path` (see [`vendor_of`]).
pub fn extract_vendor(name: &str, path: &str) -> (r: String)
    ensures
        r@ == vendor_of(name@, path@),
{
    let parent_name = match parent(path) {
        Some(p) => match file_name(p.as_str()) {
            Some(n) => n,
            None => String::new(),
        },
        None => String::new(),
    };
    let lname = to_lowercase(name);
    vendor_from_names(name, parent_name.as_str(), lname.as_str())
}

/// The vendor of a plugin from its name, the name of the directory that holds
/// it (empty when there is none) and its lowercased name (see
/// [`vendor_choice`]).
pub fn vendor_from_names(name: &str, parent_name: &str, lowercase_name: &str) -> (r: String)
    ensures
        r@ == vendor_choice(name@, parent_name@, lowercase_name@),
{
    if chars_of(parent_name).len() > 0 && !str_eq(parent_name, name) {
        return String::from_str(parent_name);
    }
    let lname = chars_of(lowercase_name);
    let mut i: usize = 0;
    while i < 22
        invariant
            i <= known_vendor_count(),
            lname@ == lowercase_name@,
            vendor_choice(name@, parent_name@, lowercase_name@) == vendor_from(
                lowercase_name@,
                0,
            ),
            vendor_from(lowercase_name@, 0) == vendor_from(lowercase_name@, i as nat),
        decreases 22 - i,
    {
        let (pattern, vendor) = known_vendor_at(i);
        let lpattern = chars_of(to_lowercase(pattern).as_str());
        if has_substring(&lname, &lpattern) {
            let r = String::from_str(vendor);
            proof {
                assert(contains(lowercase_name@, lowercase(known_vendor(i as int).0)));
                assert(vendor_from(lowercase_name@, i as nat) == known_vendor(i as int).1);
            }
            return r;
        }
        i += 1;
    }
    String::from_str("Unknown")
}

/// The plugin format of the file at `path`, if it is a plugin.
pub fn plugin_format(path: &str) -> (r: Option<PluginFormat>)
    ensures
        r == format_of(path@),
{
    let ext = match extension(path) {
        Some(e) => e,
        None => String::new(),
    };
    if (str_eq(ext.as_str(), "dll") || str_eq(ext.as_str(), "so")) && is_vst2(path) {
        Some(PluginFormat::Vst2)
    } else if str_eq(ext.as_str(), "vst3") {
        Some(PluginFormat::Vst3)
    } else if str_eq(ext.as_str(), "clap") {
        Some(PluginFormat::Clap)
    } else {
        None
    }
}

/// The plugin that the scanned file `entry` is, if it is one.
pub fn plugin_from_entry(entry: &ScanEntry) -> (r: Option<Plugin>)
    ensures
        match r {
            Some(p) => plugin_of(entry@) == Some(p@),
            None => plugin_of(entry@).is_none(),
        },
{
    let path = entry.path.as_str();
    let format = match plugin_format(path) {
        Some(f) => f,
        None => {
            return None;
        },
    };
    let size_kb = match entry.byte_len {
        Some(n) => n / 1024,
        None => 0,
    };
    let name = match file_stem(path) {
        Some(s) => s,
        None => String::from_str("Unknown"),
    };
    let vendor = extract_vendor(name.as_str(), path);
    Some(
        Plugin {
            name: name,
            path: entry.path.clone(),
            format: format,
            vendor: vendor,
            enabled: true,
            size_kb: size_kb,
        },
    )
}

/// The scan result for the files a walk over `dirs` found, in walk order:
/// the plugins among them sorted by name, their total size in kibibytes and
/// the directories; `None` when the plugins' sizes add up to more than a
/// `u64` holds.
pub fn scan_result_from(entries: Vec<ScanEntry>, dirs: Vec<String>) -> (r: Option<
    PluginScanResult,
>)
    ensures
        r is Some <==> total_kb(found_plugins(seq_views(entries@))) <= u64::MAX,
        r matches Some(x) ==> x@ == scan_result_of(seq_views(entries@), string_views(dirs@)),
{
    let ghost es = seq_views(entries@);
    let n = entries.len();
    let mut found: Vec<Plugin> = Vec::new();
    let mut keys: Vec<Vec<char>> = Vec::new();
    let mut total: u64 = 0;
    let mut i: usize = 0;
    proof {
        assert(es.take(0) =~= Seq::<ScanEntryView>::empty());
        assert(seq_views(found@) =~= Seq::<PluginView>::empty());
    }
    while i < n
        invariant
            i <= n,
            n == entries@.len(),
            es == seq_views(entries@),
            seq_views(found@) == found_plugins(es.take(i as int)),
            found@.len() == keys@.len(),
            forall|j: int| 0 <= j < found@.len() ==> #[trigger] keys@[j]@ == found@[j]@.name,
            total == total_kb(found_plugins(es.take(i as int))),
        decreases n - i,
    {
        let ghost prefix = es.take(i as int);
        let ghost next = es.take(i + 1);
        proof {
            assert(next.drop_last() =~= prefix);
            assert(next.last() == entries@[i as int]@);
        }
        let ghost before = seq_views(found@);
        match plugin_from_entry(&entries[i]) {
            Some(p) => {
                let k = chars_of(p.name.as_str());
                proof {
                    assert(before.push(p@).drop_last() =~= before);
                    assert(found_plugins(next) == before.push(p@));
                    assert(total_kb(found_plugins(next)) == total + p@.size_kb);
                }
                match total.checked_add(p.size_kb) {
                    Some(t) => {
                        total = t;
                    },
                    None => {
                        proof {
                            lemma_total_kb_prefix(es, i + 1);
                        }
                        return None;
                    },
                }
                found.push(p);
                keys.push(k);
                proof {
                    assert(seq_views(found@) =~= before.push(p@));
                }
            },
            None => {
                proof {
                    assert(found_plugins(next) == before);
                }
            },
        }
        i += 1;
    }
    proof {
        assert(es.take(n as int) =~= es);
    }
    let plugins = sort_items_by_key(found, keys, Ghost(|p: PluginView| plugin_name(p)), false);
    Some(PluginScanResult { plugins: plugins, total_size_kb: total, scan_dirs: dirs })
}

/// The plugins among the first `m` files weigh no more than those among all.
proof fn lemma_total_kb_prefix(es: Seq<ScanEntryView>, m: int)
    requires
        0 <= m <= es.len(),
    ensures
        total_kb(found_plugins(es.take(m))) <= total_kb(found_plugins(es)),
    decreases es.len(),
{
    if m < es.len() {
        lemma_total_kb_prefix(es.drop_last(), m);
        assert(es.drop_last().take(m) =~= es.take(m));
        let prev = found_plugins(es.drop_last());
        match plugin_of(es.last()) {
            Some(p) => {
                assert(prev.push(p).drop_last() =~= prev);
            },
            None => {},
        }
    } else {
        assert(es.take(m) =~= es);
    }
}

/// The default plugin directories under `home`.
pub fn plugin_dirs_under_home(home: &str) -> (r: Vec<String>)
    ensures
        string_views(r@) == plugin_dirs_under(home@),
{
    let mut r: Vec<String> = Vec::new();
    r.push(join_path(home, ".wine/drive_c/Program Files/Common Files/VST2"));
    r.push(join_path(home, ".wine/drive_c/Program Files/Common Files/VST3"));
    r.push(join_path(home, ".wine/drive_c/Program Files/VSTPlugins"));
    r.push(join_path(home, ".wine/drive_c/Program Files/Steinberg/VSTPlugins"));
    r.push(join_path(home, ".wine/drive_c/Program Files/Cakewalk/VST Plugins"));
    proof {
        assert(string_views(r@) =~= plugin_dirs_under(home@));
    }
    r
}

/// The default plugin directories under the user's home directory (under
/// the empty path when there is none).
pub fn default_plugin_dirs() -> (r: Vec<String>)
    ensures
        exists|home: Seq<char>| string_views(r@) == plugin_dirs_under(home),
{
    let home = match home_dir() {
        Some(h) => h,
        None => String::new(),
    };
    plugin_dirs_under_home(home.as_str())
}

// ---------------------------------------------------------------------------
// Laws
// ---------------------------------------------------------------------------
/// Law: the plugins of a scan come sorted by name, each found file that is a
/// plugin appears exactly once, and every one of them is enabled.
pub proof fn lemma_scan_result_sorted(es: Seq<ScanEntryView>, dirs: Seq<Seq<char>>)
    ensures
        sorted_by_key(scan_result_of(es, dirs).plugins, |p: PluginView| plugin_name(p), false),
        scan_result_of(es, dirs).plugins.to_multiset() == found_plugins(es).to_multiset(),
        forall|i: int|
            0 <= i < scan_result_of(es, dirs).plugins.len() ==> (
            #[trigger] scan_result_of(es, dirs).plugins[i]).enabled,
{
    let key = |p: PluginView| plugin_name(p);
    lemma_sort_by_key_sorted(found_plugins(es), key, false);
    lemma_sort_by_key_permutes(found_plugins(es), key, false);
    lemma_found_plugins_enabled(es);
    let r = scan_result_of(es, dirs).plugins;
    assert forall|i: int| 0 <= i < r.len() implies (#[trigger] r[i]).enabled by {
        assert(r.to_multiset().count(r[i]) > 0) by {
            vstd::seq_lib::to_multiset_contains(r, r[i]);
        }
        vstd::seq_lib::to_multiset_contains(found_plugins(es), r[i]);
        let j = choose|j: int| 0 <= j < found_plugins(es).len() && found_plugins(es)[j] == r[i];
    }
}

/// Inserting a plugin anywhere adds its size to the total.
proof fn lemma_total_kb_insert(s: Seq<PluginView>, k: int, x: PluginView)
    requires
        0 <= k <= s.len(),
    ensures
        total_kb(s.insert(k, x)) == total_kb(s) + x.size_kb,
    decreases s.len(),
{
    if k == s.len() {
        assert(s.insert(k, x) =~= s.push(x));
        assert(s.push(x).drop_last() =~= s);
    } else {
        let t = s.drop_last();
        lemma_total_kb_insert(t, k, x);
        assert(s.insert(k, x).drop_last() =~= t.insert(k, x));
        assert(s.insert(k, x).last() == s.last());
    }
}

/// Sorting keeps the total size.
proof fn lemma_total_kb_sorted(s: Seq<PluginView>)
    ensures
        total_kb(sort_by_key(s, |p: PluginView| plugin_name(p), false)) == total_kb(s),
    decreases s.len(),
{
    if s.len() > 0 {
        let key = |p: PluginView| plugin_name(p);
        lemma_total_kb_sorted(s.drop_last());
        let rest = sort_by_key(s.drop_last(), key, false);
        crate::sorting::lemma_insert_index(rest, s.last(), key, false);
        lemma_total_kb_insert(
            rest,
            crate::sorting::insert_index(rest, s.last(), key, false) as int,
            s.last(),
        );
    }
}

/// Law: the reported total size is the sum of the reported plugins' sizes
/// (when it fits in a `u64`, as it must for `scan_result_from` to give a
/// result).
pub proof fn lemma_scan_total(es: Seq<ScanEntryView>, dirs: Seq<Seq<char>>)
    requires
        total_kb(found_plugins(es)) <= u64::MAX,
    ensures
        scan_result_of(es, dirs).total_size_kb == total_kb(scan_result_of(es, dirs).plugins),
{
    lemma_total_kb_sorted(found_plugins(es));
}

/// Law: plugins of the same name keep the order in which the walk met
/// them.
pub proof fn lemma_scan_result_stable(es: Seq<ScanEntryView>, dirs: Seq<Seq<char>>, name: Seq<char>)
    ensures
        with_key(scan_result_of(es, dirs).plugins, |p: PluginView| plugin_name(p), name) == with_key(
            found_plugins(es),
            |p: PluginView| plugin_name(p),
            name,
        ),
{
    lemma_sort_by_key_stable(found_plugins(es), |p: PluginView| plugin_name(p), false, name);
}

/// Every plugin found is enabled.
proof fn lemma_found_plugins_enabled(es: Seq<ScanEntryView>)
    ensures
        forall|i: int| 0 <= i < found_plugins(es).len() ==> (#[trigger] found_plugins(es)[i]).enabled,
    decreases es.len(),
{
    if es.len() > 0 {
        lemma_found_plugins_enabled(es.drop_last());
    }
}

/// Law: a file is reported as a plugin exactly when it has a plugin
/// format, under its file stem as name.
pub proof fn lemma_plugin_of_format(e: ScanEntryView)
    ensures
        plugin_of(e).is_some() <==> format_of(e.path).is_some(),
        plugin_of(e) matches Some(p) ==> p.format == format_of(e.path).unwrap() && p.name
            == stem_or_unknown(e.path) && p.path == e.path,
{
}

/// A number that tells the known vendors' names apart: their length and
/// first character.
spec fn vendor_code(v: Seq<char>) -> int {
    v.len() * 0x110000 + (v[0] as int)
}

/// The codes of the known vendors' names, row by row.
spec fn vendor_code_at(i: int) -> int {
    let (n, ch): (int, char) = if i == 0 {
        (9, 'F')
    } else if i == 1 {
        (9, 'S')
    } else if i == 2 {
        (5, 'W')
    } else if i == 3 {
        (11, 'V')
    } else if i == 4 {
        (7, 'i')
    } else if i == 5 {
        (13, 'S')
    } else if i == 6 {
        (7, 'A')
    } else if i == 7 {
        (2, 'N')
    } else if i == 8 {
        (15, 'P')
    } else if i == 9 {
        (4, 'U')
    } else if i == 10 {
        (10, 'K')
    } else if i == 11 {
        (15, 'M')
    } else if i == 12 {
        (18, 'T')
    } else if i == 13 {
        (15, 'T')
    } else if i == 14 {
        (7, 'V')
    } else if i == 15 {
        (13, 'L')
    } else if i == 16 {
        (12, 'X')
    } else if i == 17 {
        (9, 'C')
    } else if i == 18 {
        (16, 'D')
    } else if i == 19 {
        (8, 'E')
    } else if i == 20 {
        (6, 'S')
    } else {
        (9, 'T')
    };
    n * 0x110000 + (ch as int)
}

/// Each known vendor's name has the code of its row.
proof fn lemma_vendor_codes(i: int)
    requires
        0 <= i < known_vendor_count(),
    ensures
        known_vendor(i).1.len() > 0,
        vendor_code(known_vendor(i).1) == vendor_code_at(i),
{
    reveal_strlit("FabFilter");
    reveal_strlit("Soundtoys");
    reveal_strlit("Waves");
    reveal_strlit("ValhallaDSP");
    reveal_strlit("iZotope");
    reveal_strlit("Slate Digital");
    reveal_strlit("Arturia");
    reveal_strlit("NI");
    reveal_strlit("Plugin Alliance");
    reveal_strlit("U-he");
    reveal_strlit("Kilohearts");
    reveal_strlit("MeldaProduction");
    reveal_strlit("Tokyo Dawn Records");
    reveal_strlit("Togu Audio Line");
    reveal_strlit("Voxengo");
    reveal_strlit("LennarDigital");
    reveal_strlit("Xfer Records");
    reveal_strlit("Cableguys");
    reveal_strlit("Devious Machines");
    reveal_strlit("Eventide");
    reveal_strlit("Sonnox");
    reveal_strlit("Toontrack");
}

/// Law: the library knows at least twenty vendors, no two of them under the
/// same name and none of them called `Unknown`; a name whose lowercased form
/// holds the `i`-th lowercased pattern and none of the earlier ones is
/// credited to the `i`-th vendor.
#[verifier::rlimit(40)]
pub proof fn lemma_known_vendors()
    ensures
        known_vendor_count() >= 20,
        forall|i: int, j: int|
            0 <= i < j < known_vendor_count() ==> #[trigger] known_vendor(i).1
                != #[trigger] known_vendor(j).1,
        forall|i: int| 0 <= i < known_vendor_count() ==> #[trigger] known_vendor(i).1 != "Unknown"@,
        forall|lname: Seq<char>, i: int|
            #![trigger vendor_from(lname, 0), known_vendor(i)]
            0 <= i < known_vendor_count() && contains(lname, lowercase(known_vendor(i).0)) && (
            forall|j: int| 0 <= j < i ==> !contains(lname, lowercase(known_vendor(j).0)))
                ==> vendor_from(lname, 0) == known_vendor(i).1,
{
    assert forall|i: int, j: int|
        0 <= i < j < known_vendor_count() implies #[trigger] known_vendor(i).1
            != #[trigger] known_vendor(j).1 by {
        lemma_vendor_codes(i);
        lemma_vendor_codes(j);
    }
    assert forall|i: int| 0 <= i < known_vendor_count() implies #[trigger] known_vendor(i).1
        != "Unknown"@ by {
        lemma_vendor_codes(i);
        reveal_strlit("Unknown");
        assert(vendor_code("Unknown"@) == 7 * 0x110000 + ('U' as int));
    }
    assert forall|lname: Seq<char>, i: int|
        #![trigger vendor_from(lname, 0), known_vendor(i)]
        0 <= i < known_vendor_count() && contains(lname, lowercase(known_vendor(i).0)) && (
        forall|j: int| 0 <= j < i ==> !contains(lname, lowercase(known_vendor(j).0)))
            implies vendor_from(lname, 0) == known_vendor(i).1 by {
        lemma_vendor_from_first(lname, i, 0);
    }
}

/// Searching from row `k` on finds row `i` when row `i` matches and no row
/// from `k` to `i` before it does.
proof fn lemma_vendor_from_first(lname: Seq<char>, i: int, k: nat)
    requires
        k <= i < known_vendor_count(),
        contains(lname, lowercase(known_vendor(i).0)),
        forall|j: int| k <= j < i ==> !contains(lname, lowercase(known_vendor(j).0)),
    ensures
        vendor_from(lname, k) == known_vendor(i).1,
    decreases i - k,
{
    if k < i {
        assert(!contains(lname, lowercase(known_vendor(k as int).0)));
        lemma_vendor_from_first(lname, i, k + 1);
    }
}

/// The plugins among two walks' files taken together are those of the first
/// followed by those of the second.
proof fn lemma_found_plugins_concat(a: Seq<ScanEntryView>, b: Seq<ScanEntryView>)
    ensures
        found_plugins(a + b) == found_plugins(a) + found_plugins(b),
    decreases b.len(),
{
    if b.len() == 0 {
        assert(a + b =~= a);
        assert(found_plugins(a) + found_plugins(b) =~= found_plugins(a));
    } else {
        lemma_found_plugins_concat(a, b.drop_last());
        assert((a + b).drop_last() =~= a + b.drop_last());
        assert((a + b).last() == b.last());
        match plugin_of(b.last()) {
            Some(p) => {
                assert(found_plugins(a) + found_plugins(b.drop_last()).push(p) =~= (found_plugins(
                    a,
                ) + found_plugins(b.drop_last())).push(p));
            },
            None => {},
        }
    }
}

/// The total size of two lists of plugins taken together.
proof fn lemma_total_kb_concat(x: Seq<PluginView>, y: Seq<PluginView>)
    ensures
        total_kb(x + y) == total_kb(x) + total_kb(y),
    decreases y.len(),
{
    if y.len() == 0 {
        assert(x + y =~= x);
    } else {
        lemma_total_kb_concat(x, y.drop_last());
        assert((x + y).drop_last() =~= x + y.drop_last());
        assert((x + y).last() == y.last());
    }
}

/// Law: scanning what two walks found, taken together, gives the plugins of
/// both scans, their sizes added up, and both lists of directories.
pub proof fn lemma_scan_concat(
    a: Seq<ScanEntryView>,
    b: Seq<ScanEntryView>,
    dirs_a: Seq<Seq<char>>,
    dirs_b: Seq<Seq<char>>,
)
    ensures
        scan_result_of(a + b, dirs_a + dirs_b).plugins.to_multiset() == scan_result_of(
            a,
            dirs_a,
        ).plugins.to_multiset().add(scan_result_of(b, dirs_b).plugins.to_multiset()),
        scan_result_of(a + b, dirs_a + dirs_b).plugins.len() == scan_result_of(a, dirs_a).plugins.len()
            + scan_result_of(b, dirs_b).plugins.len(),
        total_kb(found_plugins(a + b)) == total_kb(found_plugins(a)) + total_kb(found_plugins(b)),
        total_kb(found_plugins(a + b)) <= u64::MAX ==> scan_result_of(a + b, dirs_a + dirs_b).total_size_kb
            == scan_result_of(a, dirs_a).total_size_kb + scan_result_of(b, dirs_b).total_size_kb,
        scan_result_of(a + b, dirs_a + dirs_b).scan_dirs == dirs_a + dirs_b,
{
    broadcast use vstd::seq_lib::to_multiset_len;

    let key = |p: PluginView| plugin_name(p);
    let fa = found_plugins(a);
    let fb = found_plugins(b);
    lemma_found_plugins_concat(a, b);
    lemma_total_kb_concat(fa, fb);
    lemma_sort_by_key_permutes(fa + fb, key, false);
    lemma_sort_by_key_permutes(fa, key, false);
    lemma_sort_by_key_permutes(fb, key, false);
    vstd::seq_lib::lemma_multiset_commutative(fa, fb);
    assert(sort_by_key(fa + fb, key, false).to_multiset().len() == (fa + fb).to_multiset().len());
    assert(sort_by_key(fa, key, false).to_multiset().len() == fa.to_multiset().len());
    assert(sort_by_key(fb, key, false).to_multiset().len() == fb.to_multiset().len());
}

/// The known vendors as (name pattern, vendor) pairs, in the order they are
/// tried.
pub open spec fn vendor_rows() -> Seq<(Seq<char>, Seq<char>)> {
    seq![
        ("FabFilter"@, "FabFilter"@),
        ("Soundtoys"@, "Soundtoys"@),
        ("Waves"@, "Waves"@),
        ("Valhalla"@, "ValhallaDSP"@),
        ("iZotope"@, "iZotope"@),
        ("Slate"@, "Slate Digital"@),
        ("Arturia"@, "Arturia"@),
        ("Native Instruments"@, "NI"@),
        ("Plugin Alliance"@, "Plugin Alliance"@),
        ("U-he"@, "U-he"@),
        ("Kilohearts"@, "Kilohearts"@),
        ("MeldaProduction"@, "MeldaProduction"@),
        ("TDR"@, "Tokyo Dawn Records"@),
        ("TAL"@, "Togu Audio Line"@),
        ("Voxengo"@, "Voxengo"@),
        ("LennarDigital"@, "LennarDigital"@),
        ("Xfer"@, "Xfer Records"@),
        ("Cableguys"@, "Cableguys"@),
        ("Devious"@, "Devious Machines"@),
        ("Eventide"@, "Eventide"@),
        ("Sonnox"@, "Sonnox"@),
        ("Toontrack"@, "Toontrack"@),
    ]
}

/// Law: vendor detection by name tries the patterns of [`vendor_rows`] in
/// order, and credits a name to the vendor paired with the first pattern
/// that occurs in it (case aside): a name whose lowercased form holds the
/// lowercased pattern of row `i` and of no earlier row is credited to row
/// `i`'s vendor, and a name that holds none of them to `Unknown`.
#[verifier::rlimit(60)]
pub proof fn lemma_vendor_rows()
    ensures
        known_vendor_count() == vendor_rows().len(),
        forall|lname: Seq<char>, i: int|
            #![trigger vendor_from(lname, 0), vendor_rows()[i]]
            0 <= i < vendor_rows().len() && contains(lname, lowercase(vendor_rows()[i].0)) && (
            forall|j: int| 0 <= j < i ==> !contains(lname, lowercase(vendor_rows()[j].0)))
                ==> vendor_from(lname, 0) == vendor_rows()[i].1,
        forall|lname: Seq<char>|
            (forall|j: int| 0 <= j < vendor_rows().len() ==> !contains(lname, lowercase(vendor_rows()[j].0)))
                ==> #[trigger] vendor_from(lname, 0) == "Unknown"@,
{
    assert forall|i: int| 0 <= i < known_vendor_count() implies #[trigger] known_vendor(i)
        == vendor_rows()[i] by {
        if i == 0 {} else if i == 1 {} else if i == 2 {} else if i == 3 {} else if i == 4 {} else if i == 5 {} else if i == 6 {} else if i == 7 {} else if i == 8 {} else if i == 9 {} else if i == 10 {} else if i == 11 {} else if i == 12 {} else if i == 13 {} else if i == 14 {} else if i == 15 {} else if i == 16 {} else if i == 17 {} else if i == 18 {} else if i == 19 {} else if i == 20 {} else if i == 21 {}
    }
    lemma_known_vendors();
    assert forall|lname: Seq<char>, i: int|
        #![trigger vendor_from(lname, 0), vendor_rows()[i]]
        0 <= i < vendor_rows().len() && contains(lname, lowercase(vendor_rows()[i].0)) && (
        forall|j: int| 0 <= j < i ==> !contains(lname, lowercase(vendor_rows()[j].0)))
            implies vendor_from(lname, 0) == vendor_rows()[i].1 by {
        assert(known_vendor(i) == vendor_rows()[i]);
        assert forall|j: int| 0 <= j < i implies !contains(lname, lowercase(known_vendor(j).0)) by {
            assert(known_vendor(j) == vendor_rows()[j]);
        }
        lemma_vendor_from_first(lname, i, 0);
    }
    assert forall|lname: Seq<char>|
        (forall|j: int| 0 <= j < vendor_rows().len() ==> !contains(lname, lowercase(vendor_rows()[j].0)))
            implies #[trigger] vendor_from(lname, 0) == "Unknown"@ by {
        assert forall|j: int| 0 <= j < known_vendor_count() implies !contains(
            lname,
            lowercase(known_vendor(j).0),
        ) by {
            assert(known_vendor(j) == vendor_rows()[j]);
        }
        lemma_vendor_from_none(lname, 0);
    }
}

/// Searching from row `k` on finds nothing when no row from `k` on matches.
proof fn lemma_vendor_from_none(lname: Seq<char>, k: nat)
    requires
        k <= known_vendor_count(),
        forall|j: int| k <= j < known_vendor_count() ==> !contains(lname, lowercase(known_vendor(j).0)),
    ensures
        vendor_from(lname, k) == "Unknown"@,
    decreases known_vendor_count() - k,
{
    if k < known_vendor_count() {
        assert(!contains(lname, lowercase(known_vendor(k as int).0)));
        lemma_vendor_from_none(lname, k + 1);
    }
}

/// Law: a file with the extension `vst3` is a VST3 plugin and one with the
/// extension `clap` a CLAP plugin; a file with the extension `dll` or `so`
/// whose name ends in `.dll`, `.so` or `.vst` is a VST2 plugin; no other
/// file is a plugin. A plugin found weighs its size in bytes divided by
/// 1024 (0 when unknown), is enabled, and is named by its file stem.
pub proof fn lemma_plugin_format(path: Seq<char>, e: ScanEntryView)
    ensures
        extension_of(path) == Some("vst3"@) ==> format_of(path) == Some(PluginFormat::Vst3),
        extension_of(path) == Some("clap"@) ==> format_of(path) == Some(PluginFormat::Clap),
        (extension_of(path) == Some("dll"@) || extension_of(path) == Some("so"@)) && (
        file_name_of(path) matches Some(n) && (ends_with(n, ".dll"@) || ends_with(n, ".so"@)
            || ends_with(n, ".vst"@))) ==> format_of(path) == Some(PluginFormat::Vst2),
        format_of(path) is Some ==> extension_of(path) == Some("vst3"@) || extension_of(path)
            == Some("clap"@) || extension_of(path) == Some("dll"@) || extension_of(path) == Some(
            "so"@,
        ),
        format_of(path) == Some(PluginFormat::Vst2) ==> (file_name_of(path) matches Some(n) && (
        ends_with(n, ".dll"@) || ends_with(n, ".so"@) || ends_with(n, ".vst"@))),
        plugin_of(e) matches Some(p) ==> p.size_kb == (match e.byte_len {
            Some(n) => n / 1024,
            None => 0,
        }) && p.enabled && p.path == e.path && (file_stem_of(e.path) matches Some(s) ==> p.name
            == s),
{
    reveal_strlit("vst3");
    reveal_strlit("clap");
    reveal_strlit("dll");
    reveal_strlit("so");
    assert("vst3"@ != "dll"@ && "vst3"@ != "so"@ && "clap"@ != "dll"@ && "clap"@ != "so"@
        && "vst3"@ != "clap"@) by {
        assert("vst3"@[0] != "dll"@[0]);
        assert("vst3"@.len() != "so"@.len());
        assert("clap"@[0] != "dll"@[0]);
        assert("clap"@.len() != "so"@.len());
        assert("vst3"@[0] != "clap"@[0]);
    }
    assert("vst3"@.len() == 4 && "clap"@.len() == 4 && "dll"@.len() == 3 && "so"@.len() == 2);
    if format_of(path) is Some {
        assert(extension_of(path) is Some);
    }
}

/// Law: a scan lists its plugins by name, in the order of
/// [`crate::text::lex_le`]: of any two, the earlier one's name comes first.
pub proof fn lemma_scan_by_name(es: Seq<ScanEntryView>, dirs: Seq<Seq<char>>)
    ensures
        forall|i: int, j: int|
            0 <= i < j < scan_result_of(es, dirs).plugins.len() ==> crate::text::lex_le(
                #[trigger] scan_result_of(es, dirs).plugins[i].name,
                #[trigger] scan_result_of(es, dirs).plugins[j].name,
            ),
{
    lemma_scan_result_sorted(es, dirs);
    let r = scan_result_of(es, dirs).plugins;
    assert forall|i: int, j: int| 0 <= i < j < r.len() implies crate::text::lex_le(
        #[trigger] r[i].name,
        #[trigger] r[j].name,
    ) by {
        let key = |p: PluginView| plugin_name(p);
        assert(sorted_by_key(r, key, false));
        assert(!crate::sorting::goes_before(key(r[j]), key(r[i]), false));
    }
}

} // verus!
