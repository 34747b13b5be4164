//! Wine: the graphics driver recorded in a prefix's registry, the registry
//! import that sets it, and the names and places of a Wine download.
use vstd::prelude::*;

use crate::backend::system::WineInstall;
use crate::backend::system::WineInstallView;
use crate::backend::system::opt_view;
use crate::paths::join;
use crate::paths::join_path;
use crate::text::contains;
use crate::text::occurs_at;
use crate::text::str_contains;
use crate::text::string_views;
use crate::text::trim;
use crate::text::trim_str;

verus! {

/// The Wine configuration of a prefix.
#[derive(Clone, Debug)]
pub struct WineConfig {
    pub graphics_driver: String,
    pub prefix: String,
    pub version: String,
}

/// The model of a [`WineConfig`].
pub struct WineConfigView {
    pub graphics_driver: Seq<char>,
    pub prefix: Seq<char>,
    pub version: Seq<char>,
}

impl View for WineConfig {
    type V = WineConfigView;

    open spec fn view(&self) -> WineConfigView {
        WineConfigView {
            graphics_driver: self.graphics_driver@,
            prefix: self.prefix@,
            version: self.version@,
        }
    }
}

// ---------------------------------------------------------------------------
// Specification
// ---------------------------------------------------------------------------
/// The head of a registry import for the Wine driver settings, up to the
/// opening quote of the `Graphics` value.
pub open spec fn registry_head() -> Seq<char> {
    "Windows Registry Editor Version 5.00\n\n[HKEY_CURRENT_USER\\Software\\Wine\\Drivers]\n\"Graphics\"=\""@
}

/// The registry import that sets Wine's graphics driver to `driver`.
pub open spec fn registry_import(driver: Seq<char>) -> Seq<char> {
    registry_head() + driver + "\"\n"@
}

/// The graphics driver recorded in the text of a prefix's `user.reg`
/// (`None` when the file does not exist): `x11,wayland` or `wayland` when
/// that `Graphics` value is present, `x11` otherwise.
pub open spec fn graphics_driver_of(user_reg: Option<Seq<char>>) -> Seq<char> {
    match user_reg {
        None => "x11"@,
        Some(c) => if contains(c, "\"Graphics\"=\"x11,wayland\""@) {
            "x11,wayland"@
        } else if contains(c, "\"Graphics\"=\"wayland\""@) {
            "wayland"@
        } else {
            "x11"@
        },
    }
}

/// A version: the trimmed output of `wine --version`, or `fallback` when it
/// did not run.
pub open spec fn version_text_of(out: Option<Seq<char>>, fallback: Seq<char>) -> Seq<char> {
    match out {
        Some(o) => trim(o),
        None => fallback,
    }
}

/// Where the Wine build `version` is downloaded from.
pub open spec fn wine_download_url_of(version: Seq<char>) -> Seq<char> {
    "https://github.com/Kron4ek/Wine-Builds/releases/download/"@ + version + "/wine-"@ + version
        + "-staging-amd64.tar.xz"@
}

/// The name of the downloaded archive of the Wine build `version`.
pub open spec fn wine_tarball_name_of(version: Seq<char>) -> Seq<char> {
    "wine-"@ + version + ".tar.xz"@
}

/// The installation unpacked into `install_dir`.
pub open spec fn downloaded_wine_of(
    install_dir: Seq<char>,
    version_output: Option<Seq<char>>,
    version: Seq<char>,
    has_wayland: bool,
) -> WineInstallView {
    WineInstallView {
        version: version_text_of(version_output, version),
        path: join(install_dir, "bin"@),
        is_staging: true,
        winegpp_path: join(install_dir, "bin/wineg++"@),
        has_wayland: has_wayland,
    }
}

// ---------------------------------------------------------------------------
// Implementation
// ---------------------------------------------------------------------------
/// The graphics driver recorded in the text of a prefix's `user.reg`.
pub fn graphics_driver_from_registry(user_reg: &Option<String>) -> (r: String)
    ensures
        r@ == graphics_driver_of(opt_view(*user_reg)),
{
    match user_reg {
        None => String::from_str("x11"),
        Some(c) => if str_contains(c.as_str(), "\"Graphics\"=\"x11,wayland\"") {
            String::from_str("x11,wayland")
        } else if str_contains(c.as_str(), "\"Graphics\"=\"wayland\"") {
            String::from_str("wayland")
        } else {
            String::from_str("x11")
        },
    }
}

/// The registry import that sets Wine's graphics driver to `driver`.
pub fn registry_import_text(driver: &str) -> (r: String)
    ensures
        r@ == registry_import(driver@),
{
    let mut r = String::from_str(
        "Windows Registry Editor Version 5.00\n\n[HKEY_CURRENT_USER\\Software\\Wine\\Drivers]\n\"Graphics\"=\"",
    );
    r.append(driver);
    r.append("\"\n");
    r
}

/// A version: the trimmed output of `wine --version`, or `fallback`.
pub fn version_text(out: &Option<String>, fallback: &str) -> (r: String)
    ensures
        r@ == version_text_of(opt_view(*out), fallback@),
{
    match out {
        Some(o) => trim_str(o.as_str()),
        None => String::from_str(fallback),
    }
}

/// Where the Wine build `version` is downloaded from.
pub fn wine_download_url(version: &str) -> (r: String)
    ensures
        r@ == wine_download_url_of(version@),
{
    let mut r = String::from_str("https://github.com/Kron4ek/Wine-Builds/releases/download/");
    r.append(version);
    r.append("/wine-");
    r.append(version);
    r.append("-staging-amd64.tar.xz");
    r
}

/// The name of the downloaded archive of the Wine build `version`.
pub fn wine_tarball_name(version: &str) -> (r: String)
    ensures
        r@ == wine_tarball_name_of(version@),
{
    let mut r = String::from_str("wine-");
    r.append(version);
    r.append(".tar.xz");
    r
}

/// The `wine` binary of a build unpacked into `install_dir`.
pub fn downloaded_wine_binary(install_dir: &str) -> (r: String)
    ensures
        r@ == join(install_dir@, "bin/wine"@),
{
    join_path(install_dir, "bin/wine")
}

/// The Wayland driver of a build unpacked into `install_dir`.
pub fn downloaded_wayland_driver(install_dir: &str) -> (r: String)
    ensures
        r@ == join(install_dir@, "lib/wine/x86_64-unix/winewayland.drv.so"@),
{
    join_path(install_dir, "lib/wine/x86_64-unix/winewayland.drv.so")
}

/// The installation unpacked into `install_dir` (see
/// [`downloaded_wine_of`]).
pub fn downloaded_wine(
    install_dir: &str,
    version_output: &Option<String>,
    version: &str,
    has_wayland: bool,
) -> (r: WineInstall)
    ensures
        r@ == downloaded_wine_of(install_dir@, opt_view(*version_output), version@, has_wayland),
{
    WineInstall {
        version: version_text(version_output, version),
        path: join_path(install_dir, "bin"),
        is_staging: true,
        winegpp_path: join_path(install_dir, "bin/wineg++"),
        has_wayland: has_wayland,
    }
}

/// The registry files whose presence marks an initialised prefix.
pub fn prefix_registry_files(prefix: &str) -> (r: Vec<String>)
    ensures
        string_views(r@) == seq![join(prefix@, "system.reg"@), join(prefix@, "user.reg"@)],
{
    let mut r: Vec<String> = Vec::new();
    r.push(join_path(prefix, "system.reg"));
    r.push(join_path(prefix, "user.reg"));
    proof {
        assert(string_views(r@) =~= seq![join(prefix@, "system.reg"@), join(prefix@, "user.reg"@)]);
    }
    r
}

/// The user registry file of a prefix.
pub fn user_registry_file(prefix: &str) -> (r: String)
    ensures
        r@ == join(prefix@, "user.reg"@),
{
    join_path(prefix, "user.reg")
}

// ---------------------------------------------------------------------------
// Laws
// ---------------------------------------------------------------------------
/// Law: for each of the three drivers the library offers, reading the
/// driver back from the registry import that sets it gives that driver.
pub proof fn lemma_graphics_driver_roundtrip(driver: Seq<char>)
    requires
        driver == "x11"@ || driver == "x11,wayland"@ || driver == "wayland"@,
    ensures
        graphics_driver_of(Some(registry_import(driver))) == driver,
{
    reveal_strlit(
        "Windows Registry Editor Version 5.00\n\n[HKEY_CURRENT_USER\\Software\\Wine\\Drivers]\n\"Graphics\"=\"",
    );
    reveal_strlit("\"\n");
    reveal_strlit("\"Graphics\"=\"x11,wayland\"");
    reveal_strlit("\"Graphics\"=\"wayland\"");
    reveal_strlit("x11,wayland");
    reveal_strlit("wayland");
    reveal_strlit("x11");
    let c = registry_import(driver);
    let both = "\"Graphics\"=\"x11,wayland\""@;
    let way = "\"Graphics\"=\"wayland\""@;
    let h = registry_head();
    if driver == "x11,wayland"@ {
        let i = h.len() - 12;
        assert(c.subrange(i, i + both.len()) =~= both);
        assert(occurs_at(c, both, i));
    } else if driver == "wayland"@ {
        // no 'x' in the text, but the pattern has one
        assert forall|i: int| !occurs_at(c, both, i) by {
            if occurs_at(c, both, i) {
                assert(c.subrange(i, i + both.len())[12] == both[12]);
                assert(c[i + 12] == 'x');
            }
        }
        let i = h.len() - 12;
        assert(c.subrange(i, i + way.len()) =~= way);
        assert(occurs_at(c, way, i));
    } else {
        // no ',' and no 'l' in the text, but each pattern has one
        assert forall|i: int| !occurs_at(c, both, i) by {
            if occurs_at(c, both, i) {
                assert(c.subrange(i, i + both.len())[15] == both[15]);
                assert(c[i + 15] == ',');
            }
        }
        assert forall|i: int| !occurs_at(c, way, i) by {
            if occurs_at(c, way, i) {
                assert(c.subrange(i, i + way.len())[15] == way[15]);
                assert(c[i + 15] == 'l');
            }
        }
    }
}

/// Law: the graphics driver read from a prefix is `x11` when it has no
/// `user.reg`; `x11,wayland` when the file sets `"Graphics"="x11,wayland"`;
/// otherwise `wayland` when it sets `"Graphics"="wayland"`; otherwise `x11`.
pub proof fn lemma_graphics_driver_read(user_reg: Option<Seq<char>>)
    ensures
        user_reg is None ==> graphics_driver_of(user_reg) == "x11"@,
        user_reg matches Some(c) && contains(c, "\"Graphics\"=\"x11,wayland\""@)
            ==> graphics_driver_of(user_reg) == "x11,wayland"@,
        user_reg matches Some(c) && !contains(c, "\"Graphics\"=\"x11,wayland\""@) && contains(
            c,
            "\"Graphics\"=\"wayland\""@,
        ) ==> graphics_driver_of(user_reg) == "wayland"@,
        user_reg matches Some(c) && !contains(c, "\"Graphics\"=\"x11,wayland\""@) && !contains(
            c,
            "\"Graphics\"=\"wayland\""@,
        ) ==> graphics_driver_of(user_reg) == "x11"@,
{
}

} // verus!
