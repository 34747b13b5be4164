//! The configuration page's state: the Wine prefix, the graphics driver to
//! apply and the extra plugin directories, and how each action changes it.
use vstd::prelude::*;

use crate::backend::system::opt_view;
use crate::paths::join;
use crate::paths::join_path;
use crate::text::string_views;

verus! {

/// The state of the configuration page.
#[derive(Debug)]
pub struct ConfigPage {
    pub wine_bin_path: Option<String>,
    pub prefix_path: Option<String>,
    pub graphics_driver: String,
    pub custom_scan_dirs: Vec<String>,
    pub new_scan_dir: String,
    pub status_message: String,
    pub is_error: bool,
}

/// The model of a [`ConfigPage`].
pub struct ConfigPageView {
    pub wine_bin_path: Option<Seq<char>>,
    pub prefix_path: Option<Seq<char>>,
    pub graphics_driver: Seq<char>,
    pub custom_scan_dirs: Seq<Seq<char>>,
    pub new_scan_dir: Seq<char>,
    pub status_message: Seq<char>,
    pub is_error: bool,
}

impl View for ConfigPage {
    type V = ConfigPageView;

    open spec fn view(&self) -> ConfigPageView {
        ConfigPageView {
            wine_bin_path: opt_view(self.wine_bin_path),
            prefix_path: opt_view(self.prefix_path),
            graphics_driver: self.graphics_driver@,
            custom_scan_dirs: string_views(self.custom_scan_dirs@),
            new_scan_dir: self.new_scan_dir@,
            status_message: self.status_message@,
            is_error: self.is_error,
        }
    }
}

/// The recommended graphics driver: X11 and Wayland, Wine choosing.
pub open spec fn recommended_driver() -> Seq<char> {
    "x11,wayland"@
}

/// The graphics drivers offered, each with its label.
pub open spec fn driver_choices_spec() -> Seq<(Seq<char>, Seq<char>)> {
    seq![
        ("x11"@, "X11"@),
        ("x11,wayland"@, "X11 + Wayland (Recommended)"@),
        ("wayland"@, "Wayland Only"@),
    ]
}

/// The message after the graphics driver was set to `driver`.
pub open spec fn driver_set_message(driver: Seq<char>) -> Seq<char> {
    "Graphics driver set to '"@ + driver + "'. Restart Wine applications to apply."@
}

/// The Wine binary the configuration page uses.
pub open spec fn config_wine_binary() -> Seq<char> {
    "/opt/wine-11.16/bin/wine"@
}

impl ConfigPage {
    /// A fresh page: the recommended driver selected, everything else empty.
    pub fn new() -> (r: ConfigPage)
        ensures
            r@ == (ConfigPageView {
                wine_bin_path: None,
                prefix_path: None,
                graphics_driver: recommended_driver(),
                custom_scan_dirs: Seq::empty(),
                new_scan_dir: Seq::empty(),
                status_message: Seq::empty(),
                is_error: false,
            }),
    {
        let r = ConfigPage {
            wine_bin_path: None,
            prefix_path: None,
            graphics_driver: String::from_str("x11,wayland"),
            custom_scan_dirs: Vec::new(),
            new_scan_dir: String::new(),
            status_message: String::new(),
            is_error: false,
        };
        proof {
            assert(string_views(r.custom_scan_dirs@) =~= Seq::<Seq<char>>::empty());
        }
        r
    }

    /// The Wine binary the page reads and writes the configuration with.
    pub fn wine_binary() -> (r: String)
        ensures
            r@ == config_wine_binary(),
    {
        String::from_str("/opt/wine-11.16/bin/wine")
    }

    /// The Wine prefix for the user whose home is `home` (the empty path
    /// when there is none): `.wine` in it.
    pub fn prefix_for_home(home: &Option<String>) -> (r: String)
        ensures
            r@ == join(
                match opt_view(*home) {
                    Some(h) => h,
                    None => Seq::empty(),
                },
                ".wine"@,
            ),
    {
        match home {
            Some(h) => join_path(h.as_str(), ".wine"),
            None => {
                proof {
                    reveal_strlit("");
                }
                join_path("", ".wine")
            },
        }
    }

    /// After a refresh: the prefix is `prefix`, and the driver is the one
    /// read from it when reading succeeded.
    pub fn apply_refresh(&mut self, prefix: String, driver: Option<String>)
        ensures
            final(self)@ == (ConfigPageView {
                prefix_path: Some(prefix@),
                graphics_driver: match opt_view(driver) {
                    Some(d) => d,
                    None => old(self)@.graphics_driver,
                },
                ..old(self)@
            }),
    {
        self.prefix_path = Some(prefix);
        match driver {
            Some(d) => {
                self.graphics_driver = d;
            },
            None => {},
        }
    }

    /// After applying the selected driver: a confirmation naming it, or the
    /// failure `error`.
    pub fn apply_driver_result(&mut self, error: Option<String>)
        ensures
            final(self)@ == (ConfigPageView {
                status_message: match opt_view(error) {
                    None => driver_set_message(old(self)@.graphics_driver),
                    Some(e) => "Failed: "@ + e,
                },
                is_error: error is Some,
                ..old(self)@
            }),
    {
        match error {
            None => {
                let mut m = String::from_str("Graphics driver set to '");
                m.append(self.graphics_driver.as_str());
                m.append("'. Restart Wine applications to apply.");
                self.status_message = m;
                self.is_error = false;
            },
            Some(e) => {
                let mut m = String::from_str("Failed: ");
                m.append(e.as_str());
                self.status_message = m;
                self.is_error = true;
            },
        }
    }

    /// Selects a graphics driver.
    pub fn select_driver(&mut self, driver: String)
        ensures
            final(self)@ == (ConfigPageView { graphics_driver: driver@, ..old(self)@ }),
    {
        self.graphics_driver = driver;
    }

    /// "Reset to Default": selects the recommended driver.
    pub fn reset_driver(&mut self)
        ensures
            final(self)@ == (ConfigPageView { graphics_driver: recommended_driver(), ..old(self)@ }),
    {
        self.graphics_driver = String::from_str("x11,wayland");
    }

    /// "Add": a non-empty typed directory joins the list and the field is
    /// cleared; an empty one changes nothing.
    pub fn add_typed_dir(&mut self)
        ensures
            old(self)@.new_scan_dir.len() == 0 ==> final(self)@ == old(self)@,
            old(self)@.new_scan_dir.len() > 0 ==> final(self)@ == (ConfigPageView {
                custom_scan_dirs: old(self)@.custom_scan_dirs.push(old(self)@.new_scan_dir),
                new_scan_dir: Seq::empty(),
                ..old(self)@
            }),
    {
        if !self.new_scan_dir.as_str().is_empty() {
            let ghost before = string_views(self.custom_scan_dirs@);
            let d = self.new_scan_dir.clone();
            self.custom_scan_dirs.push(d);
            self.new_scan_dir = String::new();
            proof {
                assert(string_views(self.custom_scan_dirs@) =~= before.push(old(self)@.new_scan_dir));
            }
        }
    }

    /// A directory picked in the file browser joins the list.
    pub fn add_picked_dir(&mut self, dir: String)
        ensures
            final(self)@ == (ConfigPageView {
                custom_scan_dirs: old(self)@.custom_scan_dirs.push(dir@),
                ..old(self)@
            }),
    {
        let ghost before = string_views(self.custom_scan_dirs@);
        self.custom_scan_dirs.push(dir);
        proof {
            assert(string_views(self.custom_scan_dirs@) =~= before.push(dir@));
        }
    }

    /// "Remove": the directory at `idx` leaves the list.
    pub fn remove_dir(&mut self, idx: usize)
        requires
            idx < old(self)@.custom_scan_dirs.len(),
        ensures
            final(self)@ == (ConfigPageView {
                custom_scan_dirs: old(self)@.custom_scan_dirs.remove(idx as int),
                ..old(self)@
            }),
    {
        let ghost before = string_views(self.custom_scan_dirs@);
        self.custom_scan_dirs.remove(idx);
        proof {
            assert(string_views(self.custom_scan_dirs@) =~= before.remove(idx as int));
        }
    }
}

/// The graphics drivers offered, each with its label.
pub fn driver_choices() -> (r: Vec<(&'static str, &'static str)>)
    ensures
        r@.len() == 3,
        forall|i: int|
            0 <= i < 3 ==> (#[trigger] r@[i]).0@ == driver_choices_spec()[i].0 && r@[i].1@
                == driver_choices_spec()[i].1,
{
    let mut r: Vec<(&'static str, &'static str)> = Vec::new();
    r.push(("x11", "X11"));
    r.push(("x11,wayland", "X11 + Wayland (Recommended)"));
    r.push(("wayland", "Wayland Only"));
    r
}

/// Law: adding a typed directory and then removing it again restores the
/// list of directories.
pub proof fn lemma_add_then_remove(dirs: Seq<Seq<char>>, d: Seq<char>)
    ensures
        dirs.push(d).remove(dirs.len() as int) == dirs,
{
    assert(dirs.push(d).remove(dirs.len() as int) =~= dirs);
}

} // verus!
