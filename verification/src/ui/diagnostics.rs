//! The diagnostics page's state: the system checks it shows and the text of
//! its log view.
use vstd::prelude::*;

use crate::backend::system::SystemInfo;
use crate::backend::system::SystemInfoView;
use crate::backend::system::opt_view;
use crate::text::string_views;
use crate::text::trim;
use crate::text::trim_str;

verus! {

/// The state of the diagnostics page.
#[derive(Debug)]
pub struct DiagnosticsPage {
    pub system_info: Option<SystemInfo>,
    pub log_output: String,
    pub is_loading: bool,
}

/// One line of the system check: what is checked, its value, and whether
/// it looks right.
#[derive(Clone, Debug)]
pub struct SystemCheck {
    pub name: String,
    pub value: String,
    pub ok: bool,
}

/// How loading `yabridgectl status` went.
#[derive(Clone, Debug)]
pub enum StatusLoad {
    /// `yabridgectl` was not found.
    NotFound,
    /// It could not be run; the reason.
    Failed(String),
    /// It ran and printed these.
    Ran { stdout: String, stderr: String },
}

/// A value or `Not set`.
pub open spec fn or_not_set(o: Option<Seq<char>>) -> Seq<char> {
    match o {
        Some(v) => v,
        None => "Not set"@,
    }
}

/// The system checks for `info`: the display server (fine unless
/// `Unknown`), then `WAYLAND_DISPLAY` and `DISPLAY` (fine when set).
pub open spec fn system_checks_of(info: SystemInfoView) -> Seq<(Seq<char>, Seq<char>, bool)> {
    seq![
        ("Display Server"@, info.display_server, info.display_server != "Unknown"@),
        ("WAYLAND_DISPLAY"@, or_not_set(info.wayland_display), info.wayland_display is Some),
        ("DISPLAY"@, or_not_set(info.x11_display), info.x11_display is Some),
    ]
}

/// The log text after loading `yabridgectl status`.
pub open spec fn status_log_of(load: StatusLoad) -> Seq<char> {
    match load {
        StatusLoad::NotFound => "yabridgectl not found in PATH"@,
        StatusLoad::Failed(e) => "Failed to run yabridgectl: "@ + e@,
        StatusLoad::Ran { stdout, stderr } => {
            let head = "=== yabridgectl status ===\n"@ + stdout@;
            if stderr@.len() == 0 {
                head
            } else {
                head + "\nSTDERR:\n"@ + stderr@
            }
        },
    }
}

/// The lines listing the prefix's entries.
pub open spec fn entry_lines(names: Seq<Seq<char>>) -> Seq<char>
    decreases names.len(),
{
    if names.len() == 0 {
        Seq::empty()
    } else {
        entry_lines(names.drop_last()) + "  "@ + names.last() + "\n"@
    }
}

/// The Wine debug text: the version (when `wine --version` ran), then, when
/// the prefix exists, its location and (when it could be listed) its
/// entries.
pub open spec fn wine_debug_of(
    version_output: Option<Seq<char>>,
    prefix: Seq<char>,
    prefix_exists: bool,
    entries: Option<Seq<Seq<char>>>,
) -> Seq<char> {
    let head = match version_output {
        Some(v) => "=== Wine Version ===\n"@ + trim(v) + "\n"@,
        None => "Loading Wine debug info..."@,
    };
    if prefix_exists {
        let with_prefix = head + "\n=== Wine Prefix ===\n"@ + prefix + "\n"@;
        match entries {
            Some(names) => with_prefix + "\nPrefix contents:\n"@ + entry_lines(names),
            None => with_prefix,
        }
    } else {
        head
    }
}

impl DiagnosticsPage {
    /// A fresh page: nothing detected, an empty log.
    pub fn new() -> (r: DiagnosticsPage)
        ensures
            r.system_info is None,
            r.log_output@ == Seq::<char>::empty(),
            !r.is_loading,
    {
        DiagnosticsPage { system_info: None, log_output: String::new(), is_loading: false }
    }

    /// "Clear": empties the log.
    pub fn clear_log(&mut self)
        ensures
            final(self).log_output@ == Seq::<char>::empty(),
            *final(self) == (DiagnosticsPage { log_output: final(self).log_output, ..*old(self) }),
    {
        self.log_output = String::new();
    }

    /// Loading `yabridgectl status` begins.
    pub fn begin_status_load(&mut self)
        ensures
            final(self).log_output@ == "Loading..."@,
            *final(self) == (DiagnosticsPage {
                log_output: final(self).log_output,
                is_loading: true,
                ..*old(self)
            }),
    {
        self.is_loading = true;
        self.log_output = String::from_str("Loading...");
    }

    /// Loading `yabridgectl status` ended as `load` says.
    pub fn finish_status_load(&mut self, load: StatusLoad)
        ensures
            final(self).log_output@ == status_log_of(load),
            *final(self) == (DiagnosticsPage {
                log_output: final(self).log_output,
                is_loading: false,
                ..*old(self)
            }),
    {
        let text = match &load {
            StatusLoad::NotFound => String::from_str("yabridgectl not found in PATH"),
            StatusLoad::Failed(e) => {
                let mut m = String::from_str("Failed to run yabridgectl: ");
                m.append(e.as_str());
                m
            },
            StatusLoad::Ran { stdout, stderr } => {
                let mut m = String::from_str("=== yabridgectl status ===\n");
                m.append(stdout.as_str());
                if !stderr.as_str().is_empty() {
                    m.append("\nSTDERR:\n");
                    m.append(stderr.as_str());
                }
                m
            },
        };
        self.log_output = text;
        self.is_loading = false;
    }

    /// The log shows the Wine debug text (see [`wine_debug_of`]).
    pub fn show_wine_debug(
        &mut self,
        version_output: &Option<String>,
        prefix: &str,
        prefix_exists: bool,
        entries: &Option<Vec<String>>,
    )
        ensures
            final(self).log_output@ == wine_debug_of(
                opt_view(*version_output),
                prefix@,
                prefix_exists,
                match entries {
                    Some(e) => Some(string_views(e@)),
                    None => None,
                },
            ),
            *final(self) == (DiagnosticsPage { log_output: final(self).log_output, ..*old(self) }),
    {
        let mut log = match version_output {
            Some(v) => {
                let mut m = String::from_str("=== Wine Version ===\n");
                m.append(trim_str(v.as_str()).as_str());
                m.append("\n");
                m
            },
            None => String::from_str("Loading Wine debug info..."),
        };
        if prefix_exists {
            log.append("\n=== Wine Prefix ===\n");
            log.append(prefix);
            log.append("\n");
            match entries {
                Some(names) => {
                    log.append("\nPrefix contents:\n");
                    let n = names.len();
                    let mut i: usize = 0;
                    let ghost start = log@;
                    proof {
                        assert(string_views(names@).take(0) =~= Seq::<Seq<char>>::empty());
                        assert(start =~= start + entry_lines(Seq::<Seq<char>>::empty()));
                    }
                    while i < n
                        invariant
                            i <= n,
                            n == names@.len(),
                            log@ == start + entry_lines(string_views(names@).take(i as int)),
                        decreases n - i,
                    {
                        let ghost before = log@;
                        log.append("  ");
                        log.append(names[i].as_str());
                        log.append("\n");
                        proof {
                            let v = string_views(names@);
                            assert(v.take(i + 1).drop_last() =~= v.take(i as int));
                            assert(v.take(i + 1).last() == names@[i as int]@);
                        }
                        i += 1;
                    }
                    proof {
                        assert(string_views(names@).take(n as int) =~= string_views(names@));
                    }
                },
                None => {},
            }
        }
        self.log_output = log;
    }
}

/// The system checks for `info` (see [`system_checks_of`]).
pub fn system_checks(info: &SystemInfo) -> (r: Vec<SystemCheck>)
    ensures
        r@.len() == 3,
        forall|i: int|
            0 <= i < 3 ==> (#[trigger] r@[i]).name@ == system_checks_of(info@)[i].0 && r@[i].value@
                == system_checks_of(info@)[i].1 && r@[i].ok == system_checks_of(info@)[i].2,
{
    let unknown = String::from_str("Unknown");
    let server_ok = !(info.display_server == unknown);
    let wayland = match &info.wayland_display {
        Some(v) => v.clone(),
        None => String::from_str("Not set"),
    };
    let x11 = match &info.x11_display {
        Some(v) => v.clone(),
        None => String::from_str("Not set"),
    };
    let mut r: Vec<SystemCheck> = Vec::new();
    r.push(
        SystemCheck {
            name: String::from_str("Display Server"),
            value: info.display_server.clone(),
            ok: server_ok,
        },
    );
    r.push(
        SystemCheck {
            name: String::from_str("WAYLAND_DISPLAY"),
            value: wayland,
            ok: info.wayland_display.is_some(),
        },
    );
    r.push(
        SystemCheck { name: String::from_str("DISPLAY"), value: x11, ok: info.x11_display.is_some() },
    );
    r
}

/// Law: the system checks are, in order, the display server (fine unless it
/// is Unknown), `WAYLAND_DISPLAY` and `DISPLAY` (each fine when set, and
/// shown as its value or `Not set`).
pub proof fn lemma_system_checks(info: SystemInfoView)
    ensures
        system_checks_of(info).len() == 3,
        system_checks_of(info)[0] == ("Display Server"@, info.display_server, info.display_server
            != "Unknown"@),
        system_checks_of(info)[1].0 == "WAYLAND_DISPLAY"@,
        system_checks_of(info)[1].2 <==> info.wayland_display is Some,
        info.wayland_display matches Some(v) ==> system_checks_of(info)[1].1 == v,
        info.wayland_display is None ==> system_checks_of(info)[1].1 == "Not set"@,
        system_checks_of(info)[2].0 == "DISPLAY"@,
        system_checks_of(info)[2].2 <==> info.x11_display is Some,
        info.x11_display matches Some(v) ==> system_checks_of(info)[2].1 == v,
        info.x11_display is None ==> system_checks_of(info)[2].1 == "Not set"@,
{
}

} // verus!
