//! The setup page's state: what was found on the system, the work running in
//! the background and the message shown, and how each event changes it.
use vstd::prelude::*;

use crate::backend::system::SystemInfo;
use crate::backend::system::WineInstall;
use crate::backend::system::YabridgeInstall;
use crate::backend::yabridge::SyncResult;
use crate::paths::join;
use crate::paths::join_path;
use crate::text::decimal;
use crate::text::u64_to_string;
use crate::ui::worker::WorkerPoll;

verus! {

/// The outcome of a background task, as the page shows it.
#[derive(Clone, Debug)]
pub struct BgTaskResult {
    pub message: String,
    pub is_error: bool,
}

/// The state of the setup page.
#[derive(Debug)]
pub struct SetupPage {
    pub wine_install: Option<WineInstall>,
    pub yabridge_install: Option<YabridgeInstall>,
    pub system_info: Option<SystemInfo>,
    pub wine_installs: Vec<WineInstall>,
    pub selected_wine: Option<usize>,
    pub status_message: String,
    pub is_error: bool,
    pub is_working: bool,
    pub wine_version_to_install: String,
    pub update_available: Option<bool>,
}

/// The Wine version offered for installation.
pub open spec fn default_wine_version() -> Seq<char> {
    "11.16"@
}

/// The Wine installation chosen (see [`chosen_install`]).
fn choose_install(selected: Option<usize>, installs: &Vec<WineInstall>) -> (r: Option<WineInstall>)
    ensures
        r == chosen_install(selected, installs@),
{
    match selected {
        Some(i) if i < installs.len() => Some(installs[i].duplicate()),
        _ => if installs.len() > 0 {
            Some(installs[0].duplicate())
        } else {
            None
        },
    }
}

/// Where the Wine build `version` is installed for the user whose home is
/// `home`.
pub open spec fn wine_install_dir_of(home: Seq<char>, version: Seq<char>) -> Seq<char> {
    join(home, ".local/share/yabridge/wine-"@ + version)
}

/// The message shown after a sync: how many plugins it synced, then all it
/// printed.
pub open spec fn sync_message_of(synced: usize, output: Seq<char>) -> Seq<char> {
    "Sync finished: "@ + decimal(synced as nat) + " plugins found/synced.\n"@ + output
}

/// The Wine installation chosen: the one selected, when the selection is in
/// the list, otherwise the first one found.
pub open spec fn chosen_install(selected: Option<usize>, installs: Seq<WineInstall>) -> Option<
    WineInstall,
> {
    match selected {
        Some(i) if i < installs.len() => Some(installs[i as int]),
        _ => if installs.len() > 0 {
            Some(installs[0])
        } else {
            None
        },
    }
}

impl SetupPage {
    /// A fresh page: nothing found yet, Wine 11.16 offered.
    pub fn new() -> (r: SetupPage)
        ensures
            r.wine_install is None,
            r.yabridge_install is None,
            r.system_info is None,
            r.wine_installs@.len() == 0,
            r.selected_wine is None,
            r.status_message@ == Seq::<char>::empty(),
            !r.is_error,
            !r.is_working,
            r.wine_version_to_install@ == default_wine_version(),
            r.update_available is None,
    {
        SetupPage {
            wine_install: None,
            yabridge_install: None,
            system_info: None,
            wine_installs: Vec::new(),
            selected_wine: None,
            status_message: String::new(),
            is_error: false,
            is_working: false,
            wine_version_to_install: String::from_str("11.16"),
            update_available: None,
        }
    }

    /// After a refresh: what was found, with the Wine installation chosen
    /// (see [`chosen_install`]) for the selection kept.
    pub fn apply_refresh(
        &mut self,
        system_info: Option<SystemInfo>,
        wine_installs: Vec<WineInstall>,
        yabridge_install: Option<YabridgeInstall>,
        update_available: Option<bool>,
    )
        ensures
            *final(self) == (SetupPage {
                wine_install: chosen_install(old(self).selected_wine, wine_installs@),
                system_info: system_info,
                wine_installs: wine_installs,
                yabridge_install: yabridge_install,
                update_available: update_available,
                ..*old(self)
            }),
    {
        self.wine_install = choose_install(self.selected_wine, &wine_installs);
        self.system_info = system_info;
        self.wine_installs = wine_installs;
        self.yabridge_install = yabridge_install;
        self.update_available = update_available;
    }

    /// A background task starts, announced by `message`.
    pub fn begin_task(&mut self, message: &str)
        ensures
            final(self).status_message@ == message@,
            *final(self) == (SetupPage {
                is_working: true,
                is_error: false,
                status_message: final(self).status_message,
                ..*old(self)
            }),
    {
        self.is_working = true;
        self.is_error = false;
        self.status_message = String::from_str(message);
    }

    /// The background task ended with `result`, or broke off (`None`).
    pub fn finish_task(&mut self, result: Option<BgTaskResult>)
        ensures
            match result {
                Some(r) => *final(self) == (SetupPage {
                    is_working: false,
                    is_error: r.is_error,
                    status_message: r.message,
                    ..*old(self)
                }),
                None => final(self).status_message@ == "Background task ended unexpectedly."@
                    && *final(self) == (SetupPage {
                    is_working: false,
                    is_error: true,
                    status_message: final(self).status_message,
                    ..*old(self)
                }),
            },
    {
        self.is_working = false;
        match result {
            Some(r) => {
                self.is_error = r.is_error;
                self.status_message = r.message;
            },
            None => {
                self.is_error = true;
                self.status_message = String::from_str("Background task ended unexpectedly.");
            },
        }
    }

    /// A Wine installation is picked from the list; it becomes the one
    /// chosen.
    pub fn select_wine(&mut self, idx: usize)
        ensures
            *final(self) == (SetupPage {
                selected_wine: Some(idx),
                wine_install: chosen_install(Some(idx), old(self).wine_installs@),
                ..*old(self)
            }),
    {
        self.selected_wine = Some(idx);
        self.wine_install = choose_install(Some(idx), &self.wine_installs);
    }

    /// A button that starts a background task, announced by `message`, is
    /// clicked: the task starts unless one is running. Whether it started.
    pub fn click_task(&mut self, message: &str) -> (started: bool)
        ensures
            started == !old(self).is_working,
            started ==> final(self).status_message@ == message@ && *final(self) == (SetupPage {
                is_working: true,
                is_error: false,
                status_message: final(self).status_message,
                ..*old(self)
            }),
            !started ==> *final(self) == *old(self),
    {
        if self.is_working {
            false
        } else {
            self.begin_task(message);
            true
        }
    }

    /// "Sync Plugins" is clicked. While a task runs nothing happens. With no
    /// Wine installation chosen (see [`chosen_install`]) the page says so;
    /// otherwise the sync starts and the `wine` binary of the installation
    /// chosen is returned for it.
    pub fn click_sync(&mut self) -> (wine_bin: Option<String>)
        ensures
            old(self).is_working ==> wine_bin is None && *final(self) == *old(self),
            !old(self).is_working && chosen_install(old(self).selected_wine, old(self).wine_installs@)
                is None ==> wine_bin is None && final(self).status_message@
                == "No Wine installation selected, cannot sync."@ && *final(self) == (SetupPage {
                is_error: true,
                status_message: final(self).status_message,
                ..*old(self)
            }),
            !old(self).is_working ==> (chosen_install(old(self).selected_wine, old(self).wine_installs@)
                matches Some(w) ==> (wine_bin matches Some(b) && b@ == join(w.path@, "wine"@)
                && final(self).status_message@ == "Syncing plugins..."@ && *final(self) == (
            SetupPage {
                is_working: true,
                is_error: false,
                status_message: final(self).status_message,
                ..*old(self)
            }))),
    {
        if self.is_working {
            return None;
        }
        match choose_install(self.selected_wine, &self.wine_installs) {
            Some(w) => {
                let wine_bin = join_path(w.path.as_str(), "wine");
                self.begin_task("Syncing plugins...");
                Some(wine_bin)
            },
            None => {
                self.sync_without_wine();
                None
            },
        }
    }

    /// One look at the background task's channel: nothing yet leaves the
    /// page as it is; a result, or the task's end without one, finishes the
    /// task (see [`SetupPage::finish_task`]). Whether the task ended.
    pub fn poll_task(&mut self, poll: WorkerPoll<BgTaskResult>) -> (ended: bool)
        ensures
            match poll {
                WorkerPoll::Pending => !ended && *final(self) == *old(self),
                WorkerPoll::Done(r) => ended && *final(self) == (SetupPage {
                    is_working: false,
                    is_error: r.is_error,
                    status_message: r.message,
                    ..*old(self)
                }),
                WorkerPoll::Ended => ended && final(self).status_message@
                    == "Background task ended unexpectedly."@ && *final(self) == (SetupPage {
                    is_working: false,
                    is_error: true,
                    status_message: final(self).status_message,
                    ..*old(self)
                }),
            },
    {
        match poll {
            WorkerPoll::Pending => false,
            WorkerPoll::Done(r) => {
                self.finish_task(Some(r));
                true
            },
            WorkerPoll::Ended => {
                self.finish_task(None);
                true
            },
        }
    }

    /// "Sync Plugins" with no Wine installation chosen.
    pub fn sync_without_wine(&mut self)
        ensures
            final(self).status_message@ == "No Wine installation selected, cannot sync."@,
            *final(self) == (SetupPage {
                is_error: true,
                status_message: final(self).status_message,
                ..*old(self)
            }),
    {
        self.is_error = true;
        self.status_message = String::from_str("No Wine installation selected, cannot sync.");
    }
}

/// Where the Wine build `version` is installed for the user whose home is
/// `home`.
pub fn wine_install_dir(home: &str, version: &str) -> (r: String)
    ensures
        r@ == wine_install_dir_of(home@, version@),
{
    let mut rel = String::from_str(".local/share/yabridge/wine-");
    rel.append(version);
    join_path(home, rel.as_str())
}

/// The outcome of installing the Wine build `version`: `error` is the
/// failure, if any.
pub fn wine_install_outcome(version: &str, error: Option<String>) -> (r: BgTaskResult)
    ensures
        match error {
            None => !r.is_error && r.message@ == "Wine "@ + version@ + " installed successfully."@,
            Some(e) => r.is_error && r.message@ == "Failed to install Wine: "@ + e@,
        },
{
    match error {
        None => {
            let mut m = String::from_str("Wine ");
            m.append(version);
            m.append(" installed successfully.");
            BgTaskResult { message: m, is_error: false }
        },
        Some(e) => {
            let mut m = String::from_str("Failed to install Wine: ");
            m.append(e.as_str());
            BgTaskResult { message: m, is_error: true }
        },
    }
}

/// The outcome of installing yabridge into `data_dir`: `error` is the
/// failure, if any.
pub fn yabridge_install_outcome(data_dir: &str, error: Option<String>) -> (r: BgTaskResult)
    ensures
        match error {
            None => !r.is_error && r.message@ == "yabridge installed successfully in "@ + data_dir@
                + "."@,
            Some(e) => r.is_error && r.message@ == "Failed to install yabridge: "@ + e@,
        },
{
    match error {
        None => {
            let mut m = String::from_str("yabridge installed successfully in ");
            m.append(data_dir);
            m.append(".");
            BgTaskResult { message: m, is_error: false }
        },
        Some(e) => {
            let mut m = String::from_str("Failed to install yabridge: ");
            m.append(e.as_str());
            BgTaskResult { message: m, is_error: true }
        },
    }
}

/// The outcome of updating yabridge: the success message, or the failure.
pub fn yabridge_update_outcome(outcome: Result<String, String>) -> (r: BgTaskResult)
    ensures
        match outcome {
            Ok(m) => !r.is_error && r.message == m,
            Err(e) => r.is_error && r.message@ == "Failed to update yabridge: "@ + e@,
        },
{
    match outcome {
        Ok(m) => BgTaskResult { message: m, is_error: false },
        Err(e) => {
            let mut m = String::from_str("Failed to update yabridge: ");
            m.append(e.as_str());
            BgTaskResult { message: m, is_error: true }
        },
    }
}

/// The outcome of a sync: its summary (an error when the sync failed), or
/// the failure to run it.
pub fn sync_outcome(outcome: Result<SyncResult, String>) -> (r: BgTaskResult)
    ensures
        match outcome {
            Ok(s) => r.is_error == !s.success && r.message@ == sync_message_of(
                s.plugins_synced,
                s.output@,
            ),
            Err(e) => r.is_error && r.message@ == "Sync failed: "@ + e@,
        },
{
    match outcome {
        Ok(s) => {
            let mut m = String::from_str("Sync finished: ");
            m.append(u64_to_string(s.plugins_synced as u64).as_str());
            m.append(" plugins found/synced.\n");
            m.append(s.output.as_str());
            BgTaskResult { message: m, is_error: !s.success }
        },
        Err(e) => {
            let mut m = String::from_str("Sync failed: ");
            m.append(e.as_str());
            BgTaskResult { message: m, is_error: true }
        },
    }
}

} // verus!
