use yabridge_manager::backend::plugin::scan_result_from;
use yabridge_manager::backend::plugin::PluginFormat;
use yabridge_manager::backend::plugin::ScanEntry;
use yabridge_manager::backend::system::SystemInfo;
use yabridge_manager::backend::system::WineInstall;
use yabridge_manager::backend::yabridge::summarize_sync;
use yabridge_manager::ui::config::driver_choices;
use yabridge_manager::ui::config::ConfigPage;
use yabridge_manager::ui::diagnostics::system_checks;
use yabridge_manager::ui::diagnostics::DiagnosticsPage;
use yabridge_manager::ui::diagnostics::StatusLoad;
use yabridge_manager::ui::plugins::format_filters;
use yabridge_manager::ui::plugins::PluginsPage;
use yabridge_manager::ui::setup::sync_outcome;
use yabridge_manager::ui::setup::wine_install_dir;
use yabridge_manager::ui::setup::wine_install_outcome;
use yabridge_manager::ui::setup::yabridge_install_outcome;
use yabridge_manager::ui::setup::yabridge_update_outcome;
use yabridge_manager::ui::setup::BgTaskResult;
use yabridge_manager::ui::setup::SetupPage;
use yabridge_manager::ui::worker::WorkerPoll;
use yabridge_manager::ui::sidebar::Page;

#[test]
fn page_names_and_icons() {
    assert_eq!(Page::Setup.label(), "Setup");
    assert_eq!(Page::Diagnostics.label(), "Diagnostics");
    assert_eq!(Page::Plugins.icon(), "\u{1F3B5}");
    assert_eq!(Page::Config.button_text(), "\u{1F4C1} Config");
    assert_eq!(Page::all(), vec![Page::Setup, Page::Plugins, Page::Config, Page::Diagnostics]);
}

#[test]
fn config_page_defaults_and_driver_actions() {
    let mut c = ConfigPage::new();
    assert_eq!(c.graphics_driver, "x11,wayland");
    assert!(c.prefix_path.is_none());
    c.select_driver("wayland".to_string());
    c.apply_driver_result(None);
    assert_eq!(c.status_message, "Graphics driver set to 'wayland'. Restart Wine applications to apply.");
    assert!(!c.is_error);
    c.apply_driver_result(Some("boom".to_string()));
    assert_eq!(c.status_message, "Failed: boom");
    assert!(c.is_error);
    c.reset_driver();
    assert_eq!(c.graphics_driver, "x11,wayland");
    assert_eq!(ConfigPage::wine_binary(), "/opt/wine-11.16/bin/wine");
    assert_eq!(ConfigPage::prefix_for_home(&Some("/home/u".to_string())), "/home/u/.wine");
    assert_eq!(ConfigPage::prefix_for_home(&None), ".wine");
    c.apply_refresh("/home/u/.wine".to_string(), Some("x11".to_string()));
    assert_eq!(c.prefix_path.as_deref(), Some("/home/u/.wine"));
    assert_eq!(c.graphics_driver, "x11");
    c.apply_refresh("/p".to_string(), None);
    assert_eq!(c.graphics_driver, "x11");
    let choices = driver_choices();
    assert_eq!(choices[1], ("x11,wayland", "X11 + Wayland (Recommended)"));
}

#[test]
fn config_page_scan_dirs() {
    let mut c = ConfigPage::new();
    c.add_typed_dir();
    assert!(c.custom_scan_dirs.is_empty());
    c.new_scan_dir = "/vst".to_string();
    c.add_typed_dir();
    assert_eq!(c.custom_scan_dirs, vec!["/vst"]);
    assert_eq!(c.new_scan_dir, "");
    c.add_picked_dir("/clap".to_string());
    c.remove_dir(0);
    assert_eq!(c.custom_scan_dirs, vec!["/clap"]);
    c.new_scan_dir = "/x".to_string();
    c.add_typed_dir();
    c.remove_dir(1);
    assert_eq!(c.custom_scan_dirs, vec!["/clap"]);
}

fn info(server: &str, wayland: Option<&str>, x11: Option<&str>) -> SystemInfo {
    SystemInfo {
        distro: "d".to_string(),
        kernel: "k".to_string(),
        arch: "a".to_string(),
        desktop: "x".to_string(),
        wayland_display: wayland.map(|s| s.to_string()),
        x11_display: x11.map(|s| s.to_string()),
        display_server: server.to_string(),
        ram_mb: 1,
        cpu_cores: 1,
    }
}

#[test]
fn diagnostics_checks() {
    let c = system_checks(&info("Wayland", Some("wayland-0"), None));
    assert_eq!(c[0].name, "Display Server");
    assert_eq!(c[0].value, "Wayland");
    assert!(c[0].ok);
    assert_eq!(c[1].value, "wayland-0");
    assert!(c[1].ok);
    assert_eq!(c[2].name, "DISPLAY");
    assert_eq!(c[2].value, "Not set");
    assert!(!c[2].ok);
    assert!(!system_checks(&info("Unknown", None, None))[0].ok);
}

#[test]
fn diagnostics_log_texts() {
    let mut d = DiagnosticsPage::new();
    d.begin_status_load();
    assert_eq!(d.log_output, "Loading...");
    assert!(d.is_loading);
    d.finish_status_load(StatusLoad::Ran { stdout: "ok\n".to_string(), stderr: "".to_string() });
    assert_eq!(d.log_output, "=== yabridgectl status ===\nok\n");
    assert!(!d.is_loading);
    d.finish_status_load(StatusLoad::Ran { stdout: "ok".to_string(), stderr: "warn".to_string() });
    assert_eq!(d.log_output, "=== yabridgectl status ===\nok\nSTDERR:\nwarn");
    d.finish_status_load(StatusLoad::NotFound);
    assert_eq!(d.log_output, "yabridgectl not found in PATH");
    d.finish_status_load(StatusLoad::Failed("denied".to_string()));
    assert_eq!(d.log_output, "Failed to run yabridgectl: denied");
    d.clear_log();
    assert_eq!(d.log_output, "");
    d.show_wine_debug(&Some("wine-11.16\n".to_string()), "/home/u/.wine", true, &Some(vec!["drive_c".to_string(), "user.reg".to_string()]));
    assert_eq!(
        d.log_output,
        "=== Wine Version ===\nwine-11.16\n\n=== Wine Prefix ===\n/home/u/.wine\n\nPrefix contents:\n  drive_c\n  user.reg\n"
    );
    d.show_wine_debug(&None, "/p", false, &None);
    assert_eq!(d.log_output, "Loading Wine debug info...");
}

fn entry(path: &str) -> ScanEntry {
    ScanEntry { path: path.to_string(), byte_len: Some(1024) }
}

#[test]
fn plugins_page_filters() {
    let mut p = PluginsPage::new();
    assert!(p.filtered_indices().is_empty());
    assert_eq!(p.scan_dirs.len(), 5);
    let r = scan_result_from(
        vec![entry("/FabFilter/Pro-Q 3.vst3"), entry("/Valhalla/Room.dll"), entry("/u-he/Diva.clap")],
        vec![],
    )
    .unwrap();
    p.set_scan_result(r);
    assert_eq!(p.filtered_indices(), vec![0, 1, 2]);
    p.filter_text = "VALHALLA".to_string();
    assert_eq!(p.filtered_indices(), vec![2]);
    p.filter_text = "pro".to_string();
    assert_eq!(p.filtered_indices(), vec![1]);
    p.filter_text = String::new();
    p.select_format(Some(PluginFormat::Clap));
    assert_eq!(p.filtered_indices(), vec![0]);
    p.select_format(None);
    p.select_plugin(1);
    assert_eq!(p.selected_plugin, Some(1));
    assert_eq!(format_filters()[3], (Some(PluginFormat::Clap), "CLAP"));
}

#[test]
fn plugins_page_scan_cycle() {
    let mut p = PluginsPage::new();
    let custom = vec!["/custom".to_string()];
    let dirs = p.start_scan(&custom).unwrap();
    assert_eq!(dirs.len(), 6);
    assert_eq!(dirs.last().unwrap(), "/custom");
    assert!(p.start_scan(&custom).is_none());
    assert!(p.is_scanning);
    p.finish_scan(None);
    assert!(!p.is_scanning);
    assert!(p.scan_result.is_none());
    assert!(p.start_scan(&vec![]).is_some());
    p.finish_scan(Some(scan_result_from(vec![entry("/a/b.vst3")], vec![]).unwrap()));
    assert_eq!(p.scan_result.as_ref().unwrap().plugins.len(), 1);
    p.add_scan_dir("/extra".to_string());
    assert_eq!(p.scan_dirs.last().unwrap(), "/extra");
    // A custom directory already scanned is not walked twice.
    let again = p.dirs_to_scan(&vec!["/extra".to_string(), "/more".to_string()]);
    assert_eq!(again.len(), 7);
    assert_eq!(again[5], "/extra");
    assert_eq!(again[6], "/more");
}

#[test]
fn plugins_page_polls_worker() {
    let mut p = PluginsPage::new();
    assert!(p.start_scan(&vec![]).is_some());
    assert!(!p.poll_scan(WorkerPoll::Pending));
    assert!(p.is_scanning);
    assert!(p.scan_result.is_none());
    let r = scan_result_from(vec![entry("/a/b.vst3")], vec![]).unwrap();
    assert!(p.poll_scan(WorkerPoll::Done(r)));
    assert!(!p.is_scanning);
    assert_eq!(p.scan_result.as_ref().unwrap().plugins.len(), 1);
    assert!(p.start_scan(&vec![]).is_some());
    assert!(p.poll_scan(WorkerPoll::Ended));
    assert!(!p.is_scanning);
    assert_eq!(p.scan_result.as_ref().unwrap().plugins.len(), 1);
}

fn wine(version: &str) -> WineInstall {
    WineInstall {
        version: version.to_string(),
        path: "/p".to_string(),
        is_staging: false,
        winegpp_path: "/p/wineg++".to_string(),
        has_wayland: false,
    }
}

#[test]
fn setup_page_task_cycle() {
    let mut s = SetupPage::new();
    assert_eq!(s.wine_version_to_install, "11.16");
    assert!(!s.is_working);
    s.apply_refresh(None, vec![wine("wine-11.16"), wine("wine-9.0")], None, Some(true));
    assert_eq!(s.wine_install.as_ref().unwrap().version, "wine-11.16");
    assert_eq!(s.wine_installs.len(), 2);
    assert_eq!(s.update_available, Some(true));
    s.select_wine(1);
    assert_eq!(s.selected_wine, Some(1));
    assert_eq!(s.wine_install.as_ref().unwrap().version, "wine-9.0");
    s.begin_task("Syncing plugins...");
    assert!(s.is_working);
    assert_eq!(s.status_message, "Syncing plugins...");
    s.finish_task(Some(BgTaskResult { message: "done".to_string(), is_error: false }));
    assert!(!s.is_working);
    assert_eq!(s.status_message, "done");
    s.begin_task("again");
    s.finish_task(None);
    assert!(!s.is_working);
    assert!(s.is_error);
    assert_eq!(s.status_message, "Background task ended unexpectedly.");
    s.sync_without_wine();
    assert_eq!(s.status_message, "No Wine installation selected, cannot sync.");
    s.apply_refresh(None, vec![], None, None);
    assert!(s.wine_install.is_none());
}

fn wine_at(version: &str, path: &str) -> WineInstall {
    WineInstall {
        version: version.to_string(),
        path: path.to_string(),
        is_staging: false,
        winegpp_path: format!("{}/wineg++", path),
        has_wayland: false,
    }
}

#[test]
fn setup_page_clicks() {
    let mut s = SetupPage::new();
    assert!(s.click_sync().is_none());
    assert!(s.is_error);
    assert_eq!(s.status_message, "No Wine installation selected, cannot sync.");
    s.apply_refresh(
        None,
        vec![wine_at("wine-11.16", "/opt/wine-11.16/bin"), wine_at("wine-9.0", "/opt/wine-9.0/bin")],
        None,
        None,
    );
    assert_eq!(s.click_sync().unwrap(), "/opt/wine-11.16/bin/wine");
    assert!(s.is_working);
    assert!(!s.is_error);
    assert_eq!(s.status_message, "Syncing plugins...");
    // While a task runs, clicks do nothing.
    assert!(s.click_sync().is_none());
    assert!(!s.click_task("Updating yabridge..."));
    assert_eq!(s.status_message, "Syncing plugins...");
    assert!(!s.poll_task(WorkerPoll::Pending));
    assert!(s.is_working);
    assert!(s.poll_task(WorkerPoll::Done(BgTaskResult { message: "ok".to_string(), is_error: false })));
    assert!(!s.is_working);
    assert_eq!(s.status_message, "ok");
    // The selected installation is the one synced with.
    s.select_wine(1);
    assert_eq!(s.click_sync().unwrap(), "/opt/wine-9.0/bin/wine");
    assert!(s.poll_task(WorkerPoll::Ended));
    assert!(s.is_error);
    assert_eq!(s.status_message, "Background task ended unexpectedly.");
    // The selection outlives a refresh.
    s.apply_refresh(
        None,
        vec![wine_at("wine-11.16", "/opt/wine-11.16/bin"), wine_at("wine-9.0", "/opt/wine-9.0/bin")],
        None,
        None,
    );
    assert_eq!(s.wine_install.as_ref().unwrap().version, "wine-9.0");
    assert!(s.click_task("Installing yabridge..."));
    assert!(s.is_working);
    assert_eq!(s.status_message, "Installing yabridge...");
}

#[test]
fn setup_messages() {
    assert_eq!(wine_install_dir("/home/u", "11.16"), "/home/u/.local/share/yabridge/wine-11.16");
    let ok = wine_install_outcome("11.16", None);
    assert_eq!(ok.message, "Wine 11.16 installed successfully.");
    assert!(!ok.is_error);
    let bad = wine_install_outcome("11.16", Some("no network".to_string()));
    assert_eq!(bad.message, "Failed to install Wine: no network");
    assert!(bad.is_error);
    assert_eq!(yabridge_install_outcome("/d", None).message, "yabridge installed successfully in /d.");
    assert_eq!(yabridge_install_outcome("/d", Some("x".to_string())).message, "Failed to install yabridge: x");
    assert_eq!(yabridge_update_outcome(Ok("fine".to_string())).message, "fine");
    assert_eq!(yabridge_update_outcome(Err("x".to_string())).message, "Failed to update yabridge: x");
    let sync = summarize_sync("plugin A\nplugin B", "", true);
    let m = sync_outcome(Ok(sync));
    assert_eq!(m.message, "Sync finished: 2 plugins found/synced.\nplugin A\nplugin B\n");
    assert!(!m.is_error);
    let failed = sync_outcome(Ok(summarize_sync("", "failed", false)));
    assert!(failed.is_error);
    assert_eq!(failed.message, "Sync finished: 0 plugins found/synced.\n\nfailed");
    assert_eq!(sync_outcome(Err("gone".to_string())).message, "Sync failed: gone");
}
