use yabridge_manager::backend::system::command_output_text;
use yabridge_manager::backend::system::distro_name;
use yabridge_manager::backend::system::first_line_with_prefix;
use yabridge_manager::backend::system::ram_mb_from;
use yabridge_manager::backend::system::wayland_driver_paths;
use yabridge_manager::backend::system::wine_binary;
use yabridge_manager::backend::system::wine_installs_from;
use yabridge_manager::backend::system::wine_search_dirs;
use yabridge_manager::backend::system::yabridge_data_dirs;
use yabridge_manager::backend::system::yabridge_host_exe;
use yabridge_manager::backend::system::yabridge_install_at;
use yabridge_manager::backend::system::yabridgectl_candidates;
use yabridge_manager::backend::system::SystemInfo;
use yabridge_manager::backend::system::SystemProbe;
use yabridge_manager::backend::system::WineProbe;

fn some(s: &str) -> Option<String> {
    Some(s.to_string())
}

const OS_RELEASE: &str = "NAME=\"Ubuntu\"\nVERSION_ID=\"24.04\"\nPRETTY_NAME=\"Ubuntu 24.04.1 LTS\"\nID=ubuntu\n";
const MEMINFO: &str = "MemTotal:       16318020 kB\nMemFree:         1234567 kB\n";

#[test]
fn distro_from_os_release() {
    assert_eq!(distro_name(&some(OS_RELEASE)), "Ubuntu 24.04.1 LTS");
    assert_eq!(distro_name(&some("PRETTY_NAME=Arch Linux\n")), "Arch Linux");
    assert_eq!(distro_name(&some("NAME=x\n")), "Unknown");
    assert_eq!(distro_name(&None), "Unknown");
}

#[test]
fn first_line_with_a_prefix() {
    let l = first_line_with_prefix("a=1\nb=2\nb=3", "b=").unwrap();
    assert_eq!(l.iter().collect::<String>(), "b=2");
    assert!(first_line_with_prefix("a=1", "c=").is_none());
}

#[test]
fn ram_from_meminfo() {
    assert_eq!(ram_mb_from(&some(MEMINFO)), 15935);
    assert_eq!(ram_mb_from(&some("MemTotal:\n")), 0);
    assert_eq!(ram_mb_from(&some("MemTotal: lots kB\n")), 0);
    assert_eq!(ram_mb_from(&some("MemFree: 1 kB\n")), 0);
    assert_eq!(ram_mb_from(&None), 0);
}

#[test]
fn command_output_is_trimmed() {
    assert_eq!(command_output_text(&some("6.8.0-45-generic\n")), "6.8.0-45-generic");
    assert_eq!(command_output_text(&None), "");
}

#[test]
fn system_info_from_readings() {
    let probe = SystemProbe {
        os_release: some(OS_RELEASE),
        uname_r: some("6.8.0\n"),
        uname_m: some("x86_64\n"),
        xdg_current_desktop: None,
        desktop_session: some("plasma"),
        wayland_display: some("wayland-0"),
        display: some(":0"),
        meminfo: some(MEMINFO),
        parallelism: None,
    };
    let info = SystemInfo::from_probe(&probe);
    assert_eq!(info.distro, "Ubuntu 24.04.1 LTS");
    assert_eq!(info.kernel, "6.8.0");
    assert_eq!(info.arch, "x86_64");
    assert_eq!(info.desktop, "plasma");
    assert_eq!(info.display_server, "Wayland");
    assert_eq!(info.wayland_display.as_deref(), Some("wayland-0"));
    assert_eq!(info.x11_display.as_deref(), Some(":0"));
    assert_eq!(info.ram_mb, 15935);
    assert_eq!(info.cpu_cores, 1);
}

#[test]
fn display_server_and_desktop_fallbacks() {
    let mut probe = SystemProbe {
        os_release: None,
        uname_r: None,
        uname_m: None,
        xdg_current_desktop: some("GNOME"),
        desktop_session: some("ubuntu"),
        wayland_display: None,
        display: some(":1"),
        meminfo: None,
        parallelism: Some(8),
    };
    let info = SystemInfo::from_probe(&probe);
    assert_eq!(info.display_server, "X11");
    assert_eq!(info.desktop, "GNOME");
    assert_eq!(info.cpu_cores, 8);
    probe.display = None;
    probe.xdg_current_desktop = None;
    probe.desktop_session = None;
    let info = SystemInfo::from_probe(&probe);
    assert_eq!(info.display_server, "Unknown");
    assert_eq!(info.desktop, "Unknown");
    assert_eq!(info.distro, "Unknown");
}

#[test]
fn wine_installs_distinct_and_newest_first() {
    let probes = vec![
        WineProbe { bin_dir: "/opt/wine-11.16/bin".to_string(), version_output: some("wine-11.16 (Staging)\n"), has_wayland: true },
        WineProbe { bin_dir: "/opt/wine-staging/bin".to_string(), version_output: some("wine-10.0 (Staging)\n"), has_wayland: false },
        WineProbe { bin_dir: "/opt/wine-devel/bin".to_string(), version_output: None, has_wayland: false },
        WineProbe { bin_dir: "/usr/local/bin".to_string(), version_output: some("wine-11.16 (Staging)\n"), has_wayland: false },
        WineProbe { bin_dir: "/usr/bin".to_string(), version_output: some("wine-9.0\n"), has_wayland: false },
    ];
    let r = wine_installs_from(&probes);
    let versions: Vec<&str> = r.iter().map(|w| w.version.as_str()).collect();
    assert_eq!(versions, vec!["wine-9.0", "wine-11.16 (Staging)", "wine-10.0 (Staging)"]);
    assert_eq!(r[1].path, "/opt/wine-11.16/bin");
    assert!(r[1].has_wayland);
    assert!(!r[1].is_staging);
    assert_eq!(r[1].winegpp_path, "/opt/wine-11.16/bin/wineg++");
    assert!(r[2].is_staging);
    assert!(wine_installs_from(&vec![]).is_empty());
}

#[test]
fn wine_search_places() {
    let listing = vec![
        "wine-staging".to_string(),
        "google".to_string(),
        "wine-11.16".to_string(),
        "wine-9.0".to_string(),
        "winetricks".to_string(),
    ];
    assert_eq!(
        wine_search_dirs(&listing),
        vec![
            "/opt/wine-11.16/bin",
            "/opt/wine-staging/bin",
            "/opt/wine-devel/bin",
            "/opt/wine-9.0/bin",
            "/usr/local/bin",
            "/usr/bin",
        ]
    );
    assert_eq!(
        wine_search_dirs(&vec![]),
        vec!["/opt/wine-11.16/bin", "/opt/wine-staging/bin", "/opt/wine-devel/bin", "/usr/local/bin", "/usr/bin"]
    );
    let more = vec!["wine-b".to_string(), "wine-devel".to_string(), "wine-a".to_string()];
    assert_eq!(
        wine_search_dirs(&more),
        vec![
            "/opt/wine-11.16/bin",
            "/opt/wine-staging/bin",
            "/opt/wine-devel/bin",
            "/opt/wine-a/bin",
            "/opt/wine-b/bin",
            "/usr/local/bin",
            "/usr/bin",
        ]
    );
    assert_eq!(wine_binary("/usr/bin"), "/usr/bin/wine");
    assert_eq!(
        wayland_driver_paths("/opt/w/bin"),
        vec![
            "/opt/w/bin/lib/wine/x86_64-unix/winewayland.drv.so",
            "/opt/w/bin/../lib/wine/x86_64-unix/winewayland.drv.so",
        ]
    );
}

#[test]
fn yabridge_places() {
    assert_eq!(
        yabridge_data_dirs("/home/u"),
        vec!["/home/u/.local/share/yabridge", "/usr/share/yabridge", "/usr/local/share/yabridge"]
    );
    assert_eq!(
        yabridgectl_candidates("/home/u"),
        vec![
            "/home/u/.local/share/yabridge/yabridgectl",
            "/usr/local/bin/yabridgectl",
            "/home/u/.cargo/bin/yabridgectl",
            "/usr/bin/yabridgectl",
        ]
    );
    assert_eq!(yabridge_host_exe("/usr/share/yabridge"), "/usr/share/yabridge/yabridge-host.exe");
}

#[test]
fn yabridge_install_record() {
    let i = yabridge_install_at("/usr/share/yabridge", &some("yabridgectl 5.1.1\n"), &some("/home/u/.config"));
    assert_eq!(i.version, "yabridgectl 5.1.1");
    assert_eq!(i.host_exe, "/usr/share/yabridge/yabridge-host.exe");
    assert_eq!(i.lib_vst2, "/usr/share/yabridge/libyabridge-vst2.so");
    assert_eq!(i.lib_vst3, "/usr/share/yabridge/libyabridge-vst3.so");
    assert_eq!(i.config_dir, "/home/u/.config/yabridge");
    assert_eq!(i.data_dir, "/usr/share/yabridge");
    let j = yabridge_install_at("/d", &None, &None);
    assert_eq!(j.version, "unknown");
    assert_eq!(j.config_dir, "");
}

#[test]
fn staging_kept_before_devel_for_the_same_version() {
    let dirs = wine_search_dirs(&vec!["wine-staging".to_string(), "wine-devel".to_string()]);
    let probes: Vec<WineProbe> = dirs
        .iter()
        .map(|d| WineProbe {
            bin_dir: d.clone(),
            version_output: if d == "/opt/wine-staging/bin" || d == "/opt/wine-devel/bin" {
                some("wine-10.0\n")
            } else {
                None
            },
            has_wayland: false,
        })
        .collect();
    let r = wine_installs_from(&probes);
    assert_eq!(r.len(), 1);
    assert_eq!(r[0].path, "/opt/wine-staging/bin");
    assert!(r[0].is_staging);
}

#[test]
fn wine_in_any_opt_dir_is_found() {
    let dirs = wine_search_dirs(&vec!["wine-9.0".to_string(), "other".to_string()]);
    assert_eq!(dirs.len(), 6);
    assert_eq!(dirs[3], "/opt/wine-9.0/bin");
    let probes: Vec<WineProbe> = dirs
        .iter()
        .map(|d| WineProbe {
            bin_dir: d.clone(),
            version_output: if d == "/opt/wine-9.0/bin" {
                some("wine-9.0\n")
            } else if d == "/usr/bin" {
                some("wine-8.0\n")
            } else {
                None
            },
            has_wayland: false,
        })
        .collect();
    let r = wine_installs_from(&probes);
    assert_eq!(r.len(), 2);
    assert!(r.iter().any(|w| w.path == "/opt/wine-9.0/bin" && w.version == "wine-9.0"));
}
