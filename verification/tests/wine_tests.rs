use yabridge_manager::backend::wine::downloaded_wayland_driver;
use yabridge_manager::backend::wine::downloaded_wine;
use yabridge_manager::backend::wine::downloaded_wine_binary;
use yabridge_manager::backend::wine::graphics_driver_from_registry;
use yabridge_manager::backend::wine::prefix_registry_files;
use yabridge_manager::backend::wine::registry_import_text;
use yabridge_manager::backend::wine::user_registry_file;
use yabridge_manager::backend::wine::version_text;
use yabridge_manager::backend::wine::wine_download_url;
use yabridge_manager::backend::wine::wine_tarball_name;

#[test]
fn registry_import_for_a_driver() {
    assert_eq!(
        registry_import_text("x11,wayland"),
        "Windows Registry Editor Version 5.00\n\n[HKEY_CURRENT_USER\\Software\\Wine\\Drivers]\n\"Graphics\"=\"x11,wayland\"\n"
    );
}

#[test]
fn driver_read_back_from_its_import() {
    for d in ["x11", "x11,wayland", "wayland"] {
        assert_eq!(graphics_driver_from_registry(&Some(registry_import_text(d))), d);
    }
}

#[test]
fn driver_read_from_user_reg() {
    let reg = "[Software\\\\Wine\\\\Drivers] 1700000000\n\"Graphics\"=\"wayland\"\n";
    assert_eq!(graphics_driver_from_registry(&Some(reg.to_string())), "wayland");
    assert_eq!(graphics_driver_from_registry(&Some("\"Graphics\"=\"x11,wayland\"".to_string())), "x11,wayland");
    assert_eq!(graphics_driver_from_registry(&Some("nothing here".to_string())), "x11");
    assert_eq!(graphics_driver_from_registry(&None), "x11");
}

#[test]
fn download_names() {
    assert_eq!(
        wine_download_url("11.16"),
        "https://github.com/Kron4ek/Wine-Builds/releases/download/11.16/wine-11.16-staging-amd64.tar.xz"
    );
    assert_eq!(wine_tarball_name("11.16"), "wine-11.16.tar.xz");
    assert_eq!(downloaded_wine_binary("/w"), "/w/bin/wine");
    assert_eq!(downloaded_wayland_driver("/w"), "/w/lib/wine/x86_64-unix/winewayland.drv.so");
}

#[test]
fn downloaded_install_record() {
    let w = downloaded_wine("/home/u/.local/share/yabridge/wine-11.16", &Some("wine-11.16 (Staging)\n".to_string()), "11.16", true);
    assert_eq!(w.version, "wine-11.16 (Staging)");
    assert_eq!(w.path, "/home/u/.local/share/yabridge/wine-11.16/bin");
    assert!(w.is_staging);
    assert_eq!(w.winegpp_path, "/home/u/.local/share/yabridge/wine-11.16/bin/wineg++");
    assert!(w.has_wayland);
    let v = downloaded_wine("/w", &None, "11.16", false);
    assert_eq!(v.version, "11.16");
}

#[test]
fn version_text_or_fallback() {
    assert_eq!(version_text(&Some(" wine-9.0 \n".to_string()), "unknown"), "wine-9.0");
    assert_eq!(version_text(&None, "unknown"), "unknown");
}

#[test]
fn prefix_registry_paths() {
    assert_eq!(prefix_registry_files("/home/u/.wine"), vec!["/home/u/.wine/system.reg", "/home/u/.wine/user.reg"]);
    assert_eq!(user_registry_file("/p/"), "/p/user.reg");
}
