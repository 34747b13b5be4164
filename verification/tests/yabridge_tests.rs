use yabridge_manager::backend::yabridge::bundled_yabridge_candidates;
use yabridge_manager::backend::yabridge::copy_outcome;
use yabridge_manager::backend::yabridge::plugin_dir_candidates;
use yabridge_manager::backend::yabridge::plugin_dirs_or_default;
use yabridge_manager::backend::yabridge::plugin_dirs_with;
use yabridge_manager::paths::merge_dirs;
use yabridge_manager::backend::yabridge::summarize_sync;
use yabridge_manager::backend::yabridge::update_decision;
use yabridge_manager::backend::yabridge::update_message;
use yabridge_manager::backend::yabridge::user_yabridge_dir;
use yabridge_manager::backend::yabridge::wine_path_env;
use yabridge_manager::backend::yabridge::yabridge_binary_files;

const STATUS: &str = "yabridge path: '/home/u/.local/share/yabridge'\n  Plugin directories: /home/u/vst\n/home/u/.wine/drive_c/VST\n    /opt/clap  \nsomething else\n";

#[test]
fn plugin_dirs_from_status() {
    assert_eq!(plugin_dir_candidates(STATUS), vec!["/home/u/vst", "/home/u/.wine/drive_c/VST", "/opt/clap"]);
    assert!(plugin_dir_candidates("").is_empty());
}

#[test]
fn found_dirs_or_defaults() {
    assert_eq!(plugin_dirs_or_default(vec!["/a".to_string()]), vec!["/a"]);
    assert_eq!(plugin_dirs_or_default(vec![]).len(), 5);
}

#[test]
fn custom_dirs_join_the_plugin_dirs() {
    let custom = vec!["/a".to_string(), "/c".to_string(), "/c".to_string()];
    assert_eq!(plugin_dirs_with(vec!["/a".to_string(), "/b".to_string()], &custom), vec!["/a", "/b", "/c"]);
    let with_defaults = plugin_dirs_with(vec![], &custom);
    assert_eq!(with_defaults.len(), 7);
    assert_eq!(&with_defaults[5..], &["/a".to_string(), "/c".to_string()]);
    assert_eq!(merge_dirs(vec![], &vec![]), Vec::<String>::new());
}

#[test]
fn sync_summary_counts_and_errors() {
    let out = "Setting up VST2 plugins\nfound plugin Foo\nnothing\n";
    let err = "Error: could not load Bar\n  sync failed  \n";
    let r = summarize_sync(out, err, true);
    assert!(r.success);
    assert_eq!(r.plugins_found, 2);
    assert_eq!(r.plugins_synced, 2);
    assert_eq!(r.errors, vec!["Error: could not load Bar", "sync failed"]);
    assert_eq!(r.output, format!("{}\n{}", out, err));
    let f = summarize_sync(out, err, false);
    assert_eq!(f.plugins_found, 2);
    assert_eq!(f.plugins_synced, 0);
}

#[test]
fn path_for_sync() {
    assert_eq!(wine_path_env("/opt/wine/bin/wine", "/usr/bin").as_deref(), Some("/opt/wine/bin:/usr/bin"));
    assert_eq!(wine_path_env("wine", "/usr/bin").as_deref(), Some(":/usr/bin"));
    assert_eq!(wine_path_env("/", "/usr/bin"), None);
}

#[test]
fn yabridge_files_and_places() {
    let files = yabridge_binary_files();
    assert_eq!(files.len(), 9);
    assert_eq!(files[0], "yabridge-host.exe");
    assert_eq!(files[8], "libyabridge-chainloader-clap.so");
    assert_eq!(
        bundled_yabridge_candidates("/usr/bin"),
        vec!["/usr/bin/../share/yabridge-manager/yabridge", "/usr/bin/../share/yabridge", "/usr/bin/bundled/yabridge"]
    );
    assert_eq!(user_yabridge_dir("/home/u"), "/home/u/.local/share/yabridge");
}

#[test]
fn update_and_copy_decisions() {
    assert_eq!(update_decision(false, None), Some(true));
    assert_eq!(update_decision(true, Some(false)), Some(false));
    assert_eq!(update_decision(true, None), None);
    assert_eq!(update_message("/d"), "yabridge updated successfully in /d");
    assert_eq!(copy_outcome(3, "/b"), Ok(()));
    assert_eq!(copy_outcome(0, "/b"), Err("No files found in /b".to_string()));
}
