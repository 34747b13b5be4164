use yabridge_manager::backend::plugin::default_plugin_dirs;
use yabridge_manager::backend::plugin::extract_vendor;
use yabridge_manager::backend::plugin::is_vst2;
use yabridge_manager::backend::plugin::plugin_dirs_under_home;
use yabridge_manager::backend::plugin::plugin_from_entry;
use yabridge_manager::backend::plugin::scan_result_from;
use yabridge_manager::backend::plugin::vendor_from_names;
use yabridge_manager::backend::plugin::plugin_format;
use yabridge_manager::backend::plugin::PluginFormat;
use yabridge_manager::backend::plugin::ScanEntry;

fn entry(path: &str, byte_len: Option<u64>) -> ScanEntry {
    ScanEntry { path: path.to_string(), byte_len }
}

#[test]
fn format_names() {
    assert_eq!(PluginFormat::Vst2.to_string(), "VST2");
    assert_eq!(PluginFormat::Vst3.to_string(), "VST3");
    assert_eq!(PluginFormat::Clap.to_string(), "CLAP");
}

#[test]
fn vst2_names() {
    assert!(is_vst2("/plugins/Foo.dll"));
    assert!(is_vst2("/plugins/libfoo.so"));
    assert!(is_vst2("/plugins/Old.vst"));
    assert!(!is_vst2("/plugins/Foo.vst3"));
    assert!(!is_vst2("/plugins/Foo.clap"));
    assert!(!is_vst2("/"));
}

#[test]
fn vendor_from_holding_directory() {
    assert_eq!(extract_vendor("Pro-Q 3", "/vst3/FabFilter/Pro-Q 3.vst3"), "FabFilter");
    assert_eq!(extract_vendor("Nova", "/plugins/TDR/Nova.dll"), "TDR");
}

#[test]
fn vendor_from_known_names() {
    assert_eq!(extract_vendor("ValhallaRoom", "/plugins/ValhallaRoom/ValhallaRoom.dll"), "ValhallaDSP");
    assert_eq!(extract_vendor("TDR Nova", "TDR Nova.vst3"), "Tokyo Dawn Records");
    assert_eq!(extract_vendor("serum_x64", "serum_x64.dll"), "Unknown");
    assert_eq!(extract_vendor("XferSerum", "XferSerum.dll"), "Xfer Records");
    assert_eq!(extract_vendor("native instruments massive", "x.dll"), "NI");
    // the first pattern that matches wins: "Waves" comes before "Slate"
    assert_eq!(extract_vendor("Slate Waves Bundle", "Slate Waves Bundle.dll"), "Waves");
}

#[test]
fn vendor_match_ignores_case() {
    assert_eq!(extract_vendor("FABFILTER Pro-C", "FABFILTER Pro-C.vst3"), "FabFilter");
    assert_eq!(extract_vendor("über kilohearts", "x.clap"), "Kilohearts");
}

#[test]
fn entries_that_are_plugins() {
    let p = plugin_from_entry(&entry("/vst3/FabFilter/Pro-Q 3.vst3", Some(5 * 1024 + 7))).unwrap();
    assert_eq!(p.name, "Pro-Q 3");
    assert_eq!(p.path, "/vst3/FabFilter/Pro-Q 3.vst3");
    assert_eq!(p.format, PluginFormat::Vst3);
    assert_eq!(p.vendor, "FabFilter");
    assert!(p.enabled);
    assert_eq!(p.size_kb, 5);

    let c = plugin_from_entry(&entry("/clap/Surge XT.clap", None)).unwrap();
    assert_eq!(c.format, PluginFormat::Clap);
    assert_eq!(c.size_kb, 0);
    assert_eq!(c.vendor, "clap");

    let d = plugin_from_entry(&entry("/vst/libfoo.so", Some(1023))).unwrap();
    assert_eq!(d.format, PluginFormat::Vst2);
    assert_eq!(d.size_kb, 0);
}

#[test]
fn formats_from_extensions() {
    assert_eq!(plugin_format("/p/x.vst3"), Some(PluginFormat::Vst3));
    assert_eq!(plugin_format("/p/x.clap"), Some(PluginFormat::Clap));
    assert_eq!(plugin_format("/p/x.dll"), Some(PluginFormat::Vst2));
    assert_eq!(plugin_format("/p/x.so"), Some(PluginFormat::Vst2));
    assert_eq!(plugin_format("/p/x.vst"), None);
    assert_eq!(plugin_format("/p/x.VST3"), None);
}

#[test]
fn entries_that_are_not_plugins() {
    assert!(plugin_from_entry(&entry("/vst/readme.txt", Some(10))).is_none());
    assert!(plugin_from_entry(&entry("/vst/.dll", Some(10))).is_none());
    assert!(plugin_from_entry(&entry("/vst/presets", None)).is_none());
}

#[test]
fn scan_result_sorted_by_name_with_total() {
    let entries = vec![
        entry("/p/b.vst3", Some(4096)),
        entry("/p/readme.txt", Some(1 << 20)),
        entry("/p/a.clap", Some(2048)),
        entry("/p/A2.vst3", None),
    ];
    let dirs = vec!["/p".to_string()];
    let r = scan_result_from(entries, dirs.clone()).unwrap();
    let names: Vec<&str> = r.plugins.iter().map(|p| p.name.as_str()).collect();
    assert_eq!(names, vec!["A2", "a", "b"]);
    assert_eq!(r.total_size_kb, 6);
    assert_eq!(r.total_size_kb, r.plugins.iter().map(|p| p.size_kb).sum::<u64>());
    assert_eq!(r.scan_dirs, dirs);
    assert!(r.plugins.iter().all(|p| p.enabled));
}

#[test]
fn scan_result_sort_is_stable() {
    let entries = vec![
        entry("/one/Same.vst3", Some(1024)),
        entry("/two/Same.vst3", Some(2048)),
        entry("/zero/Alpha.clap", Some(0)),
    ];
    let r = scan_result_from(entries, vec![]).unwrap();
    let paths: Vec<&str> = r.plugins.iter().map(|p| p.path.as_str()).collect();
    assert_eq!(paths, vec!["/zero/Alpha.clap", "/one/Same.vst3", "/two/Same.vst3"]);
}

#[test]
fn empty_scan() {
    let r = scan_result_from(vec![], vec![]).unwrap();
    assert!(r.plugins.is_empty());
    assert_eq!(r.total_size_kb, 0);
}

#[test]
fn scan_total_overflow_gives_none() {
    let many = |n: usize, ext: &str| -> Vec<ScanEntry> {
        (0..n).map(|i| entry(&format!("/p/p{}.{}", i, ext), Some(u64::MAX))).collect()
    };
    // 1025 plugins of u64::MAX bytes weigh more kibibytes than a u64 holds.
    assert!(scan_result_from(many(1025, "vst3"), vec![]).is_none());
    // 1023 of them still fit.
    let r = scan_result_from(many(1023, "vst3"), vec![]).unwrap();
    assert_eq!(r.total_size_kb, 1023 * (u64::MAX / 1024));
    // Files that are not plugins do not count towards the total.
    let mut mixed = many(1, "vst3");
    mixed.extend(many(2000, "txt"));
    let r = scan_result_from(mixed, vec![]).unwrap();
    assert_eq!(r.total_size_kb, u64::MAX / 1024);
}

#[test]
fn scan_of_joined_walks() {
    let a = vec![entry("/x/Zeta.vst3", Some(2048)), entry("/x/n.txt", Some(4096))];
    let b = vec![entry("/y/Alpha.clap", Some(1024))];
    let ra = scan_result_from(a.clone(), vec!["/x".to_string()]).unwrap();
    let rb = scan_result_from(b.clone(), vec!["/y".to_string()]).unwrap();
    let mut ab = a;
    ab.extend(b);
    let r = scan_result_from(ab, vec!["/x".to_string(), "/y".to_string()]).unwrap();
    assert_eq!(r.plugins.len(), ra.plugins.len() + rb.plugins.len());
    assert_eq!(r.total_size_kb, ra.total_size_kb + rb.total_size_kb);
    let names: Vec<&str> = r.plugins.iter().map(|p| p.name.as_str()).collect();
    assert_eq!(names, vec!["Alpha", "Zeta"]);
    assert_eq!(r.scan_dirs, vec!["/x", "/y"]);
}

#[test]
fn plugin_dirs_under_a_home() {
    let dirs = plugin_dirs_under_home("/home/u");
    assert_eq!(
        dirs,
        vec![
            "/home/u/.wine/drive_c/Program Files/Common Files/VST2",
            "/home/u/.wine/drive_c/Program Files/Common Files/VST3",
            "/home/u/.wine/drive_c/Program Files/VSTPlugins",
            "/home/u/.wine/drive_c/Program Files/Steinberg/VSTPlugins",
            "/home/u/.wine/drive_c/Program Files/Cakewalk/VST Plugins",
        ]
    );
    assert_eq!(plugin_dirs_under_home("")[0], ".wine/drive_c/Program Files/Common Files/VST2");
}

#[test]
fn default_dirs_are_under_some_home() {
    let dirs = default_plugin_dirs();
    assert_eq!(dirs.len(), 5);
    assert!(dirs[4].ends_with(".wine/drive_c/Program Files/Cakewalk/VST Plugins"));
}

#[test]
fn vendor_from_names_cases() {
    assert_eq!(vendor_from_names("Pro-Q 3", "FabFilter", "pro-q 3"), "FabFilter");
    assert_eq!(vendor_from_names("H3000", "", "eventide h3000"), "Eventide");
    assert_eq!(vendor_from_names("Same", "Same", "same"), "Unknown");
    assert_eq!(vendor_from_names("Anything", "", "sonnox oxford"), "Sonnox");
}

#[test]
fn twenty_known_vendors() {
    assert_eq!(extract_vendor("Eventide Blackhole", "Eventide Blackhole.vst3"), "Eventide");
    assert_eq!(extract_vendor("Sonnox Oxford EQ", "Sonnox Oxford EQ.vst3"), "Sonnox");
    assert_eq!(extract_vendor("Toontrack EZdrummer", "Toontrack EZdrummer.dll"), "Toontrack");
    let names = [
        "FabFilter", "Soundtoys", "Waves", "Valhalla", "iZotope", "Slate", "Arturia",
        "Native Instruments", "Plugin Alliance", "U-he", "Kilohearts", "MeldaProduction", "TDR",
        "TAL", "Voxengo", "Xfer", "Cableguys", "Devious", "Eventide", "Sonnox", "Toontrack",
    ];
    let mut vendors: Vec<String> = names.iter().map(|n| extract_vendor(n, "x.vst3")).collect();
    assert!(vendors.iter().all(|v| v != "Unknown"));
    vendors.sort();
    vendors.dedup();
    assert!(vendors.len() >= 20);
}

#[test]
fn extension_and_stem_follow_the_last_dot() {
    assert_eq!(plugin_format("/p/.vst3"), None);
    assert_eq!(plugin_format("/p/a.b.vst3"), Some(PluginFormat::Vst3));
    let p = plugin_from_entry(&entry("/p/a.b.vst3", Some(2048))).unwrap();
    assert_eq!(p.name, "a.b");
    assert_eq!(plugin_format("/p/vst3"), None);
}
