//! yabridge: where it lives and which files make it up, the plugin
//! directories `yabridgectl status` lists, and what a `yabridgectl sync`
//! reported.
use vstd::prelude::*;


use crate::backend::plugin::plugin_dirs_under;
use crate::backend::system::YabridgeInstall;
use crate::paths::join;
use crate::paths::join_path;
use crate::paths::merge_dirs;
use crate::paths::merged;
use crate::paths::parent;
use crate::paths::parent_of;
use crate::text::chars_of;
use crate::text::contains;
use crate::text::has_prefix;
use crate::text::has_substring;
use crate::text::lines;
use crate::text::slice_chars;
use crate::text::split_lines;
use crate::text::starts_with;
use crate::text::string_of;
use crate::text::string_views;
use crate::text::trim;
use crate::text::trim_chars;
use crate::text::views;
use crate::text::lemma_trim_idempotent;

pub use crate::backend::plugin::default_plugin_dirs;

verus! {

/// What the library knows of the yabridge setup.
#[derive(Clone, Debug)]
pub struct YabridgeConfig {
    pub install: Option<YabridgeInstall>,
    pub plugin_dirs: Vec<String>,
    pub is_synced: bool,
}

/// What a `yabridgectl sync` reported.
#[derive(Clone, Debug)]
pub struct SyncResult {
    pub success: bool,
    pub plugins_found: usize,
    pub plugins_synced: usize,
    pub errors: Vec<String>,
    pub output: String,
}

/// The model of a [`SyncResult`].
pub struct SyncResultView {
    pub success: bool,
    pub plugins_found: usize,
    pub plugins_synced: usize,
    pub errors: Seq<Seq<char>>,
    pub output: Seq<char>,
}

impl View for SyncResult {
    type V = SyncResultView;

    open spec fn view(&self) -> SyncResultView {
        SyncResultView {
            success: self.success,
            plugins_found: self.plugins_found,
            plugins_synced: self.plugins_synced,
            errors: string_views(self.errors@),
            output: self.output@,
        }
    }
}

// ---------------------------------------------------------------------------
// Specification
// ---------------------------------------------------------------------------
/// The plugin directory a line of `yabridgectl status` names, if any: the
/// rest of a `  Plugin directories:` line, or a line that starts with `/`
/// or four spaces; trimmed.
pub open spec fn dir_candidate_of(l: Seq<char>) -> Option<Seq<char>> {
    if starts_with(l, "  Plugin directories:"@) {
        Some(trim(l.skip(21)))
    } else if starts_with(l, "/"@) || starts_with(l, "    "@) {
        Some(trim(l))
    } else {
        None
    }
}

/// The plugin directories the lines name, in order.
pub open spec fn dir_candidates(ls: Seq<Seq<char>>) -> Seq<Seq<char>>
    decreases ls.len(),
{
    if ls.len() == 0 {
        Seq::empty()
    } else {
        let prev = dir_candidates(ls.drop_last());
        match dir_candidate_of(ls.last()) {
            Some(d) => prev.push(d),
            None => prev,
        }
    }
}

/// The text `yabridgectl sync` printed: its standard output, a line break,
/// its standard error.
pub open spec fn sync_output_of(stdout: Seq<char>, stderr: Seq<char>) -> Seq<char> {
    stdout + "\n"@ + stderr
}

/// A line that reports a plugin: it mentions `plugin` or `VST`.
pub open spec fn is_plugin_line(l: Seq<char>) -> bool {
    contains(l, "plugin"@) || contains(l, "VST"@)
}

/// A line that reports an error: it mentions `error`, `Error` or `failed`.
pub open spec fn is_error_line(l: Seq<char>) -> bool {
    contains(l, "error"@) || contains(l, "Error"@) || contains(l, "failed"@)
}

/// How many of the lines report a plugin.
pub open spec fn plugin_line_count(ls: Seq<Seq<char>>) -> nat
    decreases ls.len(),
{
    if ls.len() == 0 {
        0
    } else {
        plugin_line_count(ls.drop_last()) + if is_plugin_line(ls.last()) {
            1nat
        } else {
            0nat
        }
    }
}

/// The lines that report an error, trimmed, in order.
pub open spec fn error_lines(ls: Seq<Seq<char>>) -> Seq<Seq<char>>
    decreases ls.len(),
{
    if ls.len() == 0 {
        Seq::empty()
    } else if is_error_line(ls.last()) {
        error_lines(ls.drop_last()).push(trim(ls.last()))
    } else {
        error_lines(ls.drop_last())
    }
}

/// The summary of a sync that printed `stdout` and `stderr` and succeeded
/// or not: the plugins it reported count as synced only when it succeeded.
pub open spec fn sync_result_of(stdout: Seq<char>, stderr: Seq<char>, success: bool) -> SyncResultView {
    let combined = sync_output_of(stdout, stderr);
    let found = plugin_line_count(lines(combined));
    SyncResultView {
        success: success,
        plugins_found: found as usize,
        plugins_synced: if success {
            found as usize
        } else {
            0
        },
        errors: error_lines(lines(combined)),
        output: combined,
    }
}

/// The files of a yabridge build, in the order they are installed.
pub open spec fn yabridge_files_spec() -> Seq<Seq<char>> {
    seq![
        "yabridge-host.exe"@,
        "yabridge-host.exe.so"@,
        "yabridgectl"@,
        "libyabridge-vst2.so"@,
        "libyabridge-vst3.so"@,
        "libyabridge-clap.so"@,
        "libyabridge-chainloader-vst2.so"@,
        "libyabridge-chainloader-vst3.so"@,
        "libyabridge-chainloader-clap.so"@,
    ]
}

/// Where a copy of yabridge may have been shipped, relative to the directory
/// of the running program, in order.
pub open spec fn bundled_candidates_spec(exe_dir: Seq<char>) -> Seq<Seq<char>> {
    seq![
        join(exe_dir, "../share/yabridge-manager/yabridge"@),
        join(exe_dir, "../share/yabridge"@),
        join(exe_dir, "bundled/yabridge"@),
    ]
}

// ---------------------------------------------------------------------------
// Implementation
// ---------------------------------------------------------------------------
/// The plugin directory a line of `yabridgectl status` names, if any.
pub fn dir_candidate(l: &Vec<char>) -> (r: Option<Vec<char>>)
    ensures
        match r {
            Some(d) => dir_candidate_of(l@) == Some(d@),
            None => dir_candidate_of(l@).is_none(),
        },
{
    let key = chars_of("  Plugin directories:");
    let slash = chars_of("/");
    let indent = chars_of("    ");
    proof {
        reveal_strlit("  Plugin directories:");
    }
    if has_prefix(l, &key) {
        let rest = slice_chars(l, 21, l.len());
        proof {
            assert(rest@ =~= l@.skip(21));
        }
        Some(trim_chars(&rest))
    } else if has_prefix(l, &slash) || has_prefix(l, &indent) {
        let t = trim_chars(l);
        proof {
            lemma_trim_idempotent(l@);
        }
        Some(trim_chars(&t))
    } else {
        None
    }
}

/// The plugin directories that the output of `yabridgectl status` names, in
/// order (whether they exist is for the caller to check).
pub fn plugin_dir_candidates(status_output: &str) -> (r: Vec<String>)
    ensures
        string_views(r@) == dir_candidates(lines(status_output@)),
{
    let ls = split_lines(&chars_of(status_output));
    let ghost all = views(ls@);
    let n = ls.len();
    let mut r: Vec<String> = Vec::new();
    let mut i: usize = 0;
    proof {
        assert(all.take(0) =~= Seq::<Seq<char>>::empty());
        assert(string_views(r@) =~= Seq::<Seq<char>>::empty());
    }
    while i < n
        invariant
            i <= n,
            n == ls@.len(),
            all == views(ls@),
            string_views(r@) == dir_candidates(all.take(i as int)),
        decreases n - i,
    {
        let ghost before = string_views(r@);
        proof {
            assert(all.take(i + 1).drop_last() =~= all.take(i as int));
            assert(all.take(i + 1).last() == ls@[i as int]@);
        }
        match dir_candidate(&ls[i]) {
            Some(d) => {
                r.push(string_of(&d));
                proof {
                    assert(string_views(r@) =~= before.push(d@));
                }
            },
            None => {},
        }
        i += 1;
    }
    proof {
        assert(all.take(n as int) =~= all);
    }
    r
}

/// The plugin directories to use: those found, or the defaults when none
/// were.
pub fn plugin_dirs_or_default(found: Vec<String>) -> (r: Vec<String>)
    ensures
        found@.len() > 0 ==> r@ == found@,
        found@.len() == 0 ==> exists|home: Seq<char>| string_views(r@) == plugin_dirs_under(home),
{
    if found.len() == 0 {
        default_plugin_dirs()
    } else {
        found
    }
}

/// The plugin directories for yabridgectl: those found (or the defaults
/// when none were), then the custom directories of the configuration not
/// already among them.
pub fn plugin_dirs_with(found: Vec<String>, custom: &Vec<String>) -> (r: Vec<String>)
    ensures
        found@.len() > 0 ==> string_views(r@) == merged(string_views(found@), string_views(custom@)),
        found@.len() == 0 ==> exists|home: Seq<char>|
            string_views(r@) == merged(plugin_dirs_under(home), string_views(custom@)),
{
    let ghost had = found@;
    let base = plugin_dirs_or_default(found);
    let r = merge_dirs(base, custom);
    proof {
        if had.len() == 0 {
            let home = choose|home: Seq<char>| string_views(base@) == plugin_dirs_under(home);
            assert(string_views(r@) == merged(plugin_dirs_under(home), string_views(custom@)));
        }
    }
    r
}

/// The summary of a `yabridgectl sync` (see [`sync_result_of`]).
pub fn summarize_sync(stdout: &str, stderr: &str, success: bool) -> (r: SyncResult)
    ensures
        r@ == sync_result_of(stdout@, stderr@, success),
{
    let mut combined = String::from_str(stdout);
    combined.append("\n");
    combined.append(stderr);
    let ls = split_lines(&chars_of(combined.as_str()));
    let ghost all = views(ls@);
    let plugin = chars_of("plugin");
    let vst = chars_of("VST");
    let error = chars_of("error");
    let error_cap = chars_of("Error");
    let failed = chars_of("failed");
    let n = ls.len();
    let mut found: usize = 0;
    let mut errors: Vec<String> = Vec::new();
    let mut i: usize = 0;
    proof {
        assert(all.take(0) =~= Seq::<Seq<char>>::empty());
        assert(string_views(errors@) =~= Seq::<Seq<char>>::empty());
    }
    while i < n
        invariant
            i <= n,
            n == ls@.len(),
            all == views(ls@),
            plugin@ == "plugin"@,
            vst@ == "VST"@,
            error@ == "error"@,
            error_cap@ == "Error"@,
            failed@ == "failed"@,
            found == plugin_line_count(all.take(i as int)),
            found <= i,
            string_views(errors@) == error_lines(all.take(i as int)),
        decreases n - i,
    {
        let ghost before = string_views(errors@);
        proof {
            assert(all.take(i + 1).drop_last() =~= all.take(i as int));
            assert(all.take(i + 1).last() == ls@[i as int]@);
        }
        let l = &ls[i];
        if has_substring(l, &plugin) || has_substring(l, &vst) {
            found = found + 1;
        }
        if has_substring(l, &error) || has_substring(l, &error_cap) || has_substring(l, &failed) {
            errors.push(string_of(&trim_chars(l)));
            proof {
                assert(string_views(errors@) =~= before.push(trim(ls@[i as int]@)));
            }
        }
        i += 1;
    }
    proof {
        assert(all.take(n as int) =~= all);
    }
    SyncResult {
        success: success,
        plugins_found: found,
        plugins_synced: if success {
            found
        } else {
            0
        },
        errors: errors,
        output: combined,
    }
}

/// The `PATH` under which `yabridgectl` runs with the Wine at `wine_bin`:
/// the directory of `wine_bin`, a colon, then `path_var`. `None` when
/// `wine_bin` has no parent directory.
pub fn wine_path_env(wine_bin: &str, path_var: &str) -> (r: Option<String>)
    ensures
        match r {
            Some(s) => parent_of(wine_bin@) matches Some(d) && s@ == d + ":"@ + path_var@,
            None => parent_of(wine_bin@).is_none(),
        },
{
    match parent(wine_bin) {
        Some(d) => {
            let mut s = d;
            s.append(":");
            s.append(path_var);
            Some(s)
        },
        None => None,
    }
}

/// The files of a yabridge build, in the order they are installed.
pub fn yabridge_binary_files() -> (r: Vec<String>)
    ensures
        string_views(r@) == yabridge_files_spec(),
{
    let mut r: Vec<String> = Vec::new();
    r.push(String::from_str("yabridge-host.exe"));
    r.push(String::from_str("yabridge-host.exe.so"));
    r.push(String::from_str("yabridgectl"));
    r.push(String::from_str("libyabridge-vst2.so"));
    r.push(String::from_str("libyabridge-vst3.so"));
    r.push(String::from_str("libyabridge-clap.so"));
    r.push(String::from_str("libyabridge-chainloader-vst2.so"));
    r.push(String::from_str("libyabridge-chainloader-vst3.so"));
    r.push(String::from_str("libyabridge-chainloader-clap.so"));
    proof {
        assert(string_views(r@) =~= yabridge_files_spec());
    }
    r
}

/// Where a copy of yabridge may have been shipped, relative to the
/// directory of the running program, in order.
pub fn bundled_yabridge_candidates(exe_dir: &str) -> (r: Vec<String>)
    ensures
        string_views(r@) == bundled_candidates_spec(exe_dir@),
{
    let mut r: Vec<String> = Vec::new();
    r.push(join_path(exe_dir, "../share/yabridge-manager/yabridge"));
    r.push(join_path(exe_dir, "../share/yabridge"));
    r.push(join_path(exe_dir, "bundled/yabridge"));
    proof {
        assert(string_views(r@) =~= bundled_candidates_spec(exe_dir@));
    }
    r
}

/// Where yabridge is installed for the user whose home is `home`.
pub fn user_yabridge_dir(home: &str) -> (r: String)
    ensures
        r@ == join(home@, ".local/share/yabridge"@),
{
    join_path(home, ".local/share/yabridge")
}

/// The native host library of a yabridge build in `dir`, whose
/// modification time tells which copy is newer.
pub fn yabridge_host_library(dir: &str) -> (r: String)
    ensures
        r@ == join(dir@, "yabridge-host.exe.so"@),
{
    join_path(dir, "yabridge-host.exe.so")
}

/// Whether the installed yabridge should be updated from the bundled copy:
/// always when none is installed; otherwise whether the bundled host
/// library is newer, when the modification times could be compared.
pub fn update_decision(installed_exists: bool, bundled_is_newer: Option<bool>) -> (r: Option<bool>)
    ensures
        !installed_exists ==> r == Some(true),
        installed_exists ==> r == bundled_is_newer,
{
    if !installed_exists {
        Some(true)
    } else {
        bundled_is_newer
    }
}

/// The message after the installed yabridge was updated in `data_dir`.
pub fn update_message(data_dir: &str) -> (r: String)
    ensures
        r@ == "yabridge updated successfully in "@ + data_dir@,
{
    let mut r = String::from_str("yabridge updated successfully in ");
    r.append(data_dir);
    r
}

/// The outcome of copying a yabridge build from `build_dir`: an error when
/// none of its files was there.
pub fn copy_outcome(copied: usize, build_dir: &str) -> (r: Result<(), String>)
    ensures
        copied > 0 ==> r == Ok::<(), String>(()),
        copied == 0 ==> (r matches Err(m) && m@ == "No files found in "@ + build_dir@),
{
    if copied == 0 {
        let mut m = String::from_str("No files found in ");
        m.append(build_dir);
        Err(m)
    } else {
        Ok(())
    }
}

// ---------------------------------------------------------------------------
// Laws
// ---------------------------------------------------------------------------
/// Law: a sync never reports more plugins synced than found, and reports
/// none synced when it failed.
pub proof fn lemma_sync_counts(stdout: Seq<char>, stderr: Seq<char>, success: bool)
    requires
        plugin_line_count(lines(sync_output_of(stdout, stderr))) <= usize::MAX,
    ensures
        sync_result_of(stdout, stderr, success).plugins_synced <= sync_result_of(
            stdout,
            stderr,
            success,
        ).plugins_found,
        !success ==> sync_result_of(stdout, stderr, success).plugins_synced == 0,
{
}

/// Law: the plugins a sync reports are counted line by line over its
/// standard output, a line break and its standard error: no lines count
/// nothing, and a further line adds one exactly when it mentions `plugin` or
/// `VST`. What was found counts as synced when the sync succeeded, and
/// nothing counts as synced otherwise.
pub proof fn lemma_sync_plugin_count(stdout: Seq<char>, stderr: Seq<char>, success: bool)
    ensures
        plugin_line_count(Seq::empty()) == 0,
        forall|ls: Seq<Seq<char>>, l: Seq<char>|
            #[trigger] plugin_line_count(ls.push(l)) == plugin_line_count(ls) + if contains(
                l,
                "plugin"@,
            ) || contains(l, "VST"@) {
                1int
            } else {
                0int
            },
        sync_result_of(stdout, stderr, success).plugins_found == plugin_line_count(
            lines(stdout + "\n"@ + stderr),
        ) as usize,
        sync_result_of(stdout, stderr, success).plugins_synced == if success {
            plugin_line_count(lines(stdout + "\n"@ + stderr)) as usize
        } else {
            0usize
        },
{
    assert forall|ls: Seq<Seq<char>>, l: Seq<char>|
        #[trigger] plugin_line_count(ls.push(l)) == plugin_line_count(ls) + if contains(
            l,
            "plugin"@,
        ) || contains(l, "VST"@) {
            1int
        } else {
            0int
        } by {
        assert(ls.push(l).drop_last() =~= ls);
    }
}

/// Law: a line of `yabridgectl status` that starts with `/` or with four
/// spaces names the directory that is the whole line, trimmed, spaces inside
/// it kept; a `  Plugin directories:` line names the rest of the line,
/// trimmed; any other line names none. Each line that names a directory
/// adds it, in order, to those the lines before it named.
pub proof fn lemma_status_line(l: Seq<char>, ls: Seq<Seq<char>>)
    ensures
        (starts_with(l, "/"@) || starts_with(l, "    "@)) ==> dir_candidate_of(l) == Some(trim(l)),
        starts_with(l, "  Plugin directories:"@) ==> dir_candidate_of(l) == Some(
            trim(l.subrange(21, l.len() as int)),
        ),
        !starts_with(l, "/"@) && !starts_with(l, "    "@) && !starts_with(
            l,
            "  Plugin directories:"@,
        ) ==> dir_candidate_of(l) is None,
        (starts_with(l, "/"@) || starts_with(l, "    "@)) ==> dir_candidates(ls.push(l))
            == dir_candidates(ls).push(trim(l)),
        dir_candidates(Seq::<Seq<char>>::empty()) == Seq::<Seq<char>>::empty(),
{
    reveal_strlit("/");
    reveal_strlit("    ");
    reveal_strlit("  Plugin directories:");
    if starts_with(l, "  Plugin directories:"@) {
        let pre = l.subrange(0, 21);
        assert(pre[0] == ' ' && pre[2] == 'P');
        assert(l[0] == pre[0] && l[2] == pre[2]);
        if starts_with(l, "/"@) {
            assert(l.subrange(0, 1)[0] == l[0]);
        }
        if starts_with(l, "    "@) {
            assert(l.subrange(0, 4)[2] == l[2]);
        }
        assert(l.skip(21) =~= l.subrange(21, l.len() as int));
    }
    if starts_with(l, "/"@) || starts_with(l, "    "@) {
        assert(ls.push(l).drop_last() =~= ls);
    }
}

/// Law: the errors a sync reports are the lines of its standard output, a
/// line break and its standard error that mention `error`, `Error` or
/// `failed`, trimmed, in order; its output is that whole text.
pub proof fn lemma_sync_errors(stdout: Seq<char>, stderr: Seq<char>, success: bool)
    ensures
        error_lines(Seq::empty()) == Seq::<Seq<char>>::empty(),
        forall|ls: Seq<Seq<char>>, l: Seq<char>|
            #[trigger] error_lines(ls.push(l)) == if contains(l, "error"@) || contains(l, "Error"@)
                || contains(l, "failed"@) {
                error_lines(ls).push(trim(l))
            } else {
                error_lines(ls)
            },
        sync_result_of(stdout, stderr, success).errors == error_lines(
            lines(stdout + "\n"@ + stderr),
        ),
        sync_result_of(stdout, stderr, success).output == stdout + "\n"@ + stderr,
        sync_result_of(stdout, stderr, success).success == success,
{
    assert forall|ls: Seq<Seq<char>>, l: Seq<char>|
        #[trigger] error_lines(ls.push(l)) == if contains(l, "error"@) || contains(l, "Error"@)
            || contains(l, "failed"@) {
            error_lines(ls).push(trim(l))
        } else {
            error_lines(ls)
        } by {
        assert(ls.push(l).drop_last() =~= ls);
    }
}

} // verus!
