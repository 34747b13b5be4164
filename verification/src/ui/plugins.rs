//! The plugin manager page's state: the last scan, the filters, the
//! selection and the directories to scan, and which plugins the filters
//! let through.
use vstd::prelude::*;

use crate::backend::plugin::Plugin;
use crate::backend::plugin::PluginFormat;
use crate::backend::plugin::PluginScanResult;
use crate::backend::plugin::PluginView;
use crate::backend::plugin::default_plugin_dirs;
use crate::backend::plugin::lowercase;
use crate::backend::plugin::plugin_dirs_under;
use crate::backend::plugin::to_lowercase;
use crate::text::chars_of;
use crate::text::contains;
use crate::text::has_substring;
use crate::paths::merge_dirs;
use crate::paths::merged;
use crate::text::string_views;
use crate::ui::worker::WorkerPoll;

verus! {

/// The state of the plugin manager page.
#[derive(Debug)]
pub struct PluginsPage {
    pub scan_result: Option<PluginScanResult>,
    pub filter_text: String,
    pub filter_format: Option<PluginFormat>,
    pub selected_plugin: Option<usize>,
    pub scan_dirs: Vec<String>,
    pub is_scanning: bool,
}

/// A plugin passes the filters: the text is empty or occurs, case aside, in
/// its name or its vendor; and its format is the one chosen, if any.
pub open spec fn passes_filter(p: PluginView, text: Seq<char>, format: Option<PluginFormat>) -> bool {
    let text_match = text.len() == 0 || contains(lowercase(p.name), lowercase(text)) || contains(
        lowercase(p.vendor),
        lowercase(text),
    );
    let format_match = match format {
        Some(f) => p.format == f,
        None => true,
    };
    text_match && format_match
}

/// The positions, in order, of the plugins that pass the filters.
pub open spec fn filtered_positions(
    ps: Seq<PluginView>,
    text: Seq<char>,
    format: Option<PluginFormat>,
) -> Seq<usize>
    decreases ps.len(),
{
    if ps.len() == 0 {
        Seq::empty()
    } else {
        let prev = filtered_positions(ps.drop_last(), text, format);
        if passes_filter(ps.last(), text, format) {
            prev.push((ps.len() - 1) as usize)
        } else {
            prev
        }
    }
}

/// The format filters offered, with their labels.
pub open spec fn format_filters_spec() -> Seq<(Option<PluginFormat>, Seq<char>)> {
    seq![
        (None, "All"@),
        (Some(PluginFormat::Vst2), "VST2"@),
        (Some(PluginFormat::Vst3), "VST3"@),
        (Some(PluginFormat::Clap), "CLAP"@),
    ]
}

/// Whether the plugin passes the filters (see [`passes_filter`]).
pub fn plugin_matches(p: &Plugin, text: &str, format: Option<PluginFormat>) -> (r: bool)
    ensures
        r == passes_filter(p@, text@, format),
{
    let text_match = if text.is_empty() {
        true
    } else {
        let lt = chars_of(to_lowercase(text).as_str());
        has_substring(&chars_of(to_lowercase(p.name.as_str()).as_str()), &lt) || has_substring(
            &chars_of(to_lowercase(p.vendor.as_str()).as_str()),
            &lt,
        )
    };
    let format_match = match format {
        Some(f) => p.format == f,
        None => true,
    };
    text_match && format_match
}

impl PluginsPage {
    /// A fresh page: no scan yet, no filters, the default plugin
    /// directories to scan.
    pub fn new() -> (r: PluginsPage)
        ensures
            r.scan_result is None,
            r.filter_text@ == Seq::<char>::empty(),
            r.filter_format is None,
            r.selected_plugin is None,
            !r.is_scanning,
            exists|home: Seq<char>| string_views(r.scan_dirs@) == plugin_dirs_under(home),
    {
        PluginsPage {
            scan_result: None,
            filter_text: String::new(),
            filter_format: None,
            selected_plugin: None,
            scan_dirs: default_plugin_dirs(),
            is_scanning: false,
        }
    }

    /// The positions of the scanned plugins that pass the page's filters
    /// (none before a scan).
    pub fn filtered_indices(&self) -> (r: Vec<usize>)
        ensures
            match &self.scan_result {
                None => r@ == Seq::<usize>::empty(),
                Some(s) => r@ == filtered_positions(s@.plugins, self.filter_text@, self.filter_format),
            },
    {
        match &self.scan_result {
            None => Vec::new(),
            Some(s) => {
                let ghost ps = s@.plugins;
                let n = s.plugins.len();
                let mut r: Vec<usize> = Vec::new();
                let mut i: usize = 0;
                proof {
                    assert(ps.take(0) =~= Seq::<PluginView>::empty());
                }
                while i < n
                    invariant
                        i <= n,
                        n == s.plugins@.len(),
                        ps == s@.plugins,
                        r@ == filtered_positions(ps.take(i as int), self.filter_text@, self.filter_format),
                    decreases n - i,
                {
                    proof {
                        assert(ps.take(i + 1).drop_last() =~= ps.take(i as int));
                        assert(ps.take(i + 1).last() == s.plugins@[i as int]@);
                    }
                    if plugin_matches(&s.plugins[i], self.filter_text.as_str(), self.filter_format) {
                        r.push(i);
                    }
                    i += 1;
                }
                proof {
                    assert(ps.take(n as int) =~= ps);
                }
                r
            },
        }
    }

    /// The directories a scan walks: the page's own, then the custom ones
    /// of the configuration not already among them.
    pub fn dirs_to_scan(&self, custom: &Vec<String>) -> (r: Vec<String>)
        ensures
            string_views(r@) == merged(string_views(self.scan_dirs@), string_views(custom@)),
    {
        let mut base: Vec<String> = Vec::new();
        let n = self.scan_dirs.len();
        let mut i: usize = 0;
        while i < n
            invariant
                i <= n,
                n == self.scan_dirs@.len(),
                string_views(base@) == string_views(self.scan_dirs@).take(i as int),
            decreases n - i,
        {
            let ghost before = string_views(base@);
            base.push(self.scan_dirs[i].clone());
            proof {
                assert(string_views(base@) =~= before.push(self.scan_dirs@[i as int]@));
                assert(string_views(self.scan_dirs@).take(i + 1) =~= string_views(
                    self.scan_dirs@,
                ).take(i as int).push(self.scan_dirs@[i as int]@));
            }
            i += 1;
        }
        proof {
            assert(string_views(self.scan_dirs@).take(n as int) =~= string_views(self.scan_dirs@));
        }
        merge_dirs(base, custom)
    }

    /// "Scan Plugins": a scan starts unless one is running. When it starts,
    /// the directories it walks (see [`PluginsPage::dirs_to_scan`]).
    pub fn start_scan(&mut self, custom: &Vec<String>) -> (dirs: Option<Vec<String>>)
        ensures
            dirs is Some <==> !old(self).is_scanning,
            dirs matches Some(d) ==> string_views(d@) == merged(
                string_views(old(self).scan_dirs@),
                string_views(custom@),
            ),
            *final(self) == (PluginsPage { is_scanning: true, ..*old(self) }),
    {
        if self.is_scanning {
            None
        } else {
            let dirs = self.dirs_to_scan(custom);
            self.is_scanning = true;
            Some(dirs)
        }
    }

    /// One look at the scan worker's channel: nothing yet leaves the page as
    /// it is; a result, or the worker's end without one, finishes the scan
    /// (see [`PluginsPage::finish_scan`]). Whether the scan ended.
    pub fn poll_scan(&mut self, poll: WorkerPoll<PluginScanResult>) -> (ended: bool)
        ensures
            match poll {
                WorkerPoll::Pending => !ended && *final(self) == *old(self),
                WorkerPoll::Done(r) => ended && *final(self) == (PluginsPage {
                    is_scanning: false,
                    scan_result: Some(r),
                    ..*old(self)
                }),
                WorkerPoll::Ended => ended && *final(self) == (PluginsPage {
                    is_scanning: false,
                    ..*old(self)
                }),
            },
    {
        match poll {
            WorkerPoll::Pending => false,
            WorkerPoll::Done(r) => {
                self.finish_scan(Some(r));
                true
            },
            WorkerPoll::Ended => {
                self.finish_scan(None);
                true
            },
        }
    }

    /// The background scan ended, with a result unless it broke off.
    pub fn finish_scan(&mut self, result: Option<PluginScanResult>)
        ensures
            result is Some ==> *final(self) == (PluginsPage {
                is_scanning: false,
                scan_result: result,
                ..*old(self)
            }),
            result is None ==> *final(self) == (PluginsPage { is_scanning: false, ..*old(self) }),
    {
        self.is_scanning = false;
        match result {
            Some(r) => {
                self.scan_result = Some(r);
            },
            None => {},
        }
    }

    /// "Refresh": the result of a scan made in place.
    pub fn set_scan_result(&mut self, result: PluginScanResult)
        ensures
            *final(self) == (PluginsPage { scan_result: Some(result), ..*old(self) }),
    {
        self.scan_result = Some(result);
    }

    /// A format filter is chosen (`None`: all formats).
    pub fn select_format(&mut self, format: Option<PluginFormat>)
        ensures
            *final(self) == (PluginsPage { filter_format: format, ..*old(self) }),
    {
        self.filter_format = format;
    }

    /// A plugin is selected.
    pub fn select_plugin(&mut self, idx: usize)
        ensures
            *final(self) == (PluginsPage { selected_plugin: Some(idx), ..*old(self) }),
    {
        self.selected_plugin = Some(idx);
    }

    /// "+ Add Dir": a picked directory joins those to scan.
    pub fn add_scan_dir(&mut self, dir: String)
        ensures
            final(self).scan_dirs@ == old(self).scan_dirs@.push(dir),
            *final(self) == (PluginsPage { scan_dirs: final(self).scan_dirs, ..*old(self) }),
    {
        self.scan_dirs.push(dir);
    }
}

/// The format filters offered, with their labels.
pub fn format_filters() -> (r: Vec<(Option<PluginFormat>, &'static str)>)
    ensures
        r@.len() == 4,
        forall|i: int|
            0 <= i < 4 ==> (#[trigger] r@[i]).0 == format_filters_spec()[i].0 && r@[i].1@
                == format_filters_spec()[i].1,
{
    let mut r: Vec<(Option<PluginFormat>, &'static str)> = Vec::new();
    r.push((None, "All"));
    r.push((Some(PluginFormat::Vst2), "VST2"));
    r.push((Some(PluginFormat::Vst3), "VST3"));
    r.push((Some(PluginFormat::Clap), "CLAP"));
    r
}

// ---------------------------------------------------------------------------
// Laws
// ---------------------------------------------------------------------------
/// Law: the filtered positions are increasing, in range, and are exactly
/// the positions of the plugins that pass the filters.
pub proof fn lemma_filtered_positions(ps: Seq<PluginView>, text: Seq<char>, format: Option<PluginFormat>)
    requires
        ps.len() <= usize::MAX,
    ensures
        forall|i: int, j: int|
            0 <= i < j < filtered_positions(ps, text, format).len() ==> #[trigger] filtered_positions(
                ps,
                text,
                format,
            )[i] < #[trigger] filtered_positions(ps, text, format)[j],
        forall|k: int|
            0 <= k < ps.len() ==> (passes_filter(#[trigger] ps[k], text, format) <==> filtered_positions(
                ps,
                text,
                format,
            ).contains(k as usize)),
        forall|i: int|
            0 <= i < filtered_positions(ps, text, format).len() ==> #[trigger] filtered_positions(
                ps,
                text,
                format,
            )[i] < ps.len(),
    decreases ps.len(),
{
    if ps.len() > 0 {
        let q = ps.drop_last();
        lemma_filtered_positions(q, text, format);
        let prev = filtered_positions(q, text, format);
        let cur = filtered_positions(ps, text, format);
        assert forall|k: int| 0 <= k < ps.len() implies (passes_filter(#[trigger] ps[k], text, format)
            <==> cur.contains(k as usize)) by {
            if k < ps.len() - 1 {
                assert(ps[k] == q[k]);
                if cur.contains(k as usize) && !prev.contains(k as usize) {
                    let m = choose|m: int| 0 <= m < cur.len() && cur[m] == k as usize;
                    assert(m == prev.len());
                }
                if prev.contains(k as usize) {
                    let m = choose|m: int| 0 <= m < prev.len() && prev[m] == k as usize;
                    assert(cur[m] == k as usize);
                }
            } else {
                if passes_filter(ps[k], text, format) {
                    assert(cur[cur.len() - 1] == k as usize);
                } else if cur.contains(k as usize) {
                    let m = choose|m: int| 0 <= m < cur.len() && cur[m] == k as usize;
                    assert(prev[m] < q.len());
                }
            }
        }
    }
}

/// Law: with no text and no format chosen, every plugin is shown, in order.
pub proof fn lemma_no_filter_shows_all(ps: Seq<PluginView>)
    requires
        ps.len() <= usize::MAX,
    ensures
        filtered_positions(ps, Seq::empty(), None) == Seq::new(ps.len(), |i: int| i as usize),
    decreases ps.len(),
{
    if ps.len() > 0 {
        lemma_no_filter_shows_all(ps.drop_last());
        assert(filtered_positions(ps, Seq::empty(), None) =~= Seq::new(
            ps.len(),
            |i: int| i as usize,
        ));
    }
}

/// Law: with no format chosen, a plugin passes the filters exactly when the
/// text is empty or its lowercased form occurs, at some position, in the
/// lowercased name or the lowercased vendor. With a format chosen, it passes
/// exactly when it passes the text filter and has that format.
pub proof fn lemma_filter_by_text(p: PluginView, text: Seq<char>, f: PluginFormat)
    ensures
        text.len() == 0 ==> passes_filter(p, text, None),
        text.len() > 0 ==> (passes_filter(p, text, None) <==> (exists|i: int|
            0 <= i && i + lowercase(text).len() <= lowercase(p.name).len() && #[trigger] lowercase(
                p.name,
            ).subrange(i, i + lowercase(text).len()) == lowercase(text)) || (exists|i: int|
            0 <= i && i + lowercase(text).len() <= lowercase(p.vendor).len() && #[trigger] lowercase(
                p.vendor,
            ).subrange(i, i + lowercase(text).len()) == lowercase(text))),
        passes_filter(p, text, Some(f)) <==> passes_filter(p, text, None) && p.format == f,
{
    lemma_occurs_somewhere(lowercase(p.name), lowercase(text));
    lemma_occurs_somewhere(lowercase(p.vendor), lowercase(text));
}

/// `t` occurs in `s` exactly when some stretch of `s` is `t`.
proof fn lemma_occurs_somewhere(s: Seq<char>, t: Seq<char>)
    ensures
        contains(s, t) <==> exists|i: int|
            0 <= i && i + t.len() <= s.len() && #[trigger] s.subrange(i, i + t.len()) == t,
{
    if contains(s, t) {
        let i = choose|i: int| crate::text::occurs_at(s, t, i);
        assert(s.subrange(i, i + t.len()) == t);
    }
    if exists|i: int| 0 <= i && i + t.len() <= s.len() && #[trigger] s.subrange(i, i + t.len()) == t {
        let i = choose|i: int| 0 <= i && i + t.len() <= s.len() && #[trigger] s.subrange(i, i + t.len()) == t;
        assert(crate::text::occurs_at(s, t, i));
    }
}

} // verus!
