//! The pages of the application and how the sidebar names them.
use vstd::prelude::*;

verus! {

/// A page of the application.
#[derive(Clone, Copy, Debug, PartialEq, Eq, Structural)]
pub enum Page {
    Setup,
    Plugins,
    Config,
    Diagnostics,
}

/// The name of a page.
pub open spec fn page_label(p: Page) -> Seq<char> {
    match p {
        Page::Setup => "Setup"@,
        Page::Plugins => "Plugins"@,
        Page::Config => "Config"@,
        Page::Diagnostics => "Diagnostics"@,
    }
}

/// The icon of a page.
pub open spec fn page_icon(p: Page) -> Seq<char> {
    match p {
        Page::Setup => "\u{2699}"@,
        Page::Plugins => "\u{1F3B5}"@,
        Page::Config => "\u{1F4C1}"@,
        Page::Diagnostics => "\u{1F50D}"@,
    }
}

impl Page {
    /// The name of the page.
    pub fn label(&self) -> (r: &'static str)
        ensures
            r@ == page_label(*self),
    {
        match self {
            Page::Setup => "Setup",
            Page::Plugins => "Plugins",
            Page::Config => "Config",
            Page::Diagnostics => "Diagnostics",
        }
    }

    /// The icon of the page.
    pub fn icon(&self) -> (r: &'static str)
        ensures
            r@ == page_icon(*self),
    {
        match self {
            Page::Setup => "\u{2699}",
            Page::Plugins => "\u{1F3B5}",
            Page::Config => "\u{1F4C1}",
            Page::Diagnostics => "\u{1F50D}",
        }
    }

    /// The text of the page's sidebar button: its icon, a space, its name.
    pub fn button_text(&self) -> (r: String)
        ensures
            r@ == page_icon(*self) + " "@ + page_label(*self),
    {
        let mut r = String::from_str(self.icon());
        r.append(" ");
        r.append(self.label());
        r
    }

    /// The pages, in the order the sidebar lists them.
    pub fn all() -> (r: Vec<Page>)
        ensures
            r@ == seq![Page::Setup, Page::Plugins, Page::Config, Page::Diagnostics],
    {
        let mut r: Vec<Page> = Vec::new();
        r.push(Page::Setup);
        r.push(Page::Plugins);
        r.push(Page::Config);
        r.push(Page::Diagnostics);
        proof {
            assert(r@ =~= seq![Page::Setup, Page::Plugins, Page::Config, Page::Diagnostics]);
        }
        r
    }
}

/// Law: the sidebar lists every page exactly once, each under its own name.
pub proof fn lemma_pages_listed_once(p: Page)
    ensures
        seq![Page::Setup, Page::Plugins, Page::Config, Page::Diagnostics].contains(p),
        forall|q: Page| q != p ==> page_label(q) != page_label(p),
{
    reveal_strlit("Setup");
    reveal_strlit("Plugins");
    reveal_strlit("Config");
    reveal_strlit("Diagnostics");
    let s = seq![Page::Setup, Page::Plugins, Page::Config, Page::Diagnostics];
    match p {
        Page::Setup => assert(s[0] == p),
        Page::Plugins => assert(s[1] == p),
        Page::Config => assert(s[2] == p),
        Page::Diagnostics => assert(s[3] == p),
    }
    assert forall|q: Page| q != p implies page_label(q) != page_label(p) by {
        if page_label(q).len() == page_label(p).len() {
            match (p, q) {
                (Page::Plugins, Page::Config) | (Page::Config, Page::Plugins) => {
                    assert(page_label(p)[0] != page_label(q)[0]);
                },
                _ => {},
            }
        }
    }
}

} // verus!
