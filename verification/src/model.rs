//! Plain data shared by the state modules: HTTP methods, preferences and
//! the persisted workspace layout.
use vstd::prelude::*;

verus! {

/// The HTTP methods a request can use.
#[derive(Debug, Clone, Copy, PartialEq, Eq, Structural)]
pub enum Method {
    Get,
    Post,
    Put,
    Patch,
    Delete,
    Head,
    Options,
}

/// Appearance preference; the theme button walks System → Light → Dark → System.
#[derive(Debug, Clone, Copy, PartialEq, Eq, Structural)]
pub enum ThemePref {
    System,
    Light,
    Dark,
}

impl ThemePref {
    pub open spec fn spec_next(self) -> ThemePref {
        match self {
            ThemePref::System => ThemePref::Light,
            ThemePref::Light => ThemePref::Dark,
            ThemePref::Dark => ThemePref::System,
        }
    }

    /// The preference that follows this one in the cycle.
    pub fn next(self) -> (r: ThemePref)
        ensures
            r == self.spec_next(),
    {
        match self {
            ThemePref::System => ThemePref::Light,
            ThemePref::Light => ThemePref::Dark,
            ThemePref::Dark => ThemePref::System,
        }
    }
}

/// The theme button comes back to where it started after three clicks, and
/// no fewer.
pub proof fn lemma_theme_cycle_has_period_three(t: ThemePref)
    ensures
        t.spec_next().spec_next().spec_next() == t,
        t.spec_next() != t,
        t.spec_next().spec_next() != t,
{
}

/// Where the response pane sits relative to the request pane.
#[derive(Debug, Clone, Copy, PartialEq, Eq, Structural)]
pub enum SplitDirection {
    /// Response below the request.
    Vertical,
    /// Response to the right of the request.
    Horizontal,
}

/// Interface language preference.
#[derive(Debug, Clone, Copy, PartialEq, Eq, Structural)]
pub enum LanguagePref {
    System,
    English,
    Chinese,
    Japanese,
}

/// Which update source the user asked for.
#[derive(Debug, Clone, Copy, PartialEq, Eq, Structural)]
pub enum UpdateSourcePref {
    Auto,
    Global,
    ChinaMirror,
}

/// What a response body was sniffed as.
#[derive(Debug, Clone, Copy, PartialEq, Eq, Structural)]
pub enum ContentKind {
    Json,
    Xml,
    Html,
    Text,
    Binary,
}

/// How a prepared response document is shown: whole text in an editor,
/// line-virtualised rows, or a preview of a body that was spilled to disk.
#[derive(Debug, Clone, Copy, PartialEq, Eq, Structural)]
pub enum ViewTier {
    Editor,
    Virtual,
    Preview,
}

/// Rows of the tab strip in multi-row mode (one page of tabs).
pub const MAX_TAB_ROWS: u8 = 3;

/// The layout persisted in `workspace.json`: tab order, the active tab,
/// the sidebar, the appearance preferences and the rows of the tab strip.
#[derive(Debug, Clone, PartialEq, Eq)]
pub struct WorkspaceState {
    pub tab_order: Vec<u128>,
    pub active: Option<u128>,
    pub sidebar_collapsed: bool,
    pub theme: ThemePref,
    pub split: SplitDirection,
    /// 1: a single scrolling row; [`MAX_TAB_ROWS`]: pages of several rows.
    pub tab_rows: u8,
}

impl WorkspaceState {
    /// The layout of a first launch: no tabs, sidebar collapsed, system theme,
    /// response below the request, a single row of tabs.
    pub fn new() -> (s: WorkspaceState)
        ensures
            s.tab_order@ == Seq::<u128>::empty(),
            s.active is None,
            s.sidebar_collapsed,
            s.theme == ThemePref::System,
            s.split == SplitDirection::Vertical,
            s.tab_rows == 1,
    {
        WorkspaceState {
            tab_order: Vec::new(),
            active: None,
            sidebar_collapsed: true,
            theme: ThemePref::System,
            split: SplitDirection::Vertical,
            tab_rows: 1,
        }
    }
}

/// The row count after the single/multi-row toggle: several rows become
/// one, one becomes [`MAX_TAB_ROWS`].
pub fn next_tab_rows(rows: u8) -> (r: u8)
    ensures
        r == (if rows > 1 {
            1
        } else {
            MAX_TAB_ROWS
        }),
{
    if rows > 1 {
        1
    } else {
        MAX_TAB_ROWS
    }
}

/// A persisted row count brought into 1 to [`MAX_TAB_ROWS`].
pub fn clamp_tab_rows(rows: u8) -> (r: u8)
    ensures
        r == (if rows < 1 {
            1
        } else if rows > MAX_TAB_ROWS {
            MAX_TAB_ROWS
        } else {
            rows
        }),
{
    if rows < 1 {
        1
    } else if rows > MAX_TAB_ROWS {
        MAX_TAB_ROWS
    } else {
        rows
    }
}

} // verus!
