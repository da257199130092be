//! The top-level workspace: the tab strip, the sidebar, the appearance
//! preferences and the saved-request list with its groups.
//!
//! The tabs carry an opaque handle `T` (the window's per-tab state); saved
//! requests carry an opaque payload `D` (the request itself). Every
//! operation keeps the workspace well formed: at least one tab, the active
//! index in range, saved requests newest first with distinct ids.
use vstd::prelude::*;

use crate::model::{SplitDirection, ThemePref, WorkspaceState, clamp_tab_rows, next_tab_rows};
use crate::ordering::{
    SavedRequest, TabDraft, distinct_draft_ids, has_id, lemma_restore_order_permutes, lemma_sort_newest_first, newest_first,
    order_drafts, restore_order, sort_newest_first, sort_saved,
};
use crate::templates::{RequestTemplate, TEMPLATE_IDS, find, is_template};
use crate::text::{
    is_white_space, lemma_trim_empty_iff_blank, lemma_trim_of_clean, lemma_trim_shape, trim, trimmed,
};

verus! {

broadcast use vstd::seq_lib::group_seq_properties;

/// Default sidebar width in logical pixels.
pub const SIDEBAR_DEFAULT_WIDTH: u32 = 360;

/// Narrowest the sidebar can be dragged.
pub const SIDEBAR_MIN_WIDTH: u32 = 280;

/// Default width of the narrow sidebar used by the recorder and load-test panels.
pub const RECORDER_SIDEBAR_DEFAULT_WIDTH: u32 = 240;

/// Narrowest the recorder / load-test sidebar can be dragged.
pub const RECORDER_SIDEBAR_MIN_WIDTH: u32 = 180;

/// Widest the sidebar can be dragged.
pub const SIDEBAR_MAX_WIDTH: u32 = 560;

/// The features on the left icon rail; the discriminant is the rail index.
#[derive(Debug, Clone, Copy, PartialEq, Eq, Structural)]
pub enum SidebarSection {
    Saved,
    Templates,
    LoadTest,
    Recorder,
}

impl SidebarSection {
    pub const ALL: [SidebarSection; 4] = [
        SidebarSection::Saved,
        SidebarSection::Templates,
        SidebarSection::LoadTest,
        SidebarSection::Recorder,
    ];

    /// The section shown on first launch.
    pub fn default_section() -> (s: SidebarSection)
        ensures
            s == SidebarSection::Saved,
    {
        SidebarSection::Saved
    }
}

/// The features on the right icon rail; the discriminant is the rail index.
#[derive(Debug, Clone, Copy, PartialEq, Eq, Structural)]
pub enum ToolSection {
    CodeGen,
    ImportCurl,
    Variables,
}

impl ToolSection {
    pub const ALL: [ToolSection; 3] = [
        ToolSection::CodeGen,
        ToolSection::ImportCurl,
        ToolSection::Variables,
    ];
}

/// Sections whose panel only holds controls use the narrower sidebar.
/// What fills the main area beside the sidebar.
#[derive(Debug, Clone, Copy, PartialEq, Eq, Structural)]
pub enum MainPane {
    /// The recorder's request list and details.
    Recorder,
    /// The load-test view.
    LoadTest,
    /// The tab strip over the active tab.
    Tabs,
}

pub fn narrow_section(section: SidebarSection) -> (r: bool)
    ensures
        r == (section == SidebarSection::Recorder || section == SidebarSection::LoadTest),
{
    match section {
        SidebarSection::Recorder | SidebarSection::LoadTest => true,
        _ => false,
    }
}

/// Index of the active tab after the tab at `closing` is removed from `len` tabs.
pub open spec fn spec_active_after_close(active: int, closing: int, len: int) -> int {
    let new_len = len - 1;
    if active >= new_len {
        if new_len >= 1 {
            new_len - 1
        } else {
            0
        }
    } else if closing < active {
        active - 1
    } else {
        active
    }
}

/// The active index after closing one tab: a tab left of the active one
/// shifts it left, closing the active tab selects its right neighbour, and
/// the last position clamps to the new last tab.
pub fn active_after_close(active: usize, closing: usize, len: usize) -> (r: usize)
    requires
        len >= 1,
    ensures
        r == spec_active_after_close(active as int, closing as int, len as int),
{
    let new_len = len - 1;
    if active >= new_len {
        if new_len >= 1 {
            new_len - 1
        } else {
            0
        }
    } else if closing < active {
        active - 1
    } else {
        active
    }
}

/// What the saved-request list shows: everything, or one group.
#[derive(Debug, Clone, PartialEq, Eq)]
pub enum SavedFilter {
    All,
    Group(String),
}

pub open spec fn opt_view(o: Option<String>) -> Option<Seq<char>> {
    match o {
        Some(s) => Some(s@),
        None => None,
    }
}

pub open spec fn filter_view(f: SavedFilter) -> Option<Seq<char>> {
    match f {
        SavedFilter::All => None,
        SavedFilter::Group(g) => Some(g@),
    }
}

/// Equality of two optional strings by content.
pub fn opt_string_eq(a: &Option<String>, b: &Option<String>) -> (r: bool)
    ensures
        r == (opt_view(*a) == opt_view(*b)),
{
    match (a, b) {
        (Some(x), Some(y)) => *x == *y,
        (None, None) => true,
        _ => false,
    }
}

fn clone_opt_string(a: &Option<String>) -> (r: Option<String>)
    ensures
        opt_view(r) == opt_view(*a),
{
    match a {
        Some(s) => Some(s.clone()),
        None => None,
    }
}

/// A group name as stored: trimmed, and no group at all when nothing is left.
pub open spec fn spec_normalize_group(g: Seq<char>) -> Option<Seq<char>> {
    if trim(g).len() == 0 {
        None
    } else {
        Some(trim(g))
    }
}

/// Trims a group name; an empty name means "no group".
pub fn normalize_group(g: &str) -> (r: Option<String>)
    ensures
        opt_view(r) == spec_normalize_group(g@),
{
    let t = trimmed(g);
    if t.as_str().unicode_len() == 0 {
        None
    } else {
        Some(t)
    }
}

fn normalize_opt_group(g: Option<String>) -> (r: Option<String>)
    ensures
        opt_view(r) == spec_normalize_opt(opt_view(g)),
{
    match g {
        Some(s) => normalize_group(s.as_str()),
        None => None,
    }
}

/// Some saved request belongs to this group.
pub open spec fn group_has_members<D>(saved: Seq<SavedRequest<D>>, g: Seq<char>) -> bool {
    exists|i: int| 0 <= i < saved.len() && opt_view(saved[i].group) == Some(g)
}

/// A filter still selects something: "all", or a group with at least one member.
pub open spec fn filter_still_valid<D>(f: SavedFilter, saved: Seq<SavedRequest<D>>) -> bool {
    match filter_view(f) {
        None => true,
        Some(g) => group_has_members(saved, g),
    }
}

pub open spec fn distinct_ids<D>(saved: Seq<SavedRequest<D>>) -> bool {
    forall|i: int, j: int| 0 <= i < j < saved.len() ==> saved[i].id != saved[j].id
}

/// Index of the saved request with this id, if any.
pub open spec fn find_saved<D>(saved: Seq<SavedRequest<D>>, id: u128) -> Option<int> {
    if exists|i: int| 0 <= i < saved.len() && saved[i].id == id {
        Some(choose|i: int| 0 <= i < saved.len() && saved[i].id == id)
    } else {
        None
    }
}

/// Per-tab bookkeeping the workspace owns: the tab id (also the draft file
/// name), the window's handle, the saved request it mirrors and whether it
/// has unsaved edits.
pub struct TabState<T> {
    pub id: u128,
    pub handle: T,
    pub saved_id: Option<u128>,
    pub saved_name: Option<String>,
    pub saved_group: Option<String>,
    pub dirty: bool,
}

/// A freshly opened, empty, unsaved tab.
/// No two tabs share an id (each is the name of the tab's draft file).
pub open spec fn distinct_tab_ids<T>(tabs: Seq<TabState<T>>) -> bool {
    forall|i: int, j: int| 0 <= i < j < tabs.len() ==> tabs[i].id != tabs[j].id
}

/// No tab has this id yet.
pub open spec fn fresh_tab_id<T>(tabs: Seq<TabState<T>>, id: u128) -> bool {
    forall|i: int| 0 <= i < tabs.len() ==> tabs[i].id != id
}

/// Tabs whose ids match position by position keep distinct ids.
proof fn lemma_same_ids_keep_distinct<T>(a: Seq<TabState<T>>, b: Seq<TabState<T>>)
    requires
        distinct_tab_ids(a),
        a.len() == b.len(),
        forall|i: int| 0 <= i < a.len() ==> #[trigger] a[i].id == b[i].id,
    ensures
        distinct_tab_ids(b),
{
    assert forall|i: int, j: int| 0 <= i < j < b.len() implies b[i].id != b[j].id by {
        assert(a[i].id == b[i].id && a[j].id == b[j].id);
    }
}

proof fn lemma_distinct_ids_count<R>(s: Seq<TabDraft<R>>)
    requires
        distinct_draft_ids(s),
    ensures
        forall|x: TabDraft<R>| #[trigger] s.to_multiset().count(x) <= 1,
    decreases s.len(),
{
    if s.len() > 0 {
        let d = s.drop_last();
        lemma_distinct_ids_count(d);
        assert(s =~= d.push(s.last()));
        vstd::seq_lib::to_multiset_build(d, s.last());
        assert forall|x: TabDraft<R>| #[trigger] s.to_multiset().count(x) <= 1 by {
            if x == s.last() && d.to_multiset().count(x) > 0 {
                vstd::seq_lib::to_multiset_contains(d, x);
                let k = choose|k: int| 0 <= k < d.len() && d[k] == x;
                assert(s[k].id == s[s.len() - 1].id);
            }
        }
    }
}

/// Reordering drafts keeps their ids distinct: a permutation of drafts with
/// distinct ids has distinct ids.
pub proof fn lemma_permutation_keeps_distinct_ids<R>(s: Seq<TabDraft<R>>, t: Seq<TabDraft<R>>)
    requires
        distinct_draft_ids(s),
        t.to_multiset() == s.to_multiset(),
    ensures
        distinct_draft_ids(t),
{
    lemma_distinct_ids_count(s);
    assert forall|a: int, b: int| 0 <= a < b < t.len() implies t[a].id != t[b].id by {
        if t[a].id == t[b].id {
            vstd::seq_lib::to_multiset_contains(t, t[a]);
            vstd::seq_lib::to_multiset_contains(t, t[b]);
            assert(t.contains(t[a]));
            assert(t.contains(t[b]));
            if t[a] == t[b] {
                vstd::seq_lib::to_multiset_remove(t, a);
                let r = t.remove(a);
                assert(r[b - 1] == t[b]);
                vstd::seq_lib::to_multiset_contains(r, t[b]);
                assert(r.contains(t[b]));
                assert(t.to_multiset().count(t[a]) >= 2);
            } else {
                vstd::seq_lib::to_multiset_contains(s, t[a]);
                vstd::seq_lib::to_multiset_contains(s, t[b]);
                let i = choose|i: int| 0 <= i < s.len() && s[i] == t[a];
                let j = choose|j: int| 0 <= j < s.len() && s[j] == t[b];
                if i < j {
                    assert(s[i].id != s[j].id);
                } else {
                    assert(s[j].id != s[i].id);
                }
            }
        }
    }
}

pub open spec fn fresh_tab<T>(t: TabState<T>, id: u128, handle: T) -> bool {
    &&& t.id == id
    &&& t.handle == handle
    &&& t.saved_id is None
    &&& t.saved_name is None
    &&& t.saved_group is None
    &&& !t.dirty
}

fn new_tab_state<T>(id: u128, handle: T) -> (t: TabState<T>)
    ensures
        fresh_tab(t, id, handle),
{
    TabState { id, handle, saved_id: None, saved_name: None, saved_group: None, dirty: false }
}

/// How a saved-request group is being reorganised.
pub enum Retag {
    /// Move one request into a group (or out of every group).
    Move { id: u128, group: Option<String> },
    /// Every member of `from` joins `to`.
    Rename { from: String, to: String },
    /// Every member of `name` becomes ungrouped.
    Dissolve { name: String },
}

/// Which requests a retag affects and the group it gives them: `None` for
/// a request it leaves alone, `Some(g)` for one whose group becomes `g`.
pub type GroupTarget<D> = spec_fn(SavedRequest<D>) -> Option<Option<Seq<char>>>;

/// Moving the request `id` into `group`.
pub open spec fn move_target<D>(id: u128, group: Option<Seq<char>>) -> GroupTarget<D> {
    |r: SavedRequest<D>| if r.id == id {
        Some(group)
    } else {
        None
    }
}

/// Every member of `from` joins `to`.
pub open spec fn rename_target<D>(from: Seq<char>, to: Seq<char>) -> GroupTarget<D> {
    |r: SavedRequest<D>| if opt_view(r.group) == Some(from) {
        Some(Some(to))
    } else {
        None
    }
}

/// Every member of `name` becomes ungrouped.
pub open spec fn dissolve_target<D>(name: Seq<char>) -> GroupTarget<D> {
    |r: SavedRequest<D>| if opt_view(r.group) == Some(name) {
        Some(None)
    } else {
        None
    }
}

/// What a retag does to each request.
pub open spec fn retag_target<D>(op: Retag) -> GroupTarget<D> {
    match op {
        Retag::Move { id, group } => move_target(id, opt_view(group)),
        Retag::Rename { from, to } => rename_target(from@, to@),
        Retag::Dissolve { name } => dissolve_target(name@),
    }
}

/// The group of a request after a retag.
pub open spec fn retagged_group<D>(target: GroupTarget<D>, r: SavedRequest<D>) -> Option<Seq<char>> {
    match target(r) {
        Some(g) => g,
        None => opt_view(r.group),
    }
}

/// The request's group changes under this retag.
pub open spec fn retag_changes<D>(target: GroupTarget<D>, r: SavedRequest<D>) -> bool {
    retagged_group(target, r) != opt_view(r.group)
}

/// Same request apart from its group.
pub open spec fn same_but_group<D>(a: SavedRequest<D>, b: SavedRequest<D>) -> bool {
    &&& a.id == b.id
    &&& a.name@ == b.name@
    &&& a.created_at == b.created_at
    &&& a.updated_at == b.updated_at
    &&& a.draft == b.draft
}

/// Same tab apart from the saved-request mirror fields.
pub open spec fn same_tab_identity<T>(a: TabState<T>, b: TabState<T>) -> bool {
    &&& a.id == b.id
    &&& a.handle == b.handle
}

/// What `open_saved` did.
#[derive(Debug, Clone, Copy, PartialEq, Eq, Structural)]
pub enum OpenSaved {
    /// A tab already showed the request; it is now active.
    Activated(usize),
    /// The request was opened in a new tab at this index; load its draft there.
    Opened { tab: usize, request: usize },
    /// No saved request has this id.
    Missing,
}

/// Ids of the requests whose group a retag changes, in list order.
pub open spec fn changed_ids<D>(target: GroupTarget<D>, saved: Seq<SavedRequest<D>>) -> Seq<u128>
    decreases saved.len(),
{
    if saved.len() == 0 {
        Seq::empty()
    } else if retag_changes(target, saved.last()) {
        changed_ids(target, saved.drop_last()).push(saved.last().id)
    } else {
        changed_ids(target, saved.drop_last())
    }
}

/// The group a tab mirrors after a retag: tabs showing a request whose
/// group changed follow it; every other tab keeps its group.
pub open spec fn tab_group_after<T, D>(
    target: GroupTarget<D>,
    saved: Seq<SavedRequest<D>>,
    tab: TabState<T>,
) -> Option<Seq<char>> {
    match tab.saved_id {
        Some(sid) => match find_saved(saved, sid) {
            Some(i) => if retag_changes(target, saved[i]) {
                retagged_group(target, saved[i])
            } else {
                opt_view(tab.saved_group)
            },
            None => opt_view(tab.saved_group),
        },
        None => opt_view(tab.saved_group),
    }
}

/// The filter after the list changed: kept while it still selects
/// something, otherwise back to "all".
pub open spec fn filter_after<D>(f: Option<Seq<char>>, saved: Seq<SavedRequest<D>>) -> Option<
    Seq<char>,
> {
    match f {
        Some(g) => if group_has_members(saved, g) {
            Some(g)
        } else {
            None
        },
        None => None,
    }
}

/// A group name as stored, for an optional name.
pub open spec fn spec_normalize_opt(g: Option<Seq<char>>) -> Option<Seq<char>> {
    match g {
        Some(s) => spec_normalize_group(s),
        None => None,
    }
}

proof fn lemma_find_saved<D>(saved: Seq<SavedRequest<D>>, k: int)
    requires
        distinct_ids(saved),
        0 <= k < saved.len(),
    ensures
        find_saved(saved, saved[k].id) == Some(k),
{
}

proof fn lemma_newest_first_remove<D>(s: Seq<SavedRequest<D>>, k: int)
    requires
        newest_first(s),
        distinct_ids(s),
        0 <= k < s.len(),
    ensures
        newest_first(s.remove(k)),
        distinct_ids(s.remove(k)),
{
    let t = s.remove(k);
    assert forall|i: int, j: int| 0 <= i < j < t.len() implies !crate::ordering::ranks_before(
        t[j],
        t[i],
    ) && t[i].id != t[j].id by {
        let i2 = if i < k {
            i
        } else {
            i + 1
        };
        let j2 = if j < k {
            j
        } else {
            j + 1
        };
        assert(t[i] == s[i2]);
        assert(t[j] == s[j2]);
    }
}

pub open spec fn has_saved_id<D>(s: Seq<SavedRequest<D>>, id: u128) -> bool {
    exists|i: int| 0 <= i < s.len() && s[i].id == id
}

/// Sorting newest first neither adds nor drops ids.
pub proof fn lemma_sort_newest_first_has_id<D>(s: Seq<SavedRequest<D>>, id: u128)
    ensures
        has_saved_id(s, id) <==> has_saved_id(sort_newest_first(s), id),
    decreases s.len(),
{
    if s.len() > 0 {
        let r = s.drop_last();
        lemma_sort_newest_first_has_id(r, id);
        lemma_sort_newest_first(r);
        let t = sort_newest_first(r);
        let x = s.last();
        let p = crate::ordering::saved_insert_pos(t, x);
        proof_saved_insert_pos_le(t, x);
        let u = t.insert(p as int, x);
        assert(sort_newest_first(s) == u);
        if has_saved_id(s, id) {
            let i = choose|i: int| 0 <= i < s.len() && s[i].id == id;
            if i == s.len() - 1 {
                assert(u[p as int].id == id);
            } else {
                assert(r[i].id == id);
                assert(has_saved_id(r, id));
                let j = choose|j: int| 0 <= j < t.len() && t[j].id == id;
                if j < p {
                    assert(u[j] == t[j]);
                } else {
                    assert(u[j + 1] == t[j]);
                }
            }
        }
        if has_saved_id(u, id) {
            let i = choose|i: int| 0 <= i < u.len() && u[i].id == id;
            if i == p {
                assert(s[s.len() - 1].id == id);
            } else {
                let j = if i < p {
                    i
                } else {
                    i - 1
                };
                assert(t[j].id == id);
                assert(has_saved_id(t, id));
                let k = choose|k: int| 0 <= k < r.len() && r[k].id == id;
                assert(r[k] == s[k]);
            }
        }
    }
}

/// Sorting newest first keeps ids distinct.
pub proof fn lemma_sort_newest_first_distinct<D>(s: Seq<SavedRequest<D>>)
    requires
        distinct_ids(s),
    ensures
        distinct_ids(sort_newest_first(s)),
    decreases s.len(),
{
    if s.len() > 0 {
        let r = s.drop_last();
        assert(distinct_ids(r));
        lemma_sort_newest_first_distinct(r);
        lemma_sort_newest_first(r);
        let t = sort_newest_first(r);
        let x = s.last();
        let p = crate::ordering::saved_insert_pos(t, x);
        proof_saved_insert_pos_le(t, x);
        let u = t.insert(p as int, x);
        assert(sort_newest_first(s) == u);
        assert forall|i: int, j: int| 0 <= i < j < u.len() implies u[i].id != u[j].id by {
            if i == p || j == p {
                let o = if i == p {
                    j
                } else {
                    i
                };
                let tj = if o < p {
                    o
                } else {
                    o - 1
                };
                assert(u[o] == t[tj]);
                if u[o].id == x.id {
                    assert(has_saved_id(t, t[tj].id));
                    lemma_sort_newest_first_has_id(r, t[tj].id);
                    let k = choose|k: int| 0 <= k < r.len() && r[k].id == t[tj].id;
                    assert(s[k].id == s[s.len() - 1].id);
                }
            } else {
                let i2 = if i < p {
                    i
                } else {
                    i - 1
                };
                let j2 = if j < p {
                    j
                } else {
                    j - 1
                };
                assert(u[i] == t[i2]);
                assert(u[j] == t[j2]);
            }
        }
    }
}

proof fn proof_saved_insert_pos_le<D>(t: Seq<SavedRequest<D>>, x: SavedRequest<D>)
    ensures
        crate::ordering::saved_insert_pos(t, x) <= t.len(),
    decreases t.len(),
{
    if t.len() > 0 {
        proof_saved_insert_pos_le(t.drop_first(), x);
    }
}

/// Closing a tab other than the active one leaves the same tab active;
/// closing the active tab activates its right neighbour, or the new last tab.
pub proof fn lemma_close_keeps_active_tab<T>(tabs: Seq<TabState<T>>, active: int, closing: int)
    requires
        tabs.len() > 1,
        0 <= active < tabs.len(),
        0 <= closing < tabs.len(),
    ensures
        0 <= spec_active_after_close(active, closing, tabs.len() as int) < tabs.len() - 1,
        closing != active ==> tabs.remove(closing)[spec_active_after_close(
            active,
            closing,
            tabs.len() as int,
        )] == tabs[active],
        closing == active && active + 1 < tabs.len() ==> tabs.remove(closing)[spec_active_after_close(
            active,
            closing,
            tabs.len() as int,
        )] == tabs[active + 1],
        closing == active && active + 1 == tabs.len() ==> spec_active_after_close(
            active,
            closing,
            tabs.len() as int,
        ) == tabs.len() - 2,
{
}

/// `new` is `old` after the retag: same requests in the same order, only
/// their groups changed as the retag says.
pub open spec fn retagged_list<D>(
    target: GroupTarget<D>,
    old: Seq<SavedRequest<D>>,
    new: Seq<SavedRequest<D>>,
) -> bool {
    &&& new.len() == old.len()
    &&& forall|k: int|
        0 <= k < old.len() ==> same_but_group(#[trigger] new[k], old[k]) && opt_view(new[k].group)
            == retagged_group(target, old[k])
}

/// `new` is `old` after the retag: same tabs, each mirroring the group of the
/// request it shows.
pub open spec fn retagged_tabs<T, D>(
    target: GroupTarget<D>,
    saved: Seq<SavedRequest<D>>,
    old: Seq<TabState<T>>,
    new: Seq<TabState<T>>,
) -> bool {
    &&& new.len() == old.len()
    &&& forall|j: int|
        0 <= j < old.len() ==> {
            &&& same_tab_identity(#[trigger] new[j], old[j])
            &&& new[j].saved_id == old[j].saved_id
            &&& new[j].saved_name == old[j].saved_name
            &&& new[j].dirty == old[j].dirty
            &&& opt_view(new[j].saved_group) == tab_group_after(target, saved, old[j])
        }
}

/// The group a retag assigns, if the request is affected.
fn retag_target_exec<D>(op: &Retag, r: &SavedRequest<D>) -> (t: Option<Option<String>>)
    ensures
        match t {
            Some(g) => retag_target::<D>(*op)(*r) == Some(opt_view(g)),
            None => retag_target::<D>(*op)(*r) is None,
        },
{
    match op {
        Retag::Move { id, group } => {
            if r.id == *id {
                Some(clone_opt_string(group))
            } else {
                None
            }
        },
        Retag::Rename { from, to } => {
            let hit = match &r.group {
                Some(g) => *g == *from,
                None => false,
            };
            if hit {
                Some(Some(to.clone()))
            } else {
                None
            }
        },
        Retag::Dissolve { name } => {
            let hit = match &r.group {
                Some(g) => *g == *name,
                None => false,
            };
            if hit {
                Some(None)
            } else {
                None
            }
        },
    }
}

/// Index of the saved request with this id.
fn saved_index<D>(saved: &Vec<SavedRequest<D>>, id: u128) -> (r: Option<usize>)
    ensures
        match r {
            Some(k) => k < saved@.len() && saved@[k as int].id == id,
            None => !has_saved_id(saved@, id),
        },
{
    let mut i: usize = 0;
    while i < saved.len()
        invariant
            i <= saved@.len(),
            forall|j: int| 0 <= j < i ==> saved@[j].id != id,
        decreases saved@.len() - i,
    {
        if saved[i].id == id {
            return Some(i);
        }
        i = i + 1;
    }
    None
}

/// Whether the filter still selects something in `saved`.
fn filter_valid_exec<D>(f: &SavedFilter, saved: &Vec<SavedRequest<D>>) -> (r: bool)
    ensures
        r == filter_still_valid(*f, saved@),
{
    match f {
        SavedFilter::All => true,
        SavedFilter::Group(g) => {
            let mut i: usize = 0;
            while i < saved.len()
                invariant
                    i <= saved@.len(),
                    filter_view(*f) == Some(g@),
                    forall|j: int| 0 <= j < i ==> opt_view(saved@[j].group) != Some(g@),
                decreases saved@.len() - i,
            {
                let hit = match &saved[i].group {
                    Some(x) => *x == *g,
                    None => false,
                };
                if hit {
                    assert(opt_view(saved@[i as int].group) == Some(g@));
                    return true;
                }
                i = i + 1;
            }
            false
        },
    }
}

proof fn lemma_same_keys_keep_order<D>(old: Seq<SavedRequest<D>>, new: Seq<SavedRequest<D>>)
    requires
        newest_first(old),
        distinct_ids(old),
        new.len() == old.len(),
        forall|k: int| 0 <= k < old.len() ==> same_but_group(#[trigger] new[k], old[k]),
    ensures
        newest_first(new),
        distinct_ids(new),
{
    assert forall|i: int, j: int| 0 <= i < j < new.len() implies !crate::ordering::ranks_before(
        new[j],
        new[i],
    ) && new[i].id != new[j].id by {
        assert(same_but_group(new[i], old[i]));
        assert(same_but_group(new[j], old[j]));
        assert(!crate::ordering::ranks_before(old[j], old[i]));
        assert(old[i].id != old[j].id);
    }
}

/// Every tab that mirrors a saved request mirrors one in `saved`.
pub open spec fn links_valid<T, D>(tabs: Seq<TabState<T>>, saved: Seq<SavedRequest<D>>) -> bool {
    forall|j: int|
        0 <= j < tabs.len() ==> match (#[trigger] tabs[j]).saved_id {
            Some(sid) => has_saved_id(saved, sid),
            None => true,
        }
}

/// The workspace state. `T` is a tab's window handle, `D` a saved request's payload.
pub struct Workspace<T, D> {
    tabs: Vec<TabState<T>>,
    active: usize,
    sidebar_collapsed: bool,
    sidebar_section: SidebarSection,
    theme: ThemePref,
    split: SplitDirection,
    tab_rows: u8,
    saved: Vec<SavedRequest<D>>,
    saved_filter: SavedFilter,
}

impl<T, D> Workspace<T, D> {
    pub closed spec fn spec_tabs(&self) -> Seq<TabState<T>> {
        self.tabs@
    }

    pub closed spec fn spec_active(&self) -> int {
        self.active as int
    }

    pub closed spec fn spec_sidebar_collapsed(&self) -> bool {
        self.sidebar_collapsed
    }

    pub closed spec fn spec_sidebar_section(&self) -> SidebarSection {
        self.sidebar_section
    }

    pub closed spec fn spec_theme(&self) -> ThemePref {
        self.theme
    }

    pub closed spec fn spec_split(&self) -> SplitDirection {
        self.split
    }

    pub closed spec fn spec_tab_rows(&self) -> u8 {
        self.tab_rows
    }

    pub closed spec fn spec_saved(&self) -> Seq<SavedRequest<D>> {
        self.saved@
    }

    pub closed spec fn spec_filter(&self) -> SavedFilter {
        self.saved_filter
    }

    /// At least one tab, the active index in range, saved requests newest
    /// first with distinct ids, and every tab that mirrors a saved request
    /// mirrors one that exists.
    pub open spec fn wf(&self) -> bool {
        &&& self.spec_tabs().len() >= 1
        &&& distinct_tab_ids(self.spec_tabs())
        &&& 0 <= self.spec_active() < self.spec_tabs().len()
        &&& newest_first(self.spec_saved())
        &&& distinct_ids(self.spec_saved())
        &&& links_valid(self.spec_tabs(), self.spec_saved())
    }

    /// Everything but the tabs and the active index is unchanged.
    pub open spec fn same_layout(&self, other: &Self) -> bool {
        &&& self.spec_sidebar_collapsed() == other.spec_sidebar_collapsed()
        &&& self.spec_sidebar_section() == other.spec_sidebar_section()
        &&& self.spec_theme() == other.spec_theme()
        &&& self.spec_split() == other.spec_split()
        &&& self.spec_tab_rows() == other.spec_tab_rows()
        &&& self.spec_saved() == other.spec_saved()
        &&& self.spec_filter() == other.spec_filter()
    }

    // -----------------------------------------------------------------------
    // Readers
    // -----------------------------------------------------------------------

    pub fn tab_count(&self) -> (n: usize)
        ensures
            n == self.spec_tabs().len(),
    {
        self.tabs.len()
    }

    pub fn active_index(&self) -> (ix: usize)
        ensures
            ix == self.spec_active(),
    {
        self.active
    }

    /// The main area: with the sidebar open on the recorder or the load
    /// test, that tool's view; otherwise the tabs.
    pub fn main_pane(&self) -> (p: MainPane)
        ensures
            p == (if !self.spec_sidebar_collapsed() && self.spec_sidebar_section()
                == SidebarSection::Recorder {
                MainPane::Recorder
            } else if !self.spec_sidebar_collapsed() && self.spec_sidebar_section()
                == SidebarSection::LoadTest {
                MainPane::LoadTest
            } else {
                MainPane::Tabs
            }),
    {
        if self.sidebar_collapsed {
            return MainPane::Tabs;
        }
        match self.sidebar_section {
            SidebarSection::Recorder => MainPane::Recorder,
            SidebarSection::LoadTest => MainPane::LoadTest,
            _ => MainPane::Tabs,
        }
    }

    /// The active tab.
    pub fn active_tab(&self) -> (t: &TabState<T>)
        requires
            self.wf(),
        ensures
            *t == self.spec_tabs()[self.spec_active()],
    {
        &self.tabs[self.active]
    }

    pub fn tab_at(&self, ix: usize) -> (t: &TabState<T>)
        requires
            ix < self.spec_tabs().len(),
        ensures
            *t == self.spec_tabs()[ix as int],
    {
        &self.tabs[ix]
    }

    pub fn sidebar_collapsed(&self) -> (b: bool)
        ensures
            b == self.spec_sidebar_collapsed(),
    {
        self.sidebar_collapsed
    }

    pub fn sidebar_section(&self) -> (s: SidebarSection)
        ensures
            s == self.spec_sidebar_section(),
    {
        self.sidebar_section
    }

    pub fn theme(&self) -> (t: ThemePref)
        ensures
            t == self.spec_theme(),
    {
        self.theme
    }

    pub fn split(&self) -> (s: SplitDirection)
        ensures
            s == self.spec_split(),
    {
        self.split
    }

    pub fn saved(&self) -> (s: &Vec<SavedRequest<D>>)
        ensures
            s@ == self.spec_saved(),
    {
        &self.saved
    }

    pub fn saved_filter(&self) -> (f: &SavedFilter)
        ensures
            *f == self.spec_filter(),
    {
        &self.saved_filter
    }

    /// The layout to persist: tab order, active tab id, sidebar and appearance.
    pub fn workspace_state(&self) -> (s: WorkspaceState)
        requires
            self.wf(),
        ensures
            s.tab_order@.len() == self.spec_tabs().len(),
            forall|i: int| 0 <= i < s.tab_order@.len() ==> s.tab_order@[i] == self.spec_tabs()[i].id,
            s.active == Some(self.spec_tabs()[self.spec_active()].id),
            s.sidebar_collapsed == self.spec_sidebar_collapsed(),
            s.theme == self.spec_theme(),
            s.split == self.spec_split(),
            s.tab_rows == self.spec_tab_rows(),
    {
        let mut order: Vec<u128> = Vec::new();
        let mut i: usize = 0;
        while i < self.tabs.len()
            invariant
                i <= self.tabs@.len(),
                order@.len() == i,
                forall|j: int| 0 <= j < i ==> order@[j] == self.tabs@[j].id,
            decreases self.tabs@.len() - i,
        {
            order.push(self.tabs[i].id);
            i = i + 1;
        }
        WorkspaceState {
            tab_order: order,
            active: Some(self.tabs[self.active].id),
            sidebar_collapsed: self.sidebar_collapsed,
            theme: self.theme,
            split: self.split,
            tab_rows: self.tab_rows,
        }
    }

    // -----------------------------------------------------------------------
    // The tab strip
    // -----------------------------------------------------------------------

    /// Opens an empty tab `id` (not yet used by a tab) at the end and
    /// activates it.
    pub fn new_tab(&mut self, id: u128, handle: T)
        requires
            old(self).wf(),
            fresh_tab_id(old(self).spec_tabs(), id),
        ensures
            final(self).wf(),
            final(self).same_layout(&*old(self)),
            final(self).spec_tabs().len() == old(self).spec_tabs().len() + 1,
            final(self).spec_tabs().drop_last() == old(self).spec_tabs(),
            fresh_tab(final(self).spec_tabs().last(), id, handle),
            final(self).spec_active() == old(self).spec_tabs().len(),
    {
        self.tabs.push(new_tab_state(id, handle));
        self.active = self.tabs.len() - 1;
        assert(self.tabs@.drop_last() =~= old(self).tabs@);
    }

    /// Makes the tab at `ix` active; out-of-range indices and the active tab
    /// itself change nothing. Returns whether the active tab changed.
    pub fn activate(&mut self, ix: usize) -> (changed: bool)
        requires
            old(self).wf(),
        ensures
            final(self).wf(),
            final(self).same_layout(&*old(self)),
            final(self).spec_tabs() == old(self).spec_tabs(),
            changed == (ix < old(self).spec_tabs().len() && ix != old(self).spec_active()),
            final(self).spec_active() == if changed {
                ix as int
            } else {
                old(self).spec_active()
            },
    {
        if ix < self.tabs.len() && ix != self.active {
            self.active = ix;
            true
        } else {
            false
        }
    }

    /// Copies the tab at `source_ix` into a new tab placed right after it and
    /// activates the copy. The copy is unsaved and has edits; the window loads
    /// the source's request into `handle`. Returns false (nothing changes)
    /// when `source_ix` is out of range.
    pub fn duplicate_tab(&mut self, source_ix: usize, id: u128, handle: T) -> (done: bool)
        requires
            old(self).wf(),
            fresh_tab_id(old(self).spec_tabs(), id),
        ensures
            final(self).wf(),
            final(self).same_layout(&*old(self)),
            done == (source_ix < old(self).spec_tabs().len()),
            !done ==> final(self).spec_tabs() == old(self).spec_tabs() && final(self).spec_active()
                == old(self).spec_active(),
            done ==> {
                let n = source_ix + 1;
                &&& final(self).spec_tabs().len() == old(self).spec_tabs().len() + 1
                &&& final(self).spec_tabs().take(n as int) == old(self).spec_tabs().take(n as int)
                &&& final(self).spec_tabs().skip(n + 1) == old(self).spec_tabs().skip(n as int)
                &&& final(self).spec_active() == n
                &&& final(self).spec_tabs()[n as int].id == id
                &&& final(self).spec_tabs()[n as int].handle == handle
                &&& final(self).spec_tabs()[n as int].saved_id is None
                &&& final(self).spec_tabs()[n as int].saved_name is None
                &&& final(self).spec_tabs()[n as int].saved_group is None
                &&& final(self).spec_tabs()[n as int].dirty
            },
    {
        if source_ix >= self.tabs.len() {
            return false;
        }
        let mut t = new_tab_state(id, handle);
        t.dirty = true;
        let to = source_ix + 1;
        self.tabs.insert(to, t);
        self.active = to;
        assert(self.tabs@.take(to as int) =~= old(self).tabs@.take(to as int));
        assert(self.tabs@.skip(to + 1) =~= old(self).tabs@.skip(to as int));
        true
    }

    /// Duplicates the active tab (see [`Self::duplicate_tab`]).
    pub fn duplicate_active(&mut self, id: u128, handle: T)
        requires
            old(self).wf(),
            fresh_tab_id(old(self).spec_tabs(), id),
        ensures
            final(self).wf(),
            final(self).same_layout(&*old(self)),
            final(self).spec_tabs().len() == old(self).spec_tabs().len() + 1,
            final(self).spec_active() == old(self).spec_active() + 1,
            final(self).spec_tabs().take(old(self).spec_active() + 1) == old(self).spec_tabs().take(
                old(self).spec_active() + 1,
            ),
            final(self).spec_tabs().skip(old(self).spec_active() + 2) == old(self).spec_tabs().skip(
                old(self).spec_active() + 1,
            ),
            final(self).spec_tabs()[old(self).spec_active() + 1].id == id,
            final(self).spec_tabs()[old(self).spec_active() + 1].handle == handle,
            final(self).spec_tabs()[old(self).spec_active() + 1].dirty,
            final(self).spec_tabs()[old(self).spec_active() + 1].saved_id is None,
    {
        let ix = self.active;
        self.duplicate_tab(ix, id, handle);
    }

    /// Closes the tab at `ix` and returns it (its draft file is to be deleted).
    /// Closing the only tab replaces it with `replacement`, a fresh empty tab
    /// with a new id.
    /// Out-of-range indices change nothing.
    pub fn close_tab(&mut self, ix: usize, replacement: Option<(u128, T)>) -> (closed: Option<
        TabState<T>,
    >)
        requires
            old(self).wf(),
            ix < old(self).spec_tabs().len() && old(self).spec_tabs().len() == 1
                ==> replacement is Some && (replacement->0).0 != old(self).spec_tabs()[0].id,
        ensures
            final(self).wf(),
            final(self).same_layout(&*old(self)),
            ix >= old(self).spec_tabs().len() ==> closed is None && final(self).spec_tabs()
                == old(self).spec_tabs() && final(self).spec_active() == old(self).spec_active(),
            ix < old(self).spec_tabs().len() ==> closed == Some(old(self).spec_tabs()[ix as int]),
            ix < old(self).spec_tabs().len() && old(self).spec_tabs().len() == 1 ==> {
                &&& final(self).spec_tabs().len() == 1
                &&& fresh_tab(
                    final(self).spec_tabs()[0],
                    replacement.unwrap().0,
                    replacement.unwrap().1,
                )
                &&& final(self).spec_tabs()[0].id != old(self).spec_tabs()[0].id
                &&& final(self).spec_active() == 0
            },
            ix < old(self).spec_tabs().len() && old(self).spec_tabs().len() > 1 ==> {
                &&& final(self).spec_tabs() == old(self).spec_tabs().remove(ix as int)
                &&& final(self).spec_active() == spec_active_after_close(
                    old(self).spec_active(),
                    ix as int,
                    old(self).spec_tabs().len() as int,
                )
            },
            ix < old(self).spec_tabs().len() && old(self).spec_tabs().len() > 1 && ix != old(
                self,
            ).spec_active() ==> final(self).spec_tabs()[final(self).spec_active()] == old(
                self,
            ).spec_tabs()[old(self).spec_active()],
    {
        proof {
            if ix < self.tabs@.len() && self.tabs@.len() > 1 {
                lemma_close_keeps_active_tab(self.tabs@, self.active as int, ix as int);
            }
        }
        if ix >= self.tabs.len() {
            return None;
        }
        let len = self.tabs.len();
        let t = self.tabs.remove(ix);
        if len == 1 {
            match replacement {
                Some((id, handle)) => {
                    self.tabs.push(new_tab_state(id, handle));
                },
                None => {},
            }
            self.active = 0;
        } else {
            self.active = active_after_close(self.active, ix, len);
        }
        Some(t)
    }

    /// Closes every tab but the one at `keep`, which becomes the only and
    /// active tab. Returns the closed tabs (last first). Nothing changes when
    /// `keep` is out of range or it is the only tab.
    pub fn close_other_tabs(&mut self, keep: usize) -> (closed: Vec<TabState<T>>)
        requires
            old(self).wf(),
        ensures
            final(self).wf(),
            final(self).same_layout(&*old(self)),
            keep >= old(self).spec_tabs().len() || old(self).spec_tabs().len() == 1 ==> {
                &&& closed@.len() == 0
                &&& final(self).spec_tabs() == old(self).spec_tabs()
                &&& final(self).spec_active() == old(self).spec_active()
            },
            keep < old(self).spec_tabs().len() && old(self).spec_tabs().len() > 1 ==> {
                &&& final(self).spec_tabs() == seq![old(self).spec_tabs()[keep as int]]
                &&& final(self).spec_active() == 0
                &&& closed@ == old(self).spec_tabs().remove(keep as int).reverse()
            },
    {
        let mut closed: Vec<TabState<T>> = Vec::new();
        if keep >= self.tabs.len() || self.tabs.len() == 1 {
            return closed;
        }
        let ghost others = self.tabs@.remove(keep as int);
        let ghost kept = self.tabs@[keep as int];
        let mut rest: Vec<TabState<T>> = Vec::new();
        std::mem::swap(&mut rest, &mut self.tabs);
        let t = rest.remove(keep);
        assert(rest@ == others);
        assert(others.skip(others.len() as int) =~= Seq::<TabState<T>>::empty());
        while rest.len() > 0
            invariant
                rest@.len() <= others.len(),
                rest@ == others.take(rest@.len() as int),
                closed@ == others.skip(rest@.len() as int).reverse(),
            decreases rest@.len(),
        {
            let ghost n = rest@.len() as int;
            let x = rest.pop().unwrap();
            closed.push(x);
            proof {
                assert(x == others[n - 1]);
                assert(rest@ =~= others.take(n - 1));
                assert(others.skip(n - 1) =~= seq![x] + others.skip(n));
                assert(others.skip(n - 1).reverse() =~= others.skip(n).reverse().push(x));
            }
        }
        assert(others.skip(0) =~= others);
        self.tabs.push(t);
        assert(self.tabs@ =~= seq![kept]);
        self.active = 0;
        closed
    }

    /// Closes every tab; a fresh empty tab takes their place. Returns the closed tabs.
    pub fn close_all_tabs(&mut self, id: u128, handle: T) -> (closed: Vec<TabState<T>>)
        requires
            old(self).wf(),
        ensures
            final(self).wf(),
            final(self).same_layout(&*old(self)),
            closed@ == old(self).spec_tabs(),
            final(self).spec_tabs().len() == 1,
            fresh_tab(final(self).spec_tabs()[0], id, handle),
            final(self).spec_active() == 0,
    {
        let mut closed: Vec<TabState<T>> = Vec::new();
        std::mem::swap(&mut closed, &mut self.tabs);
        self.tabs.push(new_tab_state(id, handle));
        self.active = 0;
        closed
    }

    /// Records an edit in the tab at `ix`.
    pub fn mark_dirty(&mut self, ix: usize)
        requires
            old(self).wf(),
        ensures
            final(self).wf(),
            final(self).same_layout(&*old(self)),
            final(self).spec_active() == old(self).spec_active(),
            final(self).spec_tabs().len() == old(self).spec_tabs().len(),
            forall|j: int|
                0 <= j < old(self).spec_tabs().len() && j != ix ==> final(self).spec_tabs()[j]
                    == old(self).spec_tabs()[j],
            ix < old(self).spec_tabs().len() ==> {
                let (a, b) = (final(self).spec_tabs()[ix as int], old(self).spec_tabs()[ix as int]);
                &&& same_tab_identity(a, b)
                &&& a.saved_id == b.saved_id
                &&& a.saved_name == b.saved_name
                &&& a.saved_group == b.saved_group
                &&& a.dirty
            },
    {
        if ix < self.tabs.len() {
            let mut t = self.tabs.remove(ix);
            t.dirty = true;
            self.tabs.insert(ix, t);
        }
    }

    // -----------------------------------------------------------------------
    // Sidebar and appearance
    // -----------------------------------------------------------------------

    /// Collapses or expands the sidebar.
    pub fn toggle_sidebar(&mut self)
        requires
            old(self).wf(),
        ensures
            final(self).wf(),
            final(self).spec_sidebar_collapsed() == !old(self).spec_sidebar_collapsed(),
            final(self).spec_sidebar_section() == old(self).spec_sidebar_section(),
            final(self).spec_tabs() == old(self).spec_tabs(),
            final(self).spec_active() == old(self).spec_active(),
            final(self).spec_theme() == old(self).spec_theme(),
            final(self).spec_split() == old(self).spec_split(),
            final(self).spec_tab_rows() == old(self).spec_tab_rows(),
            final(self).spec_saved() == old(self).spec_saved(),
            final(self).spec_filter() == old(self).spec_filter(),
    {
        self.sidebar_collapsed = !self.sidebar_collapsed;
    }

    /// The single/multi-row toggle of the tab strip.
    pub fn toggle_tab_rows(&mut self)
        requires
            old(self).wf(),
        ensures
            final(self).wf(),
            final(self).spec_tab_rows() == (if old(self).spec_tab_rows() > 1 {
                1
            } else {
                crate::model::MAX_TAB_ROWS
            }),
            final(self).spec_tabs() == old(self).spec_tabs(),
            final(self).spec_active() == old(self).spec_active(),
            final(self).spec_sidebar_collapsed() == old(self).spec_sidebar_collapsed(),
            final(self).spec_sidebar_section() == old(self).spec_sidebar_section(),
            final(self).spec_theme() == old(self).spec_theme(),
            final(self).spec_split() == old(self).spec_split(),
            final(self).spec_saved() == old(self).spec_saved(),
            final(self).spec_filter() == old(self).spec_filter(),
    {
        self.tab_rows = next_tab_rows(self.tab_rows);
    }

    pub fn tab_rows(&self) -> (r: u8)
        ensures
            r == self.spec_tab_rows(),
    {
        self.tab_rows
    }

    /// A click on the left rail: clicking the section that is open collapses
    /// the sidebar; any other click expands it on that section. Returns true
    /// when the sidebar ends up open.
    pub fn open_sidebar_section(&mut self, section: SidebarSection) -> (opened: bool)
        requires
            old(self).wf(),
        ensures
            final(self).wf(),
            opened == (old(self).spec_sidebar_collapsed() || old(self).spec_sidebar_section()
                != section),
            final(self).spec_sidebar_collapsed() == !opened,
            final(self).spec_sidebar_section() == if opened {
                section
            } else {
                old(self).spec_sidebar_section()
            },
            final(self).spec_tabs() == old(self).spec_tabs(),
            final(self).spec_active() == old(self).spec_active(),
            final(self).spec_theme() == old(self).spec_theme(),
            final(self).spec_split() == old(self).spec_split(),
            final(self).spec_tab_rows() == old(self).spec_tab_rows(),
            final(self).spec_saved() == old(self).spec_saved(),
            final(self).spec_filter() == old(self).spec_filter(),
    {
        if !self.sidebar_collapsed && self.sidebar_section == section {
            self.sidebar_collapsed = true;
            false
        } else {
            self.sidebar_section = section;
            self.sidebar_collapsed = false;
            true
        }
    }

    /// Sets the appearance preference; returns whether it changed.
    pub fn set_theme(&mut self, pref: ThemePref) -> (changed: bool)
        requires
            old(self).wf(),
        ensures
            final(self).wf(),
            changed == (pref != old(self).spec_theme()),
            final(self).spec_theme() == pref,
            final(self).spec_sidebar_collapsed() == old(self).spec_sidebar_collapsed(),
            final(self).spec_sidebar_section() == old(self).spec_sidebar_section(),
            final(self).spec_tabs() == old(self).spec_tabs(),
            final(self).spec_active() == old(self).spec_active(),
            final(self).spec_split() == old(self).spec_split(),
            final(self).spec_tab_rows() == old(self).spec_tab_rows(),
            final(self).spec_saved() == old(self).spec_saved(),
            final(self).spec_filter() == old(self).spec_filter(),
    {
        if self.theme == pref {
            return false;
        }
        self.theme = pref;
        true
    }

    /// The theme button: System → Light → Dark → System.
    pub fn cycle_theme(&mut self)
        requires
            old(self).wf(),
        ensures
            final(self).wf(),
            final(self).spec_theme() == old(self).spec_theme().spec_next(),
            final(self).spec_sidebar_collapsed() == old(self).spec_sidebar_collapsed(),
            final(self).spec_sidebar_section() == old(self).spec_sidebar_section(),
            final(self).spec_tabs() == old(self).spec_tabs(),
            final(self).spec_active() == old(self).spec_active(),
            final(self).spec_split() == old(self).spec_split(),
            final(self).spec_tab_rows() == old(self).spec_tab_rows(),
            final(self).spec_saved() == old(self).spec_saved(),
            final(self).spec_filter() == old(self).spec_filter(),
    {
        let next = self.theme.next();
        self.set_theme(next);
    }

    /// Puts the response pane right of or below the request pane in every tab;
    /// choosing the current direction does nothing. Returns whether it changed.
    pub fn set_split(&mut self, split: SplitDirection) -> (changed: bool)
        requires
            old(self).wf(),
        ensures
            final(self).wf(),
            changed == (split != old(self).spec_split()),
            final(self).spec_split() == split,
            final(self).spec_tab_rows() == old(self).spec_tab_rows(),
            final(self).spec_theme() == old(self).spec_theme(),
            final(self).spec_sidebar_collapsed() == old(self).spec_sidebar_collapsed(),
            final(self).spec_sidebar_section() == old(self).spec_sidebar_section(),
            final(self).spec_tabs() == old(self).spec_tabs(),
            final(self).spec_active() == old(self).spec_active(),
            final(self).spec_saved() == old(self).spec_saved(),
            final(self).spec_filter() == old(self).spec_filter(),
    {
        if self.split == split {
            return false;
        }
        self.split = split;
        true
    }

    /// Selects what the saved-request list shows; returns whether it changed.
    pub fn set_saved_filter(&mut self, filter: SavedFilter) -> (changed: bool)
        requires
            old(self).wf(),
        ensures
            final(self).wf(),
            changed == (filter_view(filter) != filter_view(old(self).spec_filter())),
            filter_view(final(self).spec_filter()) == filter_view(filter),
            final(self).same_layout_but_filter(&*old(self)),
            final(self).spec_tabs() == old(self).spec_tabs(),
            final(self).spec_active() == old(self).spec_active(),
    {
        let same = match (&self.saved_filter, &filter) {
            (SavedFilter::All, SavedFilter::All) => true,
            (SavedFilter::Group(a), SavedFilter::Group(b)) => *a == *b,
            _ => false,
        };
        if same {
            return false;
        }
        self.saved_filter = filter;
        true
    }

    /// Everything but the tabs, the active index and the filter is unchanged.
    pub open spec fn same_layout_but_filter(&self, other: &Self) -> bool {
        &&& self.spec_sidebar_collapsed() == other.spec_sidebar_collapsed()
        &&& self.spec_sidebar_section() == other.spec_sidebar_section()
        &&& self.spec_theme() == other.spec_theme()
        &&& self.spec_split() == other.spec_split()
        &&& self.spec_tab_rows() == other.spec_tab_rows()
        &&& self.spec_saved() == other.spec_saved()
    }
}

impl<T, D> Workspace<T, D> {
    // -----------------------------------------------------------------------
    // Organising saved requests into groups
    // -----------------------------------------------------------------------

    /// Applies a retag to every saved request, updates the tabs that show a
    /// request whose group changed, and falls back to "all" when the filter
    /// no longer selects anything. Only groups change: ids, names, contents
    /// and modification times stay as they are. Returns the ids of the
    /// requests whose group changed (the files to rewrite), in list order.
    fn retag_saved(&mut self, op: &Retag) -> (changed: Vec<u128>)
        requires
            old(self).wf(),
        ensures
            final(self).wf(),
            changed@ == changed_ids(retag_target(*op), old(self).spec_saved()),
            retagged_list(retag_target(*op), old(self).spec_saved(), final(self).spec_saved()),
            retagged_tabs(retag_target(*op), old(self).spec_saved(), old(self).spec_tabs(), final(self).spec_tabs()),
            final(self).spec_active() == old(self).spec_active(),
            changed@.len() > 0 ==> filter_view(final(self).spec_filter()) == filter_after(
                filter_view(old(self).spec_filter()),
                final(self).spec_saved(),
            ),
            changed@.len() == 0 ==> final(self).spec_filter() == old(self).spec_filter(),
            final(self).spec_sidebar_collapsed() == old(self).spec_sidebar_collapsed(),
            final(self).spec_sidebar_section() == old(self).spec_sidebar_section(),
            final(self).spec_theme() == old(self).spec_theme(),
            final(self).spec_split() == old(self).spec_split(),
            final(self).spec_tab_rows() == old(self).spec_tab_rows(),
    {
        let ghost old_saved = self.saved@;
        let ghost old_tabs = self.tabs@;
        let n = self.saved.len();
        let mut flags: Vec<bool> = Vec::new();
        let mut changed: Vec<u128> = Vec::new();
        let mut i: usize = 0;
        assert(old_saved.take(0) =~= Seq::<SavedRequest<D>>::empty());
        while i < n
            invariant
                n == old_saved.len(),
                self.saved@.len() == n,
                i <= n,
                flags@.len() == i,
                forall|k: int| 0 <= k < i ==> flags@[k] == retag_changes(retag_target(*op), #[trigger] old_saved[k]),
                forall|k: int|
                    0 <= k < i ==> same_but_group(#[trigger] self.saved@[k], old_saved[k]) && opt_view(
                        self.saved@[k].group,
                    ) == retagged_group(retag_target(*op), old_saved[k]),
                forall|k: int| i <= k < n ==> #[trigger] self.saved@[k] == old_saved[k],
                changed@ == changed_ids(retag_target(*op), old_saved.take(i as int)),
                self.tabs@ == old_tabs,
                self.active == old(self).active,
                self.saved_filter == old(self).saved_filter,
                self.sidebar_collapsed == old(self).sidebar_collapsed,
                self.sidebar_section == old(self).sidebar_section,
                self.theme == old(self).theme,
                self.split == old(self).split,
                self.tab_rows == old(self).tab_rows,
            decreases n - i,
        {
            let ghost before = self.saved@;
            let target = retag_target_exec(op, &self.saved[i]);
            let mut flag = false;
            match target {
                Some(g) => {
                    if !opt_string_eq(&self.saved[i].group, &g) {
                        let mut r = self.saved.remove(i);
                        r.group = g;
                        let id = r.id;
                        self.saved.insert(i, r);
                        changed.push(id);
                        flag = true;
                        assert forall|k: int| 0 <= k < n && k != i implies #[trigger] self.saved@[k]
                            == before[k] by {}
                    }
                },
                None => {},
            }
            flags.push(flag);
            proof {
                let s2 = old_saved.take(i + 1);
                assert(s2.drop_last() =~= old_saved.take(i as int));
                assert(s2.last() == old_saved[i as int]);
            }
            i = i + 1;
        }
        assert(old_saved.take(n as int) =~= old_saved);
        proof {
            lemma_same_keys_keep_order(old_saved, self.saved@);
        }
        let ghost new_saved = self.saved@;
        let m = self.tabs.len();
        let mut j: usize = 0;
        while j < m
            invariant
                m == old_tabs.len(),
                self.tabs@.len() == m,
                j <= m,
                self.saved@ == new_saved,
                new_saved.len() == old_saved.len(),
                distinct_ids(old_saved),
                self.active == old(self).active,
                self.saved_filter == old(self).saved_filter,
                self.sidebar_collapsed == old(self).sidebar_collapsed,
                self.sidebar_section == old(self).sidebar_section,
                self.theme == old(self).theme,
                self.split == old(self).split,
                self.tab_rows == old(self).tab_rows,
                flags@.len() == old_saved.len(),
                forall|k: int| 0 <= k < old_saved.len() ==> flags@[k] == retag_changes(retag_target(*op), #[trigger] old_saved[k]),
                forall|k: int|
                    0 <= k < old_saved.len() ==> same_but_group(#[trigger] new_saved[k], old_saved[k]) && opt_view(
                        new_saved[k].group,
                    ) == retagged_group(retag_target(*op), old_saved[k]),
                forall|q: int| j <= q < m ==> #[trigger] self.tabs@[q] == old_tabs[q],
                forall|q: int|
                    0 <= q < j ==> {
                        &&& same_tab_identity(#[trigger] self.tabs@[q], old_tabs[q])
                        &&& self.tabs@[q].saved_id == old_tabs[q].saved_id
                        &&& self.tabs@[q].saved_name == old_tabs[q].saved_name
                        &&& self.tabs@[q].dirty == old_tabs[q].dirty
                        &&& opt_view(self.tabs@[q].saved_group) == tab_group_after(retag_target(*op), old_saved, old_tabs[q])
                    },
            decreases m - j,
        {
            let ghost before = self.tabs@;
            match self.tabs[j].saved_id {
                Some(sid) => {
                    match saved_index(&self.saved, sid) {
                        Some(k) => {
                            proof {
                                assert(same_but_group(new_saved[k as int], old_saved[k as int]));
                                lemma_find_saved(old_saved, k as int);
                            }
                            if flags[k] {
                                let g = clone_opt_string(&self.saved[k].group);
                                let mut t = self.tabs.remove(j);
                                t.saved_group = g;
                                self.tabs.insert(j, t);
                                assert forall|q: int| 0 <= q < m && q != j implies #[trigger] self.tabs@[q]
                                    == before[q] by {}
                            }
                        },
                        None => {
                            proof {
                                assert forall|k: int| 0 <= k < old_saved.len() implies old_saved[k].id != sid by {
                                    assert(same_but_group(new_saved[k], old_saved[k]));
                                    if old_saved[k].id == sid {
                                        assert(has_saved_id(new_saved, sid));
                                    }
                                }
                                assert(find_saved(old_saved, sid) is None);
                            }
                        },
                    }
                },
                None => {},
            }
            j = j + 1;
        }
        proof {
            assert forall|q: int| 0 <= q < self.tabs@.len() implies match (#[trigger] self.tabs@[q]).saved_id {
                Some(sid) => has_saved_id(new_saved, sid),
                None => true,
            } by {
                assert(same_tab_identity(self.tabs@[q], old_tabs[q]));
                if let Some(sid) = old_tabs[q].saved_id {
                    assert(has_saved_id(old_saved, sid));
                    let k = choose|k: int| 0 <= k < old_saved.len() && old_saved[k].id == sid;
                    assert(same_but_group(new_saved[k], old_saved[k]));
                }
            }
        }
        if changed.len() > 0 {
            if !filter_valid_exec(&self.saved_filter, &self.saved) {
                self.saved_filter = SavedFilter::All;
            }
        }
        changed
    }
}

impl<T, D> Workspace<T, D> {
    /// `self` is `old` after a regrouping with `target`: the listed requests
    /// had their group changed, the tabs showing them follow, the filter
    /// `filter` is kept while it selects something (back to "all" otherwise;
    /// it is only checked when something changed), and nothing else moved.
    pub open spec fn regrouped(
        &self,
        old: &Self,
        target: GroupTarget<D>,
        filter: Option<Seq<char>>,
        changed: Seq<u128>,
    ) -> bool {
        &&& changed == changed_ids(target, old.spec_saved())
        &&& retagged_list(target, old.spec_saved(), self.spec_saved())
        &&& retagged_tabs(target, old.spec_saved(), old.spec_tabs(), self.spec_tabs())
        &&& self.spec_active() == old.spec_active()
        &&& self.spec_sidebar_collapsed() == old.spec_sidebar_collapsed()
        &&& self.spec_sidebar_section() == old.spec_sidebar_section()
        &&& self.spec_theme() == old.spec_theme()
        &&& self.spec_split() == old.spec_split()
        &&& self.spec_tab_rows() == old.spec_tab_rows()
        &&& changed.len() > 0 ==> filter_view(self.spec_filter()) == filter_after(
            filter,
            self.spec_saved(),
        )
        &&& changed.len() == 0 ==> filter_view(self.spec_filter()) == filter
    }

    /// Moves the request `id` into `group` (trimmed; a blank name means no
    /// group). Returns the ids of the requests whose file must be rewritten:
    /// empty when no request has this id or it already is in that group.
    pub fn move_saved_to_group(&mut self, id: u128, group: Option<String>) -> (changed: Vec<u128>)
        requires
            old(self).wf(),
        ensures
            final(self).wf(),
            final(self).regrouped(
                &*old(self),
                move_target(id, spec_normalize_opt(opt_view(group))),
                filter_view(old(self).spec_filter()),
                changed@,
            ),
    {
        let group = normalize_opt_group(group);
        let op = Retag::Move { id, group };
        self.retag_saved(&op)
    }

    /// Renames the group `from` to `to` (trimmed). When `to` already exists
    /// the two groups merge. A list filtered on `from` follows to the new
    /// name. A blank `to`, or one equal to `from`, changes nothing. Returns
    /// the ids of the requests whose file must be rewritten.
    pub fn rename_group(&mut self, from: &str, to: &str) -> (changed: Vec<u128>)
        requires
            old(self).wf(),
        ensures
            final(self).wf(),
            spec_normalize_group(to@) is None || spec_normalize_group(to@) == Some(from@) ==> {
                &&& changed@.len() == 0
                &&& *final(self) == *old(self)
            },
            spec_normalize_group(to@) is Some && spec_normalize_group(to@)->0 != from@ ==> final(self).regrouped(
                &*old(self),
                rename_target(from@, spec_normalize_group(to@)->0),
                if filter_view(old(self).spec_filter()) == Some(from@) {
                    spec_normalize_group(to@)
                } else {
                    filter_view(old(self).spec_filter())
                },
                changed@,
            ),
    {
        let to = match normalize_group(to) {
            Some(t) => t,
            None => {
                return Vec::new();
            },
        };
        if crate::text::str_eq(from, to.as_str()) {
            return Vec::new();
        }
        let follow = match &self.saved_filter {
            SavedFilter::Group(g) => crate::text::str_eq(g.as_str(), from),
            SavedFilter::All => false,
        };
        if follow {
            self.saved_filter = SavedFilter::Group(to.clone());
        }
        let op = Retag::Rename { from: String::from_str(from), to };
        self.retag_saved(&op)
    }

    /// Dissolves the group `name`: its members become ungrouped; no request
    /// is deleted. Returns the ids of the requests whose file must be rewritten.
    pub fn dissolve_group(&mut self, name: &str) -> (changed: Vec<u128>)
        requires
            old(self).wf(),
        ensures
            final(self).wf(),
            final(self).regrouped(
                &*old(self),
                dissolve_target(name@),
                filter_view(old(self).spec_filter()),
                changed@,
            ),
    {
        let op = Retag::Dissolve { name: String::from_str(name) };
        self.retag_saved(&op)
    }
}

/// Renaming a group to a different name empties the old name and merges it
/// into the new one: afterwards a request is in `to` exactly when it was in
/// `from` or in `to` before, and no request is left in `from`.
pub proof fn lemma_rename_merges<D>(
    old: Seq<SavedRequest<D>>,
    new: Seq<SavedRequest<D>>,
    from: Seq<char>,
    to: Seq<char>,
)
    requires
        from != to,
        retagged_list(rename_target(from, to), old, new),
    ensures
        forall|k: int| 0 <= k < new.len() ==> opt_view(#[trigger] new[k].group) != Some(from),
        forall|k: int|
            0 <= k < new.len() ==> (opt_view(#[trigger] new[k].group) == Some(to) <==> (opt_view(
                old[k].group,
            ) == Some(from) || opt_view(old[k].group) == Some(to))),
{
    assert forall|k: int| 0 <= k < new.len() implies opt_view(#[trigger] new[k].group) != Some(from) && (
    opt_view(new[k].group) == Some(to) <==> (opt_view(old[k].group) == Some(from) || opt_view(
        old[k].group,
    ) == Some(to))) by {
        assert(same_but_group(new[k], old[k]));
    }
}

/// Dissolving a group leaves no request in it; its members become
/// ungrouped and every other request keeps its group.
pub proof fn lemma_dissolve_ungroups<D>(old: Seq<SavedRequest<D>>, new: Seq<SavedRequest<D>>, name: Seq<char>)
    requires
        retagged_list(dissolve_target(name), old, new),
    ensures
        forall|k: int| 0 <= k < new.len() ==> opt_view(#[trigger] new[k].group) != Some(name),
        forall|k: int|
            0 <= k < new.len() ==> (opt_view(old[k].group) == Some(name) ==> #[trigger] new[k].group
                is None),
        forall|k: int|
            0 <= k < new.len() ==> (opt_view(old[k].group) != Some(name) ==> opt_view(
                #[trigger] new[k].group,
            ) == opt_view(old[k].group)),
{
    assert forall|k: int| 0 <= k < new.len() implies opt_view(#[trigger] new[k].group) != Some(name) && (
    opt_view(old[k].group) == Some(name) ==> new[k].group is None) && (opt_view(old[k].group) != Some(
        name,
    ) ==> opt_view(new[k].group) == opt_view(old[k].group)) by {
        assert(same_but_group(new[k], old[k]));
    }
}

/// Organising requests into groups never touches anything but the groups:
/// ids, names, contents and modification times, and so the list order,
/// are those of before.
pub proof fn lemma_regroup_keeps_requests<D>(
    target: GroupTarget<D>,
    old: Seq<SavedRequest<D>>,
    new: Seq<SavedRequest<D>>,
)
    requires
        retagged_list(target, old, new),
    ensures
        new.len() == old.len(),
        forall|k: int|
            0 <= k < new.len() ==> {
                &&& (#[trigger] new[k]).id == old[k].id
                &&& new[k].name@ == old[k].name@
                &&& new[k].updated_at == old[k].updated_at
                &&& new[k].draft == old[k].draft
            },
{
    assert forall|k: int| 0 <= k < new.len() implies {
        &&& (#[trigger] new[k]).id == old[k].id
        &&& new[k].name@ == old[k].name@
        &&& new[k].updated_at == old[k].updated_at
        &&& new[k].draft == old[k].draft
    } by {
        assert(same_but_group(new[k], old[k]));
    }
}

/// Indices of the tabs that mirror the saved request `id`, in tab order.
pub open spec fn tabs_showing<T>(tabs: Seq<TabState<T>>, id: u128) -> Seq<usize>
    decreases tabs.len(),
{
    if tabs.len() == 0 {
        Seq::empty()
    } else if tabs.last().saved_id == Some(id) {
        tabs_showing(tabs.drop_last(), id).push((tabs.len() - 1) as usize)
    } else {
        tabs_showing(tabs.drop_last(), id)
    }
}

/// `new` is `old` turned into an unsaved tab with edits: it keeps its id
/// and handle and forgets the saved request.
pub open spec fn detached<T>(new: TabState<T>, old: TabState<T>) -> bool {
    &&& same_tab_identity(new, old)
    &&& new.saved_id is None
    &&& new.saved_name is None
    &&& new.saved_group is None
    &&& new.dirty
}

impl<T, D> Workspace<T, D> {
    /// Deletes the saved request `id`. Tabs that showed it become unsaved tabs
    /// with edits, and a filter on a group left empty falls back to "all".
    /// Returns `None` when no request has this id (nothing changes), else the
    /// indices of the detached tabs (whose drafts are to be written again).
    pub fn delete_saved(&mut self, id: u128) -> (detached_tabs: Option<Vec<usize>>)
        requires
            old(self).wf(),
        ensures
            final(self).wf(),
            !has_saved_id(old(self).spec_saved(), id) ==> detached_tabs is None && *final(self)
                == *old(self),
            has_saved_id(old(self).spec_saved(), id) ==> {
                &&& detached_tabs matches Some(v) && v@ == tabs_showing(old(self).spec_tabs(), id)
                &&& final(self).spec_saved() == old(self).spec_saved().remove(
                    find_saved(old(self).spec_saved(), id)->0,
                )
                &&& final(self).spec_tabs().len() == old(self).spec_tabs().len()
                &&& forall|j: int|
                    0 <= j < old(self).spec_tabs().len() ==> if old(self).spec_tabs()[j].saved_id
                        == Some(id) {
                        detached(#[trigger] final(self).spec_tabs()[j], old(self).spec_tabs()[j])
                    } else {
                        final(self).spec_tabs()[j] == old(self).spec_tabs()[j]
                    }
                &&& filter_view(final(self).spec_filter()) == filter_after(
                    filter_view(old(self).spec_filter()),
                    final(self).spec_saved(),
                )
                &&& final(self).spec_active() == old(self).spec_active()
                &&& final(self).spec_sidebar_collapsed() == old(self).spec_sidebar_collapsed()
                &&& final(self).spec_sidebar_section() == old(self).spec_sidebar_section()
                &&& final(self).spec_theme() == old(self).spec_theme()
                &&& final(self).spec_split() == old(self).spec_split()
                &&& final(self).spec_tab_rows() == old(self).spec_tab_rows()
            },
            !has_saved_id(final(self).spec_saved(), id),
            forall|j: int|
                0 <= j < final(self).spec_tabs().len() ==> (#[trigger] final(self).spec_tabs()[j]).saved_id
                    != Some(id),
    {
        let k = match saved_index(&self.saved, id) {
            Some(k) => k,
            None => {
                proof {
                    assert forall|j: int| 0 <= j < self.tabs@.len() implies (
                    #[trigger] self.tabs@[j]).saved_id != Some(id) by {
                        if self.tabs@[j].saved_id == Some(id) {
                            assert(links_valid(self.tabs@, self.saved@));
                        }
                    }
                }
                return None;
            },
        };
        let ghost old_saved = self.saved@;
        let ghost old_tabs = self.tabs@;
        proof {
            lemma_find_saved(old_saved, k as int);
            lemma_newest_first_remove(old_saved, k as int);
        }
        self.saved.remove(k);
        let ghost new_saved = self.saved@;
        proof {
            assert forall|i: int| 0 <= i < new_saved.len() implies new_saved[i].id != id by {
                if i < k {
                    assert(new_saved[i] == old_saved[i]);
                } else {
                    assert(new_saved[i] == old_saved[i + 1]);
                }
            }
        }
        let mut out: Vec<usize> = Vec::new();
        let m = self.tabs.len();
        let mut j: usize = 0;
        assert(old_tabs.take(0) =~= Seq::<TabState<T>>::empty());
        while j < m
            invariant
                m == old_tabs.len(),
                self.tabs@.len() == m,
                j <= m,
                self.saved@ == new_saved,
                forall|i: int| 0 <= i < new_saved.len() ==> new_saved[i].id != id,
                out@ == tabs_showing(old_tabs.take(j as int), id),
                self.active == old(self).active,
                self.saved_filter == old(self).saved_filter,
                self.sidebar_collapsed == old(self).sidebar_collapsed,
                self.sidebar_section == old(self).sidebar_section,
                self.theme == old(self).theme,
                self.split == old(self).split,
                self.tab_rows == old(self).tab_rows,
                forall|q: int| j <= q < m ==> #[trigger] self.tabs@[q] == old_tabs[q],
                forall|q: int|
                    0 <= q < j ==> if old_tabs[q].saved_id == Some(id) {
                        detached(#[trigger] self.tabs@[q], old_tabs[q])
                    } else {
                        self.tabs@[q] == old_tabs[q]
                    },
            decreases m - j,
        {
            let ghost before = self.tabs@;
            if self.tabs[j].saved_id == Some(id) {
                let mut t = self.tabs.remove(j);
                t.saved_id = None;
                t.saved_name = None;
                t.saved_group = None;
                t.dirty = true;
                self.tabs.insert(j, t);
                out.push(j);
                assert forall|q: int| 0 <= q < m && q != j implies #[trigger] self.tabs@[q] == before[q] by {}
            }
            proof {
                let s2 = old_tabs.take(j + 1);
                assert(s2.drop_last() =~= old_tabs.take(j as int));
                assert(s2.last() == old_tabs[j as int]);
            }
            j = j + 1;
        }
        assert(old_tabs.take(m as int) =~= old_tabs);
        proof {
            assert forall|q: int| 0 <= q < self.tabs@.len() implies match (#[trigger] self.tabs@[q]).saved_id {
                Some(sid) => has_saved_id(new_saved, sid),
                None => true,
            } by {
                if old_tabs[q].saved_id != Some(id) {
                    if let Some(sid) = old_tabs[q].saved_id {
                        assert(has_saved_id(old_saved, sid));
                        let i = choose|i: int| 0 <= i < old_saved.len() && old_saved[i].id == sid;
                        if i < k {
                            assert(new_saved[i] == old_saved[i]);
                        } else {
                            assert(i != k);
                            assert(new_saved[i - 1] == old_saved[i]);
                        }
                    }
                }
            }
        }
        if !filter_valid_exec(&self.saved_filter, &self.saved) {
            self.saved_filter = SavedFilter::All;
        }
        Some(out)
    }
}

/// The list after inserting `r`, or replacing the request with its id, kept newest first.
pub open spec fn upserted<D>(saved: Seq<SavedRequest<D>>, r: SavedRequest<D>) -> Seq<SavedRequest<D>> {
    match find_saved(saved, r.id) {
        Some(k) => sort_newest_first(saved.update(k, r)),
        None => sort_newest_first(saved.push(r)),
    }
}

/// `r` is the request with these parts.
pub open spec fn request_is<D>(
    r: SavedRequest<D>,
    id: u128,
    name: Seq<char>,
    group: Option<Seq<char>>,
    created_at: u64,
    updated_at: u64,
    draft: D,
) -> bool {
    &&& r.id == id
    &&& r.name@ == name
    &&& opt_view(r.group) == group
    &&& r.created_at == created_at
    &&& r.updated_at == updated_at
    &&& r.draft == draft
}

/// Index of the first tab with this id.
pub open spec fn find_tab<T>(tabs: Seq<TabState<T>>, id: u128) -> Option<int> {
    if exists|j: int| 0 <= j < tabs.len() && tabs[j].id == id {
        Some(
            choose|j: int|
                0 <= j < tabs.len() && tabs[j].id == id && forall|q: int| 0 <= q < j ==> tabs[q].id != id,
        )
    } else {
        None
    }
}

/// Index of the first tab that mirrors the saved request `id`.
pub open spec fn first_showing<T>(tabs: Seq<TabState<T>>, id: u128) -> Option<int> {
    if exists|j: int| 0 <= j < tabs.len() && tabs[j].saved_id == Some(id) {
        Some(
            choose|j: int|
                0 <= j < tabs.len() && tabs[j].saved_id == Some(id) && forall|q: int|
                    0 <= q < j ==> tabs[q].saved_id != Some(id),
        )
    } else {
        None
    }
}

/// The name a request is saved under: the trimmed name, or the tab's title
/// when nothing is left of it.
pub open spec fn save_name(name: Seq<char>, title: Seq<char>) -> Seq<char> {
    if trim(name).len() == 0 {
        title
    } else {
        trim(name)
    }
}

/// What the user types names the saved request: as soon as the typed name
/// holds anything but white space, the tab's title plays no part and the
/// name is the typed text without the white space around it (a name typed
/// without surrounding white space is taken as it is). Only a blank name
/// falls back to the title.
pub proof fn lemma_typed_name_wins(name: Seq<char>, title: Seq<char>, other_title: Seq<char>)
    ensures
        (exists|i: int| 0 <= i < name.len() && !is_white_space(#[trigger] name[i])) ==> save_name(
            name,
            title,
        ) == save_name(name, other_title),
        name.len() > 0 && !is_white_space(name[0]) && !is_white_space(name.last()) ==> save_name(
            name,
            title,
        ) == name,
        (forall|i: int| 0 <= i < name.len() ==> is_white_space(#[trigger] name[i])) ==> save_name(
            name,
            title,
        ) == title,
        (exists|i: int| 0 <= i < name.len() && !is_white_space(#[trigger] name[i])) ==> {
            let r = save_name(name, title);
            &&& r.len() > 0
            &&& !is_white_space(r[0])
            &&& !is_white_space(r.last())
            &&& exists|a: int|
                0 <= a && a + r.len() <= name.len() && #[trigger] name.subrange(a, a + r.len()) == r && (forall|
                    j: int,
                | 0 <= j < a ==> is_white_space(#[trigger] name[j])) && (forall|j: int|
                    a + r.len() <= j < name.len() ==> is_white_space(#[trigger] name[j]))
        },
{
    lemma_trim_empty_iff_blank(name);
    if exists|i: int| 0 <= i < name.len() && !is_white_space(#[trigger] name[i]) {
        lemma_trim_shape(name);
        let a = crate::text::leading_white_space(name) as int;
        let r = trim(name);
        assert(save_name(name, title) == r);
        assert(0 <= a && a + r.len() <= name.len() && name.subrange(a, a + r.len()) == r && (forall|
            j: int,
        | 0 <= j < a ==> is_white_space(#[trigger] name[j])) && (forall|j: int|
            a + r.len() <= j < name.len() ==> is_white_space(#[trigger] name[j])));
    }
    if name.len() > 0 && !is_white_space(name[0]) && !is_white_space(name.last()) {
        lemma_trim_of_clean(name);
        assert(!is_white_space(name[0]));
    }
}

fn tab_index<T>(tabs: &Vec<TabState<T>>, id: u128) -> (r: Option<usize>)
    ensures
        match r {
            Some(j) => find_tab(tabs@, id) == Some(j as int) && j < tabs@.len() && tabs@[j as int].id
                == id,
            None => find_tab(tabs@, id) is None,
        },
{
    let mut i: usize = 0;
    while i < tabs.len()
        invariant
            i <= tabs@.len(),
            forall|q: int| 0 <= q < i ==> tabs@[q].id != id,
        decreases tabs@.len() - i,
    {
        if tabs[i].id == id {
            proof {
                let j = choose|j: int|
                    0 <= j < tabs@.len() && tabs@[j].id == id && forall|q: int|
                        0 <= q < j ==> tabs@[q].id != id;
                assert(j == i as int) by {
                    if j < i {
                    } else if j > i {
                        assert(tabs@[i as int].id == id);
                    }
                }
            }
            return Some(i);
        }
        i = i + 1;
    }
    None
}

fn showing_index<T>(tabs: &Vec<TabState<T>>, id: u128) -> (r: Option<usize>)
    ensures
        match r {
            Some(j) => first_showing(tabs@, id) == Some(j as int) && j < tabs@.len()
                && tabs@[j as int].saved_id == Some(id),
            None => first_showing(tabs@, id) is None,
        },
{
    let mut i: usize = 0;
    while i < tabs.len()
        invariant
            i <= tabs@.len(),
            forall|q: int| 0 <= q < i ==> tabs@[q].saved_id != Some(id),
        decreases tabs@.len() - i,
    {
        if tabs[i].saved_id == Some(id) {
            proof {
                let j = choose|j: int|
                    0 <= j < tabs@.len() && tabs@[j].saved_id == Some(id) && forall|q: int|
                        0 <= q < j ==> tabs@[q].saved_id != Some(id);
                assert(j == i as int) by {
                    if j < i {
                    } else if j > i {
                        assert(tabs@[i as int].saved_id == Some(id));
                    }
                }
            }
            return Some(i);
        }
        i = i + 1;
    }
    None
}

proof fn lemma_upserted_wf<D>(saved: Seq<SavedRequest<D>>, r: SavedRequest<D>)
    requires
        distinct_ids(saved),
    ensures
        newest_first(upserted(saved, r)),
        distinct_ids(upserted(saved, r)),
        has_saved_id(upserted(saved, r), r.id),
        forall|id: u128| has_saved_id(saved, id) ==> #[trigger] has_saved_id(upserted(saved, r), id),
{
    let l = match find_saved(saved, r.id) {
        Some(k) => saved.update(k, r),
        None => saved.push(r),
    };
    assert(upserted(saved, r) == sort_newest_first(l));
    lemma_sort_newest_first(l);
    assert(distinct_ids(l)) by {
        match find_saved(saved, r.id) {
            Some(k) => {
                assert forall|i: int, j: int| 0 <= i < j < l.len() implies l[i].id != l[j].id by {
                    if i == k {
                        assert(saved[k].id == r.id);
                    } else if j == k {
                        assert(saved[k].id == r.id);
                    }
                }
            },
            None => {
                assert forall|i: int, j: int| 0 <= i < j < l.len() implies l[i].id != l[j].id by {
                    if j == saved.len() {
                        assert(l[i] == saved[i]);
                    }
                }
            },
        }
    }
    lemma_sort_newest_first_distinct(l);
    match find_saved(saved, r.id) {
        Some(k) => {
            assert(l[k].id == r.id);
        },
        None => {
            assert(l[saved.len() as int].id == r.id);
        },
    }
    lemma_sort_newest_first_has_id(l, r.id);
    assert forall|id: u128| has_saved_id(saved, id) implies #[trigger] has_saved_id(upserted(saved, r), id) by {
        let i = choose|i: int| 0 <= i < saved.len() && saved[i].id == id;
        match find_saved(saved, r.id) {
            Some(k) => {
                if i == k {
                    assert(l[k].id == id);
                } else {
                    assert(l[i] == saved[i]);
                }
            },
            None => {
                assert(l[i] == saved[i]);
            },
        }
        lemma_sort_newest_first_has_id(l, id);
    }
}

/// What `save_active` did.
#[derive(Debug, Clone, Copy, PartialEq, Eq, Structural)]
pub enum SaveActive {
    /// The active tab mirrored this saved request; it was overwritten.
    Overwritten(u128),
    /// The active tab has never been saved: ask for a name, then `finish_save`.
    NeedsName,
}

impl<T, D> Workspace<T, D> {
    /// Inserts `request`, or replaces the request with its id, keeping the
    /// list newest first.
    fn upsert_saved(&mut self, request: SavedRequest<D>)
        requires
            old(self).wf(),
        ensures
            final(self).wf(),
            final(self).spec_saved() == upserted(old(self).spec_saved(), request),
            final(self).spec_tabs() == old(self).spec_tabs(),
            final(self).spec_active() == old(self).spec_active(),
            final(self).spec_filter() == old(self).spec_filter(),
            final(self).spec_sidebar_collapsed() == old(self).spec_sidebar_collapsed(),
            final(self).spec_sidebar_section() == old(self).spec_sidebar_section(),
            final(self).spec_theme() == old(self).spec_theme(),
            final(self).spec_split() == old(self).spec_split(),
            final(self).spec_tab_rows() == old(self).spec_tab_rows(),
    {
        let ghost old_saved = self.saved@;
        let ghost r = request;
        proof {
            lemma_upserted_wf(old_saved, r);
        }
        match saved_index(&self.saved, request.id) {
            Some(k) => {
                proof {
                    lemma_find_saved(old_saved, k as int);
                }
                self.saved.set(k, request);
            },
            None => {
                self.saved.push(request);
            },
        }
        sort_saved(&mut self.saved);
        proof {
            assert forall|j: int| 0 <= j < self.tabs@.len() implies match (#[trigger] self.tabs@[j]).saved_id {
                Some(sid) => has_saved_id(self.saved@, sid),
                None => true,
            } by {
                if let Some(sid) = self.tabs@[j].saved_id {
                    assert(has_saved_id(old_saved, sid));
                }
            }
        }
    }

    /// Saves the tab `tab_id` as a new request `new_id`, created and modified at `now`,
    /// with the trimmed `name` (the tab's `title` when that is blank) and the
    /// trimmed `group` (none when blank). The tab then mirrors the request and
    /// has no unsaved edits. Returns `None`, changing nothing, when no tab has
    /// this id any more (it was closed while the name was asked for).
    #[verifier::rlimit(40)]
    pub fn finish_save(
        &mut self,
        tab_id: u128,
        name: &str,
        title: &str,
        group: Option<String>,
        new_id: u128,
        now: u64,
        draft: D,
    ) -> (saved_id: Option<u128>)
        requires
            old(self).wf(),
        ensures
            final(self).wf(),
            find_tab(old(self).spec_tabs(), tab_id) is None ==> saved_id is None && *final(self)
                == *old(self),
            find_tab(old(self).spec_tabs(), tab_id) matches Some(j) ==> {
                &&& saved_id == Some(new_id)
                &&& exists|r: SavedRequest<D>|
                    request_is(
                        r,
                        new_id,
                        save_name(name@, title@),
                        spec_normalize_opt(opt_view(group)),
                        now,
                        now,
                        draft,
                    ) && final(self).spec_saved() == #[trigger] upserted(old(self).spec_saved(), r)
                &&& final(self).spec_tabs().len() == old(self).spec_tabs().len()
                &&& forall|q: int|
                    0 <= q < old(self).spec_tabs().len() && q != j ==> #[trigger] final(self).spec_tabs()[q]
                        == old(self).spec_tabs()[q]
                &&& same_tab_identity(final(self).spec_tabs()[j], old(self).spec_tabs()[j])
                &&& final(self).spec_tabs()[j].saved_id == Some(new_id)
                &&& opt_view(final(self).spec_tabs()[j].saved_name) == Some(save_name(name@, title@))
                &&& (trim(name@).len() > 0 ==> opt_view(final(self).spec_tabs()[j].saved_name) == Some(
                    trim(name@),
                ))
                &&& opt_view(final(self).spec_tabs()[j].saved_group) == spec_normalize_opt(
                    opt_view(group),
                )
                &&& !final(self).spec_tabs()[j].dirty
                &&& final(self).spec_active() == old(self).spec_active()
                &&& final(self).spec_filter() == old(self).spec_filter()
                &&& final(self).spec_sidebar_collapsed() == old(self).spec_sidebar_collapsed()
                &&& final(self).spec_sidebar_section() == old(self).spec_sidebar_section()
                &&& final(self).spec_theme() == old(self).spec_theme()
                &&& final(self).spec_split() == old(self).spec_split()
                &&& final(self).spec_tab_rows() == old(self).spec_tab_rows()
            },
    {
        let j = match tab_index(&self.tabs, tab_id) {
            Some(j) => j,
            None => {
                return None;
            },
        };
        let t = trimmed(name);
        let name = if t.as_str().unicode_len() == 0 {
            String::from_str(title)
        } else {
            t
        };
        let group = normalize_opt_group(group);
        let request = SavedRequest {
            id: new_id,
            name: name.clone(),
            group: clone_opt_string(&group),
            created_at: now,
            updated_at: now,
            draft,
        };
        let ghost r = request;
        let ghost mid_tabs = self.tabs@;
        self.upsert_saved(request);
        proof {
            lemma_upserted_wf(old(self).saved@, r);
        }
        let mut tab = self.tabs.remove(j);
        tab.saved_id = Some(new_id);
        tab.saved_name = Some(name);
        tab.saved_group = group;
        tab.dirty = false;
        self.tabs.insert(j, tab);
        proof {
            assert forall|q: int| 0 <= q < mid_tabs.len() && q != j implies #[trigger] self.tabs@[q]
                == mid_tabs[q] by {}
            assert forall|q: int| 0 <= q < self.tabs@.len() implies match (#[trigger] self.tabs@[q]).saved_id {
                Some(sid) => has_saved_id(self.saved@, sid),
                None => true,
            } by {
                if q != j {
                    assert(self.tabs@[q] == mid_tabs[q]);
                }
            }
        }
        Some(new_id)
    }

    /// The save command: a tab that mirrors a saved request overwrites it,
    /// keeping its name, group and creation time and taking `draft` and the
    /// modification time `now`; the tab then has no unsaved edits. A tab
    /// never saved needs a name first
    /// (nothing changes here).
    #[verifier::rlimit(40)]
    pub fn save_active(&mut self, now: u64, draft: D) -> (r: SaveActive)
        requires
            old(self).wf(),
        ensures
            final(self).wf(),
            old(self).spec_tabs()[old(self).spec_active()].saved_id is None ==> r == SaveActive::NeedsName
                && *final(self) == *old(self),
            old(self).spec_tabs()[old(self).spec_active()].saved_id matches Some(id) ==> {
                let a = old(self).spec_active();
                let k = find_saved(old(self).spec_saved(), id)->0;
                let existing = old(self).spec_saved()[k];
                &&& r == SaveActive::Overwritten(id)
                &&& find_saved(old(self).spec_saved(), id) is Some
                &&& exists|req: SavedRequest<D>|
                    request_is(
                        req,
                        id,
                        existing.name@,
                        opt_view(existing.group),
                        existing.created_at,
                        now,
                        draft,
                    )
                        && final(self).spec_saved() == #[trigger] upserted(old(self).spec_saved(), req)
                &&& final(self).spec_tabs().len() == old(self).spec_tabs().len()
                &&& forall|q: int|
                    0 <= q < old(self).spec_tabs().len() && q != a ==> #[trigger] final(self).spec_tabs()[q]
                        == old(self).spec_tabs()[q]
                &&& same_tab_identity(final(self).spec_tabs()[a], old(self).spec_tabs()[a])
                &&& final(self).spec_tabs()[a].saved_id == Some(id)
                &&& opt_view(final(self).spec_tabs()[a].saved_name) == Some(existing.name@)
                &&& opt_view(final(self).spec_tabs()[a].saved_group) == opt_view(existing.group)
                &&& !final(self).spec_tabs()[a].dirty
                &&& final(self).spec_active() == a
                &&& final(self).spec_filter() == old(self).spec_filter()
                &&& final(self).spec_sidebar_collapsed() == old(self).spec_sidebar_collapsed()
                &&& final(self).spec_sidebar_section() == old(self).spec_sidebar_section()
                &&& final(self).spec_theme() == old(self).spec_theme()
                &&& final(self).spec_split() == old(self).spec_split()
                &&& final(self).spec_tab_rows() == old(self).spec_tab_rows()
            },
    {
        let a = self.active;
        let id = match self.tabs[a].saved_id {
            Some(id) => id,
            None => {
                return SaveActive::NeedsName;
            },
        };
        proof {
            assert(links_valid(self.tabs@, self.saved@));
            assert(has_saved_id(self.saved@, id));
        }
        let k = match saved_index(&self.saved, id) {
            Some(k) => k,
            None => {
                return SaveActive::NeedsName;
            },
        };
        proof {
            lemma_find_saved(self.saved@, k as int);
        }
        let name = self.saved[k].name.clone();
        let group = clone_opt_string(&self.saved[k].group);
        let request = SavedRequest {
            id,
            name: name.clone(),
            group: clone_opt_string(&group),
            created_at: self.saved[k].created_at,
            updated_at: now,
            draft,
        };
        let ghost req = request;
        let ghost mid_tabs = self.tabs@;
        self.upsert_saved(request);
        proof {
            lemma_upserted_wf(old(self).saved@, req);
        }
        let mut tab = self.tabs.remove(a);
        tab.saved_name = Some(name);
        tab.saved_group = group;
        tab.dirty = false;
        self.tabs.insert(a, tab);
        proof {
            assert forall|q: int| 0 <= q < mid_tabs.len() && q != a implies #[trigger] self.tabs@[q]
                == mid_tabs[q] by {}
            assert forall|q: int| 0 <= q < self.tabs@.len() implies match (#[trigger] self.tabs@[q]).saved_id {
                Some(sid) => has_saved_id(self.saved@, sid),
                None => true,
            } by {
                if q != a {
                    assert(self.tabs@[q] == mid_tabs[q]);
                }
            }
        }
        SaveActive::Overwritten(id)
    }
}

proof fn lemma_first_showing<T>(tabs: Seq<TabState<T>>, id: u128, j: int)
    requires
        0 <= j < tabs.len(),
        tabs[j].saved_id == Some(id),
        forall|q: int| 0 <= q < j ==> tabs[q].saved_id != Some(id),
    ensures
        first_showing(tabs, id) == Some(j),
{
    let c = choose|c: int|
        0 <= c < tabs.len() && tabs[c].saved_id == Some(id) && forall|q: int|
            0 <= q < c ==> tabs[q].saved_id != Some(id);
    assert(0 <= c < tabs.len() && tabs[c].saved_id == Some(id) && forall|q: int|
        0 <= q < c ==> tabs[q].saved_id != Some(id));
    if c < j {
    } else if c > j {
        assert(tabs[j].saved_id == Some(id));
    }
}

impl<T, D> Workspace<T, D> {
    /// A click on a saved request: the first tab already showing it becomes
    /// active; otherwise it opens in a new tab `tab_id` at the end (the window
    /// loads the request's draft into `handle`), which mirrors the request,
    /// has no edits and becomes active. An unknown id changes nothing.
    /// Afterwards the active tab is the first one showing the request, so
    /// a second click activates the same tab and changes nothing.
    pub fn open_saved(&mut self, id: u128, tab_id: u128, handle: T) -> (r: OpenSaved)
        requires
            old(self).wf(),
            fresh_tab_id(old(self).spec_tabs(), tab_id),
        ensures
            final(self).wf(),
            final(self).same_layout(&*old(self)),
            first_showing(old(self).spec_tabs(), id) matches Some(j) ==> {
                &&& r == OpenSaved::Activated(j as usize)
                &&& final(self).spec_tabs() == old(self).spec_tabs()
                &&& final(self).spec_active() == j
            },
            first_showing(old(self).spec_tabs(), id) is None && has_saved_id(old(self).spec_saved(), id) ==> {
                let k = find_saved(old(self).spec_saved(), id)->0;
                let n = old(self).spec_tabs().len();
                &&& r == OpenSaved::Opened { tab: n as usize, request: k as usize }
                &&& final(self).spec_tabs().len() == n + 1
                &&& final(self).spec_tabs().drop_last() == old(self).spec_tabs()
                &&& final(self).spec_tabs()[n as int].id == tab_id
                &&& final(self).spec_tabs()[n as int].handle == handle
                &&& final(self).spec_tabs()[n as int].saved_id == Some(id)
                &&& opt_view(final(self).spec_tabs()[n as int].saved_name) == Some(
                    old(self).spec_saved()[k].name@,
                )
                &&& opt_view(final(self).spec_tabs()[n as int].saved_group) == opt_view(
                    old(self).spec_saved()[k].group,
                )
                &&& !final(self).spec_tabs()[n as int].dirty
                &&& final(self).spec_active() == n
            },
            first_showing(old(self).spec_tabs(), id) is None && !has_saved_id(old(self).spec_saved(), id)
                ==> r == OpenSaved::Missing && *final(self) == *old(self),
            r != OpenSaved::Missing ==> {
                &&& final(self).spec_tabs()[final(self).spec_active()].saved_id == Some(id)
                &&& first_showing(final(self).spec_tabs(), id) == Some(final(self).spec_active())
            },
    {
        match showing_index(&self.tabs, id) {
            Some(j) => {
                self.activate(j);
                return OpenSaved::Activated(j);
            },
            None => {},
        }
        let k = match saved_index(&self.saved, id) {
            Some(k) => k,
            None => {
                return OpenSaved::Missing;
            },
        };
        proof {
            lemma_find_saved(self.saved@, k as int);
        }
        let ghost old_tabs = self.tabs@;
        let tab = TabState {
            id: tab_id,
            handle,
            saved_id: Some(id),
            saved_name: Some(self.saved[k].name.clone()),
            saved_group: clone_opt_string(&self.saved[k].group),
            dirty: false,
        };
        self.tabs.push(tab);
        let n = self.tabs.len() - 1;
        self.active = n;
        proof {
            assert(self.tabs@.drop_last() =~= old_tabs);
            assert forall|q: int| 0 <= q < n implies self.tabs@[q].saved_id != Some(id) by {
                assert(self.tabs@[q] == old_tabs[q]);
            }
            lemma_first_showing(self.tabs@, id, n as int);
            assert forall|q: int| 0 <= q < self.tabs@.len() implies match (#[trigger] self.tabs@[q]).saved_id {
                Some(sid) => has_saved_id(self.saved@, sid),
                None => true,
            } by {
                if q < n {
                    assert(self.tabs@[q] == old_tabs[q]);
                }
            }
        }
        OpenSaved::Opened { tab: n, request: k }
    }
}

/// The tab restored from draft `d`: it keeps the draft's id and handle and
/// mirrors the saved request the draft came from. A draft whose saved request
/// is gone becomes an unsaved tab with edits.
/// A restored tab keeps its draft's unsaved edits: it is marked edited
/// whenever the draft was. While the saved request it mirrored still
/// exists, it mirrors it again (its name and group) with exactly the
/// draft's mark; when that request is gone, the tab comes back unsaved and
/// marked edited.
pub proof fn lemma_restore_keeps_edits<T, D>(t: TabState<T>, d: TabDraft<T>, saved: Seq<SavedRequest<D>>)
    requires
        restored_tab(t, d, saved),
    ensures
        t.id == d.id,
        t.handle == d.draft,
        d.dirty ==> t.dirty,
        d.saved_id matches Some(sid) ==> (has_saved_id(saved, sid) ==> {
            &&& t.saved_id == d.saved_id
            &&& t.dirty == d.dirty
            &&& exists|k: int|
                0 <= k < saved.len() && saved[k].id == sid && opt_view(t.saved_name) == Some(
                    #[trigger] saved[k].name@,
                ) && opt_view(t.saved_group) == opt_view(saved[k].group)
        }),
        (d.saved_id matches Some(sid) && !has_saved_id(saved, sid)) ==> t.saved_id is None
            && t.dirty,
        d.saved_id is None ==> t.saved_id is None && t.dirty == d.dirty,
{
    if let Some(sid) = d.saved_id {
        if has_saved_id(saved, sid) {
            let k = find_saved(saved, sid)->0;
            assert(saved[k].id == sid);
        }
    }
}

proof fn lemma_restored_tabs_distinct<T, D>(
    tabs: Seq<TabState<T>>,
    order: Seq<TabDraft<T>>,
    drafts: Seq<TabDraft<T>>,
    saved: Seq<SavedRequest<D>>,
)
    requires
        distinct_draft_ids(drafts),
        order.to_multiset() == drafts.to_multiset(),
        tabs.len() == order.len(),
        forall|j: int| 0 <= j < order.len() ==> restored_tab(#[trigger] tabs[j], order[j], saved),
    ensures
        distinct_tab_ids(tabs),
{
    lemma_permutation_keeps_distinct_ids(drafts, order);
    assert forall|i: int, j: int| 0 <= i < j < tabs.len() implies tabs[i].id != tabs[j].id by {
        assert(restored_tab(tabs[i], order[i], saved));
        assert(restored_tab(tabs[j], order[j], saved));
    }
}

pub open spec fn restored_tab<T, D>(t: TabState<T>, d: TabDraft<T>, saved: Seq<SavedRequest<D>>) -> bool {
    &&& t.id == d.id
    &&& t.handle == d.draft
    &&& match d.saved_id {
        Some(sid) => if has_saved_id(saved, sid) {
            let k = find_saved(saved, sid)->0;
            &&& t.saved_id == Some(sid)
            &&& opt_view(t.saved_name) == Some(saved[k].name@)
            &&& opt_view(t.saved_group) == opt_view(saved[k].group)
            &&& t.dirty == d.dirty
        } else {
            &&& t.saved_id is None
            &&& t.saved_name is None
            &&& t.saved_group is None
            &&& t.dirty
        },
        None => {
            &&& t.saved_id is None
            &&& t.saved_name is None
            &&& t.saved_group is None
            &&& t.dirty == d.dirty
        },
    }
}

fn restore_tab<T, D>(d: TabDraft<T>, saved: &Vec<SavedRequest<D>>) -> (t: TabState<T>)
    requires
        distinct_ids(saved@),
    ensures
        restored_tab(t, d, saved@),
{
    let found = match d.saved_id {
        Some(sid) => saved_index(saved, sid),
        None => None,
    };
    match found {
        Some(k) => {
            proof {
                lemma_find_saved(saved@, k as int);
            }
            TabState {
                id: d.id,
                handle: d.draft,
                saved_id: d.saved_id,
                saved_name: Some(saved[k].name.clone()),
                saved_group: clone_opt_string(&saved[k].group),
                dirty: d.dirty,
            }
        },
        None => TabState {
            id: d.id,
            handle: d.draft,
            saved_id: None,
            saved_name: None,
            saved_group: None,
            dirty: d.dirty || d.saved_id.is_some(),
        },
    }
}

impl<T, D> Workspace<T, D> {
    /// Rebuilds the workspace from what was read at start-up: the saved
    /// requests (one file per id) newest first, the drafts in the persisted
    /// tab order (see `order_drafts`), each becoming a tab whose handle the
    /// window made from it, the persisted active tab (the first one if it is
    /// gone), sidebar and appearance. Without drafts the workspace starts with
    /// the `fresh` empty tab. The sidebar shows saved requests, unfiltered.
    pub fn restore(
        state: &WorkspaceState,
        drafts: Vec<TabDraft<T>>,
        requests: Vec<SavedRequest<D>>,
        fresh: Option<(u128, T)>,
    ) -> (ws: Self)
        requires
            distinct_ids(requests@),
            distinct_draft_ids(drafts@),
            drafts@.len() == 0 ==> fresh is Some,
        ensures
            ws.wf(),
            ws.spec_saved() == sort_newest_first(requests@),
            drafts@.len() > 0 ==> {
                let order = restore_order(state.tab_order@, drafts@);
                &&& ws.spec_tabs().len() == order.len()
                &&& forall|j: int|
                    0 <= j < order.len() ==> restored_tab(
                        #[trigger] ws.spec_tabs()[j],
                        order[j],
                        ws.spec_saved(),
                    )
                &&& ws.spec_active() == match state.active {
                    Some(a) => match find_tab(ws.spec_tabs(), a) {
                        Some(j) => j,
                        None => 0,
                    },
                    None => 0,
                }
            },
            drafts@.len() == 0 ==> {
                &&& ws.spec_tabs().len() == 1
                &&& fresh_tab(ws.spec_tabs()[0], (fresh->0).0, (fresh->0).1)
                &&& ws.spec_active() == 0
            },
            ws.spec_sidebar_collapsed() == state.sidebar_collapsed,
            ws.spec_sidebar_section() == SidebarSection::Saved,
            ws.spec_theme() == state.theme,
            ws.spec_split() == state.split,
            ws.spec_tab_rows() == (if state.tab_rows < 1 {
                1
            } else if state.tab_rows > crate::model::MAX_TAB_ROWS {
                crate::model::MAX_TAB_ROWS
            } else {
                state.tab_rows
            }),
            ws.spec_filter() == SavedFilter::All,
    {
        let ghost reqs = requests@;
        let mut saved = requests;
        sort_saved(&mut saved);
        proof {
            lemma_sort_newest_first(reqs);
            lemma_sort_newest_first_distinct(reqs);
            lemma_restore_order_permutes(state.tab_order@, drafts@);
            vstd::seq_lib::to_multiset_len(restore_order(state.tab_order@, drafts@));
            vstd::seq_lib::to_multiset_len(drafts@);
        }
        let (ordered, active) = order_drafts(state, drafts);
        let ghost order = ordered@;
        let mut rest = ordered;
        let mut tabs: Vec<TabState<T>> = Vec::new();
        let n = rest.len();
        let mut i: usize = 0;
        while i < n
            invariant
                n == order.len(),
                i <= n,
                rest@ == order.skip(i as int),
                tabs@.len() == i,
                distinct_ids(saved@),
                forall|j: int| 0 <= j < i ==> restored_tab(#[trigger] tabs@[j], order[j], saved@),
            decreases n - i,
        {
            let d = rest.remove(0);
            assert(d == order[i as int]);
            let t = restore_tab(d, &saved);
            tabs.push(t);
            i = i + 1;
            assert(rest@ =~= order.skip(i as int));
        }
        let ghost built = tabs@;
        proof {
            lemma_restored_tabs_distinct(built, order, drafts@, saved@);
        }
        let mut ix: usize = 0;
        if tabs.len() == 0 {
            match fresh {
                Some((id, handle)) => {
                    tabs.push(new_tab_state(id, handle));
                },
                None => {},
            }
        } else {
            match active {
                Some(a) => {
                    match tab_index(&tabs, a) {
                        Some(j) => {
                            ix = j;
                        },
                        None => {
                            proof {
                                assert(has_id(order, a));
                                let k = choose|k: int| 0 <= k < order.len() && order[k].id == a;
                                assert(restored_tab(tabs@[k], order[k], saved@));
                            }
                        },
                    }
                },
                None => {
                    proof {
                        if let Some(a) = state.active {
                            match find_tab(tabs@, a) {
                                Some(j) => {
                                    assert(restored_tab(tabs@[j], order[j], saved@));
                                    assert(has_id(order, a));
                                },
                                None => {},
                            }
                        }
                    }
                },
            }
        }
        proof {
            assert forall|q: int| 0 <= q < tabs@.len() implies match (#[trigger] tabs@[q]).saved_id {
                Some(sid) => has_saved_id(saved@, sid),
                None => true,
            } by {
                if n > 0 {
                    assert(restored_tab(tabs@[q], order[q], saved@));
                }
            }
        }
        Workspace {
            tabs,
            active: ix,
            sidebar_collapsed: state.sidebar_collapsed,
            sidebar_section: SidebarSection::Saved,
            theme: state.theme,
            split: state.split,
            tab_rows: clamp_tab_rows(state.tab_rows),
            saved,
            saved_filter: SavedFilter::All,
        }
    }
}

impl<T, D> Workspace<T, D> {
    /// A click on a template: a new tab `tab_id` at the end, always (a
    /// template may be open several times), unsaved and with edits, becomes
    /// active; the window loads the returned template (the one with this id
    /// in the template list) into `handle`. An
    /// unknown id changes nothing.
    pub fn open_template(&mut self, id: &str, tab_id: u128, handle: T) -> (t: Option<RequestTemplate>)
        requires
            old(self).wf(),
            fresh_tab_id(old(self).spec_tabs(), tab_id),
        ensures
            final(self).wf(),
            final(self).same_layout(&*old(self)),
            t is Some <==> exists|i: int| 0 <= i < 14 && TEMPLATE_IDS[i]@ == id@,
            forall|i: int|
                0 <= i < 14 && TEMPLATE_IDS[i]@ == id@ ==> (t matches Some(x) && is_template(x, i)),
            t is None ==> *final(self) == *old(self),
            t matches Some(x) ==> {
                let n = old(self).spec_tabs().len();
                &&& x.id@ == id@
                &&& final(self).spec_tabs().len() == n + 1
                &&& final(self).spec_tabs().drop_last() == old(self).spec_tabs()
                &&& final(self).spec_tabs()[n as int].id == tab_id
                &&& final(self).spec_tabs()[n as int].handle == handle
                &&& final(self).spec_tabs()[n as int].saved_id is None
                &&& final(self).spec_tabs()[n as int].saved_name is None
                &&& final(self).spec_tabs()[n as int].saved_group is None
                &&& final(self).spec_tabs()[n as int].dirty
                &&& final(self).spec_active() == n
            },
    {
        let template = match find(id) {
            Some(t) => t,
            None => {
                return None;
            },
        };
        self.new_tab(tab_id, handle);
        let ix = self.active;
        self.mark_dirty(ix);
        Some(template)
    }
}

/// The persisted active tab is found again: among tabs with distinct ids,
/// looking up the id of the tab at `a` gives `a`. With the tab order coming
/// back unchanged (`lemma_restore_order_round_trip`), a restart restores
/// the active tab too.
pub proof fn lemma_active_id_finds_its_tab<T>(tabs: Seq<TabState<T>>, a: int)
    requires
        0 <= a < tabs.len(),
        forall|i: int, j: int| 0 <= i < j < tabs.len() ==> tabs[i].id != tabs[j].id,
    ensures
        find_tab(tabs, tabs[a].id) == Some(a),
{
    let id = tabs[a].id;
    assert(forall|q: int| 0 <= q < a ==> tabs[q].id != id);
    let c = choose|c: int|
        0 <= c < tabs.len() && tabs[c].id == id && forall|q: int| 0 <= q < c ==> tabs[q].id != id;
    assert(0 <= c < tabs.len() && tabs[c].id == id && forall|q: int| 0 <= q < c ==> tabs[q].id != id);
    if c < a {
        assert(tabs[c].id != tabs[a].id);
    } else if c > a {
        assert(tabs[a].id != id);
    }
}

/// Whether the filter shows this request: every request, or the members of one group.
pub open spec fn filter_shows<D>(f: SavedFilter, r: SavedRequest<D>) -> bool {
    match filter_view(f) {
        None => true,
        Some(g) => opt_view(r.group) == Some(g),
    }
}

/// Positions in `saved`, from `start` on, of the requests the filter shows.
pub open spec fn shown_indices<D>(f: SavedFilter, saved: Seq<SavedRequest<D>>, start: int) -> Seq<usize>
    decreases saved.len() - start,
{
    if start < 0 || start >= saved.len() {
        Seq::empty()
    } else if filter_shows(f, saved[start]) {
        seq![start as usize] + shown_indices(f, saved, start + 1)
    } else {
        shown_indices(f, saved, start + 1)
    }
}

impl<T, D> Workspace<T, D> {
    /// The positions of the saved requests the current filter shows, in list order.
    pub fn filtered_saved_indices(&self) -> (v: Vec<usize>)
        ensures
            v@ == shown_indices(self.spec_filter(), self.spec_saved(), 0),
    {
        let mut out: Vec<usize> = Vec::new();
        let mut i: usize = 0;
        while i < self.saved.len()
            invariant
                i <= self.saved@.len(),
                out@ + shown_indices(self.saved_filter, self.saved@, i as int) == shown_indices(
                    self.saved_filter,
                    self.saved@,
                    0,
                ),
            decreases self.saved@.len() - i,
        {
            let show = match &self.saved_filter {
                SavedFilter::All => true,
                SavedFilter::Group(g) => match &self.saved[i].group {
                    Some(x) => *x == *g,
                    None => false,
                },
            };
            if show {
                out.push(i);
                assert(out@ + shown_indices(self.saved_filter, self.saved@, i + 1) =~= shown_indices(
                    self.saved_filter,
                    self.saved@,
                    0,
                ));
            }
            i = i + 1;
        }
        assert(out@ =~= out@ + shown_indices(self.saved_filter, self.saved@, i as int));
        out
    }
}

/// The group picked in the save dialog. Its rows are "no group", the
/// existing groups in `group_names` order, and "new group" last: row 0 means
/// no group, the last row the trimmed `new_name` (none when blank), any
/// other row that existing group.
pub fn chosen_group(row: usize, group_names: &Vec<String>, new_name: &str) -> (g: Option<String>)
    requires
        row <= group_names@.len() + 1,
    ensures
        opt_view(g) == (if row == 0 {
            None
        } else if row == group_names@.len() + 1 {
            spec_normalize_group(new_name@)
        } else {
            Some(group_names@[row - 1]@)
        }),
{
    if row == 0 {
        None
    } else if row - 1 == group_names.len() {
        normalize_group(new_name)
    } else {
        Some(group_names[row - 1].clone())
    }
}

} // verus!
