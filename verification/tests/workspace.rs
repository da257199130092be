use germal_app::model::{SplitDirection, ThemePref, WorkspaceState, MAX_TAB_ROWS};
use germal_app::ordering::{order_drafts, sort_saved, SavedRequest, TabDraft};
use germal_app::workspace::{
    active_after_close, chosen_group, narrow_section, normalize_group, MainPane, OpenSaved, SaveActive, SavedFilter,
    SidebarSection, ToolSection, Workspace, RECORDER_SIDEBAR_DEFAULT_WIDTH,
    RECORDER_SIDEBAR_MIN_WIDTH, SIDEBAR_DEFAULT_WIDTH, SIDEBAR_MAX_WIDTH, SIDEBAR_MIN_WIDTH,
};

fn ulid(ms: u64) -> u128 {
    (ms as u128) << 80
}

fn draft(id: u128) -> TabDraft<u32> {
    TabDraft { id, draft: 0, saved_id: None, dirty: false }
}

fn state(tab_order: Vec<u128>, active: Option<u128>) -> WorkspaceState {
    WorkspaceState {
        tab_order,
        active,
        sidebar_collapsed: true,
        theme: ThemePref::System,
        split: SplitDirection::Vertical,
        tab_rows: 1,
    }
}

fn request(id: u128, name: &str, group: Option<&str>, updated_at: u64) -> SavedRequest<String> {
    SavedRequest {
        id,
        name: name.to_string(),
        group: group.map(|g| g.to_string()),
        created_at: updated_at,
        updated_at,
        draft: format!("draft of {name}"),
    }
}

fn workspace(requests: Vec<SavedRequest<String>>) -> Workspace<u32, String> {
    Workspace::restore(&WorkspaceState::new(), Vec::new(), requests, Some((ulid(100), 100)))
}

#[test]
fn order_follows_tab_order_and_appends_unlisted_by_id() {
    let a = ulid(1);
    let b = ulid(2);
    let c = ulid(3);
    let missing = ulid(9);
    let st = state(vec![c, missing, a], Some(a));
    let (ordered, active) = order_drafts(&st, vec![draft(b), draft(a), draft(c)]);
    let ids: Vec<u128> = ordered.iter().map(|d| d.id).collect();
    assert_eq!(ids, vec![c, a, b]);
    assert_eq!(active, Some(a));
}

#[test]
fn missing_active_falls_back_to_none() {
    let a = ulid(1);
    let st = state(vec![a], Some(ulid(5)));
    let (ordered, active) = order_drafts(&st, vec![draft(a)]);
    assert_eq!(ordered.len(), 1);
    assert_eq!(active, None);
}

#[test]
fn empty_state_keeps_drafts_sorted_by_id() {
    let a = ulid(1);
    let b = ulid(2);
    let (ordered, active) = order_drafts(&WorkspaceState::new(), vec![draft(b), draft(a)]);
    let ids: Vec<u128> = ordered.iter().map(|d| d.id).collect();
    assert_eq!(ids, vec![a, b]);
    assert_eq!(active, None);
}

#[test]
fn closing_left_of_active_shifts_active_left() {
    assert_eq!(active_after_close(2, 0, 4), 1);
    assert_eq!(active_after_close(1, 0, 3), 0);
}

#[test]
fn closing_active_keeps_index_pointing_at_right_neighbour() {
    assert_eq!(active_after_close(1, 1, 3), 1);
    assert_eq!(active_after_close(0, 0, 2), 0);
}

#[test]
fn closing_last_active_clamps_to_new_last() {
    assert_eq!(active_after_close(2, 2, 3), 1);
    assert_eq!(active_after_close(1, 1, 2), 0);
}

#[test]
fn closing_right_of_active_leaves_active_alone() {
    assert_eq!(active_after_close(0, 1, 3), 0);
    assert_eq!(active_after_close(1, 2, 4), 1);
}

#[test]
fn closing_the_only_tab_is_total() {
    assert_eq!(active_after_close(0, 0, 1), 0);
}

#[test]
fn sidebar_sections_are_indexed_by_discriminant() {
    for (ix, section) in SidebarSection::ALL.iter().enumerate() {
        assert_eq!(*section as usize, ix, "ALL[{ix}] does not match its discriminant");
    }
}

#[test]
fn tool_sections_are_indexed_by_discriminant() {
    for (ix, section) in ToolSection::ALL.iter().enumerate() {
        assert_eq!(*section as usize, ix, "ALL[{ix}] does not match its discriminant");
    }
}

#[test]
fn sidebar_width_constants_match_spec() {
    assert_eq!(SIDEBAR_DEFAULT_WIDTH as f32, 360.);
    assert_eq!(SIDEBAR_MIN_WIDTH as f32, 280.);
    assert_eq!(SIDEBAR_MAX_WIDTH as f32, 560.);
}

#[test]
fn narrow_sections_use_the_narrow_widths() {
    assert!(narrow_section(SidebarSection::Recorder));
    assert!(narrow_section(SidebarSection::LoadTest));
    assert!(!narrow_section(SidebarSection::Saved));
    assert!(!narrow_section(SidebarSection::Templates));
    assert_eq!(RECORDER_SIDEBAR_DEFAULT_WIDTH, 240);
    assert_eq!(RECORDER_SIDEBAR_MIN_WIDTH, 180);
}

#[test]
fn saved_requests_sort_newest_first_then_by_id() {
    let mut list = vec![
        request(ulid(1), "a", None, 10),
        request(ulid(2), "b", None, 30),
        request(ulid(3), "c", None, 10),
        request(ulid(4), "d", None, 20),
    ];
    sort_saved(&mut list);
    let names: Vec<&str> = list.iter().map(|r| r.name.as_str()).collect();
    assert_eq!(names, vec!["b", "d", "c", "a"]);
}

#[test]
fn group_names_are_trimmed_and_blank_means_none() {
    assert_eq!(normalize_group("  team "), Some("team".to_string()));
    assert_eq!(normalize_group("   "), None);
    assert_eq!(normalize_group(""), None);
}

#[test]
fn restore_mirrors_saved_requests_and_detaches_orphans() {
    let saved = ulid(50);
    let gone = ulid(51);
    let requests = vec![request(saved, "Users", Some("api"), 5)];
    let drafts = vec![
        TabDraft { id: ulid(2), draft: 2, saved_id: Some(gone), dirty: false },
        TabDraft { id: ulid(1), draft: 1, saved_id: Some(saved), dirty: false },
    ];
    let st = state(vec![ulid(2), ulid(1)], Some(ulid(1)));
    let ws: Workspace<u32, String> = Workspace::restore(&st, drafts, requests, None);
    assert_eq!(ws.tab_count(), 2);
    let first = ws.tab_at(0);
    assert_eq!(first.id, ulid(2));
    assert_eq!(first.saved_id, None);
    assert!(first.dirty);
    let second = ws.tab_at(1);
    assert_eq!(second.saved_id, Some(saved));
    assert_eq!(second.saved_name.as_deref(), Some("Users"));
    assert_eq!(second.saved_group.as_deref(), Some("api"));
    assert!(!second.dirty);
    assert_eq!(ws.active_index(), 1);
    assert_eq!(*ws.saved_filter(), SavedFilter::All);
}

#[test]
fn restore_without_drafts_opens_the_fresh_tab() {
    let ws = workspace(Vec::new());
    assert_eq!(ws.tab_count(), 1);
    assert_eq!(ws.tab_at(0).id, ulid(100));
    assert_eq!(ws.active_index(), 0);
    assert!(ws.sidebar_collapsed());
}

#[test]
fn tabs_open_duplicate_and_close() {
    let mut ws = workspace(Vec::new());
    ws.new_tab(ulid(101), 101);
    ws.new_tab(ulid(102), 102);
    assert_eq!(ws.active_index(), 2);
    assert!(ws.duplicate_tab(0, ulid(103), 103));
    assert_eq!(ws.tab_at(1).id, ulid(103));
    assert!(ws.tab_at(1).dirty);
    assert_eq!(ws.active_index(), 1);
    let closed = ws.close_tab(0, None).unwrap();
    assert_eq!(closed.id, ulid(100));
    assert_eq!(ws.active_index(), 0);
    assert_eq!(ws.tab_at(0).id, ulid(103));
    let others = ws.close_other_tabs(1);
    assert_eq!(others.len(), 2);
    assert_eq!(ws.tab_count(), 1);
    assert_eq!(ws.tab_at(0).id, ulid(101));
    let last = ws.close_tab(0, Some((ulid(104), 104)));
    assert_eq!(last.unwrap().id, ulid(101));
    assert_eq!(ws.tab_count(), 1);
    assert_eq!(ws.tab_at(0).id, ulid(104));
    assert!(ws.close_tab(5, None).is_none());
}

#[test]
fn theme_cycles_and_sidebar_clicks_toggle() {
    let mut ws = workspace(Vec::new());
    ws.cycle_theme();
    assert_eq!(ws.theme(), ThemePref::Light);
    ws.cycle_theme();
    assert_eq!(ws.theme(), ThemePref::Dark);
    ws.cycle_theme();
    assert_eq!(ws.theme(), ThemePref::System);
    assert!(ws.open_sidebar_section(SidebarSection::Templates));
    assert!(!ws.sidebar_collapsed());
    assert!(!ws.open_sidebar_section(SidebarSection::Templates));
    assert!(ws.sidebar_collapsed());
    assert!(!ws.set_split(SplitDirection::Vertical));
    assert!(ws.set_split(SplitDirection::Horizontal));
}

#[test]
fn renaming_onto_an_existing_group_merges_them() {
    let mut ws = workspace(vec![
        request(ulid(1), "a", Some("old"), 1),
        request(ulid(2), "b", Some("new"), 2),
        request(ulid(3), "c", None, 3),
    ]);
    assert_eq!(ws.open_saved(ulid(1), ulid(200), 200), OpenSaved::Opened { tab: 1, request: 2 });
    ws.set_saved_filter(SavedFilter::Group("old".to_string()));
    let changed = ws.rename_group("old", "  new ");
    assert_eq!(changed, vec![ulid(1)]);
    for r in ws.saved().iter() {
        assert_ne!(r.group.as_deref(), Some("old"));
    }
    assert_eq!(ws.saved().iter().filter(|r| r.group.as_deref() == Some("new")).count(), 2);
    assert_eq!(ws.tab_at(1).saved_group.as_deref(), Some("new"));
    assert_eq!(*ws.saved_filter(), SavedFilter::Group("new".to_string()));
    assert_eq!(ws.saved()[0].updated_at, 3);
    assert!(ws.rename_group("new", "   ").is_empty());
    assert!(ws.rename_group("new", "new").is_empty());
}

#[test]
fn dissolving_ungroups_members_and_resets_the_filter() {
    let mut ws = workspace(vec![
        request(ulid(1), "a", Some("g"), 1),
        request(ulid(2), "b", Some("g"), 2),
        request(ulid(3), "c", Some("h"), 3),
    ]);
    ws.set_saved_filter(SavedFilter::Group("g".to_string()));
    let changed = ws.dissolve_group("g");
    assert_eq!(changed, vec![ulid(2), ulid(1)]);
    assert_eq!(ws.saved().iter().filter(|r| r.group.is_none()).count(), 2);
    assert_eq!(ws.saved()[0].group.as_deref(), Some("h"));
    assert_eq!(*ws.saved_filter(), SavedFilter::All);
}

#[test]
fn moving_a_request_normalizes_the_group() {
    let mut ws = workspace(vec![request(ulid(1), "a", None, 1)]);
    assert_eq!(ws.move_saved_to_group(ulid(1), Some(" team ".to_string())), vec![ulid(1)]);
    assert_eq!(ws.saved()[0].group.as_deref(), Some("team"));
    assert!(ws.move_saved_to_group(ulid(1), Some("team".to_string())).is_empty());
    assert_eq!(ws.move_saved_to_group(ulid(1), Some("  ".to_string())), vec![ulid(1)]);
    assert_eq!(ws.saved()[0].group, None);
    assert!(ws.move_saved_to_group(ulid(9), None).is_empty());
}

#[test]
fn deleting_detaches_every_tab_that_showed_it() {
    let mut ws = workspace(vec![request(ulid(1), "a", Some("g"), 1), request(ulid(2), "b", None, 2)]);
    ws.open_saved(ulid(1), ulid(200), 200);
    ws.set_saved_filter(SavedFilter::Group("g".to_string()));
    assert_eq!(ws.delete_saved(ulid(1)), Some(vec![1]));
    let tab = ws.tab_at(1);
    assert_eq!(tab.saved_id, None);
    assert_eq!(tab.saved_name, None);
    assert!(tab.dirty);
    assert_eq!(ws.saved().len(), 1);
    assert_eq!(*ws.saved_filter(), SavedFilter::All);
    assert_eq!(ws.delete_saved(ulid(1)), None);
}

#[test]
fn opening_a_saved_request_twice_activates_the_same_tab() {
    let mut ws = workspace(vec![request(ulid(1), "a", None, 1)]);
    let first = ws.open_saved(ulid(1), ulid(200), 200);
    assert_eq!(first, OpenSaved::Opened { tab: 1, request: 0 });
    ws.activate(0);
    assert_eq!(ws.open_saved(ulid(1), ulid(201), 201), OpenSaved::Activated(1));
    assert_eq!(ws.tab_count(), 2);
    assert_eq!(ws.active_index(), 1);
    assert_eq!(ws.open_saved(ulid(9), ulid(202), 202), OpenSaved::Missing);
}

#[test]
fn saving_a_new_tab_and_overwriting_it() {
    let mut ws = workspace(Vec::new());
    assert_eq!(ws.save_active(5, "x".to_string()), SaveActive::NeedsName);
    let id = ws.finish_save(ulid(100), "   ", "/users", Some(" api ".to_string()), ulid(7), 10, "v1".to_string());
    assert_eq!(id, Some(ulid(7)));
    assert_eq!(ws.saved()[0].name, "/users");
    assert_eq!(ws.saved()[0].group.as_deref(), Some("api"));
    assert_eq!(ws.saved()[0].created_at, 10);
    assert_eq!(ws.saved()[0].updated_at, 10);
    let tab = ws.tab_at(0);
    assert_eq!(tab.saved_id, Some(ulid(7)));
    assert!(!tab.dirty);
    ws.mark_dirty(0);
    assert_eq!(ws.save_active(20, "v2".to_string()), SaveActive::Overwritten(ulid(7)));
    assert_eq!(ws.saved().len(), 1);
    assert_eq!(ws.saved()[0].updated_at, 20);
    assert_eq!(ws.saved()[0].created_at, 10);
    assert_eq!(ws.saved()[0].draft, "v2");
    assert_eq!(ws.saved()[0].name, "/users");
    assert!(!ws.tab_at(0).dirty);
    assert_eq!(ws.finish_save(ulid(999), "n", "t", None, ulid(8), 30, "v".to_string()), None);
}

#[test]
fn templates_open_in_a_new_dirty_tab() {
    let mut ws = workspace(Vec::new());
    let t = ws.open_template("mcp-initialize", ulid(300), 300).unwrap();
    assert_eq!(t.id, "mcp-initialize");
    assert_eq!(ws.tab_count(), 2);
    assert!(ws.tab_at(1).dirty);
    assert_eq!(ws.active_index(), 1);
    assert!(ws.open_template("nope", ulid(301), 301).is_none());
    assert_eq!(ws.tab_count(), 2);
}

#[test]
fn workspace_state_lists_tabs_in_order() {
    let mut ws = workspace(Vec::new());
    ws.new_tab(ulid(101), 101);
    ws.toggle_sidebar();
    let st = ws.workspace_state();
    assert_eq!(st.tab_order, vec![ulid(100), ulid(101)]);
    assert_eq!(st.active, Some(ulid(101)));
    assert!(!st.sidebar_collapsed);
}

#[test]
fn duplicating_the_active_tab_and_closing_all() {
    let mut ws = workspace(Vec::new());
    assert_eq!(SidebarSection::default_section(), SidebarSection::Saved);
    assert_eq!(ws.sidebar_section(), SidebarSection::Saved);
    ws.duplicate_active(ulid(101), 101);
    assert_eq!(ws.tab_count(), 2);
    assert_eq!(ws.active_tab().id, ulid(101));
    assert!(ws.active_tab().dirty);
    let closed = ws.close_all_tabs(ulid(102), 102);
    let ids: Vec<u128> = closed.iter().map(|t| t.id).collect();
    assert_eq!(ids, vec![ulid(100), ulid(101)]);
    assert_eq!(ws.tab_count(), 1);
    assert_eq!(ws.active_tab().id, ulid(102));
    assert!(!ws.active_tab().dirty);
}

#[test]
fn the_filter_shows_all_or_one_group() {
    let mut ws = workspace(vec![
        request(ulid(1), "a", Some("g"), 1),
        request(ulid(2), "b", None, 2),
        request(ulid(3), "c", Some("g"), 3),
    ]);
    assert_eq!(ws.filtered_saved_indices(), vec![0, 1, 2]);
    ws.set_saved_filter(SavedFilter::Group("g".to_string()));
    assert_eq!(ws.filtered_saved_indices(), vec![0, 2]);
    ws.set_saved_filter(SavedFilter::Group("none".to_string()));
    assert!(ws.filtered_saved_indices().is_empty());
}

#[test]
fn a_restart_brings_back_tab_order_and_active_tab() {
    let mut ws = workspace(Vec::new());
    ws.new_tab(ulid(7), 7);
    ws.new_tab(ulid(3), 3);
    ws.new_tab(ulid(5), 5);
    ws.activate(2);
    let persisted = ws.workspace_state();
    let drafts = vec![draft(ulid(5)), draft(ulid(100)), draft(ulid(3)), draft(ulid(7))];
    let back: Workspace<u32, String> = Workspace::restore(&persisted, drafts, Vec::new(), None);
    let ids: Vec<u128> = (0..back.tab_count()).map(|i| back.tab_at(i).id).collect();
    assert_eq!(ids, vec![ulid(100), ulid(7), ulid(3), ulid(5)]);
    assert_eq!(back.active_index(), 2);
}

#[test]
fn tab_rows_toggle_clamp_and_persist() {
    let mut ws = workspace(Vec::new());
    assert_eq!(ws.tab_rows(), 1);
    ws.toggle_tab_rows();
    assert_eq!(ws.tab_rows(), MAX_TAB_ROWS);
    assert_eq!(ws.workspace_state().tab_rows, MAX_TAB_ROWS);
    ws.toggle_tab_rows();
    assert_eq!(ws.tab_rows(), 1);
    for (stored, expected) in [(0u8, 1u8), (2, 2), (9, MAX_TAB_ROWS)] {
        let mut st = state(Vec::new(), None);
        st.tab_rows = stored;
        let back: Workspace<u32, String> = Workspace::restore(&st, Vec::new(), Vec::new(), Some((ulid(1), 1)));
        assert_eq!(back.tab_rows(), expected);
    }
}

#[test]
fn closing_the_only_tab_opens_a_fresh_one() {
    let mut ws = workspace(Vec::new());
    let closed = ws.close_tab(0, Some((ulid(101), 101))).unwrap();
    assert_eq!(closed.id, ulid(100));
    assert_eq!(ws.tab_count(), 1);
    assert_ne!(ws.tab_at(0).id, closed.id);
    assert_eq!(ws.active_index(), 0);
}

#[test]
fn the_save_dialog_row_picks_the_group() {
    let names = vec!["api".to_string(), "auth".to_string()];
    assert_eq!(chosen_group(0, &names, "x"), None);
    assert_eq!(chosen_group(2, &names, "x"), Some("auth".to_string()));
    assert_eq!(chosen_group(3, &names, "  new "), Some("new".to_string()));
    assert_eq!(chosen_group(3, &names, "   "), None);
}

#[test]
fn the_main_area_shows_the_open_tool_or_the_tabs() {
    let mut ws = workspace(Vec::new());
    assert!(ws.sidebar_collapsed());
    assert_eq!(ws.main_pane(), MainPane::Tabs);
    assert!(ws.open_sidebar_section(SidebarSection::Recorder));
    assert_eq!(ws.main_pane(), MainPane::Recorder);
    assert!(ws.open_sidebar_section(SidebarSection::LoadTest));
    assert_eq!(ws.main_pane(), MainPane::LoadTest);
    assert!(ws.open_sidebar_section(SidebarSection::Saved));
    assert_eq!(ws.main_pane(), MainPane::Tabs);
    assert!(ws.open_sidebar_section(SidebarSection::Recorder));
    ws.toggle_sidebar();
    assert_eq!(ws.main_pane(), MainPane::Tabs);
}
