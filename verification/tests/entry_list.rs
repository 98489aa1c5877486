//! Tests of the entry list the frontends drive: pushes, the visible order
//! under a query, the history reordering and the per-entry accessors.

use lofi_core::{EntryList, EntryRef, WorkArea};

/// Work area `(x, y, w, h)` shared by the command tests.
fn wa() -> WorkArea {
    WorkArea { x: 100, y: 50, width: 1800, height: 1000 }
}

/// Current frame `(x, y, w, h)` shared by the command tests.
fn frame() -> (i32, i32, i32, i32) {
    (200, 60, 800, 600)
}

fn push_app(list: &mut EntryList, name: &str, bundle_id: &str, icon: Option<&str>) -> bool {
    list.push_application(
        name.to_string(),
        bundle_id.to_string(),
        icon.map(str::to_string),
        false,
    );
    true
}

fn push_window_named(
    list: &mut EntryList,
    id: u64,
    title: &str,
    app_name: Option<&str>,
    icon: Option<&str>,
    app_desktop_id: Option<&str>,
) -> bool {
    list.push_window(
        id,
        title.to_string(),
        app_name.map(str::to_string),
        icon.map(str::to_string),
        0,
        app_desktop_id.map(str::to_string),
    );
    true
}

fn push_command_kind(list: &mut EntryList, kind_id: &str, target_window_id: u64) -> bool {
    list.push_command(kind_id, target_window_id, wa(), frame())
}

fn set_query(list: &mut EntryList, query: &str) -> bool {
    list.set_query(query);
    true
}

fn name_at(list: &EntryList, idx: usize) -> String {
    list.get_name(idx)
        .unwrap_or_else(|| panic!("get_name returned None for in-bounds idx={idx}"))
        .to_owned()
}

fn command_id_at(list: &EntryList, idx: usize) -> String {
    list.get_command_id(idx)
        .unwrap_or_else(|| panic!("get_command_id returned None for Command idx={idx}"))
        .to_owned()
}

fn push_three_apps(list: &mut EntryList) {
    assert!(push_app(list, "Firefox", "org.mozilla.firefox", None), "push Firefox should succeed");
    assert!(push_app(list, "Calculator", "com.apple.calculator", None), "push Calculator should succeed");
    assert!(push_app(list, "Terminal", "com.apple.Terminal", None), "push Terminal should succeed");
}

#[test]
fn round_trip_push_len_and_get_name() {
    let mut list = EntryList::new();
    assert!(push_app(&mut list, "Safari", "com.apple.Safari", Some("safari-icon")));
    assert!(push_app(&mut list, "Terminal", "com.apple.Terminal", Some("terminal-icon")));
    assert_eq!(list.len(), 2, "len should equal the number of successful pushes");
    assert_eq!(name_at(&list, 0), "Safari", "index 0 should be the first push");
    assert_eq!(name_at(&list, 1), "Terminal", "index 1 should be the second push");
}

#[test]
fn push_with_null_icon_succeeds() {
    let mut list = EntryList::new();
    assert!(push_app(&mut list, "Calculator", "com.apple.Calculator", None));
    assert_eq!(list.len(), 1, "len should be 1 after one successful push");
    assert_eq!(name_at(&list, 0), "Calculator", "name should still be retrievable with no icon");
    assert_eq!(list.get_icon(0), None, "an application pushed without icon has none");
}

#[test]
fn ordering_preserved_across_multiple_pushes() {
    let expected = ["Alpha", "Beta", "Gamma"];
    let mut list = EntryList::new();
    for name in expected.iter() {
        let bundle = format!("com.example.{name}");
        assert!(push_app(&mut list, name, &bundle, None));
    }
    assert_eq!(list.len(), expected.len(), "len should match the number of pushes");
    for (i, want) in expected.iter().enumerate() {
        assert_eq!(name_at(&list, i), *want, "name at index {i} should match insertion order");
    }
}

#[test]
fn out_of_bounds_get_name_returns_null() {
    let mut list = EntryList::new();
    assert!(push_app(&mut list, "Only", "com.example.Only", None));
    let len = list.len();
    assert_eq!(list.get_name(len), None, "get_name at idx==len must be None");
    assert_eq!(list.get_name(1_000_000), None, "get_name far out of bounds must be None");
}

#[test]
fn set_query_filters_to_match() {
    let mut list = EntryList::new();
    push_three_apps(&mut list);
    assert!(set_query(&mut list, "fire"));
    assert_eq!(list.len(), 1, "len should reflect the single match for query \"fire\"");
    assert_eq!(name_at(&list, 0), "Firefox");
}

#[test]
fn set_query_empty_restores_all() {
    let expected = ["Firefox", "Calculator", "Terminal"];
    let mut list = EntryList::new();
    push_three_apps(&mut list);
    assert!(set_query(&mut list, "fire"));
    assert_eq!(list.len(), 1, "sanity: \"fire\" narrows to one entry before restoring");
    assert!(set_query(&mut list, ""));
    assert_eq!(list.len(), expected.len(), "empty query should restore the full count");
    for (i, want) in expected.iter().enumerate() {
        assert_eq!(name_at(&list, i), *want, "empty query should restore insertion order at idx {i}");
    }
}

#[test]
fn set_query_intersection_semantics() {
    let mut list = EntryList::new();
    assert!(push_app(
        &mut list,
        "Firefox Developer Edition",
        "org.mozilla.firefoxdeveloperedition",
        None,
    ));
    assert!(push_app(&mut list, "Firefox", "org.mozilla.firefox", None));
    assert!(push_app(&mut list, "Chrome", "com.google.Chrome", None));
    assert!(set_query(&mut list, "fire dev"));
    assert_eq!(list.len(), 1, "only the developer edition satisfies both tokens");
    assert_eq!(name_at(&list, 0), "Firefox Developer Edition");
}

#[test]
fn set_query_case_insensitive() {
    let mut list = EntryList::new();
    assert!(push_app(&mut list, "Firefox", "org.mozilla.firefox", None));
    assert!(push_app(&mut list, "Calculator", "com.apple.calculator", None));
    assert!(set_query(&mut list, "FIRE"));
    assert_eq!(list.len(), 1, "uppercase \"FIRE\" should match Firefox only");
    assert_eq!(name_at(&list, 0), "Firefox");
}

#[test]
fn set_query_null_clears_filter() {
    // The frontend hands an absent query over as the empty string.
    let mut list = EntryList::new();
    push_three_apps(&mut list);
    assert!(set_query(&mut list, "fire"));
    assert_eq!(list.len(), 1, "sanity: \"fire\" narrows to one entry before clearing");
    list.set_query("");
    assert_eq!(list.len(), 3, "an absent query should clear the filter");
}

#[test]
fn push_recomputes_filter() {
    let mut list = EntryList::new();
    assert!(push_app(&mut list, "Alpha", "alpha", None));
    assert!(push_app(&mut list, "Beta", "beta", None));
    assert!(set_query(&mut list, "ome"));
    assert_eq!(list.len(), 0, "neither Alpha nor Beta should match \"ome\"");
    assert!(push_app(&mut list, "Chrome", "com.google.Chrome", None));
    assert_eq!(list.len(), 1, "Chrome should appear after a push under the active query");
    assert_eq!(name_at(&list, 0), "Chrome");
}

#[test]
fn get_window_id_returns_zero_for_application() {
    let window_id: u64 = 99;
    let far_out_of_bounds: usize = 999;
    let mut list = EntryList::new();
    assert!(push_app(&mut list, "Calculator", "com.apple.Calculator", None));
    assert_eq!(list.get_window_id(0), 0, "get_window_id must be 0 for an Application");
    assert!(push_window_named(&mut list, window_id, "Some Doc", Some("TextEdit"), None, None));
    assert_eq!(list.get_window_id(0), 0, "the Application at idx 0 must still report 0");
    assert_eq!(list.get_window_id(1), window_id, "the Window at idx 1 reports its id");
    assert_eq!(list.get_window_id(far_out_of_bounds), 0, "out of bounds reports 0");
}

#[test]
fn mixed_list_search_then_window_id() {
    let window_id: u64 = 314;
    let mut list = EntryList::new();
    assert!(push_app(&mut list, "Calculator", "com.apple.Calculator", None));
    assert!(push_app(&mut list, "Calendar", "com.apple.iCal", None));
    assert!(push_window_named(&mut list, window_id, "Cron Job Notes", Some("Notes"), None, None));
    assert!(set_query(&mut list, "cron"));
    assert_eq!(list.len(), 1, "only the window's title should match \"cron\"");
    assert_eq!(list.get_window_id(0), window_id, "filtered idx 0 resolves to the window");
}

#[test]
fn push_command_round_trips_geometry_kind() {
    let mut list = EntryList::new();
    assert!(push_command_kind(&mut list, "center_half", 4242));
    assert_eq!(list.len(), 1);
    assert_eq!(name_at(&list, 0), "Center half");
    assert_eq!(list.get_category(0), Some("Command"));
    assert_eq!(command_id_at(&list, 0), "center_half");
    assert_eq!(list.get_command_geometry(0), Some((550, 50, 900, 1000)));
    assert_eq!(list.get_icon(0), None, "a command has no pushed icon");
    assert_eq!(list.get_window_id(0), 0);
    assert_eq!(list.get_bundle_id(0), None);
}

#[test]
fn push_command_center_uses_current_frame() {
    let mut list = EntryList::new();
    assert!(push_command_kind(&mut list, "center", 1));
    assert_eq!(
        list.get_command_geometry(0),
        Some((600, 250, 800, 600)),
        "center geometry must reflect the pushed current_frame size, recentered"
    );
}

#[test]
fn command_geometry_false_for_state_toggle_kinds() {
    let state_kinds = [
        ("minimize", "Minimize"),
        ("toggle_maximize", "Toggle maximize"),
        ("toggle_fullscreen", "Toggle fullscreen"),
    ];
    let mut list = EntryList::new();
    for (id, _display) in state_kinds.iter() {
        assert!(push_command_kind(&mut list, id, 5), "push_command({id}) should return true");
    }
    assert_eq!(list.len(), state_kinds.len());
    for (idx, (id, display)) in state_kinds.iter().enumerate() {
        assert_eq!(list.get_command_geometry(idx), None, "{id} has no geometry");
        assert_eq!(command_id_at(&list, idx), *id);
        assert_eq!(name_at(&list, idx), *display);
    }
}

#[test]
fn command_geometry_leaves_out_params_untouched_on_false() {
    // Without out-params, "untouched" means no rectangle is returned on any
    // of the paths where the platform call gives false.
    let mut list = EntryList::new();
    assert!(push_command_kind(&mut list, "minimize", 9));
    assert!(push_app(&mut list, "Calculator", "com.apple.Calculator", None));
    assert_eq!(list.get_command_geometry(0), None, "state-toggle kind");
    assert_eq!(list.get_command_geometry(1), None, "non-Command variant");
    assert_eq!(list.get_command_geometry(999), None, "out-of-bounds idx");
}

#[test]
fn command_geometry_false_for_non_command() {
    let mut list = EntryList::new();
    assert!(push_app(&mut list, "Calculator", "com.apple.Calculator", None));
    assert_eq!(list.get_command_geometry(0), None);
}

#[test]
fn push_command_unknown_kind_id_rejected() {
    let mut list = EntryList::new();
    assert!(!push_command_kind(&mut list, "not_a_command", 3), "an unknown kind id is rejected");
    assert_eq!(list.len(), 0, "nothing is pushed for an unknown kind id");
}

#[test]
fn get_command_id_null_for_non_command() {
    let mut list = EntryList::new();
    assert!(push_app(&mut list, "Calculator", "com.apple.Calculator", None));
    assert!(push_window_named(&mut list, 21, "Some Doc", Some("TextEdit"), None, None));
    assert_eq!(list.get_command_id(0), None, "Application");
    assert_eq!(list.get_command_id(1), None, "Window");
    assert_eq!(list.get_command_id(999), None, "out of bounds");
}

#[test]
fn mixed_list_filtered_command_geometry_and_id() {
    let mut list = EntryList::new();
    assert!(push_app(&mut list, "Chrome", "com.google.Chrome", None));
    assert!(push_app(&mut list, "Notes", "com.apple.Notes", None));
    assert!(push_command_kind(&mut list, "left_half", 77));
    assert!(set_query(&mut list, "left"));
    assert_eq!(list.len(), 1, "only the \"Left half\" command matches \"left\"");
    assert_eq!(list.get_category(0), Some("Command"));
    assert_eq!(command_id_at(&list, 0), "left_half");
    assert_eq!(list.get_command_geometry(0), Some((100, 50, 900, 1000)));
}

#[test]
fn command_id_matches_as_id_for_all_kinds() {
    let ids = [
        "center",
        "center_half",
        "center_two_thirds",
        "left_half",
        "right_half",
        "standard_size",
        "minimize",
        "toggle_maximize",
        "toggle_fullscreen",
    ];
    let mut list = EntryList::new();
    for id in ids.iter() {
        assert!(push_command_kind(&mut list, id, 100));
    }
    assert_eq!(list.len(), ids.len());
    for (idx, want) in ids.iter().enumerate() {
        assert_eq!(command_id_at(&list, idx), *want);
    }
}

#[test]
fn mru_bump_then_apply_promotes_entry() {
    // Bumping Chrome puts its handle alone in the history; applying that
    // history brings it to the top, the others keep their order.
    let mut list = EntryList::new();
    assert!(push_app(&mut list, "Alpha", "com.example.alpha", None));
    assert!(push_app(&mut list, "Beta", "com.example.beta", None));
    assert!(push_app(&mut list, "Chrome", "com.google.Chrome", None));
    let bumped = list.resolve_filtered_index(2).expect("idx 2 exists").reference();
    list.apply_mru(&[bumped]);
    assert_eq!(list.len(), 3, "len should be unchanged at 3 after apply_mru");
    assert_eq!(name_at(&list, 0), "Chrome", "Chrome should be at the top");
    assert_eq!(name_at(&list, 1), "Alpha");
    assert_eq!(name_at(&list, 2), "Beta");
}

#[test]
fn apply_mru_with_empty_store_preserves_input_order() {
    let expected = ["Alpha", "Beta", "Chrome"];
    let mut list = EntryList::new();
    for name in expected.iter() {
        let bundle = format!("com.example.{name}");
        assert!(push_app(&mut list, name, &bundle, None));
    }
    list.apply_mru(&[]);
    assert_eq!(list.len(), expected.len(), "len should match the push count");
    for (i, want) in expected.iter().enumerate() {
        assert_eq!(name_at(&list, i), *want, "an empty history keeps push order at idx {i}");
    }
}

#[test]
fn apply_mru_orders_history_by_recency_and_keeps_it_first_under_query() {
    // Two known entries, most recent first in the history; under a query
    // that all entries match, the known ones stay on top in recency order
    // even though the unknown one matches better.
    let mut list = EntryList::new();
    assert!(push_app(&mut list, "Code", "code.desktop", None));
    assert!(push_app(&mut list, "Xcode", "xcode.desktop", None));
    assert!(push_app(&mut list, "Codex", "codex.desktop", None));
    let history = vec![
        EntryRef::Application("codex.desktop".into()),
        EntryRef::Application("xcode.desktop".into()),
    ];
    list.apply_mru(&history);
    assert_eq!(name_at(&list, 0), "Codex");
    assert_eq!(name_at(&list, 1), "Xcode");
    assert_eq!(name_at(&list, 2), "Code");
    list.set_query("code");
    assert_eq!(list.len(), 3);
    assert_eq!(name_at(&list, 0), "Codex", "history entries stay first under a query");
    assert_eq!(name_at(&list, 1), "Xcode");
    assert_eq!(name_at(&list, 2), "Code");
}

#[test]
fn accessors_report_application_and_window_data() {
    let mut list = EntryList::new();
    list.push_application("Files".into(), "org.gnome.Nautilus.desktop".into(), Some("files".into()), true);
    list.push_window(7, "Notes".into(), Some("Editor".into()), Some("editor".into()), 2, None);
    list.push_power_command("suspend");
    assert!(!list.push_power_command("hibernate"), "an unknown power command id is rejected");
    assert_eq!(list.len(), 3);
    assert_eq!(list.get_bundle_id(0), Some("org.gnome.Nautilus.desktop"));
    assert_eq!(list.get_bundle_id(1), None);
    assert_eq!(list.get_icon(0), Some("files"));
    assert_eq!(list.get_icon(1), Some("editor"));
    assert_eq!(list.get_icon(2), None, "a power command has no pushed icon");
    assert!(list.get_is_running(0));
    assert!(!list.get_is_running(1));
    assert_eq!(list.get_category(0), Some("Application"));
    assert_eq!(list.get_category(1), Some("Window"));
    assert_eq!(list.get_category(2), Some("PowerCommand"));
    assert_eq!(list.get_category(3), None);
    assert_eq!(list.get_power_command_id(2), Some("suspend"));
    assert_eq!(list.get_power_command_id(0), None);
    assert_eq!(name_at(&list, 2), "Suspend");
}

#[test]
fn clear_resets_entries_query_and_history() {
    let mut list = EntryList::new();
    push_three_apps(&mut list);
    list.apply_mru(&[EntryRef::Application("com.apple.Terminal".into())]);
    list.set_query("term");
    assert_eq!(list.len(), 1);
    list.clear();
    assert_eq!(list.len(), 0);
    assert!(push_app(&mut list, "Alpha", "alpha", None));
    assert_eq!(list.len(), 1, "the query was cleared too");
}

#[test]
fn apply_mru_twice_changes_nothing() {
    let mut list = EntryList::new();
    push_three_apps(&mut list);
    let history = vec![
        EntryRef::Application("com.apple.Terminal".into()),
        EntryRef::Application("org.mozilla.firefox".into()),
    ];
    list.apply_mru(&history);
    let once: Vec<String> = (0..list.len()).map(|i| name_at(&list, i)).collect();
    assert_eq!(once, vec!["Terminal", "Firefox", "Calculator"]);
    list.apply_mru(&history);
    let twice: Vec<String> = (0..list.len()).map(|i| name_at(&list, i)).collect();
    assert_eq!(once, twice);
}
