use lofi_core::{
    resolve, Application, Command, CommandKind, Entry, EntryKind, EntryRef, PowerCommand,
    PowerCommandKind, Window, WorkArea, Workspace,
};

fn make_application(name: &str, desktop_id: &str, icon: Option<&str>) -> Application {
    Application {
        name: name.to_string(),
        desktop_id: desktop_id.to_string(),
        icon: icon.map(str::to_string),
        recent_window_id: None,
        is_running: false,
    }
}

fn make_application_running(
    name: &str,
    desktop_id: &str,
    icon: Option<&str>,
    window_id: u64,
) -> Application {
    Application {
        name: name.to_string(),
        desktop_id: desktop_id.to_string(),
        icon: icon.map(str::to_string),
        recent_window_id: Some(window_id),
        is_running: true,
    }
}

fn make_window(id: u64, title: &str, app_name: Option<&str>, icon: Option<&str>) -> Window {
    Window {
        id,
        title: title.to_string(),
        app_name: app_name.map(str::to_string),
        icon: icon.map(str::to_string),
        workspace: 0,
        app_desktop_id: None,
    }
}

fn make_workspace(index: i32, name: &str) -> Workspace {
    Workspace {
        index,
        name: name.to_string(),
    }
}

/// Test helper: build a `Command` with a fixed work area and current frame.
/// Used by the Command-variant Entry tests below. The numbers are
/// deliberately non-zero so any field that's silently dropped surfaces as a
/// mismatch in round-trip / resolve assertions.
fn make_command(kind: CommandKind) -> Command {
    Command {
        kind,
        target_window_id: 42,
        work_area: WorkArea {
            x: 0,
            y: 0,
            width: 1920,
            height: 1080,
        },
        current_frame: (100, 100, 800, 600),
    }
}

/// Test helper: build a `PowerCommand` for the given kind. Mirrors
/// `make_command` for the window-action commands. `PowerCommand` has no
/// per-instance state beyond the kind, but a helper keeps the test
/// fixtures aligned with the surrounding patterns.
fn make_power_command(kind: PowerCommandKind) -> PowerCommand {
    PowerCommand { kind }
}

#[test]
fn entry_reference_round_trips_application() {
    let app = make_application("Firefox", "firefox.desktop", Some("firefox"));
    let entry = Entry::Application(app.clone());

    let reference = entry.reference();
    assert_eq!(
        reference,
        EntryRef::Application(app.desktop_id.clone()),
        "entry.reference() should be EntryRef::Application(desktop_id); got {reference:?}"
    );

    let entries = vec![entry.clone()];
    let resolved = resolve(&entries, &entry.reference());
    assert!(
        matches!(resolved, Some(r) if r == &entry),
        "resolve should return Some(&entry) for its own reference; got {resolved:?}"
    );
}

#[test]
fn resolve_finds_application_by_reference() {
    let entries = vec![
        Entry::Application(make_application("Alpha", "alpha.desktop", None)),
        Entry::Application(make_application("Beta", "beta.desktop", None)),
        Entry::Application(make_application("Gamma", "gamma.desktop", None)),
    ];

    let reference = EntryRef::Application("beta.desktop".into());
    let resolved = resolve(&entries, &reference);

    let found = resolved.expect("resolve should find an entry for beta.desktop");
    assert_eq!(
        found.name(),
        "Beta",
        "resolve should return the Beta entry, not the first; got {:?}",
        found.name()
    );
}

#[test]
fn resolve_returns_none_for_missing_reference() {
    let entries = vec![
        Entry::Application(make_application("Alpha", "alpha.desktop", None)),
        Entry::Application(make_application("Beta", "beta.desktop", None)),
        Entry::Application(make_application("Gamma", "gamma.desktop", None)),
    ];

    let missing = EntryRef::Application("missing.desktop".into());
    assert_eq!(
        resolve(&entries, &missing),
        None,
        "resolve should return None for a desktop_id not in the slice"
    );

    let empty: [Entry; 0] = [];
    let anything = EntryRef::Application("anything.desktop".into());
    assert_eq!(
        resolve(&empty, &anything),
        None,
        "resolve over an empty slice should always return None"
    );
}

#[test]
fn entry_methods_return_application_data() {
    let app = make_application("Firefox", "firefox.desktop", Some("firefox"));
    let entry = Entry::Application(app);

    assert_eq!(
        entry.name(),
        "Firefox",
        "Entry::name should return the app name"
    );
    assert_eq!(
        entry.icon(),
        Some("firefox"),
        "Entry::icon should return the app icon as a borrowed &str"
    );
    assert_eq!(
        entry.kind(),
        EntryKind::Application,
        "Entry::kind should return EntryKind::Application for an Application variant"
    );

    let no_icon = Entry::Application(make_application("Bare", "bare.desktop", None));
    assert_eq!(
        no_icon.icon(),
        None,
        "Entry::icon should return None when the underlying Application has no icon"
    );
}

#[test]
fn entry_application_running_round_trips() {
    // An Application with a recent_window_id (i.e. "running") must behave
    // identically to a non-running Application for all Entry accessors:
    // name/icon/kind/reference. In particular, EntryRef::Application is
    // still keyed solely by desktop_id — the runtime-only recent_window_id
    // field must NOT affect the reference.
    let recent_window_id: u64 = 42;

    let running = make_application_running(
        "Firefox",
        "firefox.desktop",
        Some("firefox"),
        recent_window_id,
    );
    let stopped = make_application("Firefox", "firefox.desktop", Some("firefox"));

    assert_eq!(
        running.recent_window_id,
        Some(recent_window_id),
        "make_application_running should set recent_window_id; got {:?}",
        running.recent_window_id
    );
    assert_eq!(
        stopped.recent_window_id, None,
        "make_application should default recent_window_id to None; got {:?}",
        stopped.recent_window_id
    );

    let running_entry = Entry::Application(running.clone());
    let stopped_entry = Entry::Application(stopped.clone());

    assert_eq!(
        running_entry.name(),
        stopped_entry.name(),
        "Entry::name should be unaffected by recent_window_id; running={:?} stopped={:?}",
        running_entry.name(),
        stopped_entry.name()
    );
    assert_eq!(
        running_entry.icon(),
        stopped_entry.icon(),
        "Entry::icon should be unaffected by recent_window_id; running={:?} stopped={:?}",
        running_entry.icon(),
        stopped_entry.icon()
    );
    assert_eq!(
        running_entry.kind(),
        stopped_entry.kind(),
        "Entry::kind should be unaffected by recent_window_id; running={:?} stopped={:?}",
        running_entry.kind(),
        stopped_entry.kind()
    );
    assert_eq!(
        running_entry.kind(),
        EntryKind::Application,
        "Entry::kind for a running Application should still be EntryKind::Application; got {:?}",
        running_entry.kind()
    );

    // The reference must still be EntryRef::Application(desktop_id), with
    // no influence from recent_window_id.
    let running_ref = running_entry.reference();
    let stopped_ref = stopped_entry.reference();
    assert_eq!(
        running_ref, stopped_ref,
        "EntryRef for a running Application must equal the stopped one (recent_window_id is not part of EntryRef); running={running_ref:?} stopped={stopped_ref:?}"
    );
    assert_eq!(
        running_ref,
        EntryRef::Application("firefox.desktop".into()),
        "EntryRef::Application should be keyed solely by desktop_id; got {running_ref:?}"
    );

    // resolve() must still find the running entry by its own reference.
    let entries = vec![running_entry.clone()];
    let resolved = resolve(&entries, &running_entry.reference());
    assert!(
        matches!(resolved, Some(r) if r == &running_entry),
        "resolve should return Some(&running_entry) for its own reference; got {resolved:?}"
    );
}

#[test]
fn entry_window_reference_round_trips() {
    let entry = Entry::Window(make_window(
        42,
        "GitHub — Pull Requests",
        Some("Firefox"),
        None,
    ));

    let reference = entry.reference();
    assert_eq!(
        reference,
        EntryRef::Window(42),
        "Entry::Window::reference() should be EntryRef::Window(id); got {reference:?}"
    );

    let entries = vec![entry.clone()];
    let resolved = resolve(&entries, &entry.reference());
    assert!(
        matches!(resolved, Some(r) if r == &entry),
        "resolve should return Some(&entry) for its own Window reference; got {resolved:?}"
    );

    // id=0 is a legal Mutter window id; must round-trip as well.
    let zero_entry = Entry::Window(make_window(0, "Zero", None, None));
    let zero_entries = vec![zero_entry.clone()];
    let zero_resolved = resolve(&zero_entries, &zero_entry.reference());
    assert!(
        matches!(zero_resolved, Some(r) if r == &zero_entry),
        "EntryRef::Window(0) should round-trip via resolve; got {zero_resolved:?}"
    );
    assert_eq!(
        zero_entry.reference(),
        EntryRef::Window(0),
        "Entry::Window with id=0 should reference EntryRef::Window(0)"
    );
}

#[test]
fn resolve_finds_window_by_reference() {
    let entries = vec![
        Entry::Application(make_application("Alpha", "alpha.desktop", None)),
        Entry::Application(make_application("Beta", "beta.desktop", None)),
        Entry::Window(make_window(100, "First Window", Some("Firefox"), None)),
        Entry::Window(make_window(200, "Second Window", Some("Firefox"), None)),
        Entry::Window(make_window(300, "Third Window", Some("Thunderbird"), None)),
    ];

    let resolved = resolve(&entries, &EntryRef::Window(200));
    let found = resolved.expect("resolve should find a Window for id 200");
    assert_eq!(
        found.name(),
        "Second Window",
        "resolve should return the window whose id is 200; got {:?}",
        found.name()
    );

    // Missing Application reference returns None.
    let missing_app = EntryRef::Application("missing.desktop".into());
    assert_eq!(
        resolve(&entries, &missing_app),
        None,
        "resolve should return None for an Application desktop_id not in the slice"
    );

    // Missing Window id returns None.
    let missing_window = EntryRef::Window(999);
    assert_eq!(
        resolve(&entries, &missing_window),
        None,
        "resolve should return None for a Window id not in the slice"
    );

    // A Window ref must never resolve to an Application; sanity-check
    // with a Vec that has only Applications.
    let only_apps = vec![
        Entry::Application(make_application("Alpha", "alpha.desktop", None)),
        Entry::Application(make_application("Beta", "beta.desktop", None)),
    ];
    assert_eq!(
        resolve(&only_apps, &EntryRef::Window(123)),
        None,
        "EntryRef::Window must never resolve to an Application entry"
    );
}

#[test]
fn entry_window_methods_return_window_data() {
    let entry = Entry::Window(make_window(
        7,
        "Tab Title",
        Some("Firefox"),
        Some("firefox"),
    ));

    assert_eq!(
        entry.name(),
        "Tab Title",
        "Entry::Window::name should return the window title"
    );
    assert_eq!(
        entry.icon(),
        Some("firefox"),
        "Entry::Window::icon should return the window icon as a borrowed &str"
    );
    assert_eq!(
        entry.kind(),
        EntryKind::Window,
        "Entry::Window::kind should return EntryKind::Window"
    );

    let no_icon = Entry::Window(make_window(8, "No Icon", Some("Firefox"), None));
    assert_eq!(
        no_icon.icon(),
        None,
        "Entry::Window::icon should return None when the underlying Window has no icon"
    );
}

#[test]
fn entry_workspace_reference_round_trips() {
    let entry = Entry::Workspace(make_workspace(2, "Workspace 3"));

    let reference = entry.reference();
    assert_eq!(
        reference,
        EntryRef::Workspace(2),
        "Entry::Workspace::reference() should be EntryRef::Workspace(index); got {reference:?}"
    );

    let entries = vec![entry.clone()];
    let resolved = resolve(&entries, &entry.reference());
    assert!(
        matches!(resolved, Some(r) if r == &entry),
        "resolve should return Some(&entry) for its own Workspace reference; got {resolved:?}"
    );

    // index=0 is a legal workspace index (GNOME's first workspace);
    // it must round-trip as well.
    let zero_entry = Entry::Workspace(make_workspace(0, "Workspace 1"));
    let zero_entries = vec![zero_entry.clone()];
    let zero_resolved = resolve(&zero_entries, &zero_entry.reference());
    assert!(
        matches!(zero_resolved, Some(r) if r == &zero_entry),
        "EntryRef::Workspace(0) should round-trip via resolve; got {zero_resolved:?}"
    );
    assert_eq!(
        zero_entry.reference(),
        EntryRef::Workspace(0),
        "Entry::Workspace with index=0 should reference EntryRef::Workspace(0)"
    );
}

#[test]
fn resolve_finds_workspace_by_reference() {
    let entries = vec![
        Entry::Application(make_application("Alpha", "alpha.desktop", None)),
        Entry::Window(make_window(2, "Window Two", Some("Firefox"), None)),
        Entry::Workspace(make_workspace(0, "Workspace 1")),
        Entry::Workspace(make_workspace(1, "Workspace 2")),
        Entry::Workspace(make_workspace(2, "Workspace 3")),
    ];

    let resolved = resolve(&entries, &EntryRef::Workspace(2));
    let found = resolved.expect("resolve should find a Workspace for index 2");
    assert_eq!(
        found.name(),
        "Workspace 3",
        "resolve should return the workspace whose index is 2; got {:?}",
        found.name()
    );
    assert_eq!(
        found.kind(),
        EntryKind::Workspace,
        "resolve(&EntryRef::Workspace(2)) must return a Workspace entry; got kind {:?}",
        found.kind()
    );

    // Cross-variant: a Window(2) ref must NOT resolve to a Workspace(2).
    let by_window_2 = resolve(&entries, &EntryRef::Window(2))
        .expect("resolve should find the Window with id 2");
    assert_eq!(
        by_window_2.kind(),
        EntryKind::Window,
        "EntryRef::Window(2) must resolve to a Window, not a Workspace; got kind {:?}",
        by_window_2.kind()
    );
    assert_eq!(
        by_window_2.name(),
        "Window Two",
        "EntryRef::Window(2) must resolve to the Window named \"Window Two\"; got {:?}",
        by_window_2.name()
    );

    // Cross-variant (other direction): EntryRef::Workspace(2) must NOT
    // resolve to the Window with id 2.
    let by_workspace_2 = resolve(&entries, &EntryRef::Workspace(2))
        .expect("resolve should find the Workspace with index 2");
    assert_eq!(
        by_workspace_2.kind(),
        EntryKind::Workspace,
        "EntryRef::Workspace(2) must resolve to a Workspace, not a Window; got kind {:?}",
        by_workspace_2.kind()
    );

    // Missing workspace index returns None.
    let missing = EntryRef::Workspace(99);
    assert_eq!(
        resolve(&entries, &missing),
        None,
        "resolve should return None for a Workspace index not in the slice"
    );
}

#[test]
fn entry_workspace_methods_return_workspace_data() {
    let entry = Entry::Workspace(make_workspace(1, "Editor"));

    assert_eq!(
        entry.name(),
        "Editor",
        "Entry::Workspace::name should return the workspace name"
    );
    assert_eq!(
        entry.icon(),
        Some("view-grid-symbolic"),
        "Entry::Workspace::icon should return the hardcoded \"view-grid-symbolic\" constant"
    );
    assert_eq!(
        entry.kind(),
        EntryKind::Workspace,
        "Entry::Workspace::kind should return EntryKind::Workspace"
    );
}

/// Exhaustive list of all `CommandKind` variants, kept in one place so the
/// round-trip tests below stay synchronized. If a variant is added, this
/// list must grow — and the tests will fail loudly until the maintainer
/// extends it.
fn all_command_kinds() -> Vec<CommandKind> {
    vec![
        CommandKind::Center,
        CommandKind::CenterHalf,
        CommandKind::CenterTwoThirds,
        CommandKind::LeftHalf,
        CommandKind::RightHalf,
        CommandKind::StandardSize,
        CommandKind::Minimize,
        CommandKind::ToggleMaximize,
        CommandKind::ToggleFullscreen,
    ]
}

#[test]
fn entry_command_reference_round_trips() {
    for kind in all_command_kinds() {
        let entry = Entry::Command(make_command(kind));
        let reference = entry.reference();
        let expected_ref = EntryRef::Command(kind.as_id().into());
        assert_eq!(
            reference, expected_ref,
            "Entry::Command({kind:?}).reference() should be EntryRef::Command(kind.as_id()); got {reference:?}, want {expected_ref:?}"
        );

        let entries = vec![entry.clone()];
        let resolved = resolve(&entries, &entry.reference());
        assert!(
            matches!(resolved, Some(r) if r == &entry),
            "resolve should return Some(&entry) for the Command reference of kind {kind:?}; got {resolved:?}"
        );
    }
}

#[test]
fn resolve_finds_command_by_reference() {
    let entries = vec![
        Entry::Application(make_application("Center", "center.desktop", None)),
        Entry::Window(make_window(7, "A Window", Some("Firefox"), None)),
        Entry::Workspace(make_workspace(0, "Workspace 1")),
        Entry::Command(make_command(CommandKind::Center)),
        Entry::Command(make_command(CommandKind::CenterHalf)),
        Entry::Command(make_command(CommandKind::Minimize)),
    ];

    let reference = EntryRef::Command(CommandKind::CenterHalf.as_id().into());
    let resolved = resolve(&entries, &reference);
    let found = resolved.expect("resolve should find a Command for center_half");
    assert_eq!(
        found.kind(),
        EntryKind::Command,
        "resolve(EntryRef::Command(\"center_half\")) must return a Command entry; got kind {:?}",
        found.kind()
    );
    match found {
        Entry::Command(c) => assert_eq!(
            c.kind,
            CommandKind::CenterHalf,
            "resolved Command must have kind CenterHalf; got {:?}",
            c.kind
        ),
        other => panic!("expected Entry::Command, got {other:?}"),
    }

    // Cross-variant guard: an Application reference for "center" must NOT
    // resolve to the Command::Center entry (different EntryRef variant).
    let app_ref = EntryRef::Application("center".into());
    let resolved_as_app = resolve(&entries, &app_ref);
    // It may match the actual Application named "Center" (desktop_id
    // "center.desktop") — that doesn't match "center" either. We assert
    // that whatever resolves is NOT the Command::Center entry.
    if let Some(found) = resolved_as_app {
        assert_ne!(
            found.kind(),
            EntryKind::Command,
            "EntryRef::Application(\"center\") must NOT resolve to a Command entry; got kind {:?}",
            found.kind()
        );
    }

    // Cross-variant guard (other direction): EntryRef::Command("center")
    // must NOT resolve to the Application whose desktop_id is "center".
    let cmd_ref_center = EntryRef::Command("center".into());
    let resolved_as_cmd = resolve(&entries, &cmd_ref_center)
        .expect("resolve should find a Command for \"center\"");
    assert_eq!(
        resolved_as_cmd.kind(),
        EntryKind::Command,
        "EntryRef::Command(\"center\") must resolve to a Command, not an Application; got kind {:?}",
        resolved_as_cmd.kind()
    );

    // Missing command id returns None.
    let missing = EntryRef::Command("not-a-command".into());
    assert_eq!(
        resolve(&entries, &missing),
        None,
        "resolve should return None for a Command id not in the slice"
    );
}

#[test]
fn entry_command_methods_return_command_data() {
    // Center — display name "Center", icon "focus-windows-symbolic".
    let center = Entry::Command(make_command(CommandKind::Center));
    assert_eq!(
        center.name(),
        "Center",
        "Entry::Command(Center)::name should return the display name \"Center\"; got {:?}",
        center.name()
    );
    assert_eq!(
        center.icon(),
        Some("focus-windows-symbolic"),
        "Entry::Command(Center)::icon should return Some(\"focus-windows-symbolic\"); got {:?}",
        center.icon()
    );
    assert_eq!(
        center.kind(),
        EntryKind::Command,
        "Entry::Command(Center)::kind should return EntryKind::Command; got {:?}",
        center.kind()
    );

    // ToggleMaximize — display name "Toggle maximize", icon
    // "window-maximize-symbolic".
    let toggle_max = Entry::Command(make_command(CommandKind::ToggleMaximize));
    assert_eq!(
        toggle_max.name(),
        "Toggle maximize",
        "Entry::Command(ToggleMaximize)::name should be \"Toggle maximize\"; got {:?}",
        toggle_max.name()
    );
    assert_eq!(
        toggle_max.icon(),
        Some("window-maximize-symbolic"),
        "Entry::Command(ToggleMaximize)::icon should be Some(\"window-maximize-symbolic\"); got {:?}",
        toggle_max.icon()
    );

    // LeftHalf — display name "Left half", icon "view-dual-symbolic".
    let left_half = Entry::Command(make_command(CommandKind::LeftHalf));
    assert_eq!(
        left_half.name(),
        "Left half",
        "Entry::Command(LeftHalf)::name should be \"Left half\"; got {:?}",
        left_half.name()
    );
    assert_eq!(
        left_half.icon(),
        Some("view-dual-symbolic"),
        "Entry::Command(LeftHalf)::icon should be Some(\"view-dual-symbolic\"); got {:?}",
        left_half.icon()
    );
}

#[test]
fn command_kind_id_round_trips_through_from_id() {
    for kind in all_command_kinds() {
        let id = kind.as_id();
        let parsed = CommandKind::from_id(id);
        assert_eq!(
            parsed,
            Some(kind),
            "CommandKind::from_id({id:?}) should round-trip to Some({kind:?}); got {parsed:?}"
        );
    }

    let unknown = CommandKind::from_id("not-a-command");
    assert_eq!(
        unknown, None,
        "CommandKind::from_id(\"not-a-command\") should be None; got {unknown:?}"
    );
}

/// Exhaustive list of all `PowerCommandKind` variants, kept in one place
/// so the round-trip tests below stay synchronized. If a variant is
/// added, this list must grow — and the tests will fail loudly until the
/// maintainer extends it. Mirrors `all_command_kinds`.
fn all_power_command_kinds() -> Vec<PowerCommandKind> {
    vec![
        PowerCommandKind::LockSession,
        PowerCommandKind::Logout,
        PowerCommandKind::Suspend,
        PowerCommandKind::Restart,
        PowerCommandKind::Shutdown,
    ]
}

#[test]
fn entry_power_command_reference_round_trips() {
    for kind in all_power_command_kinds() {
        let entry = Entry::PowerCommand(make_power_command(kind));
        let reference = entry.reference();
        let expected_ref = EntryRef::PowerCommand(kind.as_id().into());
        assert_eq!(
            reference, expected_ref,
            "Entry::PowerCommand({kind:?}).reference() should be EntryRef::PowerCommand(kind.as_id()); got {reference:?}, want {expected_ref:?}"
        );

        let entries = vec![entry.clone()];
        let resolved = resolve(&entries, &entry.reference());
        assert!(
            matches!(resolved, Some(r) if r == &entry),
            "resolve should return Some(&entry) for the PowerCommand reference of kind {kind:?}; got {resolved:?}"
        );
    }
}

#[test]
fn resolve_finds_power_command_by_reference() {
    let entries = vec![
        Entry::Application(make_application("Center", "center.desktop", None)),
        Entry::Window(make_window(7, "A Window", Some("Firefox"), None)),
        Entry::Workspace(make_workspace(0, "Workspace 1")),
        Entry::Command(make_command(CommandKind::Center)),
        Entry::PowerCommand(make_power_command(PowerCommandKind::Suspend)),
        Entry::PowerCommand(make_power_command(PowerCommandKind::LockSession)),
    ];

    // Positive: EntryRef::PowerCommand("suspend") resolves to the Suspend
    // PowerCommand entry.
    let reference = EntryRef::PowerCommand("suspend".into());
    let resolved = resolve(&entries, &reference);
    let found = resolved.expect("resolve should find a PowerCommand for \"suspend\"");
    assert_eq!(
        found.kind(),
        EntryKind::PowerCommand,
        "resolve(EntryRef::PowerCommand(\"suspend\")) must return a PowerCommand entry; got kind {:?}",
        found.kind()
    );
    match found {
        Entry::PowerCommand(c) => assert_eq!(
            c.kind,
            PowerCommandKind::Suspend,
            "resolved PowerCommand must have kind Suspend; got {:?}",
            c.kind
        ),
        other => panic!("expected Entry::PowerCommand, got {other:?}"),
    }

    // Cross-variant guard: EntryRef::Command("suspend") must NOT resolve
    // to the Suspend PowerCommand. The window-Command id space and the
    // PowerCommand id space are distinct EntryRef variants. "suspend" is
    // not a valid CommandKind id, so resolve returns None here — but
    // even if it weren't None, it must never be a PowerCommand.
    let cmd_ref_suspend = EntryRef::Command("suspend".into());
    let resolved_as_cmd = resolve(&entries, &cmd_ref_suspend);
    if let Some(found) = resolved_as_cmd {
        assert_ne!(
            found.kind(),
            EntryKind::PowerCommand,
            "EntryRef::Command(\"suspend\") must NOT resolve to a PowerCommand entry; got kind {:?}",
            found.kind()
        );
    }

    // Cross-variant guard (other direction): EntryRef::PowerCommand("center")
    // must NOT resolve to the Center window Command. There is no
    // PowerCommandKind with id "center", so this must be None.
    let power_ref_center = EntryRef::PowerCommand("center".into());
    let resolved_as_power = resolve(&entries, &power_ref_center);
    if let Some(found) = resolved_as_power {
        assert_ne!(
            found.kind(),
            EntryKind::Command,
            "EntryRef::PowerCommand(\"center\") must NOT resolve to a window Command entry; got kind {:?}",
            found.kind()
        );
    }

    // Missing PowerCommand id returns None.
    let missing = EntryRef::PowerCommand("hibernate".into());
    assert_eq!(
        resolve(&entries, &missing),
        None,
        "resolve should return None for a PowerCommand id not in the slice; got {:?}",
        resolve(&entries, &missing)
    );
}

#[test]
fn entry_power_command_methods_return_command_data() {
    // LockSession — display name "Lock", icon "system-lock-screen-symbolic".
    let lock = Entry::PowerCommand(make_power_command(PowerCommandKind::LockSession));
    assert_eq!(
        lock.name(),
        "Lock",
        "Entry::PowerCommand(LockSession)::name should be \"Lock\"; got {:?}",
        lock.name()
    );
    assert_eq!(
        lock.icon(),
        Some("system-lock-screen-symbolic"),
        "Entry::PowerCommand(LockSession)::icon should be Some(\"system-lock-screen-symbolic\"); got {:?}",
        lock.icon()
    );
    assert_eq!(
        lock.kind(),
        EntryKind::PowerCommand,
        "Entry::PowerCommand(LockSession)::kind should return EntryKind::PowerCommand; got {:?}",
        lock.kind()
    );

    // Suspend — display name "Suspend", icon "weather-clear-night-symbolic".
    let suspend = Entry::PowerCommand(make_power_command(PowerCommandKind::Suspend));
    assert_eq!(
        suspend.name(),
        "Suspend",
        "Entry::PowerCommand(Suspend)::name should be \"Suspend\"; got {:?}",
        suspend.name()
    );
    assert_eq!(
        suspend.icon(),
        Some("weather-clear-night-symbolic"),
        "Entry::PowerCommand(Suspend)::icon should be Some(\"weather-clear-night-symbolic\"); got {:?}",
        suspend.icon()
    );

    // Shutdown — display name "Shutdown", icon "system-shutdown-symbolic".
    let shutdown = Entry::PowerCommand(make_power_command(PowerCommandKind::Shutdown));
    assert_eq!(
        shutdown.name(),
        "Shutdown",
        "Entry::PowerCommand(Shutdown)::name should be \"Shutdown\"; got {:?}",
        shutdown.name()
    );
    assert_eq!(
        shutdown.icon(),
        Some("system-shutdown-symbolic"),
        "Entry::PowerCommand(Shutdown)::icon should be Some(\"system-shutdown-symbolic\"); got {:?}",
        shutdown.icon()
    );
}

#[test]
fn power_command_kind_id_round_trips_through_from_id() {
    for kind in all_power_command_kinds() {
        let id = kind.as_id();
        let parsed = PowerCommandKind::from_id(id);
        assert_eq!(
            parsed,
            Some(kind),
            "PowerCommandKind::from_id({id:?}) should round-trip to Some({kind:?}); got {parsed:?}"
        );
    }

    let unknown = PowerCommandKind::from_id("not-a-power-command");
    assert_eq!(
        unknown, None,
        "PowerCommandKind::from_id(\"not-a-power-command\") should be None; got {unknown:?}"
    );
}
