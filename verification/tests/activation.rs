//! Tests of what activating an entry asks the platform to do, and of the
//! list view's small decisions.

use lofi_core::{
    activation, icon_is_path, kind_to_str, move_target, needs_placeholder, power_call,
    running_indicator, Activation, Application, Bus, Command, CommandKind, Entry, EntryKind,
    PowerArg, PowerCommand, PowerCommandKind, Window, WorkArea, Workspace, WorkspaceCommand,
    WorkspaceCommandKind,
};

fn app(recent_window_id: Option<u64>) -> Entry {
    Entry::Application(Application {
        name: "Firefox".into(),
        desktop_id: "firefox.desktop".into(),
        icon: None,
        recent_window_id,
        is_running: recent_window_id.is_some(),
    })
}

fn command(kind: CommandKind) -> Entry {
    Entry::Command(Command {
        kind,
        target_window_id: 8,
        work_area: WorkArea { x: 100, y: 50, width: 1800, height: 1000 },
        current_frame: (200, 60, 800, 600),
    })
}

#[test]
fn running_application_raises_its_window() {
    assert_eq!(activation(&app(Some(77))), Activation::FocusWindow(77));
    assert_eq!(activation(&app(None)), Activation::Launch("firefox.desktop".into()));
}

#[test]
fn windows_and_workspaces_are_focused() {
    let w = Entry::Window(Window {
        id: 12,
        title: "Doc".into(),
        app_name: None,
        icon: None,
        workspace: 0,
        app_desktop_id: None,
    });
    assert_eq!(activation(&w), Activation::FocusWindow(12));
    let ws = Entry::Workspace(Workspace { index: 2, name: "Three".into() });
    assert_eq!(activation(&ws), Activation::SwitchWorkspace(2));
}

#[test]
fn commands_act_on_their_target_window() {
    assert_eq!(activation(&command(CommandKind::Minimize)), Activation::Minimize(8));
    assert_eq!(activation(&command(CommandKind::ToggleMaximize)), Activation::ToggleMaximize(8));
    assert_eq!(activation(&command(CommandKind::ToggleFullscreen)), Activation::ToggleFullscreen(8));
    assert_eq!(
        activation(&command(CommandKind::RightHalf)),
        Activation::MoveResize { window_id: 8, x: 1000, y: 50, width: 900, height: 1000 }
    );
    assert_eq!(
        activation(&command(CommandKind::Center)),
        Activation::MoveResize { window_id: 8, x: 600, y: 250, width: 800, height: 600 }
    );
    assert_eq!(activation(&command(CommandKind::NextDisplay)), Activation::Nothing);
}

#[test]
fn power_and_workspace_moves() {
    let p = Entry::PowerCommand(PowerCommand { kind: PowerCommandKind::Restart });
    assert_eq!(activation(&p), Activation::Power(PowerCommandKind::Restart));
    let m = Entry::WorkspaceCommand(WorkspaceCommand {
        kind: WorkspaceCommandKind::MoveToNextWorkspace,
        target_window_id: 4,
        target_index: 3,
        name: "Move to next workspace".into(),
    });
    assert_eq!(activation(&m), Activation::MoveToWorkspace { window_id: 4, index: 3 });
}

#[test]
fn power_calls_go_to_the_right_service() {
    let lock = power_call(PowerCommandKind::LockSession);
    assert_eq!(lock.bus, Bus::Session);
    assert_eq!(lock.destination, "org.gnome.ScreenSaver");
    assert_eq!(lock.method, "Lock");
    assert_eq!(lock.arg, PowerArg::Unit);
    let suspend = power_call(PowerCommandKind::Suspend);
    assert_eq!(suspend.bus, Bus::System);
    assert_eq!(suspend.interface, "org.freedesktop.login1.Manager");
    assert_eq!(suspend.arg, PowerArg::Interactive(false));
    let logout = power_call(PowerCommandKind::Logout);
    assert_eq!(logout.destination, "org.gnome.SessionManager");
    assert_eq!(logout.method, "Logout");
    assert_eq!(logout.arg, PowerArg::Mode(0));
    assert_eq!(power_call(PowerCommandKind::Restart).method, "Reboot");
    assert_eq!(power_call(PowerCommandKind::Shutdown).method, "Shutdown");
}

#[test]
fn selection_moves_within_the_list() {
    assert_eq!(move_target(Some(2), 1), Some(3));
    assert_eq!(move_target(Some(0), -1), None, "no row above the first");
    assert_eq!(move_target(None, 1), None, "nothing selected");
    assert_eq!(move_target(Some(-1), 1), None);
}

#[test]
fn placeholder_only_for_a_query_without_matches() {
    assert!(needs_placeholder(0, "zzz"));
    assert!(!needs_placeholder(0, "  "));
    assert!(!needs_placeholder(3, "zzz"));
}

#[test]
fn running_indicator_and_icon_lookup() {
    assert!(running_indicator(&app(Some(1))));
    assert!(!running_indicator(&app(None)));
    assert!(!running_indicator(&command(CommandKind::Center)));
    assert!(icon_is_path("/usr/share/icons/a.png"));
    assert!(!icon_is_path("firefox"));
    assert!(!icon_is_path(""));
}

#[test]
fn kind_labels_are_stable() {
    assert_eq!(kind_to_str(EntryKind::Application), "Application");
    assert_eq!(kind_to_str(EntryKind::Window), "Window");
    assert_eq!(kind_to_str(EntryKind::Workspace), "Workspace");
    assert_eq!(kind_to_str(EntryKind::Command), "Command");
    assert_eq!(kind_to_str(EntryKind::PowerCommand), "PowerCommand");
    assert_eq!(kind_to_str(EntryKind::WorkspaceCommand), "WorkspaceCommand");
}
