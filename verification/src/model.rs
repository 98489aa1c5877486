//! The launcher's data model: the things a launcher can show or act on
//! (applications, windows, workspaces, window-action commands, power
//! commands, workspace-move commands), the runtime sum type `Entry` the UI
//! renders, and `EntryRef`, the persistence handle that points back at an
//! entry across runs.

use vstd::prelude::*;

use crate::text::{decimal, lower, str_eq};

verus! {

/// A launchable application.
///
/// `desktop_id` is the stable identifier used to launch the application and
/// to refer to it across runs. `recent_window_id` and `is_running` are
/// runtime-only state: they never reach `EntryRef`.
#[derive(Debug, Clone, PartialEq, Eq)]
pub struct Application {
    pub name: String,
    pub desktop_id: String,
    pub icon: Option<String>,
    /// When `Some(id)`, the application has an open window and `id` is the
    /// most recently focused one.
    pub recent_window_id: Option<u64>,
    /// Whether the application has at least one open window.
    pub is_running: bool,
}

/// An open window. `workspace` is `-1` for a window shown on all workspaces.
#[derive(Debug, Clone, PartialEq, Eq)]
pub struct Window {
    pub id: u64,
    pub title: String,
    pub app_name: Option<String>,
    pub icon: Option<String>,
    pub workspace: i32,
    /// Canonical `.desktop` id of the owning application, when known.
    pub app_desktop_id: Option<String>,
}

/// A workspace: its 0-based index and its human-readable label.
#[derive(Debug, Clone, PartialEq, Eq)]
pub struct Workspace {
    pub index: i32,
    pub name: String,
}

/// The window-action commands.
#[derive(Debug, Clone, Copy, PartialEq, Eq, Hash, Structural)]
pub enum CommandKind {
    Center,
    CenterThird,
    CenterHalf,
    CenterTwoThirds,
    LeftThird,
    LeftHalf,
    LeftTwoThirds,
    RightThird,
    RightHalf,
    RightTwoThirds,
    StandardSize,
    Minimize,
    ToggleMaximize,
    ToggleFullscreen,
    NextDisplay,
    PreviousDisplay,
}

impl CommandKind {
    /// The stable snake_case identifier of the kind.
    pub open spec fn id_spec(self) -> Seq<char> {
        match self {
            CommandKind::Center => "center"@,
            CommandKind::CenterThird => "center_third"@,
            CommandKind::CenterHalf => "center_half"@,
            CommandKind::CenterTwoThirds => "center_two_thirds"@,
            CommandKind::LeftThird => "left_third"@,
            CommandKind::LeftHalf => "left_half"@,
            CommandKind::LeftTwoThirds => "left_two_thirds"@,
            CommandKind::RightThird => "right_third"@,
            CommandKind::RightHalf => "right_half"@,
            CommandKind::RightTwoThirds => "right_two_thirds"@,
            CommandKind::StandardSize => "standard_size"@,
            CommandKind::Minimize => "minimize"@,
            CommandKind::ToggleMaximize => "toggle_maximize"@,
            CommandKind::ToggleFullscreen => "toggle_fullscreen"@,
            CommandKind::NextDisplay => "next_display"@,
            CommandKind::PreviousDisplay => "previous_display"@,
        }
    }

    /// The human-readable label of the kind.
    pub open spec fn display_spec(self) -> Seq<char> {
        match self {
            CommandKind::Center => "Center"@,
            CommandKind::CenterThird => "Center third"@,
            CommandKind::CenterHalf => "Center half"@,
            CommandKind::CenterTwoThirds => "Center two-thirds"@,
            CommandKind::LeftThird => "Left third"@,
            CommandKind::LeftHalf => "Left half"@,
            CommandKind::LeftTwoThirds => "Left two-thirds"@,
            CommandKind::RightThird => "Right third"@,
            CommandKind::RightHalf => "Right half"@,
            CommandKind::RightTwoThirds => "Right two-thirds"@,
            CommandKind::StandardSize => "Standard size"@,
            CommandKind::Minimize => "Minimize"@,
            CommandKind::ToggleMaximize => "Toggle maximize"@,
            CommandKind::ToggleFullscreen => "Toggle fullscreen"@,
            CommandKind::NextDisplay => "Next display"@,
            CommandKind::PreviousDisplay => "Previous display"@,
        }
    }

    /// The symbolic icon name shown beside the command.
    pub open spec fn icon_spec(self) -> Seq<char> {
        match self {
            CommandKind::Center => "focus-windows-symbolic"@,
            CommandKind::CenterThird => "sidebar-show-symbolic"@,
            CommandKind::CenterHalf => "view-dual-symbolic"@,
            CommandKind::CenterTwoThirds => "sidebar-show-symbolic"@,
            CommandKind::LeftThird => "view-dual-symbolic"@,
            CommandKind::LeftHalf => "view-dual-symbolic"@,
            CommandKind::LeftTwoThirds => "view-dual-symbolic"@,
            CommandKind::RightThird => "view-dual-symbolic"@,
            CommandKind::RightHalf => "view-dual-symbolic"@,
            CommandKind::RightTwoThirds => "view-dual-symbolic"@,
            CommandKind::StandardSize => "focus-windows-symbolic"@,
            CommandKind::Minimize => "window-minimize-symbolic"@,
            CommandKind::ToggleMaximize => "window-maximize-symbolic"@,
            CommandKind::ToggleFullscreen => "view-fullscreen-symbolic"@,
            CommandKind::NextDisplay => "video-display-symbolic"@,
            CommandKind::PreviousDisplay => "video-display-symbolic"@,
        }
    }

    /// The kind whose identifier is `id`, if any.
    pub open spec fn parse(id: Seq<char>) -> Option<CommandKind> {
        if id == "center"@ {
            Some(CommandKind::Center)
        } else if id == "center_third"@ {
            Some(CommandKind::CenterThird)
        } else if id == "center_half"@ {
            Some(CommandKind::CenterHalf)
        } else if id == "center_two_thirds"@ {
            Some(CommandKind::CenterTwoThirds)
        } else if id == "left_third"@ {
            Some(CommandKind::LeftThird)
        } else if id == "left_half"@ {
            Some(CommandKind::LeftHalf)
        } else if id == "left_two_thirds"@ {
            Some(CommandKind::LeftTwoThirds)
        } else if id == "right_third"@ {
            Some(CommandKind::RightThird)
        } else if id == "right_half"@ {
            Some(CommandKind::RightHalf)
        } else if id == "right_two_thirds"@ {
            Some(CommandKind::RightTwoThirds)
        } else if id == "standard_size"@ {
            Some(CommandKind::StandardSize)
        } else if id == "minimize"@ {
            Some(CommandKind::Minimize)
        } else if id == "toggle_maximize"@ {
            Some(CommandKind::ToggleMaximize)
        } else if id == "toggle_fullscreen"@ {
            Some(CommandKind::ToggleFullscreen)
        } else if id == "next_display"@ {
            Some(CommandKind::NextDisplay)
        } else if id == "previous_display"@ {
            Some(CommandKind::PreviousDisplay)
        } else {
            None
        }
    }

    /// Stable snake_case identifier, used as the payload of
    /// `EntryRef::Command` and therefore as the persistent history key.
    pub fn as_id(&self) -> (r: &'static str)
        ensures
            r@ == self.id_spec(),
    {
        match self {
            CommandKind::Center => "center",
            CommandKind::CenterThird => "center_third",
            CommandKind::CenterHalf => "center_half",
            CommandKind::CenterTwoThirds => "center_two_thirds",
            CommandKind::LeftThird => "left_third",
            CommandKind::LeftHalf => "left_half",
            CommandKind::LeftTwoThirds => "left_two_thirds",
            CommandKind::RightThird => "right_third",
            CommandKind::RightHalf => "right_half",
            CommandKind::RightTwoThirds => "right_two_thirds",
            CommandKind::StandardSize => "standard_size",
            CommandKind::Minimize => "minimize",
            CommandKind::ToggleMaximize => "toggle_maximize",
            CommandKind::ToggleFullscreen => "toggle_fullscreen",
            CommandKind::NextDisplay => "next_display",
            CommandKind::PreviousDisplay => "previous_display",
        }
    }

    /// Human-readable label shown in the launcher and matched against.
    pub fn display_name(&self) -> (r: &'static str)
        ensures
            r@ == self.display_spec(),
    {
        match self {
            CommandKind::Center => "Center",
            CommandKind::CenterThird => "Center third",
            CommandKind::CenterHalf => "Center half",
            CommandKind::CenterTwoThirds => "Center two-thirds",
            CommandKind::LeftThird => "Left third",
            CommandKind::LeftHalf => "Left half",
            CommandKind::LeftTwoThirds => "Left two-thirds",
            CommandKind::RightThird => "Right third",
            CommandKind::RightHalf => "Right half",
            CommandKind::RightTwoThirds => "Right two-thirds",
            CommandKind::StandardSize => "Standard size",
            CommandKind::Minimize => "Minimize",
            CommandKind::ToggleMaximize => "Toggle maximize",
            CommandKind::ToggleFullscreen => "Toggle fullscreen",
            CommandKind::NextDisplay => "Next display",
            CommandKind::PreviousDisplay => "Previous display",
        }
    }

    /// Symbolic icon name shown beside the command.
    pub fn icon_name(&self) -> (r: &'static str)
        ensures
            r@ == self.icon_spec(),
    {
        match self {
            CommandKind::Center => "focus-windows-symbolic",
            CommandKind::CenterThird => "sidebar-show-symbolic",
            CommandKind::CenterHalf => "view-dual-symbolic",
            CommandKind::CenterTwoThirds => "sidebar-show-symbolic",
            CommandKind::LeftThird => "view-dual-symbolic",
            CommandKind::LeftHalf => "view-dual-symbolic",
            CommandKind::LeftTwoThirds => "view-dual-symbolic",
            CommandKind::RightThird => "view-dual-symbolic",
            CommandKind::RightHalf => "view-dual-symbolic",
            CommandKind::RightTwoThirds => "view-dual-symbolic",
            CommandKind::StandardSize => "focus-windows-symbolic",
            CommandKind::Minimize => "window-minimize-symbolic",
            CommandKind::ToggleMaximize => "window-maximize-symbolic",
            CommandKind::ToggleFullscreen => "view-fullscreen-symbolic",
            CommandKind::NextDisplay => "video-display-symbolic",
            CommandKind::PreviousDisplay => "video-display-symbolic",
        }
    }

    /// Inverse of `as_id`; `None` for an unknown identifier.
    pub fn from_id(id: &str) -> (r: Option<CommandKind>)
        ensures
            r == CommandKind::parse(id@),
    {
        if str_eq(id, "center") {
            Some(CommandKind::Center)
        } else if str_eq(id, "center_third") {
            Some(CommandKind::CenterThird)
        } else if str_eq(id, "center_half") {
            Some(CommandKind::CenterHalf)
        } else if str_eq(id, "center_two_thirds") {
            Some(CommandKind::CenterTwoThirds)
        } else if str_eq(id, "left_third") {
            Some(CommandKind::LeftThird)
        } else if str_eq(id, "left_half") {
            Some(CommandKind::LeftHalf)
        } else if str_eq(id, "left_two_thirds") {
            Some(CommandKind::LeftTwoThirds)
        } else if str_eq(id, "right_third") {
            Some(CommandKind::RightThird)
        } else if str_eq(id, "right_half") {
            Some(CommandKind::RightHalf)
        } else if str_eq(id, "right_two_thirds") {
            Some(CommandKind::RightTwoThirds)
        } else if str_eq(id, "standard_size") {
            Some(CommandKind::StandardSize)
        } else if str_eq(id, "minimize") {
            Some(CommandKind::Minimize)
        } else if str_eq(id, "toggle_maximize") {
            Some(CommandKind::ToggleMaximize)
        } else if str_eq(id, "toggle_fullscreen") {
            Some(CommandKind::ToggleFullscreen)
        } else if str_eq(id, "next_display") {
            Some(CommandKind::NextDisplay)
        } else if str_eq(id, "previous_display") {
            Some(CommandKind::PreviousDisplay)
        } else {
            None
        }
    }
}

/// The system-level power commands, in the order of GNOME's system menu.
#[derive(Debug, Clone, Copy, PartialEq, Eq, Hash, Structural)]
pub enum PowerCommandKind {
    LockSession,
    Logout,
    Suspend,
    Restart,
    Shutdown,
}

impl PowerCommandKind {
    /// The stable snake_case identifier.
    pub open spec fn id_spec(self) -> Seq<char> {
        match self {
            PowerCommandKind::LockSession => "lock_session"@,
            PowerCommandKind::Logout => "logout"@,
            PowerCommandKind::Suspend => "suspend"@,
            PowerCommandKind::Restart => "restart"@,
            PowerCommandKind::Shutdown => "shutdown"@,
        }
    }

    /// The label shown in the list.
    pub open spec fn display_spec(self) -> Seq<char> {
        match self {
            PowerCommandKind::LockSession => "Lock"@,
            PowerCommandKind::Logout => "Log Out"@,
            PowerCommandKind::Suspend => "Suspend"@,
            PowerCommandKind::Restart => "Restart"@,
            PowerCommandKind::Shutdown => "Shutdown"@,
        }
    }

    /// The themed icon name.
    pub open spec fn icon_spec(self) -> Seq<char> {
        match self {
            PowerCommandKind::LockSession => "system-lock-screen-symbolic"@,
            PowerCommandKind::Logout => "system-log-out-symbolic"@,
            PowerCommandKind::Suspend => "weather-clear-night-symbolic"@,
            PowerCommandKind::Restart => "system-reboot-symbolic"@,
            PowerCommandKind::Shutdown => "system-shutdown-symbolic"@,
        }
    }

    /// The kind whose identifier is `id`.
    pub open spec fn parse(id: Seq<char>) -> Option<PowerCommandKind> {
        if id == "lock_session"@ {
            Some(PowerCommandKind::LockSession)
        } else if id == "logout"@ {
            Some(PowerCommandKind::Logout)
        } else if id == "suspend"@ {
            Some(PowerCommandKind::Suspend)
        } else if id == "restart"@ {
            Some(PowerCommandKind::Restart)
        } else if id == "shutdown"@ {
            Some(PowerCommandKind::Shutdown)
        } else {
            None
        }
    }

    /// Stable snake_case identifier, the payload of `EntryRef::PowerCommand`.
    pub fn as_id(&self) -> (r: &'static str)
        ensures
            r@ == self.id_spec(),
    {
        match self {
            PowerCommandKind::LockSession => "lock_session",
            PowerCommandKind::Logout => "logout",
            PowerCommandKind::Suspend => "suspend",
            PowerCommandKind::Restart => "restart",
            PowerCommandKind::Shutdown => "shutdown",
        }
    }

    /// Short verb-like label, as in the GNOME system menu.
    pub fn display_name(&self) -> (r: &'static str)
        ensures
            r@ == self.display_spec(),
    {
        match self {
            PowerCommandKind::LockSession => "Lock",
            PowerCommandKind::Logout => "Log Out",
            PowerCommandKind::Suspend => "Suspend",
            PowerCommandKind::Restart => "Restart",
            PowerCommandKind::Shutdown => "Shutdown",
        }
    }

    /// Symbolic icon name shown beside the command.
    pub fn icon_name(&self) -> (r: &'static str)
        ensures
            r@ == self.icon_spec(),
    {
        match self {
            PowerCommandKind::LockSession => "system-lock-screen-symbolic",
            PowerCommandKind::Logout => "system-log-out-symbolic",
            PowerCommandKind::Suspend => "weather-clear-night-symbolic",
            PowerCommandKind::Restart => "system-reboot-symbolic",
            PowerCommandKind::Shutdown => "system-shutdown-symbolic",
        }
    }

    /// Inverse of `as_id`; `None` for an unknown identifier.
    pub fn from_id(id: &str) -> (r: Option<PowerCommandKind>)
        ensures
            r == PowerCommandKind::parse(id@),
    {
        if str_eq(id, "lock_session") {
            Some(PowerCommandKind::LockSession)
        } else if str_eq(id, "logout") {
            Some(PowerCommandKind::Logout)
        } else if str_eq(id, "suspend") {
            Some(PowerCommandKind::Suspend)
        } else if str_eq(id, "restart") {
            Some(PowerCommandKind::Restart)
        } else if str_eq(id, "shutdown") {
            Some(PowerCommandKind::Shutdown)
        } else {
            None
        }
    }
}

/// A launcher entry for a power command.
#[derive(Debug, Clone, Copy, PartialEq, Eq, Structural)]
pub struct PowerCommand {
    pub kind: PowerCommandKind,
}

/// The work area (monitor rectangle minus panels) of the target window's
/// monitor.
#[derive(Debug, Clone, Copy, PartialEq, Eq, Structural)]
pub struct WorkArea {
    pub x: i32,
    pub y: i32,
    pub width: i32,
    pub height: i32,
}

/// A launcher entry for a window action on the window captured at gather
/// time. `current_frame` is that window's `(x, y, width, height)`.
#[derive(Debug, Clone, Copy, PartialEq, Eq)]
pub struct Command {
    pub kind: CommandKind,
    pub target_window_id: u64,
    pub work_area: WorkArea,
    pub current_frame: (i32, i32, i32, i32),
}

/// The three flavours of workspace-move command.
#[derive(Debug, Clone, Copy, PartialEq, Eq, Hash, Structural)]
pub enum WorkspaceCommandKind {
    MoveToWorkspace,
    MoveToPreviousWorkspace,
    MoveToNextWorkspace,
}

impl WorkspaceCommandKind {
    /// The themed icon name.
    pub open spec fn icon_spec(self) -> Seq<char> {
        match self {
            WorkspaceCommandKind::MoveToWorkspace => "view-grid-symbolic"@,
            WorkspaceCommandKind::MoveToPreviousWorkspace => "go-previous-symbolic"@,
            WorkspaceCommandKind::MoveToNextWorkspace => "go-next-symbolic"@,
        }
    }

    /// The themed icon name.
    pub fn icon_name(&self) -> (r: &'static str)
        ensures
            r@ == self.icon_spec(),
    {
        match self {
            WorkspaceCommandKind::MoveToWorkspace => "view-grid-symbolic",
            WorkspaceCommandKind::MoveToPreviousWorkspace => "go-previous-symbolic",
            WorkspaceCommandKind::MoveToNextWorkspace => "go-next-symbolic",
        }
    }
}

/// A launcher entry that moves the target window to another workspace.
/// `target_index` is the already-resolved destination.
#[derive(Debug, Clone, PartialEq, Eq)]
pub struct WorkspaceCommand {
    pub kind: WorkspaceCommandKind,
    pub target_window_id: u64,
    pub target_index: i32,
    pub name: String,
}

impl WorkspaceCommand {
    /// The persistent key: one per destination for the absolute move, a
    /// fixed key for each relative move.
    pub open spec fn id_spec(self) -> Seq<char> {
        match self.kind {
            WorkspaceCommandKind::MoveToWorkspace => "move_to_workspace_"@ + decimal(
                self.target_index as int,
            ),
            WorkspaceCommandKind::MoveToPreviousWorkspace => "move_to_previous_workspace"@,
            WorkspaceCommandKind::MoveToNextWorkspace => "move_to_next_workspace"@,
        }
    }

    /// Stable snake_case identifier, the payload of
    /// `EntryRef::WorkspaceCommand`.
    pub fn as_id(&self) -> (r: String)
        ensures
            r@ == self.id_spec(),
    {
        match self.kind {
            WorkspaceCommandKind::MoveToWorkspace => {
                let mut s = String::from_str("move_to_workspace_");
                let digits = crate::text::decimal_string(self.target_index as i64);
                s.append(digits.as_str());
                s
            },
            WorkspaceCommandKind::MoveToPreviousWorkspace => String::from_str(
                "move_to_previous_workspace",
            ),
            WorkspaceCommandKind::MoveToNextWorkspace => String::from_str("move_to_next_workspace"),
        }
    }
}

/// The kind of an entry, without its payload.
#[derive(Debug, Clone, Copy, PartialEq, Eq, Hash, Structural)]
pub enum EntryKind {
    Application,
    Window,
    Workspace,
    Command,
    PowerCommand,
    WorkspaceCommand,
}

/// An item the launcher shows and can activate.
#[derive(Debug, Clone, PartialEq, Eq)]
pub enum Entry {
    Application(Application),
    Window(Window),
    Workspace(Workspace),
    Command(Command),
    PowerCommand(PowerCommand),
    WorkspaceCommand(WorkspaceCommand),
}

/// The persistence handle of an entry: the least information that points at
/// "the same thing" across runs.
#[derive(Debug, Clone, PartialEq, Eq, Hash)]
pub enum EntryRef {
    Application(String),
    Window(u64),
    Workspace(i32),
    Command(String),
    PowerCommand(String),
    WorkspaceCommand(String),
}

/// The mathematical value of an `EntryRef`: the same variant, with each
/// string payload taken as its character sequence.
pub enum RefView {
    Application(Seq<char>),
    Window(u64),
    Workspace(i32),
    Command(Seq<char>),
    PowerCommand(Seq<char>),
    WorkspaceCommand(Seq<char>),
}

impl View for EntryRef {
    type V = RefView;

    open spec fn view(&self) -> RefView {
        match self {
            EntryRef::Application(s) => RefView::Application(s@),
            EntryRef::Window(id) => RefView::Window(*id),
            EntryRef::Workspace(i) => RefView::Workspace(*i),
            EntryRef::Command(s) => RefView::Command(s@),
            EntryRef::PowerCommand(s) => RefView::PowerCommand(s@),
            EntryRef::WorkspaceCommand(s) => RefView::WorkspaceCommand(s@),
        }
    }
}

impl EntryRef {
    /// Equality of persistence handles: same variant and same payload.
    pub fn same(&self, other: &EntryRef) -> (r: bool)
        ensures
            r == (self@ == other@),
    {
        match (self, other) {
            (EntryRef::Application(a), EntryRef::Application(b)) => a.eq(b),
            (EntryRef::Window(a), EntryRef::Window(b)) => *a == *b,
            (EntryRef::Workspace(a), EntryRef::Workspace(b)) => *a == *b,
            (EntryRef::Command(a), EntryRef::Command(b)) => a.eq(b),
            (EntryRef::PowerCommand(a), EntryRef::PowerCommand(b)) => a.eq(b),
            (EntryRef::WorkspaceCommand(a), EntryRef::WorkspaceCommand(b)) => a.eq(b),
            _ => false,
        }
    }

    /// A copy of the handle.
    pub fn duplicate(&self) -> (r: EntryRef)
        ensures
            r@ == self@,
    {
        match self {
            EntryRef::Application(s) => EntryRef::Application(s.clone()),
            EntryRef::Window(id) => EntryRef::Window(*id),
            EntryRef::Workspace(i) => EntryRef::Workspace(*i),
            EntryRef::Command(s) => EntryRef::Command(s.clone()),
            EntryRef::PowerCommand(s) => EntryRef::PowerCommand(s.clone()),
            EntryRef::WorkspaceCommand(s) => EntryRef::WorkspaceCommand(s.clone()),
        }
    }
}

/// Icon used for every workspace entry.
pub open spec fn workspace_icon() -> Seq<char> {
    "view-grid-symbolic"@
}

/// The view of an optional string.
pub open spec fn opt_view(o: Option<String>) -> Option<Seq<char>> {
    match o {
        Some(s) => Some(s@),
        None => None,
    }
}

/// The view of an optional string slice.
pub open spec fn opt_str_view(o: Option<&str>) -> Option<Seq<char>> {
    match o {
        Some(s) => Some(s@),
        None => None,
    }
}

fn opt_as_str(o: &Option<String>) -> (r: Option<&str>)
    ensures
        opt_str_view(r) == opt_view(*o),
{
    match o {
        Some(s) => Some(s.as_str()),
        None => None,
    }
}

fn clone_opt(o: &Option<String>) -> (r: Option<String>)
    ensures
        r == *o,
{
    match o {
        Some(s) => Some(s.clone()),
        None => None,
    }
}

impl Entry {
    /// The display name of the entry.
    pub open spec fn name_spec(self) -> Seq<char> {
        match self {
            Entry::Application(a) => a.name@,
            Entry::Window(w) => w.title@,
            Entry::Workspace(w) => w.name@,
            Entry::Command(c) => c.kind.display_spec(),
            Entry::PowerCommand(c) => c.kind.display_spec(),
            Entry::WorkspaceCommand(c) => c.name@,
        }
    }

    /// The icon identifier of the entry.
    pub open spec fn icon_spec(self) -> Option<Seq<char>> {
        match self {
            Entry::Application(a) => opt_view(a.icon),
            Entry::Window(w) => opt_view(w.icon),
            Entry::Workspace(_) => Some(workspace_icon()),
            Entry::Command(c) => Some(c.kind.icon_spec()),
            Entry::PowerCommand(c) => Some(c.kind.icon_spec()),
            Entry::WorkspaceCommand(c) => Some(c.kind.icon_spec()),
        }
    }

    /// The kind of the entry.
    pub open spec fn kind_spec(self) -> EntryKind {
        match self {
            Entry::Application(_) => EntryKind::Application,
            Entry::Window(_) => EntryKind::Window,
            Entry::Workspace(_) => EntryKind::Workspace,
            Entry::Command(_) => EntryKind::Command,
            Entry::PowerCommand(_) => EntryKind::PowerCommand,
            Entry::WorkspaceCommand(_) => EntryKind::WorkspaceCommand,
        }
    }

    /// The persistence handle of the entry.
    pub open spec fn ref_spec(self) -> RefView {
        match self {
            Entry::Application(a) => RefView::Application(a.desktop_id@),
            Entry::Window(w) => RefView::Window(w.id),
            Entry::Workspace(w) => RefView::Workspace(w.index),
            Entry::Command(c) => RefView::Command(c.kind.id_spec()),
            Entry::PowerCommand(c) => RefView::PowerCommand(c.kind.id_spec()),
            Entry::WorkspaceCommand(c) => RefView::WorkspaceCommand(c.id_spec()),
        }
    }

    /// The display name of the entry.
    pub fn name(&self) -> (r: &str)
        ensures
            r@ == self.name_spec(),
    {
        match self {
            Entry::Application(app) => app.name.as_str(),
            Entry::Window(w) => w.title.as_str(),
            Entry::Workspace(w) => w.name.as_str(),
            Entry::Command(c) => c.kind.display_name(),
            Entry::PowerCommand(c) => c.kind.display_name(),
            Entry::WorkspaceCommand(c) => c.name.as_str(),
        }
    }

    /// The icon identifier of the entry.
    pub fn icon(&self) -> (r: Option<&str>)
        ensures
            opt_str_view(r) == self.icon_spec(),
    {
        match self {
            Entry::Application(app) => opt_as_str(&app.icon),
            Entry::Window(w) => opt_as_str(&w.icon),
            Entry::Workspace(_) => Some("view-grid-symbolic"),
            Entry::Command(c) => Some(c.kind.icon_name()),
            Entry::PowerCommand(c) => Some(c.kind.icon_name()),
            Entry::WorkspaceCommand(c) => Some(c.kind.icon_name()),
        }
    }

    /// The kind of the entry.
    pub fn kind(&self) -> (r: EntryKind)
        ensures
            r == self.kind_spec(),
    {
        match self {
            Entry::Application(_) => EntryKind::Application,
            Entry::Window(_) => EntryKind::Window,
            Entry::Workspace(_) => EntryKind::Workspace,
            Entry::Command(_) => EntryKind::Command,
            Entry::PowerCommand(_) => EntryKind::PowerCommand,
            Entry::WorkspaceCommand(_) => EntryKind::WorkspaceCommand,
        }
    }

    /// The persistence handle of the entry.
    pub fn reference(&self) -> (r: EntryRef)
        ensures
            r@ == self.ref_spec(),
    {
        match self {
            Entry::Application(app) => EntryRef::Application(app.desktop_id.clone()),
            Entry::Window(w) => EntryRef::Window(w.id),
            Entry::Workspace(w) => EntryRef::Workspace(w.index),
            Entry::Command(c) => EntryRef::Command(String::from_str(c.kind.as_id())),
            Entry::PowerCommand(c) => EntryRef::PowerCommand(String::from_str(c.kind.as_id())),
            Entry::WorkspaceCommand(c) => EntryRef::WorkspaceCommand(c.as_id()),
        }
    }

    /// A copy of the entry.
    pub fn duplicate(&self) -> (r: Entry)
        ensures
            r == *self,
    {
        match self {
            Entry::Application(a) => Entry::Application(a.duplicate()),
            Entry::Window(w) => Entry::Window(w.duplicate()),
            Entry::Workspace(w) => Entry::Workspace(w.duplicate()),
            Entry::Command(c) => Entry::Command(*c),
            Entry::PowerCommand(c) => Entry::PowerCommand(*c),
            Entry::WorkspaceCommand(c) => Entry::WorkspaceCommand(c.duplicate()),
        }
    }
}

impl Application {
    /// A copy of the application.
    pub fn duplicate(&self) -> (r: Application)
        ensures
            r == *self,
    {
        Application {
            name: self.name.clone(),
            desktop_id: self.desktop_id.clone(),
            icon: clone_opt(&self.icon),
            recent_window_id: self.recent_window_id,
            is_running: self.is_running,
        }
    }
}

impl Window {
    /// A copy of the window.
    pub fn duplicate(&self) -> (r: Window)
        ensures
            r == *self,
    {
        Window {
            id: self.id,
            title: self.title.clone(),
            app_name: clone_opt(&self.app_name),
            icon: clone_opt(&self.icon),
            workspace: self.workspace,
            app_desktop_id: clone_opt(&self.app_desktop_id),
        }
    }
}

impl Workspace {
    /// A copy of the workspace.
    pub fn duplicate(&self) -> (r: Workspace)
        ensures
            r == *self,
    {
        Workspace { index: self.index, name: self.name.clone() }
    }
}

impl WorkspaceCommand {
    /// A copy of the command.
    pub fn duplicate(&self) -> (r: WorkspaceCommand)
        ensures
            r == *self,
    {
        WorkspaceCommand {
            kind: self.kind,
            target_window_id: self.target_window_id,
            target_index: self.target_index,
            name: self.name.clone(),
        }
    }
}

/// `i` is the first position of `entries` whose handle is `r`.
pub open spec fn first_with_ref(entries: Seq<Entry>, r: RefView, i: int) -> bool {
    &&& 0 <= i < entries.len()
    &&& entries[i].ref_spec() == r
    &&& forall|j: int| 0 <= j < i ==> entries[j].ref_spec() != r
}

/// Pairs a persisted handle back to the live entry it names: the first entry
/// whose handle is `reference`, or `None` when no entry has it.
pub fn resolve<'a>(entries: &'a [Entry], reference: &EntryRef) -> (r: Option<&'a Entry>)
    ensures
        match r {
            Some(e) => exists|i: int| first_with_ref(entries@, reference@, i) && *e == entries@[i],
            None => forall|i: int| 0 <= i < entries@.len() ==> entries@[i].ref_spec() != reference@,
        },
{
    let mut i: usize = 0;
    while i < entries.len()
        invariant
            i <= entries@.len(),
            forall|j: int| 0 <= j < i ==> entries@[j].ref_spec() != reference@,
        decreases entries.len() - i,
    {
        let r = entries[i].reference();
        if r.same(reference) {
            assert(first_with_ref(entries@, reference@, i as int));
            return Some(&entries[i]);
        }
        i = i + 1;
    }
    None
}

/// `from_id` is the inverse of `as_id`: an identifier names a command kind
/// exactly when it is that kind's identifier.
pub proof fn lemma_command_id_round_trip(k: CommandKind, id: Seq<char>)
    ensures
        CommandKind::parse(k.id_spec()) == Some(k),
        CommandKind::parse(id) == Some(k) <==> k.id_spec() == id,
{
    match k {
        CommandKind::Center => {
            reveal_strlit("center");
        },
        CommandKind::CenterThird => {
            reveal_strlit("center_third");
            reveal_strlit("center");
            assert("center_third"@.len() != "center"@.len());
        },
        CommandKind::CenterHalf => {
            reveal_strlit("center_half");
            reveal_strlit("center");
            assert("center_half"@.len() != "center"@.len());
            reveal_strlit("center_third");
            assert("center_half"@.len() != "center_third"@.len());
        },
        CommandKind::CenterTwoThirds => {
            reveal_strlit("center_two_thirds");
            reveal_strlit("center");
            assert("center_two_thirds"@.len() != "center"@.len());
            reveal_strlit("center_third");
            assert("center_two_thirds"@.len() != "center_third"@.len());
            reveal_strlit("center_half");
            assert("center_two_thirds"@.len() != "center_half"@.len());
        },
        CommandKind::LeftThird => {
            reveal_strlit("left_third");
            reveal_strlit("center");
            assert("left_third"@.len() != "center"@.len());
            reveal_strlit("center_third");
            assert("left_third"@.len() != "center_third"@.len());
            reveal_strlit("center_half");
            assert("left_third"@.len() != "center_half"@.len());
            reveal_strlit("center_two_thirds");
            assert("left_third"@.len() != "center_two_thirds"@.len());
        },
        CommandKind::LeftHalf => {
            reveal_strlit("left_half");
            reveal_strlit("center");
            assert("left_half"@.len() != "center"@.len());
            reveal_strlit("center_third");
            assert("left_half"@.len() != "center_third"@.len());
            reveal_strlit("center_half");
            assert("left_half"@.len() != "center_half"@.len());
            reveal_strlit("center_two_thirds");
            assert("left_half"@.len() != "center_two_thirds"@.len());
            reveal_strlit("left_third");
            assert("left_half"@.len() != "left_third"@.len());
        },
        CommandKind::LeftTwoThirds => {
            reveal_strlit("left_two_thirds");
            reveal_strlit("center");
            assert("left_two_thirds"@.len() != "center"@.len());
            reveal_strlit("center_third");
            assert("left_two_thirds"@.len() != "center_third"@.len());
            reveal_strlit("center_half");
            assert("left_two_thirds"@.len() != "center_half"@.len());
            reveal_strlit("center_two_thirds");
            assert("left_two_thirds"@.len() != "center_two_thirds"@.len());
            reveal_strlit("left_third");
            assert("left_two_thirds"@.len() != "left_third"@.len());
            reveal_strlit("left_half");
            assert("left_two_thirds"@.len() != "left_half"@.len());
        },
        CommandKind::RightThird => {
            reveal_strlit("right_third");
            reveal_strlit("center");
            assert("right_third"@.len() != "center"@.len());
            reveal_strlit("center_third");
            assert("right_third"@.len() != "center_third"@.len());
            reveal_strlit("center_half");
            assert("right_third"@[0] != "center_half"@[0]);
            reveal_strlit("center_two_thirds");
            assert("right_third"@.len() != "center_two_thirds"@.len());
            reveal_strlit("left_third");
            assert("right_third"@.len() != "left_third"@.len());
            reveal_strlit("left_half");
            assert("right_third"@.len() != "left_half"@.len());
            reveal_strlit("left_two_thirds");
            assert("right_third"@.len() != "left_two_thirds"@.len());
        },
        CommandKind::RightHalf => {
            reveal_strlit("right_half");
            reveal_strlit("center");
            assert("right_half"@.len() != "center"@.len());
            reveal_strlit("center_third");
            assert("right_half"@.len() != "center_third"@.len());
            reveal_strlit("center_half");
            assert("right_half"@.len() != "center_half"@.len());
            reveal_strlit("center_two_thirds");
            assert("right_half"@.len() != "center_two_thirds"@.len());
            reveal_strlit("left_third");
            assert("right_half"@[0] != "left_third"@[0]);
            reveal_strlit("left_half");
            assert("right_half"@.len() != "left_half"@.len());
            reveal_strlit("left_two_thirds");
            assert("right_half"@.len() != "left_two_thirds"@.len());
            reveal_strlit("right_third");
            assert("right_half"@.len() != "right_third"@.len());
        },
        CommandKind::RightTwoThirds => {
            reveal_strlit("right_two_thirds");
            reveal_strlit("center");
            assert("right_two_thirds"@.len() != "center"@.len());
            reveal_strlit("center_third");
            assert("right_two_thirds"@.len() != "center_third"@.len());
            reveal_strlit("center_half");
            assert("right_two_thirds"@.len() != "center_half"@.len());
            reveal_strlit("center_two_thirds");
            assert("right_two_thirds"@.len() != "center_two_thirds"@.len());
            reveal_strlit("left_third");
            assert("right_two_thirds"@.len() != "left_third"@.len());
            reveal_strlit("left_half");
            assert("right_two_thirds"@.len() != "left_half"@.len());
            reveal_strlit("left_two_thirds");
            assert("right_two_thirds"@.len() != "left_two_thirds"@.len());
            reveal_strlit("right_third");
            assert("right_two_thirds"@.len() != "right_third"@.len());
            reveal_strlit("right_half");
            assert("right_two_thirds"@.len() != "right_half"@.len());
        },
        CommandKind::StandardSize => {
            reveal_strlit("standard_size");
            reveal_strlit("center");
            assert("standard_size"@.len() != "center"@.len());
            reveal_strlit("center_third");
            assert("standard_size"@.len() != "center_third"@.len());
            reveal_strlit("center_half");
            assert("standard_size"@.len() != "center_half"@.len());
            reveal_strlit("center_two_thirds");
            assert("standard_size"@.len() != "center_two_thirds"@.len());
            reveal_strlit("left_third");
            assert("standard_size"@.len() != "left_third"@.len());
            reveal_strlit("left_half");
            assert("standard_size"@.len() != "left_half"@.len());
            reveal_strlit("left_two_thirds");
            assert("standard_size"@.len() != "left_two_thirds"@.len());
            reveal_strlit("right_third");
            assert("standard_size"@.len() != "right_third"@.len());
            reveal_strlit("right_half");
            assert("standard_size"@.len() != "right_half"@.len());
            reveal_strlit("right_two_thirds");
            assert("standard_size"@.len() != "right_two_thirds"@.len());
        },
        CommandKind::Minimize => {
            reveal_strlit("minimize");
            reveal_strlit("center");
            assert("minimize"@.len() != "center"@.len());
            reveal_strlit("center_third");
            assert("minimize"@.len() != "center_third"@.len());
            reveal_strlit("center_half");
            assert("minimize"@.len() != "center_half"@.len());
            reveal_strlit("center_two_thirds");
            assert("minimize"@.len() != "center_two_thirds"@.len());
            reveal_strlit("left_third");
            assert("minimize"@.len() != "left_third"@.len());
            reveal_strlit("left_half");
            assert("minimize"@.len() != "left_half"@.len());
            reveal_strlit("left_two_thirds");
            assert("minimize"@.len() != "left_two_thirds"@.len());
            reveal_strlit("right_third");
            assert("minimize"@.len() != "right_third"@.len());
            reveal_strlit("right_half");
            assert("minimize"@.len() != "right_half"@.len());
            reveal_strlit("right_two_thirds");
            assert("minimize"@.len() != "right_two_thirds"@.len());
            reveal_strlit("standard_size");
            assert("minimize"@.len() != "standard_size"@.len());
        },
        CommandKind::ToggleMaximize => {
            reveal_strlit("toggle_maximize");
            reveal_strlit("center");
            assert("toggle_maximize"@.len() != "center"@.len());
            reveal_strlit("center_third");
            assert("toggle_maximize"@.len() != "center_third"@.len());
            reveal_strlit("center_half");
            assert("toggle_maximize"@.len() != "center_half"@.len());
            reveal_strlit("center_two_thirds");
            assert("toggle_maximize"@.len() != "center_two_thirds"@.len());
            reveal_strlit("left_third");
            assert("toggle_maximize"@.len() != "left_third"@.len());
            reveal_strlit("left_half");
            assert("toggle_maximize"@.len() != "left_half"@.len());
            reveal_strlit("left_two_thirds");
            assert("toggle_maximize"@[0] != "left_two_thirds"@[0]);
            reveal_strlit("right_third");
            assert("toggle_maximize"@.len() != "right_third"@.len());
            reveal_strlit("right_half");
            assert("toggle_maximize"@.len() != "right_half"@.len());
            reveal_strlit("right_two_thirds");
            assert("toggle_maximize"@.len() != "right_two_thirds"@.len());
            reveal_strlit("standard_size");
            assert("toggle_maximize"@.len() != "standard_size"@.len());
            reveal_strlit("minimize");
            assert("toggle_maximize"@.len() != "minimize"@.len());
        },
        CommandKind::ToggleFullscreen => {
            reveal_strlit("toggle_fullscreen");
            reveal_strlit("center");
            assert("toggle_fullscreen"@.len() != "center"@.len());
            reveal_strlit("center_third");
            assert("toggle_fullscreen"@.len() != "center_third"@.len());
            reveal_strlit("center_half");
            assert("toggle_fullscreen"@.len() != "center_half"@.len());
            reveal_strlit("center_two_thirds");
            assert("toggle_fullscreen"@[0] != "center_two_thirds"@[0]);
            reveal_strlit("left_third");
            assert("toggle_fullscreen"@.len() != "left_third"@.len());
            reveal_strlit("left_half");
            assert("toggle_fullscreen"@.len() != "left_half"@.len());
            reveal_strlit("left_two_thirds");
            assert("toggle_fullscreen"@.len() != "left_two_thirds"@.len());
            reveal_strlit("right_third");
            assert("toggle_fullscreen"@.len() != "right_third"@.len());
            reveal_strlit("right_half");
            assert("toggle_fullscreen"@.len() != "right_half"@.len());
            reveal_strlit("right_two_thirds");
            assert("toggle_fullscreen"@.len() != "right_two_thirds"@.len());
            reveal_strlit("standard_size");
            assert("toggle_fullscreen"@.len() != "standard_size"@.len());
            reveal_strlit("minimize");
            assert("toggle_fullscreen"@.len() != "minimize"@.len());
            reveal_strlit("toggle_maximize");
            assert("toggle_fullscreen"@.len() != "toggle_maximize"@.len());
        },
        CommandKind::NextDisplay => {
            reveal_strlit("next_display");
            reveal_strlit("center");
            assert("next_display"@.len() != "center"@.len());
            reveal_strlit("center_third");
            assert("next_display"@[0] != "center_third"@[0]);
            reveal_strlit("center_half");
            assert("next_display"@.len() != "center_half"@.len());
            reveal_strlit("center_two_thirds");
            assert("next_display"@.len() != "center_two_thirds"@.len());
            reveal_strlit("left_third");
            assert("next_display"@.len() != "left_third"@.len());
            reveal_strlit("left_half");
            assert("next_display"@.len() != "left_half"@.len());
            reveal_strlit("left_two_thirds");
            assert("next_display"@.len() != "left_two_thirds"@.len());
            reveal_strlit("right_third");
            assert("next_display"@.len() != "right_third"@.len());
            reveal_strlit("right_half");
            assert("next_display"@.len() != "right_half"@.len());
            reveal_strlit("right_two_thirds");
            assert("next_display"@.len() != "right_two_thirds"@.len());
            reveal_strlit("standard_size");
            assert("next_display"@.len() != "standard_size"@.len());
            reveal_strlit("minimize");
            assert("next_display"@.len() != "minimize"@.len());
            reveal_strlit("toggle_maximize");
            assert("next_display"@.len() != "toggle_maximize"@.len());
            reveal_strlit("toggle_fullscreen");
            assert("next_display"@.len() != "toggle_fullscreen"@.len());
        },
        CommandKind::PreviousDisplay => {
            reveal_strlit("previous_display");
            reveal_strlit("center");
            assert("previous_display"@.len() != "center"@.len());
            reveal_strlit("center_third");
            assert("previous_display"@.len() != "center_third"@.len());
            reveal_strlit("center_half");
            assert("previous_display"@.len() != "center_half"@.len());
            reveal_strlit("center_two_thirds");
            assert("previous_display"@.len() != "center_two_thirds"@.len());
            reveal_strlit("left_third");
            assert("previous_display"@.len() != "left_third"@.len());
            reveal_strlit("left_half");
            assert("previous_display"@.len() != "left_half"@.len());
            reveal_strlit("left_two_thirds");
            assert("previous_display"@.len() != "left_two_thirds"@.len());
            reveal_strlit("right_third");
            assert("previous_display"@.len() != "right_third"@.len());
            reveal_strlit("right_half");
            assert("previous_display"@.len() != "right_half"@.len());
            reveal_strlit("right_two_thirds");
            assert("previous_display"@[0] != "right_two_thirds"@[0]);
            reveal_strlit("standard_size");
            assert("previous_display"@.len() != "standard_size"@.len());
            reveal_strlit("minimize");
            assert("previous_display"@.len() != "minimize"@.len());
            reveal_strlit("toggle_maximize");
            assert("previous_display"@.len() != "toggle_maximize"@.len());
            reveal_strlit("toggle_fullscreen");
            assert("previous_display"@.len() != "toggle_fullscreen"@.len());
            reveal_strlit("next_display");
            assert("previous_display"@.len() != "next_display"@.len());
        },
    }
}

/// `from_id` is the inverse of `as_id` for power commands.
pub proof fn lemma_power_command_id_round_trip(k: PowerCommandKind, id: Seq<char>)
    ensures
        PowerCommandKind::parse(k.id_spec()) == Some(k),
        PowerCommandKind::parse(id) == Some(k) <==> k.id_spec() == id,
{
    match k {
        PowerCommandKind::LockSession => {
            reveal_strlit("lock_session");
        },
        PowerCommandKind::Logout => {
            reveal_strlit("logout");
            reveal_strlit("lock_session");
            assert("logout"@.len() != "lock_session"@.len());
        },
        PowerCommandKind::Suspend => {
            reveal_strlit("suspend");
            reveal_strlit("lock_session");
            assert("suspend"@.len() != "lock_session"@.len());
            reveal_strlit("logout");
            assert("suspend"@.len() != "logout"@.len());
        },
        PowerCommandKind::Restart => {
            reveal_strlit("restart");
            reveal_strlit("lock_session");
            assert("restart"@.len() != "lock_session"@.len());
            reveal_strlit("logout");
            assert("restart"@.len() != "logout"@.len());
            reveal_strlit("suspend");
            assert("restart"@[0] != "suspend"@[0]);
        },
        PowerCommandKind::Shutdown => {
            reveal_strlit("shutdown");
            reveal_strlit("lock_session");
            assert("shutdown"@.len() != "lock_session"@.len());
            reveal_strlit("logout");
            assert("shutdown"@.len() != "logout"@.len());
            reveal_strlit("suspend");
            assert("shutdown"@.len() != "suspend"@.len());
            reveal_strlit("restart");
            assert("shutdown"@.len() != "restart"@.len());
        },
    }
}

/// Scanning from `k`, where no earlier entry has `entries[i]`'s handle, an
/// entry with it is found at or before `i`.
proof fn lemma_first_ref_from(entries: Seq<Entry>, i: int, k: int)
    requires
        0 <= k <= i < entries.len(),
        forall|j: int| 0 <= j < k ==> entries[j].ref_spec() != entries[i].ref_spec(),
    ensures
        exists|j: int| j <= i && first_with_ref(entries, entries[i].ref_spec(), j),
    decreases i - k,
{
    if entries[k].ref_spec() == entries[i].ref_spec() {
        assert(first_with_ref(entries, entries[i].ref_spec(), k));
    } else {
        lemma_first_ref_from(entries, i, k + 1);
    }
}

/// The handle of a listed entry always resolves, to that entry or to an
/// earlier one with the same handle.
pub proof fn lemma_reference_resolves(entries: Seq<Entry>, i: int)
    requires
        0 <= i < entries.len(),
    ensures
        exists|j: int| j <= i && first_with_ref(entries, entries[i].ref_spec(), j),
{
    lemma_first_ref_from(entries, i, 0);
}

/// An application's handle depends on its desktop id alone: its open
/// windows and running state never reach what is persisted.
pub proof fn lemma_reference_ignores_runtime_state(
    a: Application,
    recent_window_id: Option<u64>,
    is_running: bool,
)
    ensures
        Entry::Application(Application { recent_window_id, is_running, ..a }).ref_spec()
            == Entry::Application(a).ref_spec(),
{
}

/// A label written as an identifier: ASCII letters lowered, spaces and
/// hyphens turned into underscores.
pub open spec fn label_slug(label: Seq<char>) -> Seq<char> {
    label.map_values(|c: char| if c == ' ' || c == '-' { '_' } else { lower(c) })
}

/// Every window-action command's label spells its own identifier: the
/// label of `RightHalf` is the words of `right_half`, and so on.
pub proof fn lemma_command_label_spells_id(k: CommandKind)
    ensures
        label_slug(k.display_spec()) == k.id_spec(),
{
    match k {
        CommandKind::Center => {
            reveal_strlit("Center");
            reveal_strlit("center");
            assert(label_slug("Center"@) =~= "center"@);
        },
        CommandKind::CenterThird => {
            reveal_strlit("Center third");
            reveal_strlit("center_third");
            assert(label_slug("Center third"@) =~= "center_third"@);
        },
        CommandKind::CenterHalf => {
            reveal_strlit("Center half");
            reveal_strlit("center_half");
            assert(label_slug("Center half"@) =~= "center_half"@);
        },
        CommandKind::CenterTwoThirds => {
            reveal_strlit("Center two-thirds");
            reveal_strlit("center_two_thirds");
            assert(label_slug("Center two-thirds"@) =~= "center_two_thirds"@);
        },
        CommandKind::LeftThird => {
            reveal_strlit("Left third");
            reveal_strlit("left_third");
            assert(label_slug("Left third"@) =~= "left_third"@);
        },
        CommandKind::LeftHalf => {
            reveal_strlit("Left half");
            reveal_strlit("left_half");
            assert(label_slug("Left half"@) =~= "left_half"@);
        },
        CommandKind::LeftTwoThirds => {
            reveal_strlit("Left two-thirds");
            reveal_strlit("left_two_thirds");
            assert(label_slug("Left two-thirds"@) =~= "left_two_thirds"@);
        },
        CommandKind::RightThird => {
            reveal_strlit("Right third");
            reveal_strlit("right_third");
            assert(label_slug("Right third"@) =~= "right_third"@);
        },
        CommandKind::RightHalf => {
            reveal_strlit("Right half");
            reveal_strlit("right_half");
            assert(label_slug("Right half"@) =~= "right_half"@);
        },
        CommandKind::RightTwoThirds => {
            reveal_strlit("Right two-thirds");
            reveal_strlit("right_two_thirds");
            assert(label_slug("Right two-thirds"@) =~= "right_two_thirds"@);
        },
        CommandKind::StandardSize => {
            reveal_strlit("Standard size");
            reveal_strlit("standard_size");
            assert(label_slug("Standard size"@) =~= "standard_size"@);
        },
        CommandKind::Minimize => {
            reveal_strlit("Minimize");
            reveal_strlit("minimize");
            assert(label_slug("Minimize"@) =~= "minimize"@);
        },
        CommandKind::ToggleMaximize => {
            reveal_strlit("Toggle maximize");
            reveal_strlit("toggle_maximize");
            assert(label_slug("Toggle maximize"@) =~= "toggle_maximize"@);
        },
        CommandKind::ToggleFullscreen => {
            reveal_strlit("Toggle fullscreen");
            reveal_strlit("toggle_fullscreen");
            assert(label_slug("Toggle fullscreen"@) =~= "toggle_fullscreen"@);
        },
        CommandKind::NextDisplay => {
            reveal_strlit("Next display");
            reveal_strlit("next_display");
            assert(label_slug("Next display"@) =~= "next_display"@);
        },
        CommandKind::PreviousDisplay => {
            reveal_strlit("Previous display");
            reveal_strlit("previous_display");
            assert(label_slug("Previous display"@) =~= "previous_display"@);
        },
    }
}

/// No two window-action commands share a label, so a label names one
/// command.
pub proof fn lemma_command_labels_distinct(k1: CommandKind, k2: CommandKind)
    requires
        k1.display_spec() == k2.display_spec(),
    ensures
        k1 == k2,
{
    lemma_command_label_spells_id(k1);
    lemma_command_label_spells_id(k2);
    lemma_command_id_round_trip(k1, k2.id_spec());
    lemma_command_id_round_trip(k2, k2.id_spec());
}

} // verus!
