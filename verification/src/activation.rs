//! What activating an entry does, decided here and carried out by the
//! platform layer: raise a window, launch an application, switch
//! workspace, act on the target window, or run a power command.

use vstd::prelude::*;

use crate::commands::{compute_geometry, geometry};
use crate::entry_list::geometry_ok;
use crate::model::{CommandKind, Entry, PowerCommandKind};

verus! {

/// The platform action an activation asks for.
#[derive(Debug, Clone, PartialEq, Eq)]
pub enum Activation {
    /// Raise the window with this id (switching to its workspace).
    FocusWindow(u64),
    /// Launch the application with this desktop id.
    Launch(String),
    /// Switch to the workspace with this index.
    SwitchWorkspace(i32),
    Minimize(u64),
    ToggleMaximize(u64),
    ToggleFullscreen(u64),
    /// Move and resize the window to the rectangle.
    MoveResize { window_id: u64, x: i32, y: i32, width: i32, height: i32 },
    /// Run the power command.
    Power(PowerCommandKind),
    /// Move the window to the workspace, then switch there so the user
    /// follows it.
    MoveToWorkspace { window_id: u64, index: i32 },
    /// Nothing this platform carries out (the display moves).
    Nothing,
}

/// `r` is what activating `e` asks for.
pub open spec fn is_activation(e: Entry, r: Activation) -> bool {
    match e {
        Entry::Application(a) => match a.recent_window_id {
            Some(id) => r == Activation::FocusWindow(id),
            None => r == Activation::Launch(a.desktop_id),
        },
        Entry::Window(w) => r == Activation::FocusWindow(w.id),
        Entry::Workspace(w) => r == Activation::SwitchWorkspace(w.index),
        Entry::Command(c) => match c.kind {
            CommandKind::Minimize => r == Activation::Minimize(c.target_window_id),
            CommandKind::ToggleMaximize => r == Activation::ToggleMaximize(c.target_window_id),
            CommandKind::ToggleFullscreen => r == Activation::ToggleFullscreen(c.target_window_id),
            _ => match geometry(c.kind, c.work_area, c.current_frame) {
                Some(g) => r matches Activation::MoveResize { window_id, x, y, width, height }
                    && window_id == c.target_window_id && (x as int, y as int, width as int, height as int) == g,
                None => r == Activation::Nothing,
            },
        },
        Entry::PowerCommand(p) => r == Activation::Power(p.kind),
        Entry::WorkspaceCommand(wc) => r == (Activation::MoveToWorkspace {
            window_id: wc.target_window_id,
            index: wc.target_index,
        }),
    }
}

/// Decides what activating `entry` does. An application with an open
/// window raises that window instead of starting another instance, as the
/// GNOME dock does; a geometry command moves its target window to the
/// rectangle `compute_geometry` gives.
pub fn activation(entry: &Entry) -> (r: Activation)
    requires
        geometry_ok(Some(*entry)),
    ensures
        is_activation(*entry, r),
{
    match entry {
        Entry::Application(app) => match app.recent_window_id {
            Some(id) => Activation::FocusWindow(id),
            None => Activation::Launch(app.desktop_id.clone()),
        },
        Entry::Window(w) => Activation::FocusWindow(w.id),
        Entry::Workspace(w) => Activation::SwitchWorkspace(w.index),
        Entry::Command(cmd) => {
            let id = cmd.target_window_id;
            match cmd.kind {
                CommandKind::Minimize => Activation::Minimize(id),
                CommandKind::ToggleMaximize => Activation::ToggleMaximize(id),
                CommandKind::ToggleFullscreen => Activation::ToggleFullscreen(id),
                kind => match compute_geometry(kind, &cmd.work_area, cmd.current_frame) {
                    Some((x, y, width, height)) => Activation::MoveResize {
                        window_id: id,
                        x,
                        y,
                        width,
                        height,
                    },
                    None => Activation::Nothing,
                },
            }
        },
        Entry::PowerCommand(c) => Activation::Power(c.kind),
        Entry::WorkspaceCommand(wc) => Activation::MoveToWorkspace {
            window_id: wc.target_window_id,
            index: wc.target_index,
        },
    }
}

/// The message bus a power command goes to.
#[derive(Debug, Clone, Copy, PartialEq, Eq)]
pub enum Bus {
    Session,
    System,
}

/// The argument of a power command's method call.
#[derive(Debug, Clone, Copy, PartialEq, Eq)]
pub enum PowerArg {
    /// The method takes no argument.
    Unit,
    /// logind's `interactive` flag.
    Interactive(bool),
    /// The session manager's logout mode (0 asks for confirmation).
    Mode(u32),
}

/// The D-Bus method call that carries out a power command.
#[derive(Debug, Clone, Copy, PartialEq, Eq)]
pub struct PowerCall {
    pub bus: Bus,
    pub destination: &'static str,
    pub path: &'static str,
    pub interface: &'static str,
    pub method: &'static str,
    pub arg: PowerArg,
}

/// `c` calls `method` with `arg` on the GNOME session manager.
pub open spec fn is_session_manager_call(c: PowerCall, method: Seq<char>, arg: PowerArg) -> bool {
    &&& c.bus == Bus::Session
    &&& c.destination@ == "org.gnome.SessionManager"@
    &&& c.path@ == "/org/gnome/SessionManager"@
    &&& c.interface@ == "org.gnome.SessionManager"@
    &&& c.method@ == method
    &&& c.arg == arg
}

/// `c` is the call that carries out `kind`.
pub open spec fn is_power_call(kind: PowerCommandKind, c: PowerCall) -> bool {
    match kind {
        PowerCommandKind::LockSession => {
            &&& c.bus == Bus::Session
            &&& c.destination@ == "org.gnome.ScreenSaver"@
            &&& c.path@ == "/org/gnome/ScreenSaver"@
            &&& c.interface@ == "org.gnome.ScreenSaver"@
            &&& c.method@ == "Lock"@
            &&& c.arg == PowerArg::Unit
        },
        PowerCommandKind::Suspend => {
            &&& c.bus == Bus::System
            &&& c.destination@ == "org.freedesktop.login1"@
            &&& c.path@ == "/org/freedesktop/login1"@
            &&& c.interface@ == "org.freedesktop.login1.Manager"@
            &&& c.method@ == "Suspend"@
            &&& c.arg == PowerArg::Interactive(false)
        },
        PowerCommandKind::Logout => is_session_manager_call(c, "Logout"@, PowerArg::Mode(0)),
        PowerCommandKind::Restart => is_session_manager_call(c, "Reboot"@, PowerArg::Unit),
        PowerCommandKind::Shutdown => is_session_manager_call(c, "Shutdown"@, PowerArg::Unit),
    }
}

fn session_manager_call(method: &'static str, arg: PowerArg) -> (c: PowerCall)
    ensures
        is_session_manager_call(c, method@, arg),
{
    PowerCall {
        bus: Bus::Session,
        destination: "org.gnome.SessionManager",
        path: "/org/gnome/SessionManager",
        interface: "org.gnome.SessionManager",
        method,
        arg,
    }
}

/// The call that carries out a power command. Lock goes to GNOME's screen
/// saver; log out, restart and shut down go to GNOME's session manager,
/// which asks the user to confirm (logout mode 0); suspend goes to logind
/// on the system bus, without an authorization prompt.
pub fn power_call(kind: PowerCommandKind) -> (c: PowerCall)
    ensures
        is_power_call(kind, c),
{
    match kind {
        PowerCommandKind::LockSession => PowerCall {
            bus: Bus::Session,
            destination: "org.gnome.ScreenSaver",
            path: "/org/gnome/ScreenSaver",
            interface: "org.gnome.ScreenSaver",
            method: "Lock",
            arg: PowerArg::Unit,
        },
        PowerCommandKind::Suspend => PowerCall {
            bus: Bus::System,
            destination: "org.freedesktop.login1",
            path: "/org/freedesktop/login1",
            interface: "org.freedesktop.login1.Manager",
            method: "Suspend",
            arg: PowerArg::Interactive(false),
        },
        PowerCommandKind::Logout => session_manager_call("Logout", PowerArg::Mode(0)),
        PowerCommandKind::Restart => session_manager_call("Reboot", PowerArg::Unit),
        PowerCommandKind::Shutdown => session_manager_call("Shutdown", PowerArg::Unit),
    }
}

/// Activating a workspace move, of any flavour, moves its target window to
/// its destination (and follows it there); only a workspace entry itself
/// merely switches workspace, and every move names the window it moves.
pub proof fn lemma_workspace_moves_carry_their_window(e: Entry, r: Activation)
    requires
        is_activation(e, r),
    ensures
        e matches Entry::WorkspaceCommand(wc) ==> r == (Activation::MoveToWorkspace {
            window_id: wc.target_window_id,
            index: wc.target_index,
        }),
        r is SwitchWorkspace ==> e is Workspace,
        r matches Activation::MoveToWorkspace { window_id, index } ==> (e matches Entry::WorkspaceCommand(
            wc,
        ) && wc.target_window_id == window_id && wc.target_index == index),
{
}

/// The method each power command calls is the one the platform service
/// names for it: the screen saver's `Lock`, the session manager's
/// `Logout` (asking for confirmation), `Reboot` and `Shutdown`, and
/// logind's `Suspend` on the system bus. Different commands call
/// different methods.
pub proof fn lemma_power_calls_name_their_command(
    k1: PowerCommandKind,
    c1: PowerCall,
    k2: PowerCommandKind,
    c2: PowerCall,
)
    requires
        is_power_call(k1, c1),
        is_power_call(k2, c2),
    ensures
        k1 is LockSession ==> c1.method@ == "Lock"@ && c1.interface@ == "org.gnome.ScreenSaver"@,
        k1 is Logout ==> c1.method@ == "Logout"@ && c1.interface@ == "org.gnome.SessionManager"@
            && c1.arg == PowerArg::Mode(0),
        k1 is Suspend ==> c1.method@ == "Suspend"@ && c1.bus == Bus::System && c1.interface@
            == "org.freedesktop.login1.Manager"@,
        k1 is Restart ==> c1.method@ == "Reboot"@ && c1.interface@ == "org.gnome.SessionManager"@,
        k1 is Shutdown ==> c1.method@ == "Shutdown"@ && c1.interface@
            == "org.gnome.SessionManager"@,
        c1.method@ == c2.method@ ==> k1 == k2,
{
    reveal_strlit("Lock");
    reveal_strlit("Logout");
    reveal_strlit("Suspend");
    reveal_strlit("Reboot");
    reveal_strlit("Shutdown");
    if c1.method@ == c2.method@ && k1 != k2 {
        assert(c1.method@.len() == c2.method@.len());
        assert(c1.method@[0] == c2.method@[0]);
    }
}

} // verus!
