//! What the GNOME frontend assembles for one launch, as functions of what
//! the platform reported: the window the commands act on, the command
//! sets, the link from applications to their open windows, and the entry
//! list in display order.

use vstd::prelude::*;

use crate::commands::{build_workspace_commands, is_workspace_command_set};
use crate::model::{
    Application, Command, CommandKind, Entry, PowerCommand, PowerCommandKind, Window, WorkArea,
    Workspace, WorkspaceCommand,
};
use crate::text::{chars_of, has_suffix, is_suffix, push_char, str_eq, views};

verus! {

/// The launcher's own desktop id.
pub open spec fn launcher_id() -> Seq<char> {
    "dev.jplein.LoFi.desktop"@
}

/// `w` is one of the launcher's own windows.
pub open spec fn is_launcher_window(w: Window) -> bool {
    match w.app_desktop_id {
        Some(id) => id@ == launcher_id(),
        None => false,
    }
}

/// `i` is the command target: the most recently focused window (the
/// platform lists windows most recent first) that is not the launcher's.
pub open spec fn is_target(windows: Seq<Window>, i: int) -> bool {
    &&& 0 <= i < windows.len()
    &&& !is_launcher_window(windows[i])
    &&& forall|j: int| 0 <= j < i ==> is_launcher_window(#[trigger] windows[j])
}

/// The position of the command target, if any window qualifies.
pub open spec fn first_target(windows: Seq<Window>) -> Option<int> {
    if exists|i: int| is_target(windows, i) {
        Some(choose|i: int| is_target(windows, i))
    } else {
        None
    }
}

/// There is at most one command target.
pub proof fn lemma_target_unique(windows: Seq<Window>, i: int, j: int)
    requires
        is_target(windows, i),
        is_target(windows, j),
    ensures
        i == j,
{
    if i < j {
        assert(is_launcher_window(windows[i]));
    } else if j < i {
        assert(is_launcher_window(windows[j]));
    }
}

fn launcher_window(w: &Window) -> (r: bool)
    ensures
        r == is_launcher_window(*w),
{
    match &w.app_desktop_id {
        Some(id) => str_eq(id.as_str(), "dev.jplein.LoFi.desktop"),
        None => false,
    }
}

/// The position of the window the commands act on: the first window (most
/// recently focused) that is not the launcher's own, which is focused while
/// it is open.
pub fn command_target(windows: &[Window]) -> (r: Option<usize>)
    ensures
        match r {
            Some(i) => first_target(windows@) == Some(i as int),
            None => first_target(windows@) is None,
        },
{
    let mut i: usize = 0;
    while i < windows.len()
        invariant
            i <= windows@.len(),
            forall|j: int| 0 <= j < i ==> is_launcher_window(#[trigger] windows@[j]),
        decreases windows.len() - i,
    {
        if !launcher_window(&windows[i]) {
            proof {
                assert(is_target(windows@, i as int));
                let c = choose|c: int| is_target(windows@, c);
                lemma_target_unique(windows@, c, i as int);
            }
            return Some(i);
        }
        i = i + 1;
    }
    proof {
        if exists|c: int| is_target(windows@, c) {
            let c = choose|c: int| is_target(windows@, c);
            assert(is_launcher_window(windows@[c]));
        }
    }
    None
}

/// The window-action commands the GNOME list offers, in list order.
pub open spec fn gnome_command_kinds() -> Seq<CommandKind> {
    seq![
        CommandKind::Center,
        CommandKind::CenterThird,
        CommandKind::CenterHalf,
        CommandKind::CenterTwoThirds,
        CommandKind::LeftThird,
        CommandKind::LeftHalf,
        CommandKind::LeftTwoThirds,
        CommandKind::RightThird,
        CommandKind::RightHalf,
        CommandKind::RightTwoThirds,
        CommandKind::StandardSize,
        CommandKind::Minimize,
        CommandKind::ToggleMaximize,
        CommandKind::ToggleFullscreen,
    ]
}

/// The command set aimed at window `id` with its work area and frame.
pub open spec fn command_set(
    id: u64,
    work_area: WorkArea,
    current_frame: (i32, i32, i32, i32),
) -> Seq<Command> {
    gnome_command_kinds().map_values(
        |kind: CommandKind| Command { kind, target_window_id: id, work_area, current_frame },
    )
}

/// The window-action commands, aimed at the command target of `windows`.
///
/// `work_area` and `current_frame` are what the platform read for the
/// target (see `command_target`); when there is no target, or either read
/// failed, the list offers no commands at all.
pub fn gather_commands(
    windows: &[Window],
    work_area: Option<WorkArea>,
    current_frame: Option<(i32, i32, i32, i32)>,
) -> (r: Vec<Command>)
    ensures
        match (first_target(windows@), work_area, current_frame) {
            (Some(i), Some(wa), Some(f)) => r@ == command_set(windows@[i].id, wa, f),
            _ => r@.len() == 0,
        },
{
    let t = command_target(windows);
    match (t, work_area, current_frame) {
        (Some(i), Some(wa), Some(f)) => {
            let id = windows[i].id;
            let mut out: Vec<Command> = Vec::new();
            let mk = |kind: CommandKind| -> (c: Command)
                ensures
                    c == (Command { kind, target_window_id: id, work_area: wa, current_frame: f }),
                { Command { kind, target_window_id: id, work_area: wa, current_frame: f } };
            out.push(mk(CommandKind::Center));
            out.push(mk(CommandKind::CenterThird));
            out.push(mk(CommandKind::CenterHalf));
            out.push(mk(CommandKind::CenterTwoThirds));
            out.push(mk(CommandKind::LeftThird));
            out.push(mk(CommandKind::LeftHalf));
            out.push(mk(CommandKind::LeftTwoThirds));
            out.push(mk(CommandKind::RightThird));
            out.push(mk(CommandKind::RightHalf));
            out.push(mk(CommandKind::RightTwoThirds));
            out.push(mk(CommandKind::StandardSize));
            out.push(mk(CommandKind::Minimize));
            out.push(mk(CommandKind::ToggleMaximize));
            out.push(mk(CommandKind::ToggleFullscreen));
            assert(out@ =~= command_set(id, wa, f));
            out
        },
        _ => Vec::new(),
    }
}

/// The workspace-move commands for the command target of `windows`: the
/// set `build_workspace_commands` gives for its id and current workspace,
/// or none when there is no target.
pub fn gather_workspace_commands(windows: &[Window], workspaces: &[Workspace]) -> (r: Vec<
    WorkspaceCommand,
>)
    ensures
        match first_target(windows@) {
            Some(i) => is_workspace_command_set(
                r@,
                windows@[i].id,
                windows@[i].workspace,
                workspaces@,
            ),
            None => r@.len() == 0,
        },
{
    match command_target(windows) {
        Some(i) => build_workspace_commands(windows[i].id, windows[i].workspace, workspaces),
        None => Vec::new(),
    }
}

/// Every power command, in list order.
pub open spec fn power_kinds() -> Seq<PowerCommandKind> {
    seq![
        PowerCommandKind::LockSession,
        PowerCommandKind::Logout,
        PowerCommandKind::Suspend,
        PowerCommandKind::Restart,
        PowerCommandKind::Shutdown,
    ]
}

/// The power commands. They depend on no runtime state, so the set is
/// always complete.
pub fn gather_power_commands() -> (r: Vec<PowerCommand>)
    ensures
        r@ == power_kinds().map_values(|kind: PowerCommandKind| PowerCommand { kind }),
{
    let mut out: Vec<PowerCommand> = Vec::new();
    out.push(PowerCommand { kind: PowerCommandKind::LockSession });
    out.push(PowerCommand { kind: PowerCommandKind::Logout });
    out.push(PowerCommand { kind: PowerCommandKind::Suspend });
    out.push(PowerCommand { kind: PowerCommandKind::Restart });
    out.push(PowerCommand { kind: PowerCommandKind::Shutdown });
    assert(out@ =~= power_kinds().map_values(|kind: PowerCommandKind| PowerCommand { kind }));
    out
}

/// `i` is the most recently focused window of the application `desktop_id`.
pub open spec fn is_recent_window_of(windows: Seq<Window>, desktop_id: Seq<char>, i: int) -> bool {
    &&& 0 <= i < windows.len()
    &&& owned_by(windows[i], desktop_id)
    &&& forall|j: int| 0 <= j < i ==> !owned_by(#[trigger] windows[j], desktop_id)
}

/// `w` belongs to the application `desktop_id`.
pub open spec fn owned_by(w: Window, desktop_id: Seq<char>) -> bool {
    match w.app_desktop_id {
        Some(id) => id@ == desktop_id,
        None => false,
    }
}

/// The id of the most recently focused window of `desktop_id`, if it has
/// an open window.
pub open spec fn recent_window(windows: Seq<Window>, desktop_id: Seq<char>) -> Option<u64> {
    if exists|i: int| is_recent_window_of(windows, desktop_id, i) {
        Some(windows[choose|i: int| is_recent_window_of(windows, desktop_id, i)].id)
    } else {
        None
    }
}

proof fn lemma_recent_window_unique(windows: Seq<Window>, desktop_id: Seq<char>, i: int, j: int)
    requires
        is_recent_window_of(windows, desktop_id, i),
        is_recent_window_of(windows, desktop_id, j),
    ensures
        i == j,
{
    if i < j {
        assert(!owned_by(windows[i], desktop_id));
    } else if j < i {
        assert(!owned_by(windows[j], desktop_id));
    }
}

/// The id of the most recently focused window of `desktop_id` among
/// `windows` (most recent first).
fn find_recent_window(windows: &[Window], desktop_id: &str) -> (r: Option<u64>)
    ensures
        r == recent_window(windows@, desktop_id@),
{
    let mut i: usize = 0;
    while i < windows.len()
        invariant
            i <= windows@.len(),
            forall|j: int| 0 <= j < i ==> !owned_by(#[trigger] windows@[j], desktop_id@),
        decreases windows.len() - i,
    {
        let hit = match &windows[i].app_desktop_id {
            Some(id) => str_eq(id.as_str(), desktop_id),
            None => false,
        };
        if hit {
            proof {
                assert(is_recent_window_of(windows@, desktop_id@, i as int));
                let c = choose|c: int| is_recent_window_of(windows@, desktop_id@, c);
                lemma_recent_window_unique(windows@, desktop_id@, c, i as int);
            }
            return Some(windows[i].id);
        }
        i = i + 1;
    }
    proof {
        if exists|c: int| is_recent_window_of(windows@, desktop_id@, c) {
            let c = choose|c: int| is_recent_window_of(windows@, desktop_id@, c);
            assert(!owned_by(windows@[c], desktop_id@));
        }
    }
    None
}

/// `a` with its link to its open windows set from `windows`.
pub open spec fn linked(a: Application, windows: Seq<Window>) -> Application {
    Application {
        recent_window_id: recent_window(windows, a.desktop_id@),
        is_running: recent_window(windows, a.desktop_id@) is Some,
        ..a
    }
}

/// Links each application to its open windows: `recent_window_id` becomes
/// its most recently focused window (so activating it raises that window
/// instead of starting another instance), and `is_running` whether it has
/// one at all.
pub fn link_running_windows(applications: &[Application], windows: &[Window]) -> (r: Vec<
    Application,
>)
    ensures
        r@ == applications@.map_values(|a: Application| linked(a, windows@)),
{
    let mut out: Vec<Application> = Vec::new();
    let mut k: usize = 0;
    while k < applications.len()
        invariant
            k <= applications@.len(),
            out@ == applications@.take(k as int).map_values(|a: Application| linked(a, windows@)),
        decreases applications.len() - k,
    {
        let a = &applications[k];
        let recent = find_recent_window(windows, a.desktop_id.as_str());
        let mut copy = a.duplicate();
        copy.recent_window_id = recent;
        copy.is_running = recent.is_some();
        out.push(copy);
        assert(applications@.take(k + 1) =~= applications@.take(k as int).push(applications@[k as int]));
        assert(out@ =~= applications@.take(k + 1).map_values(|a: Application| linked(a, windows@)));
        k = k + 1;
    }
    assert(applications@.take(applications@.len() as int) =~= applications@);
    out
}

/// The launcher's entries in list order: applications, windows,
/// workspaces, window-action commands, power commands, workspace moves.
pub open spec fn entry_sequence(
    applications: Seq<Application>,
    windows: Seq<Window>,
    workspaces: Seq<Workspace>,
    commands: Seq<Command>,
    power_commands: Seq<PowerCommand>,
    workspace_commands: Seq<WorkspaceCommand>,
) -> Seq<Entry> {
    applications.map_values(|a: Application| Entry::Application(a)) + windows.map_values(
        |w: Window| Entry::Window(w),
    ) + workspaces.map_values(|w: Workspace| Entry::Workspace(w)) + commands.map_values(
        |c: Command| Entry::Command(c),
    ) + power_commands.map_values(|c: PowerCommand| Entry::PowerCommand(c))
        + workspace_commands.map_values(|c: WorkspaceCommand| Entry::WorkspaceCommand(c))
}

/// Builds the entry list from what was gathered, in list order.
pub fn assemble_entries(
    applications: &[Application],
    windows: &[Window],
    workspaces: &[Workspace],
    commands: &[Command],
    power_commands: &[PowerCommand],
    workspace_commands: &[WorkspaceCommand],
) -> (r: Vec<Entry>)
    ensures
        r@ == entry_sequence(
            applications@,
            windows@,
            workspaces@,
            commands@,
            power_commands@,
            workspace_commands@,
        ),
{
    let mut out: Vec<Entry> = Vec::new();
    for i in 0..applications.len()
        invariant
            out@ == applications@.take(i as int).map_values(|a: Application| Entry::Application(a)),
    {
        out.push(Entry::Application(applications[i].duplicate()));
        assert(applications@.take(i + 1) =~= applications@.take(i as int).push(applications@[i as int]));
        assert(out@ =~= applications@.take(i + 1).map_values(|a: Application| Entry::Application(a)));
    }
    assert(applications@.take(applications@.len() as int) =~= applications@);
    let ghost p1 = out@;
    for i in 0..windows.len()
        invariant
            out@ == p1 + windows@.take(i as int).map_values(|w: Window| Entry::Window(w)),
    {
        out.push(Entry::Window(windows[i].duplicate()));
        assert(windows@.take(i + 1) =~= windows@.take(i as int).push(windows@[i as int]));
        assert(out@ =~= p1 + windows@.take(i + 1).map_values(|w: Window| Entry::Window(w)));
    }
    assert(windows@.take(windows@.len() as int) =~= windows@);
    let ghost p2 = out@;
    for i in 0..workspaces.len()
        invariant
            out@ == p2 + workspaces@.take(i as int).map_values(|w: Workspace| Entry::Workspace(w)),
    {
        out.push(Entry::Workspace(workspaces[i].duplicate()));
        assert(workspaces@.take(i + 1) =~= workspaces@.take(i as int).push(workspaces@[i as int]));
        assert(out@ =~= p2 + workspaces@.take(i + 1).map_values(|w: Workspace| Entry::Workspace(w)));
    }
    assert(workspaces@.take(workspaces@.len() as int) =~= workspaces@);
    let ghost p3 = out@;
    for i in 0..commands.len()
        invariant
            out@ == p3 + commands@.take(i as int).map_values(|c: Command| Entry::Command(c)),
    {
        out.push(Entry::Command(commands[i]));
        assert(commands@.take(i + 1) =~= commands@.take(i as int).push(commands@[i as int]));
        assert(out@ =~= p3 + commands@.take(i + 1).map_values(|c: Command| Entry::Command(c)));
    }
    assert(commands@.take(commands@.len() as int) =~= commands@);
    let ghost p4 = out@;
    for i in 0..power_commands.len()
        invariant
            out@ == p4 + power_commands@.take(i as int).map_values(
                |c: PowerCommand| Entry::PowerCommand(c),
            ),
    {
        out.push(Entry::PowerCommand(power_commands[i]));
        assert(power_commands@.take(i + 1) =~= power_commands@.take(i as int).push(
            power_commands@[i as int],
        ));
        assert(out@ =~= p4 + power_commands@.take(i + 1).map_values(
            |c: PowerCommand| Entry::PowerCommand(c),
        ));
    }
    assert(power_commands@.take(power_commands@.len() as int) =~= power_commands@);
    let ghost p5 = out@;
    for i in 0..workspace_commands.len()
        invariant
            out@ == p5 + workspace_commands@.take(i as int).map_values(
                |c: WorkspaceCommand| Entry::WorkspaceCommand(c),
            ),
    {
        out.push(Entry::WorkspaceCommand(workspace_commands[i].duplicate()));
        assert(workspace_commands@.take(i + 1) =~= workspace_commands@.take(i as int).push(
            workspace_commands@[i as int],
        ));
        assert(out@ =~= p5 + workspace_commands@.take(i + 1).map_values(
            |c: WorkspaceCommand| Entry::WorkspaceCommand(c),
        ));
    }
    assert(workspace_commands@.take(workspace_commands@.len() as int) =~= workspace_commands@);
    out
}

/// A window as the shell extension reports it: every text field is a
/// string, empty when the window has none.
pub struct DbusWindow {
    pub id: u64,
    pub title: String,
    pub app_name: String,
    pub app_desktop_id: String,
    pub icon: String,
    pub workspace: i32,
}

/// A workspace as the shell extension reports it.
pub struct DbusWorkspace {
    pub index: i32,
    pub name: String,
}

/// An empty string stands for an absent value.
pub open spec fn present(s: String) -> Option<String> {
    if s@.len() == 0 {
        None
    } else {
        Some(s)
    }
}

fn present_exec(s: String) -> (r: Option<String>)
    ensures
        r == present(s),
{
    if s.as_str().is_empty() {
        None
    } else {
        Some(s)
    }
}

/// Converts a reported window; empty application name, icon and desktop id
/// become absent, so a window without an application shows no phantom icon
/// or name.
pub fn map_dbus_window(w: DbusWindow) -> (r: Window)
    ensures
        r == (Window {
            id: w.id,
            title: w.title,
            app_name: present(w.app_name),
            icon: present(w.icon),
            workspace: w.workspace,
            app_desktop_id: present(w.app_desktop_id),
        }),
{
    let DbusWindow { id, title, app_name, app_desktop_id, icon, workspace } = w;
    Window {
        id,
        title,
        app_name: present_exec(app_name),
        icon: present_exec(icon),
        workspace,
        app_desktop_id: present_exec(app_desktop_id),
    }
}

/// Converts a reported workspace.
pub fn map_dbus_workspace(w: DbusWorkspace) -> (r: Workspace)
    ensures
        r == (Workspace { index: w.index, name: w.name }),
{
    Workspace { index: w.index, name: w.name }
}

/// The value of an environment variable that is set and not empty.
pub open spec fn set_value(o: Option<String>) -> Option<Seq<char>> {
    match o {
        Some(s) => if s@.len() > 0 {
            Some(s@)
        } else {
            None
        },
        None => None,
    }
}

fn set_value_exec(o: &Option<String>) -> (r: Option<&str>)
    ensures
        match r {
            Some(s) => set_value(*o) == Some(s@),
            None => set_value(*o) is None,
        },
{
    match o {
        Some(s) => if s.as_str().is_empty() {
            None
        } else {
            Some(s.as_str())
        },
        None => None,
    }
}

/// `base` with the relative component `part` appended, as `PathBuf::push`
/// does it: a separator is added unless `base` is empty or already ends
/// with one.
pub open spec fn join(base: Seq<char>, part: Seq<char>) -> Seq<char> {
    if base.len() == 0 {
        part
    } else if base.last() == '/' {
        base + part
    } else {
        base + seq!['/'] + part
    }
}

/// Appends the relative path component `part` to `base`.
pub fn join_path(base: &str, part: &str) -> (r: String)
    ensures
        r@ == join(base@, part@),
{
    let cs = chars_of(base);
    let mut out = base.to_owned();
    if cs.len() > 0 && cs[cs.len() - 1] != '/' {
        push_char(&mut out, '/');
    }
    out.append(part);
    out
}

/// The field read so far, unless it is empty.
pub open spec fn close_field(cur: Seq<char>) -> Seq<Seq<char>> {
    if cur.len() > 0 {
        seq![cur]
    } else {
        Seq::empty()
    }
}

/// The fields still to come when `cur` has been read of the current field
/// and `rest` is unread: a `:` ends a field, and empty fields are dropped.
pub open spec fn fields_from(cur: Seq<char>, rest: Seq<char>) -> Seq<Seq<char>>
    decreases rest.len(),
{
    if rest.len() == 0 {
        close_field(cur)
    } else if rest[0] == ':' {
        close_field(cur) + fields_from(Seq::empty(), rest.drop_first())
    } else {
        fields_from(cur.push(rest[0]), rest.drop_first())
    }
}

/// The non-empty `:`-separated fields of `s`, in order: what
/// `s.split(':')` yields once its empty fields are dropped.
pub open spec fn colon_fields(s: Seq<char>) -> Seq<Seq<char>> {
    fields_from(Seq::empty(), s)
}

/// Splits a `:`-separated search path into its non-empty fields.
pub fn split_colon_list(s: &str) -> (r: Vec<String>)
    ensures
        views(r@) == colon_fields(s@),
{
    let cs = chars_of(s);
    let mut out: Vec<String> = Vec::new();
    let mut cur = String::new();
    let mut i: usize = 0;
    assert(cs@.skip(0) =~= cs@);
    while i < cs.len()
        invariant
            cs@ == s@,
            i <= cs@.len(),
            views(out@) + fields_from(cur@, cs@.skip(i as int)) == colon_fields(s@),
        decreases cs.len() - i,
    {
        let ghost rest = cs@.skip(i as int);
        assert(rest.drop_first() =~= cs@.skip(i + 1));
        let c = cs[i];
        if c == ':' {
            let ghost old_out = out@;
            let ghost old_cur = cur@;
            if !cur.as_str().is_empty() {
                let mut done = String::new();
                std::mem::swap(&mut done, &mut cur);
                out.push(done);
                assert(views(out@) =~= views(old_out) + seq![old_cur]);
            }
            assert(cur@ =~= Seq::<char>::empty());
            assert(rest[0] == c);
            assert(fields_from(old_cur, rest) == close_field(old_cur) + fields_from(
                Seq::empty(),
                rest.drop_first(),
            ));
            assert(views(out@) + fields_from(cur@, cs@.skip(i + 1)) =~= views(old_out)
                + fields_from(old_cur, rest));
        } else {
            push_char(&mut cur, c);
        }
        i = i + 1;
    }
    if !cur.as_str().is_empty() {
        let ghost old_out = out@;
        out.push(cur);
        assert(views(out@) =~= views(old_out) + close_field(out@.last()@));
    } else {
        assert(views(out@) + close_field(cur@) =~= views(out@));
    }
    out
}

/// `dir/applications`.
pub open spec fn applications_dir(dir: Seq<char>) -> Seq<char> {
    join(dir, "applications"@)
}

/// The XDG user data directory: `$XDG_DATA_HOME`, else
/// `$HOME/.local/share`.
pub open spec fn data_home(xdg_data_home: Option<String>, home: Option<String>) -> Option<Seq<char>> {
    match set_value(xdg_data_home) {
        Some(v) => Some(v),
        None => match set_value(home) {
            Some(h) => Some(join(join(h, ".local"@), "share"@)),
            None => None,
        },
    }
}

/// The XDG system data directories: the fields of `$XDG_DATA_DIRS`, else
/// `/usr/local/share` and `/usr/share`.
pub open spec fn data_dirs(xdg_data_dirs: Option<String>) -> Seq<Seq<char>> {
    match set_value(xdg_data_dirs) {
        Some(v) => colon_fields(v),
        None => seq!["/usr/local/share"@, "/usr/share"@],
    }
}

/// The directories to look for `.desktop` files in, from the values of
/// `XDG_DATA_HOME`, `HOME` and `XDG_DATA_DIRS` (`None` when unset): the
/// user data directory's `applications`, then each system data
/// directory's, in search order. An empty variable counts as unset.
pub fn application_directories(
    xdg_data_home: Option<String>,
    home: Option<String>,
    xdg_data_dirs: Option<String>,
) -> (r: Vec<String>)
    ensures
        views(r@) == (match data_home(xdg_data_home, home) {
            Some(d) => seq![applications_dir(d)],
            None => Seq::<Seq<char>>::empty(),
        }) + data_dirs(xdg_data_dirs).map_values(|d: Seq<char>| applications_dir(d)),
{
    let mut out: Vec<String> = Vec::new();
    let home_dir: Option<String> = match set_value_exec(&xdg_data_home) {
        Some(v) => Some(v.to_owned()),
        None => match set_value_exec(&home) {
            Some(h) => {
                let local = join_path(h, ".local");
                Some(join_path(local.as_str(), "share"))
            },
            None => None,
        },
    };
    match &home_dir {
        Some(d) => {
            out.push(join_path(d.as_str(), "applications"));
        },
        None => {},
    }
    let ghost prefix = views(out@);
    let dirs: Vec<String> = match set_value_exec(&xdg_data_dirs) {
        Some(v) => split_colon_list(v),
        None => {
            let mut d: Vec<String> = Vec::new();
            d.push(String::from_str("/usr/local/share"));
            d.push(String::from_str("/usr/share"));
            assert(views(d@) =~= seq!["/usr/local/share"@, "/usr/share"@]);
            d
        },
    };
    let ghost ds = views(dirs@);
    assert(ds == data_dirs(xdg_data_dirs));
    for k in 0..dirs.len()
        invariant
            ds == views(dirs@),
            views(out@) == prefix + ds.take(k as int).map_values(|d: Seq<char>| applications_dir(d)),
    {
        let ghost old_out = views(out@);
        let joined = join_path(dirs[k].as_str(), "applications");
        assert(joined@ == applications_dir(ds[k as int]));
        out.push(joined);
        assert(views(out@) =~= old_out.push(applications_dir(ds[k as int])));
        assert(ds.take(k + 1) =~= ds.take(k as int).push(ds[k as int]));
        assert(views(out@) =~= prefix + ds.take(k + 1).map_values(
            |d: Seq<char>| applications_dir(d),
        ));
    }
    assert(ds.take(ds.len() as int) =~= ds);
    assert(prefix =~= match data_home(xdg_data_home, home) {
        Some(d) => seq![applications_dir(d)],
        None => Seq::<Seq<char>>::empty(),
    });
    out
}

/// Where the activation history is kept, from the values of
/// `XDG_STATE_HOME` and `HOME`: `lofi/mru.sqlite` under `$XDG_STATE_HOME`,
/// else under `$HOME/.local/state`; `None` when neither is set.
pub fn mru_state_path(xdg_state_home: Option<String>, home: Option<String>) -> (r: Option<String>)
    ensures
        match r {
            Some(p) => {
                let base = match set_value(xdg_state_home) {
                    Some(v) => v,
                    None => join(join(set_value(home)->0, ".local"@), "state"@),
                };
                &&& (set_value(xdg_state_home) is Some || set_value(home) is Some)
                &&& p@ == join(join(base, "lofi"@), "mru.sqlite"@)
            },
            None => set_value(xdg_state_home) is None && set_value(home) is None,
        },
{
    let base: String = match set_value_exec(&xdg_state_home) {
        Some(v) => v.to_owned(),
        None => match set_value_exec(&home) {
            Some(h) => {
                let local = join_path(h, ".local");
                join_path(local.as_str(), "state")
            },
            None => {
                return None;
            },
        },
    };
    let dir = join_path(base.as_str(), "lofi");
    Some(join_path(dir.as_str(), "mru.sqlite"))
}

/// Whether a file name names a desktop entry (ends in `.desktop`).
pub fn is_desktop_file_name(name: &str) -> (r: bool)
    ensures
        r == is_suffix(".desktop"@, name@),
{
    let cs = chars_of(name);
    let suffix = chars_of(".desktop");
    has_suffix(cs.as_slice(), suffix.as_slice())
}

/// The applications with the first of each desktop id, in order: a
/// desktop file in an earlier directory hides one of the same id in a
/// later directory.
pub open spec fn first_of_each_id(apps: Seq<Application>) -> Seq<Application>
    decreases apps.len(),
{
    if apps.len() == 0 {
        Seq::empty()
    } else {
        let d = first_of_each_id(apps.drop_last());
        if exists|j: int| 0 <= j < apps.len() - 1 && apps[j].desktop_id@ == apps.last().desktop_id@ {
            d
        } else {
            d.push(apps.last())
        }
    }
}

/// Drops every application whose desktop id an earlier one already has.
pub fn dedupe_by_desktop_id(apps: &[Application]) -> (r: Vec<Application>)
    ensures
        r@ == first_of_each_id(apps@),
{
    let mut out: Vec<Application> = Vec::new();
    let mut i: usize = 0;
    while i < apps.len()
        invariant
            i <= apps@.len(),
            out@ == first_of_each_id(apps@.take(i as int)),
        decreases apps.len() - i,
    {
        let mut seen = false;
        let mut j: usize = 0;
        while j < i
            invariant
                j <= i < apps@.len(),
                seen <==> exists|m: int| 0 <= m < j && apps@[m].desktop_id@ == apps@[i as int].desktop_id@,
            decreases i - j,
        {
            if str_eq(apps[j].desktop_id.as_str(), apps[i].desktop_id.as_str()) {
                seen = true;
            }
            j = j + 1;
        }
        let ghost t = apps@.take(i + 1);
        assert(t.drop_last() =~= apps@.take(i as int));
        assert(t.last() == apps@[i as int]);
        assert(seen <==> exists|m: int| 0 <= m < t.len() - 1 && t[m].desktop_id@ == t.last().desktop_id@) by {
            if seen {
                let m = choose|m: int| 0 <= m < i && apps@[m].desktop_id@ == apps@[i as int].desktop_id@;
                assert(t[m] == apps@[m]);
            }
            if exists|m: int| 0 <= m < t.len() - 1 && t[m].desktop_id@ == t.last().desktop_id@ {
                let m = choose|m: int| 0 <= m < t.len() - 1 && t[m].desktop_id@ == t.last().desktop_id@;
                assert(t[m] == apps@[m]);
            }
        }
        if !seen {
            out.push(apps[i].duplicate());
        }
        i = i + 1;
    }
    assert(apps@.take(apps@.len() as int) =~= apps@);
    out
}

/// Keeping the first of each desktop id leaves each id once, keeps only
/// listed applications, and loses no id.
#[verifier::spinoff_prover]
#[verifier::rlimit(40)]
pub proof fn lemma_first_of_each_id(apps: Seq<Application>)
    ensures
        forall|a: int, b: int|
            0 <= a < b < first_of_each_id(apps).len() ==> first_of_each_id(apps)[a].desktop_id@
                != first_of_each_id(apps)[b].desktop_id@,
        forall|k: int|
            0 <= k < first_of_each_id(apps).len() ==> exists|j: int|
                0 <= j < apps.len() && #[trigger] first_of_each_id(apps)[k] == apps[j],
        forall|j: int|
            0 <= j < apps.len() ==> exists|k: int|
                0 <= k < first_of_each_id(apps).len() && #[trigger] first_of_each_id(apps)[k].desktop_id@
                    == (#[trigger] apps[j]).desktop_id@,
    decreases apps.len(),
{
    if apps.len() > 0 {
        let p = apps.drop_last();
        let d = first_of_each_id(p);
        let r = first_of_each_id(apps);
        lemma_first_of_each_id(p);
        let last = apps.last();
        let seen = exists|j: int| 0 <= j < apps.len() - 1 && apps[j].desktop_id@ == last.desktop_id@;
        assert forall|k: int| 0 <= k < d.len() implies exists|j: int|
            0 <= j < apps.len() && #[trigger] d[k] == apps[j] by {
            let j = choose|j: int| 0 <= j < p.len() && d[k] == p[j];
            assert(p[j] == apps[j]);
        }
        if seen {
            assert(r == d);
            assert forall|j: int| 0 <= j < apps.len() implies exists|k: int|
                0 <= k < r.len() && #[trigger] r[k].desktop_id@ == (#[trigger] apps[j]).desktop_id@ by {
                if j < apps.len() - 1 {
                    assert(apps[j] == p[j]);
                } else {
                    let m = choose|m: int| 0 <= m < apps.len() - 1 && apps[m].desktop_id@ == last.desktop_id@;
                    assert(apps[m] == p[m]);
                }
            }
        } else {
            assert(r == d.push(last));
            assert forall|k: int| 0 <= k < d.len() implies d[k].desktop_id@ != last.desktop_id@ by {
                let j = choose|j: int| 0 <= j < p.len() && d[k] == p[j];
                assert(p[j] == apps[j]);
            }
            assert forall|a: int, b: int| 0 <= a < b < r.len() implies r[a].desktop_id@
                != r[b].desktop_id@ by {
                if b < d.len() {
                    assert(r[a] == d[a] && r[b] == d[b]);
                } else {
                    assert(r[a] == d[a]);
                }
            }
            assert forall|k: int| 0 <= k < r.len() implies exists|j: int|
                0 <= j < apps.len() && #[trigger] r[k] == apps[j] by {
                if k < d.len() {
                    assert(r[k] == d[k]);
                } else {
                    assert(r[k] == apps[apps.len() - 1]);
                }
            }
            assert forall|j: int| 0 <= j < apps.len() implies exists|k: int|
                0 <= k < r.len() && #[trigger] r[k].desktop_id@ == (#[trigger] apps[j]).desktop_id@ by {
                if j < apps.len() - 1 {
                    assert(apps[j] == p[j]);
                    let k = choose|k: int| 0 <= k < d.len() && #[trigger] d[k].desktop_id@ == p[j].desktop_id@;
                    assert(r[k] == d[k]);
                } else {
                    assert(r[d.len() as int] == last);
                }
            }
        }
    }
}

} // verus!
