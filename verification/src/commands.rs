//! Geometry of the window-action commands and the per-launch set of
//! workspace-move commands. Pure: every input is captured by the platform
//! layer at gather time.

use vstd::prelude::*;

use crate::model::{CommandKind, WorkArea, Workspace, WorkspaceCommand, WorkspaceCommandKind};
use crate::text::{decimal, decimal_string};

verus! {

/// `v` is representable as an `i32`.
pub open spec fn fits(v: int) -> bool {
    i32::MIN <= v <= i32::MAX
}

/// Integer division rounding toward zero, as Rust's `/` on integers does,
/// for a positive divisor.
pub open spec fn tdiv(a: int, d: int) -> int {
    if a >= 0 {
        a / d
    } else {
        -((-a) / d)
    }
}

/// Every intermediate value of the geometry computation for `kind` fits in
/// an `i32`, so the computation does not overflow.
pub open spec fn geometry_defined(
    kind: CommandKind,
    wa: WorkArea,
    frame: (i32, i32, i32, i32),
) -> bool {
    let x = wa.x as int;
    let y = wa.y as int;
    let width = wa.width as int;
    let height = wa.height as int;
    match kind {
        CommandKind::Center => {
            let w = frame.2 as int;
            let h = frame.3 as int;
            &&& fits(width - w)
            &&& fits(x + tdiv(width - w, 2))
            &&& fits(height - h)
            &&& fits(y + tdiv(height - h, 2))
        },
        CommandKind::CenterThird => {
            let w = tdiv(width, 3);
            fits(x + tdiv(width - w, 2))
        },
        CommandKind::CenterHalf => {
            let w = tdiv(width, 2);
            fits(x + tdiv(width - w, 2))
        },
        CommandKind::CenterTwoThirds => {
            let w = tdiv(width * 2, 3);
            &&& fits(width * 2)
            &&& fits(width - w)
            &&& fits(x + tdiv(width - w, 2))
        },
        CommandKind::LeftTwoThirds => fits(width * 2),
        CommandKind::RightThird => {
            let w = tdiv(width, 3);
            fits(x + width) && fits(x + width - w)
        },
        CommandKind::RightHalf => {
            let w = tdiv(width, 2);
            fits(x + width) && fits(x + width - w)
        },
        CommandKind::RightTwoThirds => {
            let w = tdiv(width * 2, 3);
            &&& fits(width * 2)
            &&& fits(x + width)
            &&& fits(x + width - w)
        },
        CommandKind::StandardSize => {
            let w = tdiv(width * 2, 3);
            let h = tdiv(height * 2, 3);
            &&& fits(width * 2)
            &&& fits(height * 2)
            &&& fits(width - w)
            &&& fits(x + tdiv(width - w, 2))
            &&& fits(height - h)
            &&& fits(y + tdiv(height - h, 2))
        },
        _ => true,
    }
}

/// The rectangle `(x, y, width, height)` a command moves its window to, or
/// `None` for the commands that do not produce one (the state toggles and
/// the display moves, which the platform dispatches itself).
pub open spec fn geometry(
    kind: CommandKind,
    wa: WorkArea,
    frame: (i32, i32, i32, i32),
) -> Option<(int, int, int, int)> {
    let x = wa.x as int;
    let y = wa.y as int;
    let width = wa.width as int;
    let height = wa.height as int;
    match kind {
        CommandKind::Center => {
            let w = frame.2 as int;
            let h = frame.3 as int;
            Some((x + tdiv(width - w, 2), y + tdiv(height - h, 2), w, h))
        },
        CommandKind::CenterThird => {
            let w = tdiv(width, 3);
            Some((x + tdiv(width - w, 2), y, w, height))
        },
        CommandKind::CenterHalf => {
            let w = tdiv(width, 2);
            Some((x + tdiv(width - w, 2), y, w, height))
        },
        CommandKind::CenterTwoThirds => {
            let w = tdiv(width * 2, 3);
            Some((x + tdiv(width - w, 2), y, w, height))
        },
        CommandKind::LeftThird => Some((x, y, tdiv(width, 3), height)),
        CommandKind::LeftHalf => Some((x, y, tdiv(width, 2), height)),
        CommandKind::LeftTwoThirds => Some((x, y, tdiv(width * 2, 3), height)),
        CommandKind::RightThird => {
            let w = tdiv(width, 3);
            Some((x + width - w, y, w, height))
        },
        CommandKind::RightHalf => {
            let w = tdiv(width, 2);
            Some((x + width - w, y, w, height))
        },
        CommandKind::RightTwoThirds => {
            let w = tdiv(width * 2, 3);
            Some((x + width - w, y, w, height))
        },
        CommandKind::StandardSize => {
            let w = tdiv(width * 2, 3);
            let h = tdiv(height * 2, 3);
            Some((x + tdiv(width - w, 2), y + tdiv(height - h, 2), w, h))
        },
        CommandKind::Minimize
        | CommandKind::ToggleMaximize
        | CommandKind::ToggleFullscreen
        | CommandKind::NextDisplay
        | CommandKind::PreviousDisplay => None,
    }
}

/// A rectangle of `i32`s taken as mathematical integers.
pub open spec fn rect_ints(r: Option<(i32, i32, i32, i32)>) -> Option<(int, int, int, int)> {
    match r {
        Some(t) => Some((t.0 as int, t.1 as int, t.2 as int, t.3 as int)),
        None => None,
    }
}

/// The kinds that produce a rectangle.
pub open spec fn is_geometry_kind(kind: CommandKind) -> bool {
    !(kind is Minimize || kind is ToggleMaximize || kind is ToggleFullscreen
        || kind is NextDisplay || kind is PreviousDisplay)
}

/// Target geometry for a window-action command.
///
/// `current_frame` is the target window's `(x, y, width, height)` at
/// gather time; only `Center` reads it (it keeps the window's size and
/// recenters it). Every other geometry command is computed from the work
/// area alone. Returns `None` for the state toggles and the display moves.
pub fn compute_geometry(
    kind: CommandKind,
    work_area: &WorkArea,
    current_frame: (i32, i32, i32, i32),
) -> (r: Option<(i32, i32, i32, i32)>)
    requires
        geometry_defined(kind, *work_area, current_frame),
    ensures
        rect_ints(r) == geometry(kind, *work_area, current_frame),
{
    match kind {
        CommandKind::Center => {
            let (_, _, w, h) = current_frame;
            Some(
                (
                    work_area.x + (work_area.width - w) / 2,
                    work_area.y + (work_area.height - h) / 2,
                    w,
                    h,
                ),
            )
        },
        CommandKind::CenterThird => {
            let w = work_area.width / 3;
            Some((work_area.x + (work_area.width - w) / 2, work_area.y, w, work_area.height))
        },
        CommandKind::CenterHalf => {
            let w = work_area.width / 2;
            Some((work_area.x + (work_area.width - w) / 2, work_area.y, w, work_area.height))
        },
        CommandKind::CenterTwoThirds => {
            let w = work_area.width * 2 / 3;
            Some((work_area.x + (work_area.width - w) / 2, work_area.y, w, work_area.height))
        },
        CommandKind::LeftThird => Some(
            (work_area.x, work_area.y, work_area.width / 3, work_area.height),
        ),
        CommandKind::LeftHalf => Some(
            (work_area.x, work_area.y, work_area.width / 2, work_area.height),
        ),
        CommandKind::LeftTwoThirds => Some(
            (work_area.x, work_area.y, work_area.width * 2 / 3, work_area.height),
        ),
        // Right-aligned variants anchor by `x + width - w` so the window
        // stays flush against the right edge even when integer division
        // leaves `w` a pixel short of an exact fraction.
        CommandKind::RightThird => {
            let w = work_area.width / 3;
            Some((work_area.x + work_area.width - w, work_area.y, w, work_area.height))
        },
        CommandKind::RightHalf => {
            let w = work_area.width / 2;
            Some((work_area.x + work_area.width - w, work_area.y, w, work_area.height))
        },
        CommandKind::RightTwoThirds => {
            let w = work_area.width * 2 / 3;
            Some((work_area.x + work_area.width - w, work_area.y, w, work_area.height))
        },
        CommandKind::StandardSize => {
            let w = work_area.width * 2 / 3;
            let h = work_area.height * 2 / 3;
            Some(
                (
                    work_area.x + (work_area.width - w) / 2,
                    work_area.y + (work_area.height - h) / 2,
                    w,
                    h,
                ),
            )
        },
        CommandKind::Minimize | CommandKind::ToggleMaximize | CommandKind::ToggleFullscreen => None,
        // The display moves depend on the set of displays the platform
        // holds, not on a single work area; the platform computes them.
        CommandKind::NextDisplay | CommandKind::PreviousDisplay => None,
    }
}

fn fits64(v: i64) -> (r: bool)
    ensures
        r == fits(v as int),
{
    -2147483648i64 <= v && v <= 2147483647i64
}

/// Whether `compute_geometry` can compute the rectangle for these inputs
/// without an arithmetic overflow.
pub fn geometry_fits(kind: CommandKind, work_area: &WorkArea, current_frame: (i32, i32, i32, i32)) -> (r:
    bool)
    ensures
        r == geometry_defined(kind, *work_area, current_frame),
{
    let x = work_area.x as i64;
    let y = work_area.y as i64;
    let width = work_area.width as i64;
    let height = work_area.height as i64;
    match kind {
        CommandKind::Center => {
            let w = current_frame.2 as i64;
            let h = current_frame.3 as i64;
            fits64(width - w) && fits64(x + (width - w) / 2) && fits64(height - h) && fits64(
                y + (height - h) / 2,
            )
        },
        CommandKind::CenterThird => {
            let w = width / 3;
            fits64(x + (width - w) / 2)
        },
        CommandKind::CenterHalf => {
            let w = width / 2;
            fits64(x + (width - w) / 2)
        },
        CommandKind::CenterTwoThirds => {
            let w = width * 2 / 3;
            fits64(width * 2) && fits64(width - w) && fits64(x + (width - w) / 2)
        },
        CommandKind::LeftTwoThirds => fits64(width * 2),
        CommandKind::RightThird => {
            let w = width / 3;
            fits64(x + width) && fits64(x + width - w)
        },
        CommandKind::RightHalf => {
            let w = width / 2;
            fits64(x + width) && fits64(x + width - w)
        },
        CommandKind::RightTwoThirds => {
            let w = width * 2 / 3;
            fits64(width * 2) && fits64(x + width) && fits64(x + width - w)
        },
        CommandKind::StandardSize => {
            let w = width * 2 / 3;
            let h = height * 2 / 3;
            fits64(width * 2) && fits64(height * 2) && fits64(width - w) && fits64(
                x + (width - w) / 2,
            ) && fits64(height - h) && fits64(y + (height - h) / 2)
        },
        _ => true,
    }
}

/// A rectangle computed from the work area alone lies inside a work area
/// of non-negative size. The left tiles sit flush against its left edge
/// and the right tiles flush against its right edge, for every width; the
/// centred kinds leave equal margins on both sides, up to one pixel of
/// rounding (which goes to the right or bottom margin); `Center` keeps the
/// window's size and, when the window fits, centres it the same way.
pub proof fn lemma_geometry_within_work_area(
    kind: CommandKind,
    wa: WorkArea,
    frame: (i32, i32, i32, i32),
)
    requires
        wa.width >= 0,
        wa.height >= 0,
    ensures
        geometry(kind, wa, frame) is Some <==> is_geometry_kind(kind),
        kind is Center ==> {
            let r = geometry(kind, wa, frame)->0;
            r.2 == frame.2 && r.3 == frame.3
        },
        is_geometry_kind(kind) && !(kind is Center) ==> {
            let r = geometry(kind, wa, frame)->0;
            &&& wa.x <= r.0
            &&& wa.y <= r.1
            &&& 0 <= r.2
            &&& 0 <= r.3
            &&& r.0 + r.2 <= wa.x + wa.width
            &&& r.1 + r.3 <= wa.y + wa.height
        },
        kind is LeftThird || kind is LeftHalf || kind is LeftTwoThirds ==> {
            let r = geometry(kind, wa, frame)->0;
            r.0 == wa.x
        },
        kind is RightThird || kind is RightHalf || kind is RightTwoThirds ==> {
            let r = geometry(kind, wa, frame)->0;
            r.0 + r.2 == wa.x + wa.width
        },
        kind is CenterThird || kind is CenterHalf || kind is CenterTwoThirds || kind is StandardSize
            ==> {
            let r = geometry(kind, wa, frame)->0;
            let left = r.0 - wa.x;
            let right = wa.x + wa.width - (r.0 + r.2);
            0 <= right - left <= 1
        },
        kind is StandardSize ==> {
            let r = geometry(kind, wa, frame)->0;
            let top = r.1 - wa.y;
            let bottom = wa.y + wa.height - (r.1 + r.3);
            0 <= bottom - top <= 1
        },
        kind is CenterThird || kind is CenterHalf || kind is CenterTwoThirds ==> {
            let r = geometry(kind, wa, frame)->0;
            r.1 == wa.y && r.3 == wa.height
        },
        kind is Center && 0 <= frame.2 <= wa.width && 0 <= frame.3 <= wa.height ==> {
            let r = geometry(kind, wa, frame)->0;
            &&& 0 <= (wa.x + wa.width - (r.0 + r.2)) - (r.0 - wa.x) <= 1
            &&& 0 <= (wa.y + wa.height - (r.1 + r.3)) - (r.1 - wa.y) <= 1
        },
{
}

/// The absolute move's label: destinations are numbered from 1, as GNOME
/// numbers its workspaces.
pub open spec fn absolute_label(index: i32) -> Seq<char> {
    "Move to workspace "@ + decimal(index + 1)
}

/// `c` has exactly these fields.
pub open spec fn is_workspace_command(
    c: WorkspaceCommand,
    kind: WorkspaceCommandKind,
    target_window_id: u64,
    target_index: int,
    name: Seq<char>,
) -> bool {
    &&& c.kind == kind
    &&& c.target_window_id == target_window_id
    &&& c.target_index == target_index
    &&& c.name@ == name
}

/// A "previous workspace" move is offered when the window sits on a listed
/// workspace other than the first.
pub open spec fn has_previous(target_workspace: i32, n: int) -> bool {
    0 < target_workspace && target_workspace < n
}

/// A "next workspace" move is offered when the window sits on a listed
/// workspace other than the last (and the next index is an `i32`).
pub open spec fn has_next(target_workspace: i32, n: int) -> bool {
    0 <= target_workspace && target_workspace + 1 < n && target_workspace < i32::MAX
}

/// `r` is the workspace-move command set for the window `target_window_id`
/// on workspace `target_workspace`: one absolute move per workspace, in
/// order, then the "previous" and "next" moves where they are offered.
pub open spec fn is_workspace_command_set(
    r: Seq<WorkspaceCommand>,
    target_window_id: u64,
    target_workspace: i32,
    workspaces: Seq<Workspace>,
) -> bool {
    let n = workspaces.len() as int;
    let p: int = if has_previous(target_workspace, n) {
        1
    } else {
        0
    };
    let q: int = if has_next(target_workspace, n) {
        1
    } else {
        0
    };
    &&& r.len() == n + p + q
    &&& forall|i: int|
        0 <= i < n ==> is_workspace_command(
            #[trigger] r[i],
            WorkspaceCommandKind::MoveToWorkspace,
            target_window_id,
            workspaces[i].index as int,
            absolute_label(workspaces[i].index),
        )
    &&& has_previous(target_workspace, n) ==> is_workspace_command(
        r[n],
        WorkspaceCommandKind::MoveToPreviousWorkspace,
        target_window_id,
        target_workspace - 1,
        "Move to previous workspace"@,
    )
    &&& has_next(target_workspace, n) ==> is_workspace_command(
        r[n + p],
        WorkspaceCommandKind::MoveToNextWorkspace,
        target_window_id,
        target_workspace + 1,
        "Move to next workspace"@,
    )
}

/// The per-launch workspace-move commands for the target window: one
/// absolute move per workspace, in order, labelled with the 1-based
/// destination; then "previous" and "next" moves to the neighbouring
/// workspaces, each offered only where it is not a dead end. A negative
/// `target_workspace` (a window shown on all workspaces) suppresses both
/// relative moves.
pub fn build_workspace_commands(
    target_window_id: u64,
    target_workspace: i32,
    workspaces: &[Workspace],
) -> (r: Vec<WorkspaceCommand>)
    ensures
        is_workspace_command_set(r@, target_window_id, target_workspace, workspaces@),
{
    let mut out: Vec<WorkspaceCommand> = Vec::new();
    let mut i: usize = 0;
    while i < workspaces.len()
        invariant
            i <= workspaces@.len(),
            out@.len() == i,
            forall|k: int|
                0 <= k < i ==> is_workspace_command(
                    #[trigger] out@[k],
                    WorkspaceCommandKind::MoveToWorkspace,
                    target_window_id,
                    workspaces@[k].index as int,
                    absolute_label(workspaces@[k].index),
                ),
        decreases workspaces.len() - i,
    {
        let index = workspaces[i].index;
        let mut name = String::from_str("Move to workspace ");
        let number = decimal_string(index as i64 + 1);
        name.append(number.as_str());
        out.push(
            WorkspaceCommand {
                kind: WorkspaceCommandKind::MoveToWorkspace,
                target_window_id,
                target_index: index,
                name,
            },
        );
        i = i + 1;
    }
    let n = workspaces.len();
    let on_listed = target_workspace >= 0 && (target_workspace as usize) < n;
    if on_listed && target_workspace > 0 {
        out.push(
            WorkspaceCommand {
                kind: WorkspaceCommandKind::MoveToPreviousWorkspace,
                target_window_id,
                target_index: target_workspace - 1,
                name: String::from_str("Move to previous workspace"),
            },
        );
    }
    if on_listed && (target_workspace as usize) + 1 < n && target_workspace < i32::MAX {
        out.push(
            WorkspaceCommand {
                kind: WorkspaceCommandKind::MoveToNextWorkspace,
                target_window_id,
                target_index: target_workspace + 1,
                name: String::from_str("Move to next workspace"),
            },
        );
    }
    out
}

/// In a workspace-move command set every move acts on the target window;
/// the absolute moves go to the listed workspaces, labelled with their
/// 1-based number; "previous" goes to the workspace just before the
/// window's and "next" to the one just after, whatever follows; and each
/// relative move is offered exactly when its destination is a listed
/// workspace.
pub proof fn lemma_workspace_moves_target_neighbours(
    r: Seq<WorkspaceCommand>,
    target_window_id: u64,
    target_workspace: i32,
    workspaces: Seq<Workspace>,
)
    requires
        is_workspace_command_set(r, target_window_id, target_workspace, workspaces),
    ensures
        forall|k: int| 0 <= k < r.len() ==> (#[trigger] r[k]).target_window_id == target_window_id,
        forall|k: int|
            0 <= k < r.len() && (#[trigger] r[k]).kind == WorkspaceCommandKind::MoveToNextWorkspace
                ==> r[k].target_index == target_workspace + 1,
        forall|k: int|
            0 <= k < r.len() && (#[trigger] r[k]).kind
                == WorkspaceCommandKind::MoveToPreviousWorkspace ==> r[k].target_index
                == target_workspace - 1,
        forall|k: int|
            0 <= k < r.len() && (#[trigger] r[k]).kind == WorkspaceCommandKind::MoveToWorkspace
                ==> k < workspaces.len() && r[k].target_index == workspaces[k].index
                && r[k].name@ == "Move to workspace "@ + decimal(workspaces[k].index + 1),
        (exists|k: int|
            0 <= k < r.len() && (#[trigger] r[k]).kind == WorkspaceCommandKind::MoveToNextWorkspace)
            <==> (0 <= target_workspace && target_workspace + 1 < workspaces.len()
            && target_workspace < i32::MAX),
        (exists|k: int|
            0 <= k < r.len() && (#[trigger] r[k]).kind
                == WorkspaceCommandKind::MoveToPreviousWorkspace) <==> (0 < target_workspace
            && target_workspace < workspaces.len()),
{
    let n = workspaces.len() as int;
    let p: int = if has_previous(target_workspace, n) {
        1
    } else {
        0
    };
    assert forall|k: int| 0 <= k < r.len() implies (#[trigger] r[k]).target_window_id
        == target_window_id && (r[k].kind == WorkspaceCommandKind::MoveToNextWorkspace
        ==> r[k].target_index == target_workspace + 1) && (r[k].kind
        == WorkspaceCommandKind::MoveToPreviousWorkspace ==> r[k].target_index == target_workspace
        - 1) && (r[k].kind == WorkspaceCommandKind::MoveToWorkspace ==> k < n && r[k].target_index
        == workspaces[k].index && r[k].name@ == "Move to workspace "@ + decimal(
        workspaces[k].index + 1,
    )) by {
        if k < n {
        } else if k == n && p == 1 {
        } else {
            assert(k == n + p);
        }
    }
    if has_next(target_workspace, n) {
        assert(r[n + p].kind == WorkspaceCommandKind::MoveToNextWorkspace);
    }
    if exists|k: int|
        0 <= k < r.len() && (#[trigger] r[k]).kind == WorkspaceCommandKind::MoveToNextWorkspace {
        let k = choose|k: int|
            0 <= k < r.len() && (#[trigger] r[k]).kind == WorkspaceCommandKind::MoveToNextWorkspace;
        if k == n && p == 1 {
        }
    }
    if has_previous(target_workspace, n) {
        assert(r[n].kind == WorkspaceCommandKind::MoveToPreviousWorkspace);
    }
    if exists|k: int|
        0 <= k < r.len() && (#[trigger] r[k]).kind
            == WorkspaceCommandKind::MoveToPreviousWorkspace {
        let k = choose|k: int|
            0 <= k < r.len() && (#[trigger] r[k]).kind
                == WorkspaceCommandKind::MoveToPreviousWorkspace;
        if k >= n && !(k == n && p == 1) {
            assert(k == n + p);
        }
    }
}

} // verus!
