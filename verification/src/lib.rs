//! Verified core of the LoFi launcher: the entry model, window geometry,
//! fuzzy search and ranking, the entry list the frontends drive, and the
//! decisions of the GNOME frontend.

pub mod activation;
pub mod commands;
pub mod entry_list;
pub mod gather;
pub mod matcher;
pub mod model;
pub mod order;
pub mod presentation;
pub mod ranking;
pub mod text;

pub use activation::{activation, power_call, Activation, Bus, PowerArg, PowerCall};
pub use commands::{build_workspace_commands, compute_geometry, geometry_fits};
pub use entry_list::{kind_to_str, EntryList};
pub use gather::{
    application_directories, assemble_entries, command_target, dedupe_by_desktop_id,
    gather_commands, gather_power_commands, gather_workspace_commands, is_desktop_file_name,
    link_running_windows, map_dbus_window, map_dbus_workspace, mru_state_path, DbusWindow,
    DbusWorkspace,
};
pub use matcher::{haystack, score, search, strip_reverse_dns_tld};
pub use model::{
    resolve, Application, Command, CommandKind, Entry, EntryKind, EntryRef, PowerCommand,
    PowerCommandKind, Window, WorkArea, Workspace, WorkspaceCommand, WorkspaceCommandKind,
};
pub use presentation::{icon_is_path, move_target, needs_placeholder, running_indicator};
pub use ranking::{mru_rank_map, rank, visible_order, RankMap};
