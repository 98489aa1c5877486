//! The entry list a frontend drives: the entries it pushed, the active
//! search query, and the visible order that query and the activation
//! history give them.
//!
//! Frontends address entries by their *visible* index, a position in the
//! filtered order. With a blank query every entry is visible, in list
//! order. Otherwise only the entries matching every query token are
//! visible: first those the user has launched before (the leading
//! `mru_count` slots, which `apply_mru` puts in recency order), in list
//! order, then the others by descending match score, ties in list order.

use vstd::prelude::*;

use crate::commands::{compute_geometry, geometry, geometry_defined, rect_ints};
use crate::matcher::{entry_score, ranks_before, score};
use crate::model::{
    Application, Command, CommandKind, Entry, EntryKind, EntryRef, PowerCommand,
    PowerCommandKind, RefView, Window, WorkArea,
};
use crate::order::{keyed_lt, lemma_increasing_cover, lemma_sorted_unique, sort_keyed, Keyed};
use crate::ranking::{first_pos, mru_rank_map};
use crate::text::{blank, is_blank, split_whitespace, views, ws_tokens};

verus! {

/// Visible order of two matching entries `i` and `j` under an active query:
/// history slots first, in list order; then the rest by descending score,
/// ties in list order.
pub open spec fn filter_before(
    entries: Seq<Entry>,
    tokens: Seq<Seq<char>>,
    mru_count: int,
    i: int,
    j: int,
) -> bool {
    if i < mru_count && j < mru_count {
        i < j
    } else if i < mru_count {
        true
    } else if j < mru_count {
        false
    } else {
        ranks_before(entry_score(entries[i], tokens)->0, i, entry_score(entries[j], tokens)->0, j)
    }
}

/// `ord` lists exactly the entries matching `tokens`, in visible order.
pub open spec fn is_filter_order(
    entries: Seq<Entry>,
    tokens: Seq<Seq<char>>,
    mru_count: int,
    ord: Seq<int>,
) -> bool {
    &&& forall|k: int|
        0 <= k < ord.len() ==> 0 <= #[trigger] ord[k] < entries.len() && entry_score(
            entries[ord[k]],
            tokens,
        ) is Some
    &&& forall|i: int|
        0 <= i < entries.len() && (#[trigger] entry_score(entries[i], tokens)) is Some
            ==> ord.contains(i)
    &&& forall|a: int, b: int|
        0 <= a < b < ord.len() ==> filter_before(entries, tokens, mru_count, ord[a], ord[b])
}

/// The positions `0..n`, in order.
pub open spec fn all_positions(n: nat) -> Seq<int> {
    Seq::new(n, |i: int| i)
}

/// `vis` is the visible order of `entries` under `query`.
pub open spec fn visible_ok(entries: Seq<Entry>, query: Seq<char>, mru_count: int, vis: Seq<int>) -> bool {
    if is_blank(query) {
        vis == all_positions(entries.len())
    } else {
        is_filter_order(entries, ws_tokens(query), mru_count, vis)
    }
}

/// The entry's handle is in the activation history.
pub open spec fn known(recent: Seq<RefView>, e: Entry) -> bool {
    first_pos(recent, e.ref_spec()) is Some
}

/// History order of list positions `i` and `j`: entries in the history
/// first, most recent first; the rest after them; ties in list order.
pub open spec fn history_before(entries: Seq<Entry>, recent: Seq<RefView>, i: int, j: int) -> bool {
    match (first_pos(recent, entries[i].ref_spec()), first_pos(recent, entries[j].ref_spec())) {
        (Some(a), Some(b)) => a < b || (a == b && i < j),
        (Some(_), None) => true,
        (None, Some(_)) => false,
        (None, None) => i < j,
    }
}

/// `ord` is a permutation of the positions of `entries` in history order.
pub open spec fn is_history_order(entries: Seq<Entry>, recent: Seq<RefView>, ord: Seq<int>) -> bool {
    &&& ord.len() == entries.len()
    &&& forall|k: int| 0 <= k < ord.len() ==> 0 <= #[trigger] ord[k] < entries.len()
    &&& forall|i: int| 0 <= i < entries.len() ==> #[trigger] ord.contains(i)
    &&& forall|a: int, b: int|
        0 <= a < b < ord.len() ==> history_before(entries, recent, ord[a], ord[b])
}

/// The views of a history read from the store.
pub open spec fn ref_views(recent: Seq<EntryRef>) -> Seq<RefView> {
    recent.map_values(|r: EntryRef| r@)
}

/// Stable English category label of an entry kind.
pub open spec fn category_spec(kind: EntryKind) -> Seq<char> {
    match kind {
        EntryKind::Application => "Application"@,
        EntryKind::Window => "Window"@,
        EntryKind::Workspace => "Workspace"@,
        EntryKind::Command => "Command"@,
        EntryKind::PowerCommand => "PowerCommand"@,
        EntryKind::WorkspaceCommand => "WorkspaceCommand"@,
    }
}

/// The stable English label of an entry kind, which the frontends show
/// as-is beside each row.
pub fn kind_to_str(kind: EntryKind) -> (r: &'static str)
    ensures
        r@ == category_spec(kind),
{
    match kind {
        EntryKind::Application => "Application",
        EntryKind::Window => "Window",
        EntryKind::Workspace => "Workspace",
        EntryKind::Command => "Command",
        EntryKind::PowerCommand => "PowerCommand",
        EntryKind::WorkspaceCommand => "WorkspaceCommand",
    }
}

/// The sort key of a matching entry under an active query.
spec fn filter_key_ok(
    x: Keyed,
    entries: Seq<Entry>,
    tokens: Seq<Seq<char>>,
    mru_count: int,
) -> bool {
    let s = entry_score(entries[x.pos as int], tokens);
    &&& x.pos < entries.len()
    &&& x.minor == 0
    &&& s is Some
    &&& i64::MIN <= s->0 <= i64::MAX
    &&& if x.pos < mru_count {
        x.major == 0
    } else {
        x.major == 1 + (i64::MAX - s->0)
    }
}

proof fn lemma_filter_key_order(
    x: Keyed,
    y: Keyed,
    entries: Seq<Entry>,
    tokens: Seq<Seq<char>>,
    mru_count: int,
)
    requires
        filter_key_ok(x, entries, tokens, mru_count),
        filter_key_ok(y, entries, tokens, mru_count),
        keyed_lt(x, y),
    ensures
        filter_before(entries, tokens, mru_count, x.pos as int, y.pos as int),
{
}

/// Positions of the entries matching every token, in visible order.
fn filter_indices(entries: &Vec<Entry>, tokens: &Vec<String>, mru_count: usize) -> (r: Vec<usize>)
    ensures
        is_filter_order(entries@, views(tokens@), mru_count as int, r@.map_values(|i: usize| i as int)),
{
    let ghost toks = views(tokens@);
    let mut keyed: Vec<Keyed> = Vec::new();
    let mut i: usize = 0;
    while i < entries.len()
        invariant
            i <= entries@.len(),
            toks == views(tokens@),
            forall|k: int|
                0 <= k < keyed@.len() ==> (#[trigger] keyed@[k]).pos < i && filter_key_ok(
                    keyed@[k],
                    entries@,
                    toks,
                    mru_count as int,
                ),
            forall|a: int, b: int| 0 <= a < b < keyed@.len() ==> keyed@[a].pos < keyed@[b].pos,
            forall|j: int|
                0 <= j < i && (#[trigger] entry_score(entries@[j], toks)) is Some ==> exists|k: int|
                    0 <= k < keyed@.len() && keyed@[k].pos == j,
        decreases entries.len() - i,
    {
        let ghost old_keyed = keyed@;
        match score(&entries[i], tokens.as_slice()) {
            Some(s) => {
                let major: i128 = if i < mru_count {
                    0
                } else {
                    1 + (i64::MAX as i128 - s as i128)
                };
                keyed.push(Keyed { major, minor: 0, pos: i });
                assert(keyed@[keyed@.len() - 1].pos == i);
                assert(filter_key_ok(keyed@[keyed@.len() - 1], entries@, toks, mru_count as int));
            },
            None => {},
        }
        proof {
            assert forall|j: int|
                0 <= j < i + 1 && (#[trigger] entry_score(entries@[j], toks)) is Some implies exists|
                    k: int,
                | 0 <= k < keyed@.len() && keyed@[k].pos == j by {
                if j < i {
                    let k = choose|k: int| 0 <= k < old_keyed.len() && old_keyed[k].pos == j;
                    assert(keyed@[k] == old_keyed[k]);
                } else {
                    assert(keyed@[keyed@.len() - 1].pos == j);
                }
            }
        }
        i = i + 1;
    }
    let sorted = sort_keyed(keyed);
    let mut out: Vec<usize> = Vec::new();
    let mut k: usize = 0;
    while k < sorted.len()
        invariant
            k <= sorted@.len(),
            out@.len() == k,
            forall|m: int| 0 <= m < k ==> out@[m] == #[trigger] sorted@[m].pos,
        decreases sorted.len() - k,
    {
        out.push(sorted[k].pos);
        k = k + 1;
    }
    proof {
        let ord = out@.map_values(|i: usize| i as int);
        assert forall|m: int| 0 <= m < ord.len() implies 0 <= #[trigger] ord[m] < entries@.len()
            && entry_score(entries@[ord[m]], toks) is Some by {
            assert(sorted@.contains(sorted@[m]));
            let j = choose|j: int| 0 <= j < keyed@.len() && keyed@[j] == sorted@[m];
            assert(keyed@[j].pos == ord[m]);
        }
        assert forall|j: int|
            0 <= j < entries@.len() && (#[trigger] entry_score(entries@[j], toks)) is Some
                implies ord.contains(j) by {
            let kk = choose|kk: int| 0 <= kk < keyed@.len() && keyed@[kk].pos == j;
            assert(keyed@.contains(keyed@[kk]));
            assert(sorted@.contains(keyed@[kk]));
            let m = choose|m: int| 0 <= m < sorted@.len() && sorted@[m] == keyed@[kk];
            assert(ord[m] == j);
        }
        assert forall|a: int, b: int| 0 <= a < b < ord.len() implies filter_before(
            entries@,
            toks,
            mru_count as int,
            ord[a],
            ord[b],
        ) by {
            let xa = sorted@[a];
            let xb = sorted@[b];
            assert(sorted@.contains(xa));
            assert(sorted@.contains(xb));
            let ja = choose|j: int| 0 <= j < keyed@.len() && keyed@[j] == xa;
            let jb = choose|j: int| 0 <= j < keyed@.len() && keyed@[j] == xb;
            lemma_filter_key_order(xa, xb, entries@, toks, mru_count as int);
        }
    }
    out
}

/// The entries a frontend pushed, the active query and the visible order.
pub struct EntryList {
    entries: Vec<Entry>,
    query: String,
    /// `None` while the query is blank; otherwise the visible positions.
    filter: Option<Vec<usize>>,
    /// The leading slots of `entries` that hold entries in the activation
    /// history, in recency order (set by `apply_mru`).
    mru_count: usize,
}

impl EntryList {
    /// The entries, in list order.
    pub closed spec fn entries_view(&self) -> Seq<Entry> {
        self.entries@
    }

    /// The active query.
    pub closed spec fn query_view(&self) -> Seq<char> {
        self.query@
    }

    /// How many leading slots hold entries of the activation history.
    pub closed spec fn mru_count_view(&self) -> nat {
        self.mru_count as nat
    }

    /// The list positions of the visible entries, in visible order.
    pub closed spec fn visible(&self) -> Seq<int> {
        match self.filter {
            Some(v) => v@.map_values(|i: usize| i as int),
            None => all_positions(self.entries@.len()),
        }
    }

    /// The list is consistent: the visible order is the one its entries,
    /// query and history boundary give.
    pub open spec fn wf(&self) -> bool {
        &&& self.mru_count_view() <= self.entries_view().len()
        &&& visible_ok(
            self.entries_view(),
            self.query_view(),
            self.mru_count_view() as int,
            self.visible(),
        )
    }

    /// The entry at visible index `idx`, if there is one.
    pub open spec fn shown(&self, idx: int) -> Option<Entry> {
        if 0 <= idx < self.visible().len() {
            Some(self.entries_view()[self.visible()[idx]])
        } else {
            None
        }
    }

    /// An empty list with no query and no history.
    pub fn new() -> (r: Self)
        ensures
            r.wf(),
            r.entries_view() == Seq::<Entry>::empty(),
            r.query_view() == Seq::<char>::empty(),
            r.mru_count_view() == 0,
    {
        let r = EntryList { entries: Vec::new(), query: String::new(), filter: None, mru_count: 0 };
        assert(r.visible() =~= all_positions(0));
        r
    }

    /// Rebuilds the visible order from the entries, the query and the
    /// history boundary.
    fn recompute_filter(&mut self)
        requires
            old(self).mru_count_view() <= old(self).entries_view().len(),
        ensures
            final(self).wf(),
            final(self).entries_view() == old(self).entries_view(),
            final(self).query_view() == old(self).query_view(),
            final(self).mru_count_view() == old(self).mru_count_view(),
    {
        if blank(self.query.as_str()) {
            self.filter = None;
        } else {
            let tokens = split_whitespace(self.query.as_str());
            let v = filter_indices(&self.entries, &tokens, self.mru_count);
            self.filter = Some(v);
        }
    }

    /// Appends `entry`; the visible order is rebuilt, so the new entry is
    /// visible only when it matches the active query.
    pub fn push(&mut self, entry: Entry)
        requires
            old(self).wf(),
        ensures
            final(self).wf(),
            final(self).entries_view() == old(self).entries_view().push(entry),
            final(self).query_view() == old(self).query_view(),
            final(self).mru_count_view() == old(self).mru_count_view(),
    {
        self.entries.push(entry);
        self.recompute_filter();
    }

    /// Resets the list to the state `new` gives.
    pub fn clear(&mut self)
        ensures
            final(self).wf(),
            final(self).entries_view() == Seq::<Entry>::empty(),
            final(self).query_view() == Seq::<char>::empty(),
            final(self).mru_count_view() == 0,
    {
        *self = EntryList::new();
    }

    /// Makes `query` the active query and rebuilds the visible order. A
    /// blank query shows every entry.
    pub fn set_query(&mut self, query: &str)
        requires
            old(self).wf(),
        ensures
            final(self).wf(),
            final(self).entries_view() == old(self).entries_view(),
            final(self).query_view() == query@,
            final(self).mru_count_view() == old(self).mru_count_view(),
    {
        self.query = query.to_owned();
        self.recompute_filter();
    }

    /// The number of visible entries.
    pub fn len(&self) -> (n: usize)
        requires
            self.wf(),
        ensures
            n == self.visible().len(),
    {
        match &self.filter {
            Some(v) => v.len(),
            None => self.entries.len(),
        }
    }

    /// The list position of the entry at visible index `idx`.
    pub fn resolved(&self, idx: usize) -> (r: Option<usize>)
        requires
            self.wf(),
        ensures
            match r {
                Some(i) => idx < self.visible().len() && i == self.visible()[idx as int],
                None => idx >= self.visible().len(),
            },
    {
        match &self.filter {
            Some(v) => {
                if idx < v.len() {
                    Some(v[idx])
                } else {
                    None
                }
            },
            None => {
                if idx < self.entries.len() {
                    Some(idx)
                } else {
                    None
                }
            },
        }
    }

    /// The entry at visible index `idx`.
    pub fn resolve_filtered_index(&self, idx: usize) -> (r: Option<&Entry>)
        requires
            self.wf(),
        ensures
            match (r, self.shown(idx as int)) {
                (Some(e), Some(s)) => *e == s,
                (None, None) => true,
                _ => false,
            },
    {
        match self.resolved(idx) {
            Some(i) => Some(&self.entries[i]),
            None => None,
        }
    }
}

impl EntryList {
    /// Appends an application. Its recent window is unknown here; the
    /// frontend passes whether it has an open window.
    pub fn push_application(
        &mut self,
        name: String,
        bundle_id: String,
        icon: Option<String>,
        is_running: bool,
    )
        requires
            old(self).wf(),
        ensures
            final(self).wf(),
            final(self).entries_view() == old(self).entries_view().push(
                Entry::Application(
                    Application {
                        name,
                        desktop_id: bundle_id,
                        icon,
                        recent_window_id: None,
                        is_running,
                    },
                ),
            ),
            final(self).query_view() == old(self).query_view(),
            final(self).mru_count_view() == old(self).mru_count_view(),
    {
        self.push(
            Entry::Application(
                Application { name, desktop_id: bundle_id, icon, recent_window_id: None, is_running },
            ),
        );
    }

    /// Appends a window.
    pub fn push_window(
        &mut self,
        id: u64,
        title: String,
        app_name: Option<String>,
        icon: Option<String>,
        workspace: i32,
        app_desktop_id: Option<String>,
    )
        requires
            old(self).wf(),
        ensures
            final(self).wf(),
            final(self).entries_view() == old(self).entries_view().push(
                Entry::Window(Window { id, title, app_name, icon, workspace, app_desktop_id }),
            ),
            final(self).query_view() == old(self).query_view(),
            final(self).mru_count_view() == old(self).mru_count_view(),
    {
        self.push(Entry::Window(Window { id, title, app_name, icon, workspace, app_desktop_id }));
    }

    /// Appends the window-action command whose id is `kind_id`, aimed at
    /// `target_window_id`. An unknown id pushes nothing and gives `false`.
    pub fn push_command(
        &mut self,
        kind_id: &str,
        target_window_id: u64,
        work_area: WorkArea,
        current_frame: (i32, i32, i32, i32),
    ) -> (ok: bool)
        requires
            old(self).wf(),
        ensures
            final(self).wf(),
            ok == CommandKind::parse(kind_id@) is Some,
            final(self).entries_view() == match CommandKind::parse(kind_id@) {
                Some(kind) => old(self).entries_view().push(
                    Entry::Command(Command { kind, target_window_id, work_area, current_frame }),
                ),
                None => old(self).entries_view(),
            },
            final(self).query_view() == old(self).query_view(),
            final(self).mru_count_view() == old(self).mru_count_view(),
    {
        match CommandKind::from_id(kind_id) {
            Some(kind) => {
                self.push(
                    Entry::Command(Command { kind, target_window_id, work_area, current_frame }),
                );
                true
            },
            None => false,
        }
    }

    /// Appends the power command whose id is `kind_id`. An unknown id
    /// pushes nothing and gives `false`.
    pub fn push_power_command(&mut self, kind_id: &str) -> (ok: bool)
        requires
            old(self).wf(),
        ensures
            final(self).wf(),
            ok == PowerCommandKind::parse(kind_id@) is Some,
            final(self).entries_view() == match PowerCommandKind::parse(kind_id@) {
                Some(kind) => old(self).entries_view().push(
                    Entry::PowerCommand(PowerCommand { kind }),
                ),
                None => old(self).entries_view(),
            },
            final(self).query_view() == old(self).query_view(),
            final(self).mru_count_view() == old(self).mru_count_view(),
    {
        match PowerCommandKind::from_id(kind_id) {
            Some(kind) => {
                self.push(Entry::PowerCommand(PowerCommand { kind }));
                true
            },
            None => false,
        }
    }

    /// The display name of the entry at visible index `idx`.
    pub fn get_name(&self, idx: usize) -> (r: Option<&str>)
        requires
            self.wf(),
        ensures
            match (r, self.shown(idx as int)) {
                (Some(s), Some(e)) => s@ == e.name_spec(),
                (None, None) => true,
                _ => false,
            },
    {
        match self.resolved(idx) {
            Some(i) => Some(self.entries[i].name()),
            None => None,
        }
    }

    /// The bundle (desktop) id of the application at visible index `idx`;
    /// `None` for every other kind of entry.
    pub fn get_bundle_id(&self, idx: usize) -> (r: Option<&str>)
        requires
            self.wf(),
        ensures
            match (r, self.shown(idx as int)) {
                (Some(s), Some(Entry::Application(a))) => s@ == a.desktop_id@,
                (None, Some(Entry::Application(_))) => false,
                (Some(_), _) => false,
                (None, _) => true,
            },
    {
        match self.resolved(idx) {
            Some(i) => match &self.entries[i] {
                Entry::Application(app) => Some(app.desktop_id.as_str()),
                _ => None,
            },
            None => None,
        }
    }

    /// The category label of the entry at visible index `idx`.
    pub fn get_category(&self, idx: usize) -> (r: Option<&'static str>)
        requires
            self.wf(),
        ensures
            match (r, self.shown(idx as int)) {
                (Some(s), Some(e)) => s@ == category_spec(e.kind_spec()),
                (None, None) => true,
                _ => false,
            },
    {
        match self.resolved(idx) {
            Some(i) => Some(kind_to_str(self.entries[i].kind())),
            None => None,
        }
    }

    /// The icon the frontend pushed with the application or window at
    /// visible index `idx`; `None` when it pushed none and for every other
    /// kind of entry.
    pub fn get_icon(&self, idx: usize) -> (r: Option<&str>)
        requires
            self.wf(),
        ensures
            match self.shown(idx as int) {
                Some(Entry::Application(a)) => crate::model::opt_str_view(r) == crate::model::opt_view(a.icon),
                Some(Entry::Window(w)) => crate::model::opt_str_view(r) == crate::model::opt_view(w.icon),
                _ => r is None,
            },
    {
        match self.resolved(idx) {
            Some(i) => match &self.entries[i] {
                Entry::Application(app) => match &app.icon {
                    Some(s) => Some(s.as_str()),
                    None => None,
                },
                Entry::Window(w) => match &w.icon {
                    Some(s) => Some(s.as_str()),
                    None => None,
                },
                _ => None,
            },
            None => None,
        }
    }

    /// The id of the window at visible index `idx`; `0` for every other
    /// kind of entry and past the end.
    pub fn get_window_id(&self, idx: usize) -> (r: u64)
        requires
            self.wf(),
        ensures
            r == match self.shown(idx as int) {
                Some(Entry::Window(w)) => w.id,
                _ => 0,
            },
    {
        match self.resolved(idx) {
            Some(i) => match &self.entries[i] {
                Entry::Window(w) => w.id,
                _ => 0,
            },
            None => 0,
        }
    }

    /// Whether the entry at visible index `idx` is an application with an
    /// open window.
    pub fn get_is_running(&self, idx: usize) -> (r: bool)
        requires
            self.wf(),
        ensures
            r == match self.shown(idx as int) {
                Some(Entry::Application(a)) => a.is_running,
                _ => false,
            },
    {
        match self.resolved(idx) {
            Some(i) => match &self.entries[i] {
                Entry::Application(app) => app.is_running,
                _ => false,
            },
            None => false,
        }
    }

    /// The command id of the window-action command at visible index `idx`.
    pub fn get_command_id(&self, idx: usize) -> (r: Option<&'static str>)
        requires
            self.wf(),
        ensures
            match (r, self.shown(idx as int)) {
                (Some(s), Some(Entry::Command(c))) => s@ == c.kind.id_spec(),
                (None, Some(Entry::Command(_))) => false,
                (Some(_), _) => false,
                (None, _) => true,
            },
    {
        match self.resolved(idx) {
            Some(i) => match &self.entries[i] {
                Entry::Command(c) => Some(c.kind.as_id()),
                _ => None,
            },
            None => None,
        }
    }

    /// The command id of the power command at visible index `idx`.
    pub fn get_power_command_id(&self, idx: usize) -> (r: Option<&'static str>)
        requires
            self.wf(),
        ensures
            match (r, self.shown(idx as int)) {
                (Some(s), Some(Entry::PowerCommand(c))) => s@ == c.kind.id_spec(),
                (None, Some(Entry::PowerCommand(_))) => false,
                (Some(_), _) => false,
                (None, _) => true,
            },
    {
        match self.resolved(idx) {
            Some(i) => match &self.entries[i] {
                Entry::PowerCommand(c) => Some(c.kind.as_id()),
                _ => None,
            },
            None => None,
        }
    }

    /// The target rectangle of the window-action command at visible index
    /// `idx`: `compute_geometry` of its kind, work area and frame. `None`
    /// for the commands without a rectangle and for every other kind of
    /// entry.
    pub fn get_command_geometry(&self, idx: usize) -> (r: Option<(i32, i32, i32, i32)>)
        requires
            self.wf(),
            geometry_ok(self.shown(idx as int)),
        ensures
            match self.shown(idx as int) {
                Some(Entry::Command(c)) => rect_ints(r) == geometry(
                    c.kind,
                    c.work_area,
                    c.current_frame,
                ),
                _ => r is None,
            },
    {
        match self.resolved(idx) {
            Some(i) => match &self.entries[i] {
                Entry::Command(c) => compute_geometry(c.kind, &c.work_area, c.current_frame),
                _ => None,
            },
            None => None,
        }
    }
}

/// A command entry's rectangle can be computed without overflow; holds of
/// every other entry.
pub open spec fn geometry_ok(e: Option<Entry>) -> bool {
    match e {
        Some(Entry::Command(c)) => geometry_defined(c.kind, c.work_area, c.current_frame),
        _ => true,
    }
}

/// The history sort key of list position `x.pos`: its recency rank, or a
/// value past every rank when it is not in the history.
spec fn history_key_ok(x: Keyed, entries: Seq<Entry>, recent: Seq<RefView>) -> bool {
    &&& x.pos < entries.len()
    &&& x.minor == 0
    &&& match first_pos(recent, entries[x.pos as int].ref_spec()) {
        Some(p) => x.major == p && p <= usize::MAX,
        None => x.major == usize::MAX + 1,
    }
}

proof fn lemma_history_key_order(x: Keyed, y: Keyed, entries: Seq<Entry>, recent: Seq<RefView>)
    requires
        history_key_ok(x, entries, recent),
        history_key_ok(y, entries, recent),
        keyed_lt(x, y),
    ensures
        history_before(entries, recent, x.pos as int, y.pos as int),
{
}

impl EntryList {
    /// Reorders the entries by the activation history `recent` (most recent
    /// first, as the store reads it): entries in the history first, most
    /// recent first, then the others; ties keep list order. The history
    /// entries become the leading `mru_count` slots, and the visible order
    /// is rebuilt.
    pub fn apply_mru(&mut self, recent: &[EntryRef])
        requires
            old(self).wf(),
        ensures
            final(self).wf(),
            final(self).query_view() == old(self).query_view(),
            exists|ord: Seq<int>|
                #![trigger is_history_order(old(self).entries_view(), ref_views(recent@), ord)]
                is_history_order(old(self).entries_view(), ref_views(recent@), ord)
                    && final(self).entries_view() == ord.map_values(
                    |i: int| old(self).entries_view()[i],
                ),
            forall|k: int|
                0 <= k < final(self).entries_view().len() ==> (k < final(self).mru_count_view()
                    <==> known(ref_views(recent@), #[trigger] final(self).entries_view()[k])),
    {
        let ranks = mru_rank_map(recent);
        let ghost rv = ref_views(recent@);
        assert(ranks@ == rv);
        let mut keyed: Vec<Keyed> = Vec::new();
        let mut i: usize = 0;
        while i < self.entries.len()
            invariant
                i <= self.entries@.len(),
                ranks@ == rv,
                keyed@.len() == i,
                forall|k: int|
                    0 <= k < i ==> (#[trigger] keyed@[k]).pos == k && history_key_ok(
                        keyed@[k],
                        self.entries@,
                        rv,
                    ),
            decreases self.entries.len() - i,
        {
            let reference = self.entries[i].reference();
            let major: i128 = match ranks.get(&reference) {
                Some(p) => p as i128,
                None => usize::MAX as i128 + 1,
            };
            keyed.push(Keyed { major, minor: 0, pos: i });
            i = i + 1;
        }
        let sorted = sort_keyed(keyed);
        let ghost old_entries = self.entries@;
        assert forall|m: int| 0 <= m < sorted@.len() implies history_key_ok(
            #[trigger] sorted@[m],
            old_entries,
            rv,
        ) by {
            assert(sorted@.contains(sorted@[m]));
            let j = choose|j: int| 0 <= j < keyed@.len() && keyed@[j] == sorted@[m];
        }
        let mut reordered: Vec<Entry> = Vec::new();
        let mut k: usize = 0;
        while k < sorted.len()
            invariant
                k <= sorted@.len(),
                old_entries == self.entries@,
                reordered@.len() == k,
                forall|m: int| 0 <= m < sorted@.len() ==> history_key_ok(#[trigger] sorted@[m], old_entries, rv),
                forall|m: int| 0 <= m < k ==> reordered@[m] == old_entries[#[trigger] sorted@[m].pos as int],
            decreases sorted.len() - k,
        {
            reordered.push(self.entries[sorted[k].pos].duplicate());
            k = k + 1;
        }
        let mut count: usize = 0;
        while count < sorted.len() && sorted[count].major <= usize::MAX as i128
            invariant
                count <= sorted@.len(),
                forall|m: int| 0 <= m < count ==> (#[trigger] sorted@[m]).major <= usize::MAX,
            decreases sorted.len() - count,
        {
            count = count + 1;
        }
        proof {
            let ord = sorted@.map_values(|x: Keyed| x.pos as int);
            assert forall|i: int| 0 <= i < old_entries.len() implies #[trigger] ord.contains(i) by {
                assert(keyed@.contains(keyed@[i]));
                let m = choose|m: int| 0 <= m < sorted@.len() && sorted@[m] == keyed@[i];
                assert(ord[m] == i);
            }
            assert forall|a: int, b: int| 0 <= a < b < ord.len() implies history_before(
                old_entries,
                rv,
                ord[a],
                ord[b],
            ) by {
                lemma_history_key_order(sorted@[a], sorted@[b], old_entries, rv);
            }
            assert(is_history_order(old_entries, rv, ord));
            assert(reordered@ =~= ord.map_values(|i: int| old_entries[i]));
            assert forall|m: int| 0 <= m < sorted@.len() implies (m < count <==> known(
                rv,
                #[trigger] reordered@[m],
            )) by {
                if m >= count {
                    assert(sorted@[count as int].major > usize::MAX);
                    if m > count {
                        assert(keyed_lt(sorted@[count as int], sorted@[m]));
                    }
                }
            }
        }
        self.entries = reordered;
        self.mru_count = count;
        self.recompute_filter();
    }
}

/// With an empty activation history, reordering by history keeps every
/// entry where it was.
pub proof fn lemma_empty_history_keeps_order(entries: Seq<Entry>, ord: Seq<int>)
    requires
        is_history_order(entries, Seq::<RefView>::empty(), ord),
    ensures
        ord == all_positions(entries.len()),
        ord.map_values(|i: int| entries[i]) == entries,
{
    assert forall|a: int, b: int| 0 <= a < b < ord.len() implies ord[a] < ord[b] by {
        assert(history_before(entries, Seq::<RefView>::empty(), ord[a], ord[b]));
    }
    lemma_increasing_cover(ord, entries.len());
    assert(ord.map_values(|i: int| entries[i]) =~= entries);
}

/// A blank query shows every entry, in list order.
pub proof fn lemma_blank_query_shows_every_entry(l: EntryList)
    requires
        l.wf(),
        is_blank(l.query_view()),
    ensures
        l.visible().len() == l.entries_view().len(),
        forall|idx: int|
            0 <= idx < l.entries_view().len() ==> #[trigger] l.shown(idx) == Some(
                l.entries_view()[idx],
            ),
{
}

/// Under an active query, an entry from the activation history is never
/// shown below one that is not in it.
pub proof fn lemma_history_entries_lead(l: EntryList, a: int, b: int)
    requires
        l.wf(),
        !is_blank(l.query_view()),
        0 <= a < b < l.visible().len(),
        l.visible()[b] < l.mru_count_view(),
    ensures
        l.visible()[a] < l.mru_count_view(),
{
    let toks = ws_tokens(l.query_view());
    assert(filter_before(
        l.entries_view(),
        toks,
        l.mru_count_view() as int,
        l.visible()[a],
        l.visible()[b],
    ));
}

/// The visible order is determined by the entries, the query and the
/// history boundary: two lists that agree on those show the same entries
/// in the same order.
pub proof fn lemma_visible_determined(l1: EntryList, l2: EntryList)
    requires
        l1.wf(),
        l2.wf(),
        l1.entries_view() == l2.entries_view(),
        l1.query_view() == l2.query_view(),
        l1.mru_count_view() == l2.mru_count_view(),
    ensures
        l1.visible() == l2.visible(),
{
    if !is_blank(l1.query_view()) {
        let entries = l1.entries_view();
        let toks = ws_tokens(l1.query_view());
        let mc = l1.mru_count_view() as int;
        let o1 = l1.visible();
        let o2 = l2.visible();
        let lt = |i: int, j: int| filter_before(entries, toks, mc, i, j);
        assert forall|x: int| o1.contains(x) <==> o2.contains(x) by {
            if o1.contains(x) {
                let k = choose|k: int| 0 <= k < o1.len() && o1[k] == x;
                assert(entry_score(entries[o1[k]], toks) is Some);
            }
            if o2.contains(x) {
                let k = choose|k: int| 0 <= k < o2.len() && o2[k] == x;
                assert(entry_score(entries[o2[k]], toks) is Some);
            }
        }
        assert forall|a: int, b: int| 0 <= a < b < o1.len() implies lt(o1[a], o1[b]) by {}
        assert forall|a: int, b: int| 0 <= a < b < o2.len() implies lt(o2[a], o2[b]) by {}
        assert forall|x: int, y: int| #[trigger] lt(x, y) implies !lt(y, x) by {}
        lemma_sorted_unique(o1, o2, lt);
    }
}

/// Reordering by the same history a second time changes nothing: the
/// history order of an already reordered list is its own order.
pub proof fn lemma_history_reorder_idempotent(
    entries: Seq<Entry>,
    recent: Seq<RefView>,
    ord1: Seq<int>,
    ord2: Seq<int>,
)
    requires
        is_history_order(entries, recent, ord1),
        is_history_order(ord1.map_values(|i: int| entries[i]), recent, ord2),
    ensures
        ord2 == all_positions(entries.len()),
{
    let e2 = ord1.map_values(|i: int| entries[i]);
    assert forall|a: int, b: int| 0 <= a < b < ord2.len() implies ord2[a] < ord2[b] by {
        let p = ord2[a];
        let q = ord2[b];
        assert(history_before(e2, recent, p, q));
        if q < p {
            assert(history_before(entries, recent, ord1[q], ord1[p]));
            assert(e2[p] == entries[ord1[p]]);
            assert(e2[q] == entries[ord1[q]]);
        }
        if p == q {
            assert(!history_before(e2, recent, p, p));
        }
    }
    lemma_increasing_cover(ord2, e2.len());
}

} // verus!
