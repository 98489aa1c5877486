//! Small decisions of the launcher's list view: where the selection moves,
//! when the list shows its "No matches" row, which rows carry the running
//! indicator, and how an icon identifier is looked up.

use vstd::prelude::*;

use crate::model::Entry;
use crate::text::{blank, chars_of, has_prefix, is_blank, is_prefix};

verus! {

/// The row the selection moves to from row `current` (`None` when no row
/// is selected) by `delta` rows: `None` when nothing is selected or the
/// move would go above the first row. The caller still checks that the
/// row exists.
pub fn move_target(current: Option<i32>, delta: i32) -> (r: Option<i32>)
    requires
        match current {
            Some(c) => c >= 0 ==> i32::MIN <= c + delta <= i32::MAX,
            None => true,
        },
    ensures
        r == match current {
            Some(c) => if c >= 0 && c + delta >= 0 {
                Some((c + delta) as i32)
            } else {
                None
            },
            None => None,
        },
{
    match current {
        Some(c) => {
            if c < 0 {
                return None;
            }
            let target = c + delta;
            if target < 0 {
                None
            } else {
                Some(target)
            }
        },
        None => None,
    }
}

/// Whether the list shows its "No matches" row: nothing is visible although
/// the user typed a query.
pub fn needs_placeholder(visible_len: usize, query: &str) -> (r: bool)
    ensures
        r == (visible_len == 0 && !is_blank(query@)),
{
    visible_len == 0 && !blank(query)
}

/// Whether the row of `entry` shows the running indicator: an application
/// with an open window.
pub fn running_indicator(entry: &Entry) -> (r: bool)
    ensures
        r == (*entry matches Entry::Application(a) && a.recent_window_id is Some),
{
    match entry {
        Entry::Application(a) => a.recent_window_id.is_some(),
        _ => false,
    }
}

/// Whether an icon identifier is a file path (it starts with `/`) rather
/// than the name of a themed icon.
pub fn icon_is_path(icon: &str) -> (r: bool)
    ensures
        r == is_prefix(seq!['/'], icon@),
{
    let cs = chars_of(icon);
    let mut slash: Vec<char> = Vec::new();
    slash.push('/');
    assert(slash@ =~= seq!['/']);
    has_prefix(cs.as_slice(), slash.as_slice())
}

} // verus!
