//! Where the application menu's `Find…` item goes.

use vstd::prelude::*;
use crate::text::str_eq;

verus! {

/// Id routed through the global menu-event handler.
pub const MENU_ID_FIND: &'static str = "app-find";

pub open spec fn opt_text_view(o: Option<String>) -> Option<Seq<char>> {
    match o {
        Some(s) => Some(s@),
        None => None,
    }
}

/// `i` is the first submenu titled `Edit`.
pub open spec fn first_edit_at(titles: Seq<Option<String>>, i: int) -> bool {
    &&& 0 <= i < titles.len()
    &&& opt_text_view(titles[i]) == Some("Edit"@)
    &&& forall|j: int| 0 <= j < i ==> opt_text_view(titles[j]) != Some("Edit"@)
}

/// The menu item that takes `Find…`: the first submenu titled `Edit`.
/// `titles` has one entry per top-level item, the title of a submenu
/// (empty when it has none) or `None` for an item that is not a submenu.
/// `None` when there is no such submenu: `Find…` then goes at the top
/// level.
pub fn edit_submenu_position(titles: &Vec<Option<String>>) -> (r: Option<usize>)
    ensures
        r matches Some(i) ==> first_edit_at(titles@, i as int),
        r is None ==> forall|j: int| 0 <= j < titles@.len() ==> opt_text_view(titles@[j]) != Some(
            "Edit"@,
        ),
{
    let mut i: usize = 0;
    while i < titles.len()
        invariant
            i <= titles@.len(),
            forall|j: int| 0 <= j < i ==> opt_text_view(titles@[j]) != Some("Edit"@),
        decreases titles@.len() - i,
    {
        if let Some(t) = &titles[i] {
            if str_eq(t.as_str(), "Edit") {
                return Some(i);
            }
        }
        i = i + 1;
    }
    None
}

} // verus!
