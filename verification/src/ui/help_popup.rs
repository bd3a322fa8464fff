use vstd::prelude::*;

verus! {

/// Number of lines of the help text (section headers, entries and spacers).
pub const HELP_CONTENT_LINES: u16 = 49;

/// Largest scroll offset of the help popup: the lines that do not fit into a
/// popup of `popup_height` rows, of which two are its border.
pub fn content_height(popup_height: u16) -> (r: u16)
    ensures
        r == if popup_height <= 2 {
            HELP_CONTENT_LINES as int
        } else if HELP_CONTENT_LINES <= popup_height - 2 {
            0
        } else {
            HELP_CONTENT_LINES - (popup_height - 2)
        },
{
    let total: u16 = HELP_CONTENT_LINES;
    let visible = popup_height.saturating_sub(2);
    total.saturating_sub(visible)
}

} // verus!
