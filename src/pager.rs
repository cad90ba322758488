//! Whether rendered output goes straight to the terminal or through a pager.

use vstd::prelude::*;

verus! {

/// Where the rendered text goes.
#[derive(Clone, Copy, Debug, PartialEq, Eq, Structural)]
pub enum Paging {
    Direct,
    Paged,
}

/// The choice for `total_lines` lines on a terminal of `rows` rows; `rows` is
/// `None` where the output is no terminal or its height is unknown.
pub open spec fn paging_for(total_lines: nat, rows: Option<usize>) -> Paging {
    match rows {
        Some(h) => if h > 0 && total_lines + 1 >= h {
            Paging::Paged
        } else {
            Paging::Direct
        },
        None => Paging::Direct,
    }
}

/// Pages the output once it fills all but the last row of the terminal;
/// prints it directly where the height is unknown or zero.
pub fn decide(total_lines: usize, rows: Option<usize>) -> (r: Paging)
    ensures
        r == paging_for(total_lines as nat, rows),
{
    match rows {
        Some(h) => {
            if h > 0 && total_lines >= h - 1 {
                Paging::Paged
            } else {
                Paging::Direct
            }
        },
        None => Paging::Direct,
    }
}

/// Without a known terminal height the output is never paged, however long.
pub proof fn lemma_unknown_height_direct(total_lines: nat)
    ensures
        paging_for(total_lines, None) == Paging::Direct,
        paging_for(total_lines, Some(0)) == Paging::Direct,
{
}

/// The boundary lies at one line short of the terminal height: as many lines
/// as rows are paged, two fewer are not.
pub proof fn lemma_page_boundary(rows: usize)
    requires
        rows >= 2,
    ensures
        paging_for(rows as nat, Some(rows)) == Paging::Paged,
        paging_for((rows - 1) as nat, Some(rows)) == Paging::Paged,
        paging_for((rows - 2) as nat, Some(rows)) == Paging::Direct,
{
}

} // verus!
