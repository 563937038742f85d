//! The whole listing, in the mode that the options select.

use vstd::prelude::*;

use crate::grid::{grid_text, render_grid};
use crate::long::{long_text, render_long};
use crate::record::{DirEntryRecord, RsArgs};
use crate::style::StyleTable;

verus! {

/// The listing the options ask for: the detailed report where `long` is set
/// (it takes precedence over `force_col`), else the grid.
pub open spec fn listing_text(
    args: RsArgs,
    records: Seq<DirEntryRecord>,
    table: Seq<crate::style::StyleEntry>,
    terminal_columns: int,
) -> Seq<char> {
    if args.long {
        long_text(records, args.all)
    } else {
        grid_text(table, records, args.all, args.force_col, terminal_columns)
    }
}

/// Renders `records` as the options ask.
pub fn render_listing(
    args: &RsArgs,
    records: &Vec<DirEntryRecord>,
    table: &StyleTable,
    terminal_columns: usize,
) -> (r: String)
    requires
        forall|i: int| 0 <= i < records.len() ==> (#[trigger] records@[i]).modified.wf(),
    ensures
        r@ == listing_text(*args, records@, table@, terminal_columns as int),
{
    if args.long {
        render_long(records, args.all)
    } else {
        render_grid(records, table, args.all, args.force_col, terminal_columns)
    }
}

} // verus!
