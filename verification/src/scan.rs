//! Decision logic of the local scanner. The traversal itself walks the
//! filesystem and is driven from outside; each visited entry is recorded
//! through `MountStore::upsert_file`, and hidden entries are pruned with
//! `is_hidden`.

use vstd::prelude::*;

verus! {

/// A hidden entry: its base name begins with a dot. The scanner skips such
/// entries and everything below them.
pub open spec fn hidden_name(name: Seq<char>) -> bool {
    name.len() > 0 && name[0] == '.'
}

/// Whether the entry with base name `name` is hidden to the scanner.
pub fn is_hidden(name: &str) -> (r: bool)
    ensures
        r == hidden_name(name@),
{
    if name.unicode_len() == 0 {
        false
    } else {
        name.get_char(0) == '.'
    }
}

} // verus!
