//! The operator-facing report of one mount's aggregate status.

use vstd::prelude::*;
use crate::records::MountStatus;
use crate::textfmt::{i64_to_string, int_str, pad_left, padded_left};

verus! {

/// The status report: one line per count, each count right-aligned to six
/// characters.
pub open spec fn status_text(st: MountStatus) -> Seq<char> {
    "\n        Total entries: "@ + padded_left(int_str(st.total_entries as int), 6)
        + "\n          Directories: "@ + padded_left(int_str(st.directories as int), 6)
        + "\n                Files: "@ + padded_left(int_str(st.files as int), 6)
        + "\nFiles without digiest: "@ + padded_left(int_str(st.files_wo_md5 as int), 6)
}

impl MountStatus {
    /// Render the report.
    pub fn render(&self) -> (r: String)
        ensures
            r@ == status_text(*self),
    {
        let mut out = "\n        Total entries: ".to_owned();
        out.append(pad_left(i64_to_string(self.total_entries).as_str(), 6).as_str());
        out.append("\n          Directories: ");
        out.append(pad_left(i64_to_string(self.directories).as_str(), 6).as_str());
        out.append("\n                Files: ");
        out.append(pad_left(i64_to_string(self.files).as_str(), 6).as_str());
        out.append("\nFiles without digiest: ");
        out.append(pad_left(i64_to_string(self.files_wo_md5).as_str(), 6).as_str());
        out
    }
}

} // verus!
