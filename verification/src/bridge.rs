//! The ownership protocol for buffers that cross the library boundary: a
//! merge hands the caller one owned buffer, and the paired release (or the
//! transfer of its contents) consumes the buffer, so every buffer has one
//! owner at a time and is released exactly once.

use vstd::prelude::*;
use crate::csv::MergeError;
use crate::csv::csv_values;
use crate::csv::first_unknown;
use crate::csv::merge_files;
use crate::csv::merged_content;

verus! {

/// An owned buffer produced by a merge. Only [`csv_merge_files`] creates
/// one; [`csv_free_merged_file`] or [`MergedBuffer::into_string`] consumes
/// it, so it cannot be read after it was released, nor released twice.
#[derive(Debug)]
pub struct MergedBuffer {
    content: String,
}

impl View for MergedBuffer {
    type V = Seq<char>;

    closed spec fn view(&self) -> Seq<char> {
        self.content@
    }
}

impl MergedBuffer {
    /// Borrows the merged text for the duration of the call.
    pub fn as_str(&self) -> (s: &str)
        ensures
            s@ == self@,
    {
        self.content.as_str()
    }

    /// Transfers the merged text out, consuming the buffer.
    pub fn into_string(self) -> (s: String)
        ensures
            s@ == self@,
    {
        self.content
    }
}

/// Merges the files named by `csv` into one owned buffer, whose ownership
/// passes to the caller. The CSV text itself is consumed: taking it by
/// value releases the caller's buffer when this call returns.
pub fn csv_merge_files(csv: String) -> (r: Result<MergedBuffer, MergeError>)
    ensures
        r is Ok <==> first_unknown(csv_values(csv@)) is None,
        r matches Ok(buffer) ==> merged_content(csv_values(csv@)) == Some(buffer@),
        r matches Err(e) ==> (e matches MergeError::UnknownFile(name) && first_unknown(
            csv_values(csv@),
        ) == Some(name@)),
{
    match merge_files(csv.as_str()) {
        Ok(merged) => Ok(MergedBuffer { content: merged }),
        Err(e) => Err(e),
    }
}

/// Releases a buffer returned by [`csv_merge_files`]: the one paired
/// release operation. Taking the buffer by value, it can be called only
/// once per buffer, and the buffer cannot be observed afterwards.
pub fn csv_free_merged_file(merged: MergedBuffer) {
    let MergedBuffer { content: _content } = merged;
}

} // verus!
