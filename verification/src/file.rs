//! The file store: maps a logical filename to its textual content. The
//! store defines exactly two documents; every other name fails to resolve.

use vstd::prelude::*;
use vstd::string::StringExecFns;
use crate::text::str_eq;

verus! {

/// The content the store defines for `name`, or `None` for an unknown name.
pub open spec fn file_content(name: Seq<char>) -> Option<Seq<char>> {
    if name == "chapter1.md"@ {
        Some("# Getting started\n"@)
    } else if name == "chapter2.md"@ {
        Some("# Wrapping up\n"@)
    } else {
        None
    }
}

/// A handle into the file store, remembering the name it was opened with.
pub struct File(String);

impl View for File {
    type V = Seq<char>;

    closed spec fn view(&self) -> Seq<char> {
        self.0@
    }
}

/// Opens a handle for `filename`; resolution happens at [`File::to_str`].
pub fn read_file(filename: &str) -> (file: File)
    ensures
        file@ == filename@,
{
    File(String::from_str(filename))
}

impl File {
    /// The store's content for this file's name, or `None` when the store
    /// defines nothing for it.
    pub fn to_str(&self) -> (content: Option<&str>)
        ensures
            match content {
                Some(c) => file_content(self@) == Some(c@),
                None => file_content(self@) is None,
            },
    {
        if str_eq(self.0.as_str(), "chapter1.md") {
            Some("# Getting started\n")
        } else if str_eq(self.0.as_str(), "chapter2.md") {
            Some("# Wrapping up\n")
        } else {
            None
        }
    }
}

} // verus!
