//! Building the byte payload that appends one document to a multi-document
//! file.
//!
//! A file holds zero or more documents. Appending to a non-empty file first
//! inserts a blank line and a `---` separator line; appending to an empty or
//! missing file writes the document directly.

use vstd::prelude::*;

verus! {

/// The separator inserted between two documents in one file: a blank line,
/// then a line holding `---`.
pub open spec fn spec_doc_separator() -> Seq<char> {
    seq!['\n', '-', '-', '-', '\n']
}

/// What must be written at the end of a file to append `doc`, given whether
/// the file already holds data.
pub open spec fn spec_append_payload(file_nonempty: bool, doc: Seq<char>) -> Seq<char> {
    if file_nonempty {
        spec_doc_separator() + doc
    } else {
        doc
    }
}

/// Returns the exact text to append to a file in order to add the document
/// `doc`: the document itself, preceded by the separator when the file
/// already holds data.
pub fn append_payload(file_nonempty: bool, doc: &str) -> (r: String)
    ensures
        r@ == spec_append_payload(file_nonempty, doc@),
{
    if file_nonempty {
        let mut s = String::from_str("\n---\n");
        proof {
            reveal_strlit("\n---\n");
            assert(s@ =~= spec_doc_separator());
        }
        s.append(doc);
        s
    } else {
        String::from_str(doc)
    }
}

} // verus!
