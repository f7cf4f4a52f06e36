//! Core logic of a small HTTP file server: it resolves static file
//! requests under a fixed static root and ingests multipart uploads into a
//! fixed upload root.
//!
//! Everything here is pure: the functions decide what a handler should do
//! (which file to read or write, which status and body to answer), while the
//! surrounding binary performs the actual network and disk work.

use vstd::prelude::*;

pub mod content_type;
pub mod static_files;
pub mod text;
pub mod upload;

verus! {

/// The static root and the upload root are disjoint: no file served from the
/// static directory is a file written by an upload, whatever the two names.
pub proof fn lemma_roots_disjoint(served: Seq<char>, stored: Seq<char>)
    ensures
        crate::static_files::static_path_of(served) != crate::upload::upload_path_of(stored),
{
    reveal_strlit("static/");
    reveal_strlit("uploads/");
    assert(crate::static_files::static_path_of(served)[0] == 's');
    assert(crate::upload::upload_path_of(stored)[0] == 'u');
}

} // verus!
