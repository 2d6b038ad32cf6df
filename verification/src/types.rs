use vstd::prelude::*;

verus! {

/// One slice of the input document, tagged with its position in the stream.
///
/// Chunks partition the input: concatenating the `text` fields in `index`
/// order reconstructs the document exactly, and indices run densely from
/// zero.
pub struct ChunkTask {
    pub index: usize,
    pub text: String,
}

} // verus!
