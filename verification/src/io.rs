//! Reading and writing entries against a seekable byte stream.

use vstd::prelude::*;
use crate::err::FormatError;
use crate::stream::{overwrite, Stream};

verus! {

/// What a read finds at an offset: a clean end of stream (no bytes at all),
/// a truncated tail (a record starts but its declared bytes run out), or one
/// whole entry.
pub enum ReadOutcome<M> {
    End,
    Truncated,
    Entry(M),
}

/// One entry kind's read/write contract against a stream.
///
/// `Self::V` is the entry's mathematical content; `encoding` says which bytes
/// the entry puts on a stream and `parse` what decoding finds at an offset of
/// a stream's bytes. The two exec methods are exact with respect to them.
pub trait EntryIO: View + Sized {
    /// The bytes this entry puts on a stream.
    spec fn encoding(&self) -> Seq<u8>;

    /// What decoding finds at `offset` of `data`.
    spec fn parse(data: Seq<u8>, offset: int) -> ReadOutcome<Self::V>;

    /// Write the entry's bytes at the stream's cursor and return the byte
    /// offset at which they start; the cursor ends just past them.
    fn write_to(&self, w: &mut Stream) -> (r: Result<u64, FormatError>)
        requires
            old(w).pos <= old(w).data@.len(),
            old(w).pos + self.encoding().len() <= usize::MAX,
        ensures
            final(w).data@ == overwrite(old(w).data@, old(w).pos as int, self.encoding()),
            final(w).pos == old(w).pos + self.encoding().len(),
            r matches Ok(off) && off == old(w).pos,
    ;

    /// Decode the entry stored at `offset`: `Ok(None)` at a clean end of
    /// stream, `Err(Truncated)` on a truncated tail, and otherwise the entry,
    /// whose placement fields are left for the caller to assign.
    fn read_from(r: &mut Stream, offset: u64) -> (res: Result<Option<Self>, FormatError>)
        ensures
            final(r).data@ == old(r).data@,
            match Self::parse(old(r).data@, offset as int) {
                ReadOutcome::End => res matches Ok(o) && o is None,
                ReadOutcome::Truncated => res matches Err(e) && e == FormatError::Truncated,
                ReadOutcome::Entry(m) => res matches Ok(o) && o matches Some(entry) && entry@
                    == m,
            },
    ;
}

} // verus!
