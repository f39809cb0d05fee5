//! A whole conversion: from the bytes of a frame to the pieces of its grid.

use vstd::prelude::*;
use crate::assemble::assemble;
use crate::dataset::dataset_of;
use crate::decode::decode;
use crate::decode::frame_at;
use crate::decode::lemma_truncation_is_fatal;
use crate::error::ConvertError;
use crate::output::units;
use crate::output::Piece;
use crate::output::Unit;
use crate::render::grid_units;
use crate::render::render;

verus! {

/// What the stream `s` converts to: the output for the grid of its frame,
/// or the first fatal condition met. Decoding comes first; a frame that
/// decodes but lacks data for the output is incomplete.
pub open spec fn converted(s: Seq<u8>, binary: bool) -> Result<Seq<Unit>, ConvertError> {
    match frame_at(s) {
        Err(e) => Err(e),
        Ok((frame, end)) => if frame.complete() {
            Ok(grid_units(dataset_of(frame), binary))
        } else {
            Err(ConvertError::Incomplete)
        },
    }
}

/// Converts the bytes of one frame to the pieces of its grid, in the text
/// variant of the output format or in the binary one. The whole frame is
/// decoded before anything is written, so a fatal condition leaves no
/// output at all.
pub fn read_radioss_anim(bytes: &[u8], binary_format: bool) -> (r: Result<Vec<Piece>, ConvertError>)
    ensures
        match converted(bytes@, binary_format) {
            Ok(out) => r is Ok && units(r->Ok_0@) == out,
            Err(e) => r is Err && r->Err_0 == e,
        },
{
    let frame = decode(bytes)?;
    let grid = assemble(&frame)?;
    Ok(render(&grid, binary_format))
}

/// A stream that ends before its frame does converts to nothing: there is
/// no output for it, short or otherwise, in either variant.
pub proof fn lemma_truncated_stream_gives_no_output(s: Seq<u8>, k: int, binary: bool)
    requires
        frame_at(s) is Ok,
        0 <= k < frame_at(s)->Ok_0.1,
    ensures
        converted(s.take(k), binary) == Err::<Seq<Unit>, ConvertError>(ConvertError::Truncated),
{
    lemma_truncation_is_fatal(s, k);
}

} // verus!
