use vstd::prelude::*;

verus! {

/// The failures the fire engine can signal. All of them are local,
/// synchronous configuration or contract violations; none is retried.
#[derive(Clone, Copy, Debug, PartialEq, Eq, Structural)]
pub enum FireError {
    /// A palette needs at least two entries: the cold background color and
    /// one hotter stop to seed ignition.
    InvalidPalette,
    /// A grid was requested with a zero width or height.
    InvalidDimensions,
    /// The output buffer handed to `rasterize` does not hold exactly
    /// four bytes per grid cell.
    BufferSizeMismatch,
    /// A palette lookup was asked for an index at or past the palette's end;
    /// with a well-formed fire field this never happens.
    IndexOutOfRange,
}

} // verus!
