use vstd::prelude::*;

use crate::error::FireError;

verus! {

/// One palette entry: an 8-bit RGBA color.
#[derive(Clone, Copy, Debug, PartialEq, Eq, Structural)]
pub struct Rgba {
    pub r: u8,
    pub g: u8,
    pub b: u8,
    pub a: u8,
}

/// An ordered, immutable table of color stops. Entry 0 is the cold
/// background color; the last entry is the hottest color, used to seed the
/// ignition row. Never mutated after construction.
#[derive(Clone, Debug, PartialEq, Eq)]
pub struct Palette {
    pub entries: Vec<Rgba>,
}

impl Palette {
    /// A palette is well formed when it holds the cold color and at least
    /// one hotter stop.
    pub open spec fn wf(self) -> bool {
        self.entries@.len() >= 2
    }

    /// Builds a palette from the given color stops, in order. Fails exactly
    /// when fewer than two stops are supplied.
    pub fn create(entries: Vec<Rgba>) -> (r: Result<Palette, FireError>)
        ensures
            entries@.len() < 2 ==> r == Err::<Palette, FireError>(FireError::InvalidPalette),
            entries@.len() >= 2 ==> (r matches Ok(p) && p.entries@ == entries@ && p.wf()),
    {
        if entries.len() < 2 {
            Err(FireError::InvalidPalette)
        } else {
            Ok(Palette { entries })
        }
    }

    /// The number of color stops.
    pub fn len(&self) -> (n: usize)
        ensures
            n == self.entries@.len(),
    {
        self.entries.len()
    }

    /// Returns the color stop at `index`; fails exactly when `index` is at
    /// or past the palette's end. With a well-formed fire field the failure
    /// never occurs, so callers may treat it as fatal.
    pub fn lookup(&self, index: usize) -> (r: Result<Rgba, FireError>)
        ensures
            index < self.entries@.len() ==> r == Ok::<Rgba, FireError>(self.entries@[index as int]),
            index >= self.entries@.len() ==> r == Err::<Rgba, FireError>(FireError::IndexOutOfRange),
    {
        if index < self.entries.len() {
            Ok(self.entries[index])
        } else {
            Err(FireError::IndexOutOfRange)
        }
    }
}

} // verus!
