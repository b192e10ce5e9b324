use vstd::prelude::*;

use crate::error::FireError;
use crate::field::FireField;
use crate::field::step_rel;
use crate::palette::Palette;

verus! {

/// Does the field's grid disagree with the host-reported surface size?
pub open spec fn needs_resize(field: FireField, width: int, height: int) -> bool {
    field.width != width || field.height != height
}

/// Surface size adapter: keeps the fire field dimensioned to the
/// host-reported presentation surface. A no-op when the sizes already
/// agree; otherwise one resize, which discards in-flight fire state by
/// design. Returns whether a reallocation happened.
pub fn reconcile(field: &mut FireField, width: usize, height: usize) -> (r: Result<
    bool,
    FireError,
>)
    requires
        old(field).dims_ok(),
        width * height * 4 <= usize::MAX,
    ensures
        !needs_resize(*old(field), width as int, height as int) ==> (r == Ok::<bool, FireError>(
            false,
        ) && *final(field) == *old(field)),
        needs_resize(*old(field), width as int, height as int) && (width == 0 || height == 0)
            ==> (r == Err::<bool, FireError>(FireError::InvalidDimensions)
            && *final(field) == *old(field)),
        needs_resize(*old(field), width as int, height as int) && width != 0 && height != 0 ==> (r
            == Ok::<bool, FireError>(true) && final(field).is_fresh(
            width as int,
            height as int,
            old(field).palette_len as int,
        ) && final(field).rng == old(field).rng),
{
    if field.width == width && field.height == height {
        Ok(false)
    } else {
        match field.resize(width, height) {
            Ok(()) => Ok(true),
            Err(e) => Err(e),
        }
    }
}

/// One host frame request: reconcile the field to the reported surface
/// size, advance the simulation by one tick, and rasterize the result
/// through the palette into a fresh RGBA buffer, four bytes per cell in
/// row-major order. Fails exactly when the field must be resized to a zero
/// dimension, and then leaves the field untouched. On success the returned
/// buffer renders the final field exactly; the tick acted on the old field
/// when the sizes already agreed, and on a freshly seeded field of the new
/// size otherwise.
pub fn advance_and_render(
    field: &mut FireField,
    palette: &Palette,
    width: usize,
    height: usize,
) -> (r: Result<Vec<u8>, FireError>)
    requires
        old(field).wf(),
        palette.entries@.len() == old(field).palette_len,
        width * height * 4 <= usize::MAX,
    ensures
        needs_resize(*old(field), width as int, height as int) && (width == 0 || height == 0)
            ==> (r == Err::<Vec<u8>, FireError>(FireError::InvalidDimensions)
            && *final(field) == *old(field)),
        !(needs_resize(*old(field), width as int, height as int) && (width == 0 || height == 0))
            ==> (r matches Ok(buf)
            && final(field).wf()
            && final(field).width == width
            && final(field).height == height
            && final(field).palette_len == old(field).palette_len
            && final(field).raster_bytes_ok(*palette, buf@)
            && (!needs_resize(*old(field), width as int, height as int) ==> step_rel(
            *old(field),
            *final(field),
        ))
            && (needs_resize(*old(field), width as int, height as int)
            ==> exists|mid: FireField| (#[trigger] step_rel(mid, *final(field))) && mid.is_fresh(
            width as int,
            height as int,
            old(field).palette_len as int,
        ))),
{
    let ghost entry = *field;
    match reconcile(field, width, height) {
        Err(e) => Err(e),
        Ok(_) => {
            let ghost mid = *field;
            field.step();
            let total: usize = field.width * field.height;
            let mut buf: Vec<u8> = vec![0u8; total * 4];
            let rr = field.rasterize(palette, &mut buf);
            proof {
                if needs_resize(entry, width as int, height as int) {
                    assert(step_rel(mid, *field) && mid.is_fresh(
                        width as int,
                        height as int,
                        entry.palette_len as int,
                    ));
                }
            }
            match rr {
                Ok(()) => Ok(buf),
                Err(e) => Err(e),
            }
        },
    }
}

/// Law: reconciliation is idempotent. Whatever a successful `reconcile`
/// with size `(width, height)` did — resized the field or left it alone —
/// the field it leaves behind matches that size, so a second `reconcile`
/// with the same size resizes nothing.
pub proof fn lemma_reconcile_idempotent(
    before: FireField,
    after: FireField,
    width: int,
    height: int,
    resized: bool,
)
    requires
        resized ==> after.width == width && after.height == height,
        !resized ==> !needs_resize(before, width, height) && after == before,
    ensures
        !needs_resize(after, width, height),
{
}

} // verus!
