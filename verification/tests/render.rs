use doomfire::{
    advance_and_render, reconcile, FireError, FireField, FireRng, Palette, Rgba,
};

fn rgba(r: u8, g: u8, b: u8, a: u8) -> Rgba {
    Rgba { r, g, b, a }
}

fn two_stop_palette() -> Palette {
    Palette::create(vec![rgba(0, 0, 0, 255), rgba(255, 255, 255, 255)]).unwrap()
}

#[test]
fn palette_create_rejects_short() {
    assert_eq!(
        Palette::create(vec![]),
        Err(FireError::InvalidPalette)
    );
    assert_eq!(
        Palette::create(vec![rgba(1, 2, 3, 4)]),
        Err(FireError::InvalidPalette)
    );
    let p = Palette::create(vec![rgba(1, 2, 3, 4), rgba(5, 6, 7, 8)]).unwrap();
    assert_eq!(p.len(), 2);
}

#[test]
fn palette_lookup_maps_index() {
    let p = Palette::create(vec![rgba(7, 7, 7, 1), rgba(31, 7, 7, 1), rgba(255, 255, 255, 1)])
        .unwrap();
    assert_eq!(p.lookup(0), Ok(rgba(7, 7, 7, 1)));
    assert_eq!(p.lookup(2), Ok(rgba(255, 255, 255, 1)));
    assert_eq!(p.lookup(3), Err(FireError::IndexOutOfRange));
    assert_eq!(p.lookup(100), Err(FireError::IndexOutOfRange));
}

#[test]
fn rasterize_two_by_two() {
    let p = two_stop_palette();
    let mut f = FireField::create(2, 2, 2, FireRng::new(0)).unwrap();
    f.grid = vec![0, 1, 1, 0];
    let mut out = vec![0u8; 16];
    assert_eq!(f.rasterize(&p, &mut out), Ok(()));
    assert_eq!(
        out,
        vec![0, 0, 0, 255, 255, 255, 255, 255, 255, 255, 255, 255, 0, 0, 0, 255]
    );
}

#[test]
fn rasterize_rejects_wrong_buffer() {
    let p = two_stop_palette();
    let f = FireField::create(2, 2, 2, FireRng::new(0)).unwrap();
    let mut short = vec![9u8; 15];
    let kept = short.clone();
    assert_eq!(f.rasterize(&p, &mut short), Err(FireError::BufferSizeMismatch));
    assert_eq!(short, kept);
    let mut long = vec![9u8; 17];
    let kept_long = long.clone();
    assert_eq!(f.rasterize(&p, &mut long), Err(FireError::BufferSizeMismatch));
    assert_eq!(long, kept_long);
}

#[test]
fn reconcile_is_idempotent() {
    let mut f = FireField::create(4, 4, 2, FireRng::new(0)).unwrap();
    assert_eq!(reconcile(&mut f, 8, 6), Ok(true));
    assert_eq!(f.width, 8);
    assert_eq!(f.height, 6);
    let snapshot = f.clone();
    assert_eq!(reconcile(&mut f, 8, 6), Ok(false));
    assert_eq!(f, snapshot);
}

#[test]
fn reconcile_matching_size_is_noop() {
    let mut f = FireField::create(4, 4, 2, FireRng::new(0)).unwrap();
    let snapshot = f.clone();
    assert_eq!(reconcile(&mut f, 4, 4), Ok(false));
    assert_eq!(f, snapshot);
}

#[test]
fn reconcile_rejects_zero_dimension() {
    let mut f = FireField::create(4, 4, 2, FireRng::new(0)).unwrap();
    let snapshot = f.clone();
    assert_eq!(reconcile(&mut f, 0, 6), Err(FireError::InvalidDimensions));
    assert_eq!(f, snapshot);
}

#[test]
fn frame_request_resizes_steps_and_renders() {
    let p = two_stop_palette();
    let mut f = FireField::create(4, 4, 2, FireRng::new(0)).unwrap();
    let buf = advance_and_render(&mut f, &p, 3, 8).unwrap();
    assert_eq!(f.width, 3);
    assert_eq!(f.height, 8);
    assert_eq!(buf.len(), 3 * 8 * 4);
    let mut again = vec![0u8; 3 * 8 * 4];
    assert_eq!(f.rasterize(&p, &mut again), Ok(()));
    assert_eq!(buf, again);
}

#[test]
fn frame_request_rejects_zero_dimension() {
    let p = two_stop_palette();
    let mut f = FireField::create(4, 4, 2, FireRng::new(0)).unwrap();
    let snapshot = f.clone();
    assert_eq!(
        advance_and_render(&mut f, &p, 0, 8),
        Err(FireError::InvalidDimensions)
    );
    assert_eq!(f, snapshot);
}
