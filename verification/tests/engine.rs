use doomfire::{FireError, FireField, FireRng, DECAY_MARGIN};

fn cell(f: &FireField, y: usize, x: usize) -> usize {
    f.grid[y * f.width + x]
}

#[test]
fn it_works() {
    let result = 2 + 2;
    assert_eq!(result, 4);
}

#[test]
fn margin_is_five_rows() {
    assert_eq!(DECAY_MARGIN, 5);
}

#[test]
fn create_seeds_ignition_row() {
    let f = FireField::create(4, 8, 36, FireRng::new(1)).unwrap();
    assert_eq!(f.width, 4);
    assert_eq!(f.height, 8);
    assert_eq!(f.palette_len, 36);
    assert_eq!(f.grid.len(), 32);
    for y in 0..7 {
        for x in 0..4 {
            assert_eq!(cell(&f, y, x), 0);
        }
    }
    for x in 0..4 {
        assert_eq!(cell(&f, 7, x), 35);
    }
}

#[test]
fn create_rejects_zero_dimension() {
    assert_eq!(
        FireField::create(0, 5, 36, FireRng::new(1)),
        Err(FireError::InvalidDimensions)
    );
    assert_eq!(
        FireField::create(5, 0, 36, FireRng::new(1)),
        Err(FireError::InvalidDimensions)
    );
}

#[test]
fn cells_stay_in_range_after_steps() {
    let mut f = FireField::create(10, 20, 36, FireRng::new(7)).unwrap();
    for _ in 0..50 {
        f.step();
    }
    for &v in f.grid.iter() {
        assert!(v < 36);
    }
}

#[test]
fn ignition_row_persists() {
    let mut f = FireField::create(10, 20, 36, FireRng::new(9)).unwrap();
    for _ in 0..50 {
        f.step();
    }
    for x in 0..10 {
        assert_eq!(cell(&f, 19, x), 35);
    }
}

#[test]
fn step_never_brightens() {
    let mut f = FireField::create(8, 16, 36, FireRng::new(3)).unwrap();
    for _ in 0..12 {
        f.step();
    }
    let pre = f.grid.clone();
    f.step();
    for y in (DECAY_MARGIN - 1)..15 {
        for x in 0..8 {
            assert!(f.grid[y * 8 + x] <= pre[(y + 1) * 8 + x]);
        }
    }
}

#[test]
fn cold_propagates_up() {
    let mut f = FireField::create(6, 12, 36, FireRng::new(5)).unwrap();
    let pre = f.grid.clone();
    f.step();
    for y in (DECAY_MARGIN - 1)..11 {
        for x in 0..6 {
            if pre[(y + 1) * 6 + x] == 0 {
                assert_eq!(cell(&f, y, x), 0);
            }
        }
    }
}

#[test]
fn top_margin_stays_cold() {
    let mut f = FireField::create(6, 8, 36, FireRng::new(11)).unwrap();
    for _ in 0..100 {
        f.step();
    }
    for y in 0..(DECAY_MARGIN - 1) {
        for x in 0..6 {
            assert_eq!(cell(&f, y, x), 0);
        }
    }
}

#[test]
fn heat_rises_one_row_per_tick() {
    let mut f = FireField::create(5, 10, 36, FireRng::new(13)).unwrap();
    f.step();
    for x in 0..5 {
        let v = cell(&f, 8, x);
        assert!(v == 35 || v == 34);
    }
}

#[test]
fn short_field_has_no_sources() {
    let mut f = FireField::create(3, 1, 4, FireRng::new(2)).unwrap();
    let pre = f.grid.clone();
    f.step();
    f.step();
    f.step();
    assert_eq!(f.grid, pre);
    for x in 0..3 {
        assert_eq!(cell(&f, 0, x), 3);
    }
}

#[test]
fn resize_resets_state() {
    let mut f = FireField::create(6, 12, 36, FireRng::new(17)).unwrap();
    for _ in 0..10 {
        f.step();
    }
    f.resize(9, 5).unwrap();
    assert_eq!(f.width, 9);
    assert_eq!(f.height, 5);
    assert_eq!(f.palette_len, 36);
    for y in 0..4 {
        for x in 0..9 {
            assert_eq!(cell(&f, y, x), 0);
        }
    }
    for x in 0..9 {
        assert_eq!(cell(&f, 4, x), 35);
    }
}

#[test]
fn resize_rejects_zero_dimension() {
    let mut f = FireField::create(6, 12, 36, FireRng::new(19)).unwrap();
    let before = f.clone();
    assert_eq!(f.resize(0, 4), Err(FireError::InvalidDimensions));
    assert_eq!(f, before);
    assert_eq!(f.resize(4, 0), Err(FireError::InvalidDimensions));
    assert_eq!(f, before);
}

#[test]
fn one_tick_exact_grid() {
    // With seed 0 the first three decay draws are 0, 1, 0, consumed left to
    // right along the ignition row, the only burning row of a fresh field.
    let mut f = FireField::create(3, 7, 36, FireRng::new(0)).unwrap();
    f.step();
    assert_eq!(cell(&f, 5, 0), 35);
    assert_eq!(cell(&f, 5, 1), 34);
    assert_eq!(cell(&f, 5, 2), 35);
    for x in 0..3 {
        assert_eq!(cell(&f, 4, x), 0);
        assert_eq!(cell(&f, 6, x), 35);
    }
}

#[test]
fn same_seed_same_run() {
    let mut a = FireField::create(12, 24, 36, FireRng::new(1234)).unwrap();
    let mut b = FireField::create(12, 24, 36, FireRng::new(1234)).unwrap();
    for _ in 0..20 {
        a.step();
        b.step();
    }
    assert_eq!(a.grid, b.grid);
}
