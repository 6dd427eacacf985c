use nova::packer::ShelfPacker;
use nova::rect::IRectangle;

fn sizes(seed: u32, n: usize) -> Vec<(i32, i32)> {
    let mut state = seed;
    let mut out = Vec::new();
    for _ in 0..n {
        state = state.wrapping_mul(1103515245).wrapping_add(12345);
        let w = ((state >> 16) % 20) as i32;
        state = state.wrapping_mul(1103515245).wrapping_add(12345);
        let h = ((state >> 16) % 20) as i32;
        out.push((w, h));
    }
    out
}

fn overlap(a: &IRectangle, b: &IRectangle) -> bool {
    a.x < b.x + b.width && a.x + a.width > b.x && a.y < b.y + b.height && a.y + a.height > b.y
}

#[test]
fn placed_regions_do_not_overlap_and_stay_inside() {
    for seed in 1..20 {
        let mut p = ShelfPacker::new(128, 128);
        let mut placed = Vec::new();
        for (w, h) in sizes(seed, 60) {
            if let Some(r) = p.insert(w, h, 1) {
                assert_eq!((r.width, r.height), (w + 2, h + 2));
                placed.push(r);
            }
        }
        assert!(!placed.is_empty());
        for (i, a) in placed.iter().enumerate() {
            assert!(a.x >= 0 && a.y >= 0 && a.x + a.width <= 128 && a.y + a.height <= 128);
            for b in placed.iter().skip(i + 1) {
                assert!(!overlap(a, b));
                assert!(!a.intersects(b));
            }
        }
    }
}

#[test]
fn same_sizes_give_same_places() {
    let seq = sizes(7, 40);
    let mut p = ShelfPacker::new(100, 100);
    let mut q = ShelfPacker::new(100, 100);
    for (w, h) in seq {
        assert_eq!(p.insert(w, h, 1), q.insert(w, h, 1));
    }
}

#[test]
fn first_fit_fills_shelves_then_opens_new_ones() {
    let mut p = ShelfPacker::new(10, 10);
    assert_eq!(p.insert(4, 3, 0), Some(IRectangle::new(0, 0, 4, 3)));
    assert_eq!(p.insert(4, 2, 0), Some(IRectangle::new(4, 0, 4, 2)));
    assert_eq!(p.insert(4, 2, 0), Some(IRectangle::new(0, 3, 4, 2)));
    assert_eq!(p.insert(2, 3, 0), Some(IRectangle::new(8, 0, 2, 3)));
    assert_eq!(p.insert(6, 2, 0), Some(IRectangle::new(4, 3, 6, 2)));
}

#[test]
fn padding_grows_the_region() {
    let mut p = ShelfPacker::new(16, 16);
    assert_eq!(p.insert(3, 4, 1), Some(IRectangle::new(0, 0, 5, 6)));
    assert_eq!(p.insert(3, 4, 1), Some(IRectangle::new(5, 0, 5, 6)));
}

#[test]
fn full_atlas_returns_none() {
    let mut p = ShelfPacker::new(8, 8);
    assert_eq!(p.insert(8, 7, 0), Some(IRectangle::new(0, 0, 8, 7)));
    assert_eq!(p.insert(1, 1, 0), None);
    assert_eq!(p.insert(8, 8, 0), None);
}

#[test]
fn new_shelf_must_end_above_the_bottom_edge() {
    let mut p = ShelfPacker::new(8, 8);
    assert_eq!(p.insert(2, 8, 0), None);
    assert_eq!(p.width(), 8);
    assert_eq!(p.height(), 8);
}

#[test]
fn zero_sized_area_fits_anywhere() {
    let mut p = ShelfPacker::new(4, 4);
    assert_eq!(p.insert(0, 0, 0), Some(IRectangle::new(0, 0, 0, 0)));
    assert_eq!(p.insert(4, 3, 0), Some(IRectangle::new(0, 0, 4, 3)));
}

#[test]
fn rectangle_predicates() {
    let a = IRectangle::new(0, 0, 4, 4);
    let b = IRectangle::new(4, 0, 4, 4);
    let c = IRectangle::new(1, 1, 2, 2);
    assert!(!a.intersects(&b));
    assert!(a.intersects(&c));
    assert!(a.contains(&c));
    assert!(!c.contains(&a));
    assert!(a.contains_point(3, 3));
    assert!(!a.contains_point(4, 0));
    assert_eq!(a.right(), 4);
    assert_eq!(c.bottom(), 3);
}
