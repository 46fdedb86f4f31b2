use denali::grid::{fill_grid_2d, fill_grid_3d};
use denali::lattice::{
    corner_2d, corners_3d, gradient_1d, gradient_2d, gradient_3d, modulo, Axis, Gradient2,
    Gradient3, Offset3,
};
use denali::table::{fisher_yates_shuffle, get_perm, table_from_order, PermutationTable};

const REFERENCE_START: [u8; 16] = [151, 160, 137, 91, 90, 15, 131, 13, 201, 95, 96, 53, 194, 233, 7, 225];

fn assert_valid(t: &[u8; 512]) {
    let mut seen = [0u32; 256];
    for i in 0..256 {
        seen[t[i] as usize] += 1;
        assert_eq!(t[i + 256], t[i]);
    }
    for v in 0..256 {
        assert_eq!(seen[v], 1, "value {} seen {} times", v, seen[v]);
    }
}

#[test]
fn modulo_of_positive_and_negative() {
    assert_eq!(modulo(5, 256), 5);
    assert_eq!(modulo(256, 256), 0);
    assert_eq!(modulo(257, 256), 1);
    assert_eq!(modulo(-1, 256), 255);
    assert_eq!(modulo(-256, 256), 0);
    assert_eq!(modulo(-257, 256), 255);
    assert_eq!(modulo(i32::MIN, 256), 0);
    assert_eq!(modulo(i32::MAX, 256), 255);
    assert_eq!(modulo(-7, 3), 2);
}

#[test]
fn table_is_valid_for_several_seeds() {
    for seed in [0u128, 1, 2, 42, 67893402, u64::MAX as u128, u128::MAX] {
        assert_valid(&get_perm(seed));
    }
}

#[test]
fn same_seed_gives_same_table() {
    for seed in [0u128, 7, 67893402, u128::MAX] {
        assert_eq!(get_perm(seed), get_perm(seed));
        let a = PermutationTable::new(seed);
        let b = PermutationTable::new(seed);
        assert_eq!(a.entries(), b.entries());
    }
}

#[test]
fn shuffle_moves_the_reference_order() {
    let t = get_perm(67893402);
    assert_ne!(&t[..16], &REFERENCE_START[..]);
    assert_ne!(get_perm(1), get_perm(2));
}

#[test]
fn change_seed_rebuilds_the_table() {
    let mut t = PermutationTable::new(3);
    assert_eq!(t.seed(), 3);
    assert_eq!(*t.entries(), get_perm(3));
    t.change_seed(99);
    assert_eq!(t.seed(), 99);
    assert_eq!(*t.entries(), get_perm(99));
    assert_valid(t.entries());
}

#[test]
fn equality_goes_by_seed() {
    let a = PermutationTable::new(5);
    let b = PermutationTable::new(5);
    let c = PermutationTable::new(6);
    assert!(a.same_seed(&b));
    assert!(!a.same_seed(&c));
}

#[test]
fn hash_1d_reads_wrapped_cells() {
    let t = PermutationTable::new(11);
    let p = *t.entries();
    assert_eq!(t.hash_1d(0), (p[0], p[1]));
    assert_eq!(t.hash_1d(255), (p[255], p[0]));
    assert_eq!(t.hash_1d(-1), (p[255], p[0]));
    assert_eq!(t.hash_1d(-300), (p[212], p[213]));
}

#[test]
fn hash_2d_uses_double_lookup() {
    let t = PermutationTable::new(12);
    let p = *t.entries();
    let h = |ii: usize, jj: usize| p[ii + p[jj] as usize];
    assert_eq!(t.hash_2d(3, 4, true), [h(3, 4), h(4, 4), h(4, 5)]);
    assert_eq!(t.hash_2d(3, 4, false), [h(3, 4), h(3, 5), h(4, 5)]);
    assert_eq!(t.hash_2d(-1, 255, true), [h(255, 255), h(256, 255), h(256, 256)]);
}

#[test]
fn hash_3d_uses_triple_lookup() {
    let t = PermutationTable::new(13);
    let p = *t.entries();
    let h = |ii: usize, jj: usize, kk: usize| p[ii + p[jj + p[kk] as usize] as usize];
    let a = Offset3 { i: 0, j: 1, k: 0 };
    let b = Offset3 { i: 0, j: 1, k: 1 };
    assert_eq!(
        t.hash_3d(1, -2, 600, a, b),
        [h(1, 254, 88), h(1, 255, 88), h(1, 255, 89), h(2, 255, 89)]
    );
}

#[test]
fn corners_3d_follow_the_axis_order() {
    let o = |i, j, k| Offset3 { i, j, k };
    // x >= y >= z
    assert_eq!(corners_3d(true, true, true), (o(1, 0, 0), o(1, 1, 0)));
    // x >= z > y
    assert_eq!(corners_3d(true, false, true), (o(1, 0, 0), o(1, 0, 1)));
    // z > x >= y
    assert_eq!(corners_3d(true, false, false), (o(0, 0, 1), o(1, 0, 1)));
    // z > y > x
    assert_eq!(corners_3d(false, false, false), (o(0, 0, 1), o(0, 1, 1)));
    // y >= z > x
    assert_eq!(corners_3d(false, true, false), (o(0, 1, 0), o(0, 1, 1)));
    // y > x >= z
    assert_eq!(corners_3d(false, true, true), (o(0, 1, 0), o(1, 1, 0)));
}

#[test]
fn corner_2d_picks_half_of_square() {
    assert_eq!(corner_2d(true), (1, 0));
    assert_eq!(corner_2d(false), (0, 1));
}

#[test]
fn gradient_1d_slopes() {
    assert_eq!(gradient_1d(0), 1);
    assert_eq!(gradient_1d(7), 8);
    assert_eq!(gradient_1d(8), -1);
    assert_eq!(gradient_1d(15), -8);
    assert_eq!(gradient_1d(16), 1);
    assert_eq!(gradient_1d(0xfb), -4);
}

#[test]
fn gradient_2d_selectors() {
    let g = |u_is_x, negate_u, negate_v| Gradient2 { u_is_x, negate_u, negate_v };
    assert_eq!(gradient_2d(0), g(true, false, false));
    assert_eq!(gradient_2d(1), g(true, true, false));
    assert_eq!(gradient_2d(2), g(true, false, true));
    assert_eq!(gradient_2d(7), g(false, true, true));
    assert_eq!(gradient_2d(12), g(false, false, false));
}

#[test]
fn gradient_3d_selectors() {
    let g = |u, v, negate_u, negate_v| Gradient3 { u, v, negate_u, negate_v };
    assert_eq!(gradient_3d(0), g(Axis::X, Axis::Y, false, false));
    assert_eq!(gradient_3d(3), g(Axis::X, Axis::Y, true, true));
    assert_eq!(gradient_3d(5), g(Axis::X, Axis::Z, true, false));
    assert_eq!(gradient_3d(9), g(Axis::Y, Axis::Z, true, false));
    assert_eq!(gradient_3d(12), g(Axis::Y, Axis::X, false, false));
    assert_eq!(gradient_3d(13), g(Axis::Y, Axis::Z, true, false));
    assert_eq!(gradient_3d(14), g(Axis::Y, Axis::X, false, true));
    assert_eq!(gradient_3d(30), g(Axis::Y, Axis::X, false, true));
}

#[test]
fn fill_2d_matches_direct_calls() {
    let mut map = [u32::MAX; 11];
    let sample = |x: usize, y: usize| (100 * x + y) as u32;
    fill_grid_2d(&mut map, 3, &sample);
    for y in 0..3 {
        for x in 0..3 {
            assert_eq!(map[x + 3 * y], sample(x, y));
        }
    }
    // the two cells past the last whole row stay as they were
    assert_eq!(map[9], u32::MAX);
    assert_eq!(map[10], u32::MAX);
}

#[test]
fn fill_2d_with_zero_width_writes_nothing() {
    let mut map = [7i64; 4];
    fill_grid_2d(&mut map, 0, &|x: usize, y: usize| (x + y) as i64);
    assert_eq!(map, [7; 4]);
}

#[test]
fn fill_3d_matches_direct_calls() {
    let mut map = vec![0u32; 2 * 3 * 4 + 5];
    let sample = |x: usize, y: usize, z: usize| (100 * x + 10 * y + z + 1) as u32;
    fill_grid_3d(&mut map, 2, 3, &sample);
    for z in 0..4 {
        for y in 0..3 {
            for x in 0..2 {
                assert_eq!(map[x + 2 * y + 6 * z], sample(x, y, z));
            }
        }
    }
    for n in 24..29 {
        assert_eq!(map[n], 0);
    }
}

#[test]
fn fill_3d_with_empty_plane_writes_nothing() {
    let mut map = [1u8; 6];
    fill_grid_3d(&mut map, 3, 0, &|_x: usize, _y: usize, _z: usize| 9u8);
    assert_eq!(map, [1; 6]);
}

#[test]
fn copied_table_keeps_seed_and_entries() {
    let a = PermutationTable::new(21);
    let b = a;
    assert_eq!(a.seed(), b.seed());
    assert_eq!(a.entries(), b.entries());
}

#[test]
fn table_from_order_stores_the_order_twice() {
    let mut order = [0u8; 256];
    for i in 0..256 {
        order[i] = (255 - i) as u8;
    }
    let t = table_from_order(&order);
    for i in 0..256 {
        assert_eq!(t[i], (255 - i) as u8);
        assert_eq!(t[i + 256], (255 - i) as u8);
    }
    assert_valid(&t);
}

fn identity_order() -> [u8; 256] {
    let mut order = [0u8; 256];
    for i in 0..256 {
        order[i] = i as u8;
    }
    order
}

#[test]
fn fisher_yates_walks_down_from_the_last_position() {
    let mut order = identity_order();
    fisher_yates_shuffle(&mut order, &vec![0, 0]);
    assert_eq!(order[0], 254);
    assert_eq!(order[254], 255);
    assert_eq!(order[255], 0);
    for i in 1..254 {
        assert_eq!(order[i], i as u8);
    }
}

#[test]
fn fisher_yates_with_self_draws_keeps_the_order() {
    let mut order = identity_order();
    let draws: Vec<u64> = (0..255u64).map(|k| 255 - k).collect();
    fisher_yates_shuffle(&mut order, &draws);
    assert_eq!(order, identity_order());
}

#[test]
fn fisher_yates_with_no_draws_keeps_the_order() {
    let mut order = identity_order();
    fisher_yates_shuffle(&mut order, &vec![]);
    assert_eq!(order, identity_order());
}

#[test]
fn different_seeds_give_different_tables() {
    assert_ne!(get_perm(0), get_perm(1));
    assert_ne!(get_perm(67893402), get_perm(67893403));
}

#[test]
fn fill_3d_with_oversized_layer_writes_nothing() {
    let mut map = [4u8; 8];
    fill_grid_3d(&mut map, usize::MAX, 2, &|_x: usize, _y: usize, _z: usize| 9u8);
    assert_eq!(map, [4; 8]);
}
