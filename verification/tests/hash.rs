use gradient_noise::hash::rem_pos;
use gradient_noise::tables::GradientTable;
use gradient_noise::tables::PermutationTable;

fn reversed_table() -> PermutationTable {
    let mut v: Vec<u8> = Vec::new();
    for i in 0..256usize {
        v.push(255 - i as u8);
    }
    PermutationTable::new(v)
}

#[test]
fn rem_pos_wraps_negatives_to_the_high_end() {
    assert_eq!(rem_pos(-1, 256), 255);
    assert_eq!(rem_pos(-256, 256), 0);
    assert_eq!(rem_pos(-257, 256), 255);
    assert_eq!(rem_pos(0, 256), 0);
    assert_eq!(rem_pos(511, 256), 255);
    assert_eq!(rem_pos(5, 3), 2);
    assert_eq!(rem_pos(-7, 3), 2);
}

#[test]
fn hash_is_deterministic() {
    let table = reversed_table();
    let gradients = GradientTable::new(32);
    let first = table.gradient_index_2d(12, -34, &gradients);
    let second = table.gradient_index_2d(12, -34, &gradients);
    assert_eq!(first, second);
}

#[test]
fn hash_tiles_with_the_table_length() {
    let table = reversed_table();
    let gradients = GradientTable::new(32);
    let base = table.gradient_index_2d(12, -34, &gradients);
    assert_eq!(table.gradient_index_2d(12 + 256, -34, &gradients), base);
    assert_eq!(table.gradient_index_2d(12, -34 + 256, &gradients), base);
    assert_eq!(table.gradient_index_2d(12 - 256, -34 - 256, &gradients), base);
}

#[test]
fn negative_coordinates_hash_into_range() {
    let table = PermutationTable::identity();
    let gradients = GradientTable::new(4);
    let index = table.gradient_index_2d(-1, -1, &gradients);
    assert!(index < 4);
    // Identity table: both residues are 255, the perturbed sum is
    // (255 + 255) % 256 == 254, and 254 % 4 == 2.
    assert_eq!(index, 2);
}

#[test]
fn hash_has_exact_values_on_known_tables() {
    let identity = PermutationTable::identity();
    let four = GradientTable::new(4);
    // The origin corner under the identity table: identity[0] == 0,
    // identity[0 + 0] == 0, 0 % 4 == 0 — the first gradient.
    assert_eq!(identity.gradient_index_2d(0, 0, &four), 0);
    // (3 % 256 + identity[5]) % 256 == 8, identity[8] == 8, 8 % 4 == 0.
    assert_eq!(identity.gradient_index_2d(3, 5, &four), 0);
    let reversed = reversed_table();
    // reversed[5] == 250, (3 + 250) % 256 == 253, reversed[253] == 2.
    assert_eq!(reversed.gradient_index_2d(3, 5, &four), 2);
}

#[test]
fn masked_hash_matches_the_modulo_hash() {
    let table = reversed_table();
    let gradients = GradientTable::new(32);
    for xi in 0..40usize {
        for yi in 0..40usize {
            let masked = table.gradient_index_2d_masked(xi * 13, yi * 7, &gradients);
            let modulo = table.gradient_index_2d((xi * 13) as isize, (yi * 7) as isize, &gradients);
            assert_eq!(masked, modulo);
        }
    }
}

#[test]
fn corner_indices_match_the_single_hash() {
    let table = reversed_table();
    let gradients = GradientTable::new(4);
    let (i00, i10, i01, i11) = table.corner_gradient_indices_2d(-3, 9, &gradients);
    assert_eq!(i00, table.gradient_index_2d(-3, 9, &gradients));
    assert_eq!(i10, table.gradient_index_2d(-2, 9, &gradients));
    assert_eq!(i01, table.gradient_index_2d(-3, 10, &gradients));
    assert_eq!(i11, table.gradient_index_2d(-2, 10, &gradients));
}

#[test]
fn corner_indices_have_exact_values_on_the_identity_table() {
    let identity = PermutationTable::identity();
    let four = GradientTable::new(4);
    // Cell origin (0,0): corner sums are 0, 1, 1 and 2; modulo 4 they
    // stay 0, 1, 1, 2.
    assert_eq!(identity.corner_gradient_indices_2d(0, 0, &four), (0, 1, 1, 2));
    // Cell origin (-1,-1): residues 255; corner sums 254, 255, 255, 0.
    assert_eq!(identity.corner_gradient_indices_2d(-1, -1, &four), (2, 3, 3, 0));
}

#[test]
fn masked_corner_indices_match_the_modulo_corners() {
    let table = reversed_table();
    let gradients = GradientTable::new(32);
    for xi in [0usize, 1, 7, 254, 255, 256, 1000] {
        for yi in [0usize, 3, 255, 300] {
            let masked = table.corner_gradient_indices_2d_masked(xi, yi, &gradients);
            let modulo = table.corner_gradient_indices_2d(xi as isize, yi as isize, &gradients);
            assert_eq!(masked, modulo);
        }
    }
}

#[test]
fn every_gradient_is_selected_equally_often_per_period() {
    let table = reversed_table();
    let gradients = GradientTable::new(4);
    for yi in [0isize, -5, 131] {
        let mut counts = [0usize; 4];
        for xi in 0..256isize {
            counts[table.gradient_index_2d(xi, yi, &gradients)] += 1;
        }
        assert_eq!(counts, [64, 64, 64, 64]);
    }
}

#[test]
fn gradient_pair_packs_both_endpoint_signs() {
    let identity = PermutationTable::identity();
    // identity[0] == 0 (even), identity[1] == 1 (odd): selector 0b01.
    assert_eq!(identity.gradient_pair_1d(0), 1);
    // identity[255] == 255 (odd), identity[0] == 0 (even): selector 0b10.
    assert_eq!(identity.gradient_pair_1d(-1), 2);
    // identity[1] == 1, identity[2] == 2: selector 0b10.
    assert_eq!(identity.gradient_pair_1d(1), 2);
    assert!(identity.gradient_pair_1d(77) < 4);
}
