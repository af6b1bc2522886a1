use gradient_noise::tables::GradientTable;
use gradient_noise::tables::PermutationTable;
use gradient_noise::tables::is_permutation;

fn identity_entries() -> Vec<u8> {
    let mut v: Vec<u8> = Vec::new();
    for i in 0..256usize {
        v.push(i as u8);
    }
    v
}

#[test]
fn permutations_len_is_256() {
    // This must be true so that we can do & 255
    // (which works for negative) instead of % len()
    // and handling negative.
    assert_eq!(PermutationTable::identity().len(), 256);
}

#[test]
fn gradients_len_is_32() {
    // This must be true so that we can do & 31
    // (which works for negative) instead of % len()
    // and handling negative.
    assert_eq!(GradientTable::new(32).len(), 32);
}

#[test]
fn gradients_len_divides_permutations_len() {
    // If the permutation table length is not a multiple of the gradient
    // count, the gradients will not be uniformly distributed.
    let permutations = PermutationTable::identity();
    let gradients = GradientTable::new(32);
    assert_eq!(permutations.len() % gradients.len(), 0);
}

#[test]
fn permutation_table_length_is_256() {
    let table = PermutationTable::new(identity_entries());
    assert_eq!(table.len(), 256);
}

#[test]
fn identity_table_holds_each_index() {
    let table = PermutationTable::identity();
    for i in 0..256usize {
        assert_eq!(table.lookup(i), i as u8);
    }
}

#[test]
fn reversed_entries_are_a_permutation() {
    let mut v: Vec<u8> = Vec::new();
    for i in 0..256usize {
        v.push(255 - i as u8);
    }
    assert!(is_permutation(&v));
    let table = PermutationTable::from_entries(v).unwrap();
    assert_eq!(table.lookup(0), 255);
    assert_eq!(table.len(), 256);
}

#[test]
fn short_entries_are_rejected() {
    let v: Vec<u8> = vec![1, 2, 3];
    assert!(!is_permutation(&v));
    assert!(PermutationTable::from_entries(v).is_none());
}

#[test]
fn repeated_entries_are_rejected() {
    let mut v = identity_entries();
    v[7] = 9;
    assert!(!is_permutation(&v));
    assert!(PermutationTable::from_entries(v).is_none());
}

#[test]
fn four_directions_is_a_valid_table() {
    let gradients = GradientTable::new(4);
    assert_eq!(gradients.len(), 4);
    assert_eq!(256 % gradients.len(), 0);
}
