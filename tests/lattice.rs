use raytracer::{apply_swaps, generate_perm, permute, Lattice};

fn is_arrangement(perm: &[u32], n: u32) -> bool {
    let mut sorted = perm.to_vec();
    sorted.sort();
    sorted == (0..n).collect::<Vec<u32>>()
}

#[test]
fn generated_table_holds_every_slot_once() {
    let perm = generate_perm(256);
    assert_eq!(perm.len(), 256);
    assert!(is_arrangement(&perm, 256));
}

#[test]
fn generated_table_of_one_slot() {
    assert_eq!(generate_perm(1), vec![0]);
}

#[test]
fn generated_table_of_no_slots() {
    assert!(generate_perm(0).is_empty());
}

#[test]
fn permute_moves_every_entry() {
    // Each slot is swapped with a slot strictly below it, so no entry stays put.
    let perm = permute((0..64).collect());
    assert!(is_arrangement(&perm, 64));
    for (i, &p) in perm.iter().enumerate() {
        assert_ne!(p as usize, i);
    }
}

#[test]
fn permute_keeps_a_shuffled_table_an_arrangement() {
    let perm = permute(vec![3, 0, 2, 1]);
    assert!(is_arrangement(&perm, 4));
}

#[test]
fn lattice_reports_its_size() {
    assert_eq!(Lattice::new(256).dim(), 256);
}

#[test]
fn corner_slots_stay_inside_the_table() {
    let lattice = Lattice::new(16);
    for i in -40..40 {
        for d in 0..2 {
            let r = lattice.corner(i, i / 3, -i, d, 1 - d, d);
            assert!(r < 16);
        }
    }
}

#[test]
fn corner_wraps_coordinates_modulo_the_table() {
    let lattice = Lattice::new(8);
    for i in -20..20 {
        assert_eq!(lattice.corner(i, 0, 0, 0, 0, 0), lattice.corner(i + 8, 0, 0, 0, 0, 0));
        assert_eq!(lattice.corner(0, i, 0, 0, 0, 0), lattice.corner(0, i - 16, 0, 0, 0, 0));
    }
}

#[test]
fn corner_offset_moves_one_cell() {
    let lattice = Lattice::new(32);
    assert_eq!(lattice.corner(-1, 4, 7, 1, 0, 0), lattice.corner(0, 4, 7, 0, 0, 0));
    assert_eq!(lattice.corner(3, -1, 7, 0, 1, 1), lattice.corner(3, 0, 8, 0, 0, 0));
}

#[test]
fn corner_at_the_edge_of_the_coordinate_range() {
    let lattice = Lattice::new(256);
    // i32::MAX + 1 is 2^31, a multiple of the table size.
    assert_eq!(lattice.corner(i32::MAX, 0, 0, 1, 0, 0), lattice.corner(0, 0, 0, 0, 0, 0));
    assert_eq!(lattice.corner(i32::MIN, 0, 0, 0, 0, 0), lattice.corner(0, 0, 0, 0, 0, 0));
}

#[test]
fn corner_of_a_single_slot_table_is_zero() {
    let lattice = Lattice::new(1);
    assert_eq!(lattice.corner(123, -7, 9, 1, 1, 1), 0);
}

#[test]
fn apply_swaps_exchanges_from_the_last_slot_down() {
    // Slot 2 with slot 1 gives [0, 2, 1]; then slot 1 with slot 0 gives [2, 0, 1].
    assert_eq!(apply_swaps(vec![0, 1, 2], &vec![0, 0, 1]), vec![2, 0, 1]);
    // Slot 3 with 0: [40, 20, 30, 10]; slot 2 with 0: [30, 20, 40, 10]; slot 1 with 0.
    assert_eq!(apply_swaps(vec![10, 20, 30, 40], &vec![0, 0, 0, 0]), vec![20, 30, 40, 10]);
}

#[test]
fn apply_swaps_leaves_short_tables_alone() {
    assert_eq!(apply_swaps(vec![], &vec![]), Vec::<u32>::new());
    assert_eq!(apply_swaps(vec![9], &vec![0]), vec![9]);
}

#[test]
fn apply_swaps_of_two_slots_exchanges_them() {
    assert_eq!(apply_swaps(vec![5, 6], &vec![0, 0]), vec![6, 5]);
}

#[test]
fn generated_table_has_no_entry_at_its_own_index() {
    for n in [2u32, 3, 16, 256] {
        let perm = generate_perm(n);
        for (k, &p) in perm.iter().enumerate() {
            assert_ne!(p as usize, k);
        }
    }
}
