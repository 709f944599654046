use raytracer::{longest_axis, order_key, split, Split};

fn key(x: f64) -> u64 {
    order_key(x.to_bits())
}

fn expect_halves(keys: &[u64]) -> (Vec<usize>, Vec<usize>) {
    match split(&keys.to_vec()) {
        Some(Split::Halves(l, r)) => (l, r),
        _ => panic!("expected a median split"),
    }
}

#[test]
fn order_key_sorts_like_total_cmp() {
    let values = [
        f64::NEG_INFINITY,
        -1.0e300,
        -2.5,
        -1.0,
        -f64::MIN_POSITIVE,
        -0.0,
        0.0,
        f64::MIN_POSITIVE,
        1.0,
        2.5,
        1.0e300,
        f64::INFINITY,
    ];
    for a in values {
        for b in values {
            assert_eq!(key(a).cmp(&key(b)), a.total_cmp(&b), "{} vs {}", a, b);
        }
    }
}

#[test]
fn order_key_exact_values() {
    assert_eq!(key(0.0), 0x8000_0000_0000_0000);
    assert_eq!(key(-0.0), 0x7fff_ffff_ffff_ffff);
    assert_eq!(key(1.0), 0x8000_0000_0000_0000 | 0x3ff0_0000_0000_0000);
    assert_eq!(key(-1.0), !0xbff0_0000_0000_0000u64);
}

#[test]
fn order_key_orders_nan_without_panicking() {
    assert!(key(f64::NAN) > key(f64::INFINITY));
    assert!(key(-f64::NAN) < key(f64::NEG_INFINITY));
}

#[test]
fn split_of_nothing() {
    assert!(split(&Vec::new()).is_none());
}

#[test]
fn split_of_one_object_is_a_leaf() {
    assert!(matches!(split(&vec![5]), Some(Split::Leaf(0))));
}

#[test]
fn split_of_two_objects_keeps_their_order() {
    assert!(matches!(split(&vec![9, 1]), Some(Split::Pair(0, 1))));
}

#[test]
fn split_of_three_sorts_and_halves() {
    let (l, r) = expect_halves(&[30, 10, 20]);
    assert_eq!(l, vec![1]);
    assert_eq!(r, vec![2, 0]);
}

#[test]
fn split_of_many_objects_by_key() {
    let keys = [key(4.0), key(-3.0), key(0.5), key(2.0), key(-7.0), key(1.0)];
    let (l, r) = expect_halves(&keys);
    assert_eq!(l, vec![4, 1, 2]);
    assert_eq!(r, vec![5, 3, 0]);
}

#[test]
fn split_with_equal_keys_keeps_their_order() {
    let (l, r) = expect_halves(&[3, 3, 3, 3, 3]);
    assert_eq!(l, vec![0, 1]);
    assert_eq!(r, vec![2, 3, 4]);
}

#[test]
fn split_halves_cover_every_object() {
    let keys: Vec<u64> = (0..101u64).map(|i| (i * 7919) % 103).collect();
    let (l, r) = expect_halves(&keys);
    assert_eq!(l.len(), 50);
    assert_eq!(r.len(), 51);
    let all: Vec<usize> = l.iter().chain(r.iter()).copied().collect();
    let mut seen = all.clone();
    seen.sort();
    assert_eq!(seen, (0..101).collect::<Vec<usize>>());
    for w in all.windows(2) {
        assert!(keys[w[0]] <= keys[w[1]]);
    }
}

#[test]
fn longest_axis_picks_the_largest_extent() {
    assert_eq!(longest_axis(key(3.0), key(1.0), key(2.0)), 0);
    assert_eq!(longest_axis(key(1.0), key(3.0), key(2.0)), 1);
    assert_eq!(longest_axis(key(1.0), key(2.0), key(3.0)), 2);
}

#[test]
fn longest_axis_ties_prefer_x_then_z_then_y() {
    assert_eq!(longest_axis(key(2.0), key(2.0), key(2.0)), 0);
    assert_eq!(longest_axis(key(2.0), key(2.0), key(1.0)), 0);
    assert_eq!(longest_axis(key(2.0), key(1.0), key(2.0)), 0);
    assert_eq!(longest_axis(key(1.0), key(2.0), key(2.0)), 2);
}

