use raytracer::perlin::{generate_perm, shuffled_perm, Lattice, POINT_COUNT};

fn assert_permutation(p: &[usize], n: usize) {
    assert_eq!(p.len(), n);
    let mut seen = vec![false; n];
    for &v in p {
        assert!(v < n);
        assert!(!seen[v]);
        seen[v] = true;
    }
}

#[test]
fn generate_perm_is_a_permutation() {
    for n in [0usize, 1, 2, 3, 17, 256] {
        assert_permutation(&generate_perm(n), n);
    }
}

#[test]
fn generate_perm_shuffles() {
    let identity: Vec<usize> = (0..256).collect();
    let shuffled = (0..4).any(|_| generate_perm(256) != identity);
    assert!(shuffled);
}

#[test]
fn corner_index_stays_in_table() {
    let lattice = Lattice::new();
    for x in [-1000, -257, -256, -1, 0, 1, 255, 256, 1000, i32::MIN, i32::MAX] {
        assert!(lattice.corner_index(x, 3, -7) < POINT_COUNT);
    }
}

#[test]
fn corner_index_wraps_every_256() {
    let lattice = Lattice::new();
    assert_eq!(lattice.corner_index(5, 6, 7), lattice.corner_index(261, 6 - 256, 7 + 512));
    assert_eq!(lattice.corner_index(-1, 0, 0), lattice.corner_index(255, 256, 0));
}

#[test]
fn corner_index_of_equal_coordinates() {
    let lattice = Lattice::new();
    // x ^ x ^ x == x, and the entries selected by 0 and 256 agree.
    let a = lattice.corner_index(0, 0, 0);
    let b = lattice.corner_index(256, -256, 512);
    assert_eq!(a, b);
}

#[test]
fn generate_perm_draws_fresh_shuffles() {
    let a = generate_perm(64);
    let b = generate_perm(64);
    let c = generate_perm(64);
    assert!(a != b || b != c);
}

#[test]
fn shuffled_perm_follows_draws() {
    assert_eq!(shuffled_perm(&vec![0, 0, 1]), vec![2, 0, 1]);
    assert_eq!(shuffled_perm(&vec![0, 1, 2, 3]), vec![0, 1, 2, 3]);
    assert_eq!(shuffled_perm(&vec![0, 0, 0, 0]), vec![1, 2, 3, 0]);
    assert_eq!(shuffled_perm(&vec![]), Vec::<usize>::new());
}

#[test]
fn corner_index_with_identity_table() {
    let draws: Vec<usize> = (0..POINT_COUNT).collect();
    let lattice = Lattice::from_draws(&draws);
    assert_eq!(lattice.corner_index(3, 5, -1), 3 ^ 5 ^ 255);
    assert_eq!(lattice.corner_index(256, 0, 0), 0);
    assert_eq!(lattice.corner_index(-256, 7, 7), 0);
}
