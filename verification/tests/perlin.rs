use rand::rngs::SmallRng;
use rand::{Rng, SeedableRng};
use rt_next_week::perlin::{perlin_generate_perm, permute_with, PerlinPerm};

fn is_permutation(p: &[usize; 256]) -> bool {
    let mut seen = [false; 256];
    for &v in p.iter() {
        if v >= 256 || seen[v] {
            return false;
        }
        seen[v] = true;
    }
    true
}

#[test]
fn generated_perm_is_a_permutation() {
    let mut rng = SmallRng::seed_from_u64(42);
    let p = perlin_generate_perm(&mut rng);
    assert!(is_permutation(&p));
    let identity: Vec<usize> = (0..256).collect();
    assert_ne!(p.to_vec(), identity);
}

#[test]
fn perm_tables_deterministic_for_a_seed() {
    let a = PerlinPerm::generate(&mut SmallRng::seed_from_u64(42));
    let b = PerlinPerm::generate(&mut SmallRng::seed_from_u64(42));
    assert_eq!(a, b);
    let c = a.clone();
    assert_eq!(a, c);
    assert!(is_permutation(a.perm_x()));
    assert!(is_permutation(a.perm_y()));
    assert!(is_permutation(a.perm_z()));
    assert_ne!(a.perm_x(), a.perm_y());
}

#[test]
fn lattice_index_wraps_coordinates() {
    let perm = PerlinPerm::generate(&mut SmallRng::seed_from_u64(99));
    let (px, py, pz) = (perm.perm_x(), perm.perm_y(), perm.perm_z());
    for &(x, y, z) in &[(0i32, 0i32, 0i32), (1, 2, 3), (-1, -256, 255), (256, 511, -7), (i32::MAX, i32::MIN, 0)] {
        let idx = perm.lattice_index(x, y, z);
        let expect = px[(x & 255) as usize] ^ py[(y & 255) as usize] ^ pz[(z & 255) as usize];
        assert_eq!(idx, expect);
        assert!(idx < 256);
    }
    assert_eq!(perm.lattice_index(-1, 0, 0), perm.lattice_index(255, 256, -256));
}

#[test]
fn permute_with_self_swaps_is_identity() {
    let mut p: [usize; 256] = [0; 256];
    for (i, v) in p.iter_mut().enumerate() {
        *v = i;
    }
    let targets: Vec<usize> = (1..256usize).rev().collect();
    let before = p;
    permute_with(&mut p, &targets);
    assert_eq!(p, before);
}

#[test]
fn permute_with_swaps_to_front_rotates() {
    let mut p: [usize; 256] = [0; 256];
    for (i, v) in p.iter_mut().enumerate() {
        *v = i;
    }
    permute_with(&mut p, &vec![0usize; 255]);
    for i in 0..255 {
        assert_eq!(p[i], i + 1);
    }
    assert_eq!(p[255], 0);
}

#[test]
fn generated_perm_matches_drawn_swaps() {
    let p = perlin_generate_perm(&mut SmallRng::seed_from_u64(42));
    let mut rng = SmallRng::seed_from_u64(42);
    let targets: Vec<usize> = (1..256usize).rev().map(|i| rng.gen_range(0..=i)).collect();
    let mut q: [usize; 256] = [0; 256];
    for (i, v) in q.iter_mut().enumerate() {
        *v = i;
    }
    permute_with(&mut q, &targets);
    assert_eq!(p, q);
}
