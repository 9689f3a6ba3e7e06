use colori_core::binomial::{binom, binom_cum};
use colori_core::unordered_cards::UnorderedCards;
use rand::rngs::SmallRng;
use rand::SeedableRng;

// ── Basic operations ──

#[test]
fn test_new_is_empty() {
    let s = UnorderedCards::new();
    assert_eq!(s.len(), 0);
    assert!(s.is_empty());
}

#[test]
fn test_insert_single() {
    let mut s = UnorderedCards::new();
    s.insert(10);
    assert!(s.contains(10));
    assert_eq!(s.len(), 1);
}

#[test]
fn test_insert_multiple() {
    let mut s = UnorderedCards::new();
    s.insert(0);
    s.insert(5);
    s.insert(127);
    assert_eq!(s.len(), 3);
    assert!(s.contains(0));
    assert!(s.contains(5));
    assert!(s.contains(127));
}

#[test]
fn test_insert_idempotent() {
    let mut s = UnorderedCards::new();
    s.insert(42);
    assert_eq!(s.len(), 1);
    s.insert(42);
    assert_eq!(s.len(), 1);
}

#[test]
fn test_remove() {
    let mut s = UnorderedCards::new();
    s.insert(7);
    s.remove(7);
    assert!(s.is_empty());
}

#[test]
fn test_remove_nonexistent() {
    let mut s = UnorderedCards::new();
    s.remove(50);
    assert!(s.is_empty());
}

#[test]
fn test_contains_empty() {
    let s = UnorderedCards::new();
    assert!(!s.contains(0));
    assert!(!s.contains(64));
    assert!(!s.contains(127));
}

#[test]
fn test_high_bits() {
    let mut s = UnorderedCards::new();
    s.insert(127);
    assert!(s.contains(127));
    assert_eq!(s.len(), 1);
}

// ── Set operations ──

#[test]
fn test_union() {
    let mut a = UnorderedCards::new();
    a.insert(0);
    a.insert(1);
    let mut b = UnorderedCards::new();
    b.insert(1);
    b.insert(2);
    let u = a.union(b);
    assert_eq!(u.len(), 3);
    assert!(u.contains(0));
    assert!(u.contains(1));
    assert!(u.contains(2));
}

#[test]
fn test_union_disjoint() {
    let mut a = UnorderedCards::new();
    a.insert(0);
    a.insert(1);
    let mut b = UnorderedCards::new();
    b.insert(2);
    b.insert(3);
    let u = a.union(b);
    assert_eq!(u.len(), 4);
    assert!(u.contains(0));
    assert!(u.contains(1));
    assert!(u.contains(2));
    assert!(u.contains(3));
}

#[test]
fn test_union_with_empty() {
    let mut a = UnorderedCards::new();
    a.insert(5);
    a.insert(10);
    let empty = UnorderedCards::new();
    assert_eq!(a.union(empty), a);
}

#[test]
fn test_intersection() {
    let mut a = UnorderedCards::new();
    a.insert(0);
    a.insert(1);
    a.insert(2);
    let mut b = UnorderedCards::new();
    b.insert(1);
    b.insert(2);
    b.insert(3);
    let i = a.intersection(b);
    assert_eq!(i.len(), 2);
    assert!(i.contains(1));
    assert!(i.contains(2));
}

#[test]
fn test_intersection_disjoint() {
    let mut a = UnorderedCards::new();
    a.insert(0);
    a.insert(1);
    let mut b = UnorderedCards::new();
    b.insert(2);
    b.insert(3);
    let i = a.intersection(b);
    assert!(i.is_empty());
}

#[test]
fn test_intersection_with_empty() {
    let mut a = UnorderedCards::new();
    a.insert(5);
    a.insert(10);
    let empty = UnorderedCards::new();
    assert_eq!(a.intersection(empty), UnorderedCards::new());
}

#[test]
fn test_difference() {
    let mut a = UnorderedCards::new();
    a.insert(0);
    a.insert(1);
    a.insert(2);
    let mut b = UnorderedCards::new();
    b.insert(1);
    b.insert(2);
    b.insert(3);
    let d = a.difference(b);
    assert_eq!(d.len(), 1);
    assert!(d.contains(0));
}

#[test]
fn test_difference_disjoint() {
    let mut a = UnorderedCards::new();
    a.insert(0);
    a.insert(1);
    let mut b = UnorderedCards::new();
    b.insert(2);
    b.insert(3);
    let d = a.difference(b);
    assert_eq!(d, a);
}

#[test]
fn test_difference_from_empty() {
    let empty = UnorderedCards::new();
    let mut b = UnorderedCards::new();
    b.insert(1);
    b.insert(2);
    let d = empty.difference(b);
    assert!(d.is_empty());
}

#[test]
fn test_difference_of_superset() {
    let mut a = UnorderedCards::new();
    a.insert(0);
    a.insert(1);
    let mut b = UnorderedCards::new();
    b.insert(0);
    b.insert(1);
    b.insert(2);
    let d = a.difference(b);
    assert!(d.is_empty());
}

// ── Member iteration ──

#[test]
fn test_iter_empty() {
    let s = UnorderedCards::new();
    assert_eq!(s.members(), Vec::<u8>::new());
    let mut it = s.iter();
    assert_eq!(it.next(), None);
}

#[test]
fn test_iter_elements() {
    let mut s = UnorderedCards::new();
    s.insert(3);
    s.insert(7);
    s.insert(100);
    let elems: Vec<u8> = s.members();
    assert_eq!(elems, vec![3, 7, 100]);
    let mut it = s.iter();
    assert_eq!(it.next(), Some(3));
    assert_eq!(it.next(), Some(7));
    assert_eq!(it.next(), Some(100));
    assert_eq!(it.next(), None);
}

#[test]
fn test_iter_all_low_bits() {
    let mut s = UnorderedCards::new();
    for i in 0..8 {
        s.insert(i);
    }
    let elems: Vec<u8> = s.members();
    assert_eq!(elems, vec![0, 1, 2, 3, 4, 5, 6, 7]);
}

#[test]
fn test_iter_size_hint() {
    let mut s = UnorderedCards::new();
    s.insert(1);
    s.insert(50);
    s.insert(100);
    let mut iter = s.iter();
    assert_eq!(iter.size_hint(), (3, 3));
    iter.next();
    assert_eq!(iter.size_hint(), (2, 2));
    iter.next();
    assert_eq!(iter.size_hint(), (1, 1));
    iter.next();
    assert_eq!(iter.size_hint(), (0, 0));
}

#[test]
fn test_iter_exact_size() {
    let mut s = UnorderedCards::new();
    s.insert(10);
    s.insert(20);
    s.insert(30);
    let mut iter = s.iter();
    assert_eq!(iter.len(), 3);
    iter.next();
    assert_eq!(iter.len(), 2);
    iter.next();
    assert_eq!(iter.len(), 1);
    iter.next();
    assert_eq!(iter.len(), 0);
}

// ── Random operations (seeded) ──

#[test]
fn test_pick_random_empty() {
    let s = UnorderedCards::new();
    let mut rng = SmallRng::seed_from_u64(42);
    assert_eq!(s.pick_random(&mut rng), None);
}

#[test]
fn test_pick_random_single() {
    let mut s = UnorderedCards::new();
    s.insert(99);
    let mut rng = SmallRng::seed_from_u64(42);
    for _ in 0..10 {
        assert_eq!(s.pick_random(&mut rng), Some(99));
    }
}

#[test]
fn test_pick_random_does_not_modify() {
    let mut s = UnorderedCards::new();
    s.insert(1);
    s.insert(2);
    s.insert(3);
    let mut rng = SmallRng::seed_from_u64(42);
    let original_len = s.len();
    for _ in 0..20 {
        s.pick_random(&mut rng);
    }
    assert_eq!(s.len(), original_len);
}

#[test]
fn test_pick_random_returns_member() {
    let mut s = UnorderedCards::new();
    for i in [10, 20, 30, 40, 50, 60, 70, 80, 90, 100] {
        s.insert(i);
    }
    let mut rng = SmallRng::seed_from_u64(42);
    for _ in 0..100 {
        let picked = s.pick_random(&mut rng).unwrap();
        assert!(s.contains(picked), "picked {} not in set", picked);
    }
}

#[test]
fn test_draw_empty() {
    let mut s = UnorderedCards::new();
    let mut rng = SmallRng::seed_from_u64(42);
    assert_eq!(s.draw(&mut rng), None);
}

#[test]
fn test_draw_single() {
    let mut s = UnorderedCards::new();
    s.insert(55);
    let mut rng = SmallRng::seed_from_u64(42);
    let drawn = s.draw(&mut rng);
    assert_eq!(drawn, Some(55));
    assert!(s.is_empty());
}

#[test]
fn test_draw_removes_element() {
    let mut s = UnorderedCards::new();
    s.insert(10);
    s.insert(20);
    s.insert(30);
    let mut rng = SmallRng::seed_from_u64(42);
    let drawn = s.draw(&mut rng).unwrap();
    assert_eq!(s.len(), 2);
    assert!(!s.contains(drawn));
}

#[test]
fn test_draw_all() {
    let mut s = UnorderedCards::new();
    let elements: Vec<u8> = vec![5, 15, 25, 35, 45];
    for &e in &elements {
        s.insert(e);
    }
    let original = s;
    let mut rng = SmallRng::seed_from_u64(42);
    let mut drawn = Vec::new();
    while let Some(e) = s.draw(&mut rng) {
        drawn.push(e);
    }
    assert_eq!(drawn.len(), elements.len());
    for &d in &drawn {
        assert!(original.contains(d));
    }
}

#[test]
fn test_draw_multiple_zero() {
    let mut s = UnorderedCards::new();
    s.insert(1);
    s.insert(2);
    s.insert(3);
    let original = s;
    let mut rng = SmallRng::seed_from_u64(42);
    let drawn = s.draw_multiple(0, &mut rng);
    assert!(drawn.is_empty());
    assert_eq!(s, original);
}

#[test]
fn test_draw_multiple_all() {
    let mut s = UnorderedCards::new();
    s.insert(0);
    s.insert(1);
    s.insert(2);
    s.insert(3);
    let n = s.len();
    let mut rng = SmallRng::seed_from_u64(42);
    let drawn = s.draw_multiple(n, &mut rng);
    assert_eq!(drawn.len(), n);
    assert!(s.is_empty());
}

#[test]
fn test_draw_multiple_more_than_available() {
    let mut s = UnorderedCards::new();
    s.insert(10);
    s.insert(20);
    let original = s;
    let mut rng = SmallRng::seed_from_u64(42);
    let drawn = s.draw_multiple(100, &mut rng);
    assert_eq!(drawn, original);
    assert!(s.is_empty());
}

#[test]
fn test_draw_multiple_subset() {
    let mut s = UnorderedCards::new();
    for i in 0..10 {
        s.insert(i);
    }
    let original = s;
    let mut rng = SmallRng::seed_from_u64(42);
    let drawn = s.draw_multiple(4, &mut rng);
    assert_eq!(drawn.len(), 4);
    // drawn and remainder are disjoint
    assert!(drawn.intersection(s).is_empty());
    // union equals original
    assert_eq!(drawn.union(s), original);
}

#[test]
fn test_draw_multiple_distribution() {
    let base = {
        let mut s = UnorderedCards::new();
        for i in 0u8..5 {
            s.insert(i);
        }
        s
    };
    let mut rng = SmallRng::seed_from_u64(42);
    let mut counts: std::collections::HashMap<u128, u32> = std::collections::HashMap::new();
    for _ in 0..10_000 {
        let mut s = base;
        let drawn = s.draw_multiple(2, &mut rng);
        *counts.entry(drawn.0).or_insert(0) += 1;
    }
    // C(5,2) = 10 possible subsets
    assert_eq!(counts.len(), 10);
    for (&_subset, &count) in &counts {
        assert!(count >= 500, "subset appeared only {} times (expected ~1000)", count);
    }
}

#[test]
fn test_draw_up_to_zero() {
    let mut s = UnorderedCards::new();
    s.insert(1);
    s.insert(2);
    let original = s;
    let mut rng = SmallRng::seed_from_u64(42);
    let drawn = s.draw_up_to(0, &mut rng);
    assert!(drawn.is_empty());
    assert_eq!(s, original);
}

#[test]
fn test_draw_up_to_returns_valid_subset() {
    let mut s = UnorderedCards::new();
    for i in 0..8 {
        s.insert(i);
    }
    let original = s;
    let mut rng = SmallRng::seed_from_u64(42);
    let drawn = s.draw_up_to(5, &mut rng);
    assert!(drawn.len() <= 5);
    // drawn is a subset of original
    assert_eq!(drawn.intersection(original), drawn);
    // source reduced by drawn count
    assert_eq!(s.len() + drawn.len(), original.len());
}

#[test]
fn test_draw_up_to_max_exceeds_size() {
    let mut s = UnorderedCards::new();
    s.insert(10);
    s.insert(20);
    s.insert(30);
    let mut rng = SmallRng::seed_from_u64(42);
    let drawn = s.draw_up_to(100, &mut rng);
    assert!(drawn.len() <= 3);
}

#[test]
fn test_draw_up_to_can_return_zero() {
    let base = {
        let mut s = UnorderedCards::new();
        for i in 0u8..5 {
            s.insert(i);
        }
        s
    };
    let mut rng = SmallRng::seed_from_u64(42);
    let mut saw_empty = false;
    for _ in 0..1000 {
        let mut s = base;
        let drawn = s.draw_up_to(2, &mut rng);
        if drawn.is_empty() {
            saw_empty = true;
            break;
        }
    }
    assert!(saw_empty, "draw_up_to never returned empty in 1000 trials");
}

// ── Binomial coefficients ──

#[test]
fn test_binom_base_cases() {
    for n in [0, 1, 10, 50, 128] {
        assert_eq!(binom(n, 0), 1, "C({}, 0) should be 1", n);
    }
    for k in 1..10 {
        assert_eq!(binom(0, k), 0, "C(0, {}) should be 0", k);
    }
}

#[test]
fn test_binom_known_values() {
    assert_eq!(binom(5, 2), 10);
    assert_eq!(binom(10, 3), 120);
    assert_eq!(binom(128, 1), 128);
}

#[test]
fn test_binom_symmetry_small() {
    // C(8,3) should equal C(8,5)
    assert_eq!(binom(8, 3), binom(8, 5));
    // C(6,2) should equal C(6,4)
    assert_eq!(binom(6, 2), binom(6, 4));
    // C(9,4) should equal C(9,5)
    assert_eq!(binom(9, 4), binom(9, 5));
}

// ── Equality and copying ──

#[test]
fn test_equality() {
    let mut a = UnorderedCards::new();
    a.insert(5);
    a.insert(10);
    a.insert(15);
    let mut b = UnorderedCards::new();
    b.insert(15);
    b.insert(5);
    b.insert(10);
    assert_eq!(a, b);
}

#[test]
fn test_inequality() {
    let mut a = UnorderedCards::new();
    a.insert(1);
    a.insert(2);
    let mut b = UnorderedCards::new();
    b.insert(1);
    b.insert(3);
    assert_ne!(a, b);
}

#[test]
fn test_clone() {
    let mut original = UnorderedCards::new();
    original.insert(10);
    original.insert(20);
    let mut cloned = original;
    assert_eq!(original, cloned);
    cloned.insert(30);
    assert_ne!(original, cloned);
    assert!(!original.contains(30));
}

// ── Cumulative binomial sums ──

#[test]
fn test_binom_cum_base() {
    // The cumulative sum at k = 0 is always 1 (= C(n, 0))
    for n in [0, 1, 10, 50, 128] {
        assert_eq!(binom_cum(n, 0), 1, "cumulative C({}, 0) should be 1", n);
    }
}

#[test]
fn test_binom_cum_values() {
    // C(5,0) + C(5,1) + C(5,2) = 1 + 5 + 10 = 16
    assert_eq!(binom_cum(5, 2), 16);
    // The sum over all subset sizes of a 5-element set is 2^5 = 32
    assert_eq!(binom_cum(5, 5), 32);
}

#[test]
fn test_binom_cum_consistency() {
    // The cumulative value matches the manual sum of binomials
    for n in [3u32, 7, 15, 30] {
        for k in 0..9.min(n) {
            let manual_sum: u128 = (0..=k).map(|j| binom(n, j) as u128).sum();
            assert_eq!(binom_cum(n, k), manual_sum, "cumulative C({}, {})", n, k);
        }
    }
}
