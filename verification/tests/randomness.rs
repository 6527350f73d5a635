use cisat::utilities::randomness::{multinomial_draw, RngHandle};

#[test]
fn test_multinomial_draw() {
    let mut rng = RngHandle::from_seed(11);
    let x = multinomial_draw(&mut rng, &vec![1000000, 2300000, 10100000, 3100000]);
    println!("mult: {:?}", x);
}

#[test]
fn multinomial_draw_picks_only_positive_weight() {
    let mut rng = RngHandle::from_seed(5);
    for _ in 0..50 {
        let idx = multinomial_draw(&mut rng, &vec![0, 0, 5, 0]);
        assert_eq!(idx, 2);
    }
}

#[test]
fn multinomial_draw_all_zero_weights_falls_back_uniformly() {
    let mut rng = RngHandle::from_seed(6);
    for _ in 0..50 {
        let idx = multinomial_draw(&mut rng, &vec![0, 0, 0]);
        assert!(idx < 3);
    }
}

#[test]
fn next_below_stays_below_bound() {
    let mut rng = RngHandle::from_seed(7);
    for _ in 0..100 {
        assert_eq!(rng.next_below(1), 0);
        assert!(rng.next_below(10) < 10);
    }
}

#[test]
fn seeded_draws_are_reproducible() {
    let mut a = RngHandle::from_seed(99);
    let mut b = RngHandle::from_seed(99);
    for _ in 0..20 {
        assert_eq!(a.next_below(1000000), b.next_below(1000000));
    }
}
