use raytracing::random::{rand_pcg, Pcg, Random, RandomInRange};

#[test]
fn new_stream_starts_at_zero() {
    assert_eq!(Pcg::new().state, 0);
}

#[test]
fn rand_pcg_first_draws() {
    let mut rng = Pcg::new();
    assert_eq!(rand_pcg(&mut rng), 0);
    assert_eq!(rng.state, 2891336453);
    assert_eq!(rand_pcg(&mut rng), 129708002);
    assert_eq!(rng.state, 1192405134);
    assert_eq!(rand_pcg(&mut rng), 582399676);
    assert_eq!(rand_pcg(&mut rng), 1006035121);
    assert_eq!(rng.state, 878960812);
}

#[test]
fn streams_from_the_same_state_agree() {
    let mut a = Pcg::new();
    let mut b = Pcg::new();
    for _ in 0..100 {
        assert_eq!(rand_pcg(&mut a), rand_pcg(&mut b));
    }
}

#[test]
fn random_u32_is_the_raw_word() {
    let mut rng = Pcg { state: 2891336453 };
    assert_eq!(<u32 as Random>::random(&mut rng), 129708002);
    assert_eq!(rng.state, 1192405134);
}

#[test]
fn random_in_range_scales_the_word() {
    let mut rng = Pcg { state: 1192405134 };
    assert_eq!(u32::random_in_range(&mut rng, 10, 20), 11);
    assert_eq!(u32::random_in_range(&mut rng, 10, 20), 12);
    let mut rng = Pcg { state: 1192405134 };
    assert_eq!(u32::random_in_range(&mut rng, 5, 1005), 5 + 135);
}

#[test]
fn random_in_range_full_width() {
    let mut rng = Pcg { state: 2891336453 };
    assert_eq!(u32::random_in_range(&mut rng, 0, u32::MAX), 129708001);
}

#[test]
fn random_in_range_empty_range_yields_min() {
    let mut rng = Pcg { state: 1192405134 };
    assert_eq!(u32::random_in_range(&mut rng, 7, 7), 7);
    assert_eq!(rng.state, 568162667);
}

#[test]
fn random_in_range_stays_below_max() {
    let mut rng = Pcg::new();
    for _ in 0..1000 {
        let v = u32::random_in_range(&mut rng, 100, 110);
        assert!((100..110).contains(&v));
    }
}
