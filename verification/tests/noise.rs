use phrtf_distance_proximity::noise::XorShift32;

#[test]
fn seed_one_gives_the_reference_xorshift_stream() {
    let mut rng = XorShift32::new(1);
    let got: Vec<u32> = (0..5).map(|_| rng.next_u32()).collect();
    assert_eq!(got, vec![270369, 67634689, 2647435461, 307599695, 2398689233]);
}

#[test]
fn other_seed_gives_its_own_stream() {
    let mut rng = XorShift32::new(42);
    assert_eq!(rng.next_u32(), 11355432);
    assert_eq!(rng.next_u32(), 2836018348);
    assert_eq!(rng.next_u32(), 476557059);
}

#[test]
fn zero_seed_behaves_like_seed_one() {
    let mut a = XorShift32::new(0);
    let mut b = XorShift32::new(1);
    for _ in 0..100 {
        assert_eq!(a.next_u32(), b.next_u32());
    }
}

#[test]
fn same_seed_same_stream() {
    let mut a = XorShift32::new(0x1234_abcd);
    let mut b = XorShift32::new(0x1234_abcd);
    for _ in 0..1000 {
        assert_eq!(a.next_u32(), b.next_u32());
    }
}

#[test]
fn stream_never_yields_zero() {
    for seed in [0u32, 1, 2, 0x8000_0000, u32::MAX, 0xdead_beef] {
        let mut rng = XorShift32::new(seed);
        for _ in 0..10_000 {
            assert_ne!(rng.next_u32(), 0);
        }
    }
}

#[test]
fn clone_continues_the_same_stream() {
    let mut a = XorShift32::new(7);
    a.next_u32();
    let mut b = a.clone();
    for _ in 0..50 {
        assert_eq!(a.next_u32(), b.next_u32());
    }
}
