use sbm_core::rng::SimpleRng;

#[test]
fn zero_seed_uses_default_state() {
    let rng = SimpleRng::new(0);
    assert_eq!(rng.state, 0xdeadbeef_cafebabe);
}

#[test]
fn nonzero_seed_is_kept() {
    let rng = SimpleRng::new(42);
    assert_eq!(rng.state, 42);
}

#[test]
fn xorshift_sequence_from_seed_42() {
    let mut rng = SimpleRng::new(42);
    assert_eq!(rng.next_u64(), 45454805674);
    assert_eq!(rng.state, 45454805674);
    assert_eq!(rng.next_u64(), 11532217803599905471);
    assert_eq!(rng.next_u64(), 10021416941527320954);
}

#[test]
fn zero_seed_stream_matches_default_seed_stream() {
    let mut a = SimpleRng::new(0);
    let mut b = SimpleRng::new(0xdeadbeef_cafebabe);
    assert_eq!(a.next_u64(), 2872271934144653387);
    b.next_u64();
    for _ in 0..100 {
        assert_eq!(a.next_u64(), b.next_u64());
    }
}

#[test]
fn same_seed_same_stream() {
    let mut a = SimpleRng::new(2026);
    let mut b = SimpleRng::new(2026);
    for _ in 0..1000 {
        assert_eq!(a.next_u64(), b.next_u64());
    }
}

#[test]
fn stream_never_hits_zero() {
    let mut rng = SimpleRng::new(1);
    for _ in 0..10_000 {
        assert_ne!(rng.next_u64(), 0);
    }
}

#[test]
fn mantissa_is_top_53_bits() {
    let mut rng = SimpleRng::new(42);
    assert_eq!(rng.next_mantissa(), 22194729);
    assert_eq!(rng.next_mantissa(), 5630965724414016);
    assert_eq!(rng.next_mantissa(), 4893269990980137);
    let mut other = SimpleRng::new(7);
    for _ in 0..1000 {
        let mut copy = other.clone();
        let full = copy.next_u64();
        let m = other.next_mantissa();
        assert_eq!(m, full >> 11);
        assert!(m < (1u64 << 53));
        assert_eq!(other.state, copy.state);
    }
}
