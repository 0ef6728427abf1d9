use noiserand::generator::{compose_u64, pack, NoiseRand, RefillError};

fn filled(samples: Vec<i16>) -> NoiseRand {
    let mut g = NoiseRand::new();
    assert_eq!(g.refill(samples), Ok(()));
    g
}

#[test]
fn new_generator_needs_a_batch() {
    let mut g = NoiseRand::new();
    assert_eq!(g.len(), 0);
    assert!(g.needs_refill());
    assert_eq!(g.try_next_u32(), None);
}

#[test]
fn end_to_end_example_draws_newest_first() {
    let mut g = filled(vec![1000, -1, 42, 7]);
    assert_eq!(g.try_next_u32(), Some(0x0007_002A));
    assert_eq!(g.len(), 2);
    assert_eq!(g.try_next_u32(), Some(0xFFFF_03E8));
    assert_eq!(g.len(), 0);
    assert!(g.needs_refill());
    assert_eq!(g.try_next_u32(), None);
}

#[test]
fn negative_low_sample_is_zero_extended() {
    assert_eq!(pack(1, -1), 0x0001_FFFF);
    assert_eq!(pack(-1, -1), 0xFFFF_FFFF);
    assert_eq!(pack(-32768, 0), 0x8000_0000);
    assert_eq!(pack(0, -32768), 0x0000_8000);
}

#[test]
fn each_draw_removes_two_samples() {
    let mut g = filled(vec![1, 2, 3, 4, 5]);
    assert!(g.try_next_u32().is_some());
    assert_eq!(g.len(), 3);
    assert!(!g.needs_refill());
    assert!(g.try_next_u32().is_some());
    assert_eq!(g.len(), 1);
    assert!(g.needs_refill());
    assert_eq!(g.try_next_u32(), None);
    assert_eq!(g.len(), 1);
}

#[test]
fn refill_discards_the_leftover_sample() {
    let mut g = filled(vec![9, 1, 2]);
    assert_eq!(g.try_next_u32(), Some(0x0002_0001));
    assert_eq!(g.refill(vec![3, 4]), Ok(()));
    assert_eq!(g.len(), 2);
    assert_eq!(g.try_next_u32(), Some(0x0004_0003));
}

#[test]
fn undersized_batches_are_refused() {
    let mut g = NoiseRand::new();
    assert_eq!(g.refill(vec![]), Err(RefillError::Undersized));
    assert_eq!(g.refill(vec![5]), Err(RefillError::Undersized));
    assert!(g.needs_refill());
    assert_eq!(g.try_next_u32(), None);
    let mut buf = [0xAAu8; 4];
    assert_eq!(g.fill_bytes_from(&mut buf, 0), 0);
    assert_eq!(buf, [0xAA; 4]);
}

#[test]
fn compose_puts_first_draw_low() {
    assert_eq!(compose_u64(1, 2), 0x0000_0002_0000_0001);
    assert_eq!(compose_u64(0xFFFF_FFFF, 0), 0x0000_0000_FFFF_FFFF);
    assert_eq!(compose_u64(0, 0xFFFF_FFFF), 0xFFFF_FFFF_0000_0000);
}

#[test]
fn next_u64_from_two_draws() {
    let mut g = filled(vec![1000, -1, 42, 7]);
    let first = g.try_next_u32().unwrap();
    let second = g.try_next_u32().unwrap();
    assert_eq!(compose_u64(first, second), 0xFFFF_03E8_0007_002A);
}

fn expected_bytes(samples: &[i16], len: usize) -> Vec<u8> {
    let mut g = filled(samples.to_vec());
    let mut out = Vec::new();
    while out.len() < len {
        let w = g.try_next_u32().unwrap();
        out.extend_from_slice(&w.to_le_bytes());
    }
    out.truncate(len);
    out
}

#[test]
fn fill_matches_little_endian_draws() {
    let samples: Vec<i16> = vec![1000, -1, 42, 7, -300, 12345, 0x1234, -2];
    for len in [0usize, 1, 3, 4, 7] {
        let mut g = filled(samples.clone());
        let mut buf = vec![0u8; len];
        assert_eq!(g.fill_bytes_from(&mut buf, 0), len);
        assert_eq!(buf, expected_bytes(&samples, len));
        let words = (len + 3) / 4;
        assert_eq!(g.len(), samples.len() - 2 * words);
    }
}

#[test]
fn fill_of_seven_bytes_exact_values() {
    let mut g = filled(vec![1000, -1, 42, 7]);
    let mut buf = [0u8; 7];
    assert_eq!(g.fill_bytes_from(&mut buf, 0), 7);
    assert_eq!(buf, [0x2A, 0x00, 0x07, 0x00, 0xE8, 0x03, 0xFF]);
    assert_eq!(g.len(), 0);
}

#[test]
fn fill_stops_when_samples_run_out() {
    let mut g = filled(vec![5, 1000, -1, 42, 7]);
    let mut buf = [0xAAu8; 10];
    assert_eq!(g.fill_bytes_from(&mut buf, 0), 8);
    assert_eq!(buf, [0x2A, 0x00, 0x07, 0x00, 0xE8, 0x03, 0xFF, 0xFF, 0xAA, 0xAA]);
    assert!(g.needs_refill());
    assert_eq!(g.refill(vec![0x0102, 0x0304]), Ok(()));
    assert_eq!(g.fill_bytes_from(&mut buf, 8), 10);
    assert_eq!(&buf[8..], &[0x02, 0x01]);
    assert_eq!(g.len(), 0);
}

#[test]
fn fill_from_the_end_is_complete() {
    let mut g = NoiseRand::new();
    let mut buf = [1u8, 2, 3];
    assert_eq!(g.fill_bytes_from(&mut buf, 3), 3);
    assert_eq!(buf, [1, 2, 3]);
}
