use candy_mint::randomness::{draw_in_range, generate_randomness, process_mint_ixn_data};

fn bytes_of(raw: u32) -> [u8; 4] {
    raw.to_ne_bytes()
}

#[test]
fn test_generate_randomness_with_flipped_bounds() {
    let min = 100;
    let max = 50;

    let result = generate_randomness(100, 50, bytes_of(12_345));
    assert!(result >= max && result < min);
}

#[test]
fn test_generate_randomness_with_equal_bounds() {
    let bound = 100;
    assert_eq!(generate_randomness(bound, bound, bytes_of(987_654_321)), bound);
}

#[test]
fn test_generate_randomness_within_bounds() {
    let min = 100;
    let max = 200;

    let result = generate_randomness(min, max, bytes_of(4_000_000_001));

    assert!(result >= min && result < max);
}

#[test]
fn test_generate_randomness_distribution() {
    let min = 0;
    let max = 9;

    let mut counts = vec![0; 10];
    for i in 0..1000u32 {
        let raw = i.wrapping_mul(2_654_435_761);
        let result = generate_randomness(min, max, bytes_of(raw));
        let index: usize = result as usize;
        counts[index] += 1;
    }

    for count in counts.iter() {
        assert!(*count > 0);
    }
}

#[test]
fn draw_is_the_raw_value_modulo_the_window_above_the_lower_bound() {
    assert_eq!(draw_in_range(10, 20, 25), 13);
    assert_eq!(draw_in_range(20, 10, 25), 13);
    assert_eq!(draw_in_range(0, 500_000_000, 500_000_001), 0);
    assert_eq!(draw_in_range(7, 7, 123), 7);
    assert_eq!(draw_in_range(5, 6, 3), 6);
}

#[test]
fn generated_value_reads_the_bytes_in_machine_order() {
    let raw: u32 = 1_000_003;
    assert_eq!(generate_randomness(0, 500_000_000, raw.to_ne_bytes()), raw % 500_000_001);
}

#[test]
fn process_mint_data_is_discriminator_seed_and_params() {
    let params = b"PID=x,REQUEST=y".to_vec();
    let data = process_mint_ixn_data(0x0403_0201, &params);
    let disc = switchboard_solana::get_ixn_discriminator("process_mint");
    assert_eq!(&data[..8], &disc[..]);
    assert_eq!(&data[8..12], &[1u8, 2, 3, 4]);
    assert_eq!(&data[12..], &params[..]);
}

#[test]
fn discriminator_is_the_head_of_the_namespaced_digest() {
    let params: Vec<u8> = Vec::new();
    let data = process_mint_ixn_data(0, &params);
    let digest = solana_program::hash::hash(b"global:process_mint").to_bytes();
    assert_eq!(&data[..8], &digest[..8]);
    assert_eq!(data.len(), 12);
}
