use grand_pattern_venue::keys::{greater_value, order_key, order_keys};
use grand_pattern_venue::ranking::{dominant_index, top_echo_indices};

fn key(x: f64) -> u64 {
    order_key(x.to_bits())
}

fn bits(v: &[f64]) -> Vec<u64> {
    v.iter().map(|x| x.to_bits()).collect()
}

#[test]
fn order_keys_follow_values() {
    let values = [
        f64::NEG_INFINITY,
        -1.0e300,
        -2.5,
        -1.0,
        -1.0e-300,
        0.0,
        1.0e-310,
        0.05,
        1.0 / 7.0,
        0.5,
        1.0,
        1.0e300,
        f64::INFINITY,
    ];
    for i in 0..values.len() {
        for j in 0..values.len() {
            assert_eq!(key(values[i]) < key(values[j]), values[i] < values[j]);
            assert_eq!(key(values[i]) == key(values[j]), values[i] == values[j]);
            assert_eq!(
                greater_value(values[i].to_bits(), values[j].to_bits()),
                values[i] > values[j]
            );
        }
    }
    assert_eq!(order_keys(&bits(&[0.5, -0.5])), vec![key(0.5), key(-0.5)]);
}

#[test]
fn negative_zero_shares_key_with_zero() {
    assert_eq!(key(-0.0), key(0.0));
    assert_eq!(key(0.0), 0x8000_0000_0000_0000);
    assert_eq!(order_key(0x3ff0_0000_0000_0000), 0xbff0_0000_0000_0000);
    assert_eq!(order_key(0xbff0_0000_0000_0000), 0x400f_ffff_ffff_ffff);
}

#[test]
fn nan_is_never_greater() {
    let nan = f64::NAN.to_bits();
    assert!(!greater_value(nan, 1.0f64.to_bits()));
    assert!(!greater_value(1.0f64.to_bits(), nan));
    assert!(!greater_value(nan, nan));
}

#[test]
fn dominant_is_last_of_largest() {
    assert_eq!(dominant_index(&vec![]), 0);
    assert_eq!(dominant_index(&bits(&[0.5])), 0);
    assert_eq!(dominant_index(&bits(&[0.1, 0.9, 0.3, 0.9, 0.2])), 3);
    assert_eq!(dominant_index(&bits(&[0.7; 7])), 6);
    assert_eq!(dominant_index(&bits(&[0.9, 0.1, 0.1])), 0);
    assert_eq!(dominant_index(&bits(&[-0.0, 0.0, -0.0])), 2);
}

#[test]
fn dominant_moves_past_nan() {
    // A NaN compares equal to everything, so the running maximum moves on.
    assert_eq!(dominant_index(&bits(&[0.9, f64::NAN, 0.1])), 2);
    assert_eq!(dominant_index(&bits(&[0.9, 0.1, f64::NAN])), 2);
}

#[test]
fn dominant_of_uniform_personality_is_last_slot() {
    assert_eq!(dominant_index(&bits(&[1.0 / 7.0; 7])), 6);
}

#[test]
fn top_echoes_heaviest_first_stable() {
    assert_eq!(top_echo_indices(&vec![]), Vec::<usize>::new());
    assert_eq!(top_echo_indices(&bits(&[0.4])), vec![0]);
    assert_eq!(top_echo_indices(&bits(&[0.1, 0.2])), vec![1, 0]);
    assert_eq!(top_echo_indices(&bits(&[0.3, 0.8, 0.3, 0.8, 0.1])), vec![1, 3, 0]);
    assert_eq!(top_echo_indices(&bits(&[0.5, 0.5, 0.5, 0.5])), vec![0, 1, 2]);
    assert_eq!(top_echo_indices(&bits(&[0.1, 0.2, 0.3, 0.4, 0.5])), vec![4, 3, 2]);
    assert_eq!(top_echo_indices(&bits(&[-1.0, 0.0, -2.0])), vec![1, 0, 2]);
}

#[test]
fn top_echoes_of_float_weights() {
    // Silence at 0.1 intensity, then surprise at full intensity.
    let w = bits(&[0.1 * 0.1, 1.0 * 1.0]);
    assert_eq!(top_echo_indices(&w), vec![1, 0]);
}
