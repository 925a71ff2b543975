use sorkin::sample::{pcm_block_to_float_bits, pcm_to_float_bits, ONE_BITS, SIGN_BIT};

/// The sample as the machine's floating point brings it into range.
fn by_division(sample: i32) -> f32 {
    if sample == i32::MIN {
        -1.0f32
    } else {
        sample as f32 / i32::MAX as f32
    }
}

fn same(sample: i32) {
    let bits = pcm_to_float_bits(sample);
    assert_eq!(bits, by_division(sample).to_bits(), "sample {sample}");
    assert!(f32::from_bits(bits).abs() <= 1.0, "sample {sample}");
}

#[test]
fn the_smallest_sample_is_exactly_minus_one() {
    assert_eq!(f32::from_bits(pcm_to_float_bits(i32::MIN)), -1.0f32);
    assert_eq!(pcm_to_float_bits(i32::MIN), SIGN_BIT + ONE_BITS);
    assert_eq!(pcm_to_float_bits(i32::MIN), 0xbf80_0000);
}

#[test]
fn the_largest_sample_is_exactly_one() {
    assert_eq!(f32::from_bits(pcm_to_float_bits(i32::MAX)), 1.0f32);
    assert_eq!(pcm_to_float_bits(i32::MAX), ONE_BITS);
    assert_eq!(pcm_to_float_bits(i32::MAX), 0x3f80_0000);
}

#[test]
fn silence_is_zero() {
    assert_eq!(pcm_to_float_bits(0), 0);
    assert_eq!(f32::from_bits(pcm_to_float_bits(0)), 0.0f32);
}

#[test]
fn half_scale_and_the_smallest_step() {
    assert_eq!(f32::from_bits(pcm_to_float_bits(1 << 30)), 0.5f32);
    assert_eq!(f32::from_bits(pcm_to_float_bits(-(1 << 30))), -0.5f32);
    assert_eq!(f32::from_bits(pcm_to_float_bits(1 << 29)), 0.25f32);
    // 2 to the -31st
    assert_eq!(pcm_to_float_bits(1), 96 << 23);
    assert_eq!(f32::from_bits(pcm_to_float_bits(1)), 4.656_612_873_077_393e-10f32);
    assert_eq!(pcm_to_float_bits(-1), SIGN_BIT + (96 << 23));
    assert_eq!(pcm_to_float_bits(3), (97 << 23) + (1 << 22));
}

#[test]
fn full_scale_comes_back_as_full_scale() {
    let requantize = |bits: u32| (f32::from_bits(bits) * i32::MAX as f32) as i32;
    assert_eq!(requantize(pcm_to_float_bits(i32::MAX)), i32::MAX);
    assert_eq!(requantize(pcm_to_float_bits(i32::MIN)), i32::MIN);
    assert_eq!(requantize(pcm_to_float_bits(0)), 0);
    for sample in [1i32, -1, 77, 1 << 20, -(1 << 24), 1 << 30, -(1 << 30), (1 << 24) + 2, 0x7fff_ff80] {
        assert_eq!(requantize(pcm_to_float_bits(sample)), sample);
    }
}

#[test]
fn small_samples_agree_with_division() {
    for sample in -70_000..=70_000 {
        same(sample);
    }
}

#[test]
fn samples_around_each_power_of_two_agree_with_division() {
    for e in 0..31 {
        let p = 1i64 << e;
        for d in -600i64..=600 {
            let sample = p + d;
            if sample <= i32::MAX as i64 && sample >= i32::MIN as i64 {
                same(sample as i32);
                same((-sample).max(i32::MIN as i64) as i32);
            }
        }
    }
    for d in 0..2000 {
        same(i32::MAX - d);
        same(i32::MIN + d);
    }
}

#[test]
fn ties_go_to_the_even_significand() {
    // above 2 to the 24th every second integer is a single-precision number
    assert_eq!(f32::from_bits(pcm_to_float_bits((1 << 24) + 1)) * 2_147_483_648.0, 16_777_216.0);
    assert_eq!(f32::from_bits(pcm_to_float_bits((1 << 24) + 3)) * 2_147_483_648.0, 16_777_220.0);
    assert_eq!(f32::from_bits(pcm_to_float_bits((1 << 24) + 5)) * 2_147_483_648.0, 16_777_220.0);
    assert_eq!(f32::from_bits(pcm_to_float_bits(-(1 << 24) - 1)) * 2_147_483_648.0, -16_777_216.0);
    same((1 << 25) + 2);
    same((1 << 25) + 6);
    same(0x7fff_ffc0);
    same(0x7fff_ff40);
    same(-0x7fff_ffc0);
}

#[test]
fn scattered_samples_agree_with_division() {
    let mut state: u64 = 0x2545_f491_4f6c_dd1d;
    for _ in 0..400_000 {
        state ^= state << 13;
        state ^= state >> 7;
        state ^= state << 17;
        same(state as u32 as i32);
        same((state >> 32) as u32 as i32 >> ((state >> 8) & 31));
    }
}

#[test]
fn the_sign_is_that_of_the_sample() {
    for sample in [1i32, 2, 1000, 1 << 24, i32::MAX] {
        assert!(pcm_to_float_bits(sample) < SIGN_BIT);
        assert_eq!(pcm_to_float_bits(-sample), pcm_to_float_bits(sample) + SIGN_BIT);
    }
    assert!(pcm_to_float_bits(i32::MIN) >= SIGN_BIT);
}

#[test]
fn a_block_is_converted_sample_by_sample() {
    let block = [0i32, 1, -1, i32::MAX, i32::MIN, 1 << 30, 123_456_789];
    let bits = pcm_block_to_float_bits(&block);
    let floats: Vec<f32> = bits.iter().map(|b| f32::from_bits(*b)).collect();
    let expected: Vec<f32> = block.iter().map(|s| by_division(*s)).collect();
    assert_eq!(floats, expected);
    assert_eq!(floats[3], 1.0);
    assert_eq!(floats[4], -1.0);
    assert_eq!(floats[5], 0.5);
    assert!(pcm_block_to_float_bits(&[]).is_empty());
}
