use s2_lib::envelope::{Adsr, AdsrStage, AdsrX16, AdsrX4};
use s2_lib::FULL;

fn test_adsr() -> Adsr {
    Adsr { attack: 10, decay: 10, sustain: FULL / 2, release: 10 }
}

#[test]
fn envelope_shape_without_release() {
    let adsr = test_adsr();
    assert_eq!(adsr.sample(0, None), 0);
    assert_eq!(adsr.sample(10, None), FULL);
    assert_eq!(adsr.sample(20, None), FULL / 2);
    assert_eq!(adsr.sample(1000, None), FULL / 2);
}

#[test]
fn envelope_shape_with_release() {
    let adsr = test_adsr();
    assert_eq!(adsr.sample(30, Some(30)), FULL / 2);
    assert_eq!(adsr.sample(40, Some(30)), 0);
    // 16383 - 16383 * 5 / 10, the quotient rounded down
    assert_eq!(adsr.sample(35, Some(30)), 8191);
    assert_eq!(adsr.sample(u32::MAX, Some(30)), 0);
}

#[test]
fn envelope_ramps_exactly() {
    let adsr = test_adsr();
    // attack: offset * FULL / 10, rounded down
    assert_eq!(adsr.sample(5, None), 16383);
    assert_eq!(adsr.sample(1, None), 3276);
    // decay: FULL - (FULL - sustain) * (offset - 10) / 10
    assert_eq!(adsr.sample(15, None), FULL - 8192);
}

#[test]
fn envelope_release_during_attack_or_decay_is_continuous() {
    let adsr = test_adsr();
    for release in [0u32, 3, 10, 15, 19, 20] {
        for offset in 0..20u32 {
            assert_eq!(adsr.sample(offset, Some(release)), adsr.sample(offset, None));
        }
        assert_eq!(adsr.sample(20, Some(release)), adsr.sample(20, None));
        let mut last = adsr.sample(20, Some(release));
        for offset in 21..40u32 {
            let level = adsr.sample(offset, Some(release));
            assert!(level <= last);
            assert!(last - level <= FULL / 2 / 10 + 1);
            last = level;
        }
        assert_eq!(adsr.sample(30, Some(release)), 0);
    }
}

#[test]
fn envelope_stages() {
    let adsr = test_adsr();
    assert_eq!(adsr.stage(0, None), AdsrStage::Attack);
    assert_eq!(adsr.stage(10, None), AdsrStage::Decay);
    assert_eq!(adsr.stage(20, None), AdsrStage::Sustain);
    assert_eq!(adsr.stage(35, Some(30)), AdsrStage::Release);
    assert_eq!(adsr.stage(40, Some(30)), AdsrStage::End);
    assert_eq!(adsr.stage(5, Some(2)), AdsrStage::Attack);
}

#[test]
fn envelope_with_zero_times() {
    let adsr = Adsr { attack: 0, decay: 0, sustain: FULL, release: 0 };
    assert_eq!(adsr.sample(0, None), FULL);
    assert_eq!(adsr.sample(5, Some(5)), 0);
    assert_eq!(adsr.sample(4, Some(5)), FULL);
}

#[test]
fn batched_envelopes_match_scalar() {
    let adsr = test_adsr();
    let x16 = AdsrX16 {
        attack: [adsr.attack; 16],
        decay: [adsr.decay; 16],
        sustain: [adsr.sustain; 16],
        release: [adsr.release; 16],
    };
    let offsets: [u32; 16] = std::array::from_fn(|i| i as u32 * 3);
    let lanes = x16.sample(offsets, Some(25));
    for i in 0..16 {
        assert_eq!(lanes[i], adsr.sample(offsets[i], Some(25)));
    }
    let x4 = AdsrX4 { attack: [10; 4], decay: [10; 4], sustain: [FULL / 2; 4], release: [10; 4] };
    let lanes = x4.sample([0, 10, 20, 1000], None);
    assert_eq!(lanes, [0, FULL, FULL / 2, FULL / 2]);
}
