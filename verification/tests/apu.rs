use nds_core::apu::{NdsApu, NdsChannel, MIX_ONE};

/// A mixed level as a fraction of full scale.
fn level(v: i64) -> f64 {
    v as f64 / MIX_ONE as f64
}

fn mixed(apu: &NdsApu) -> (f64, f64) {
    let (l, r) = apu.mix();
    (level(l), level(r))
}

#[test]
fn adpcm_decode_reference_vector() {
    let mut ch = NdsChannel::default();
    ch.adpcm_decode(0x7);
    assert_eq!(ch.sample, 11);
    assert_eq!(ch.adpcm_idx, 8);
    ch.adpcm_decode(0x8);
    assert_eq!(ch.sample, 9);
    assert_eq!(ch.adpcm_idx, 7);
}

#[test]
fn adpcm_decode_saturates() {
    let mut ch = NdsChannel {
        adpcm_val: 0x7FF0,
        adpcm_idx: 88, // step 32767
        ..Default::default()
    };
    ch.adpcm_decode(0x7); // huge positive diff
    assert_eq!(ch.adpcm_val, 0x7FFF);
    assert_eq!(ch.adpcm_idx, 88);
    ch.adpcm_val = -0x7FF0;
    ch.adpcm_decode(0xF); // huge negative diff, index delta +8 stays 88
    assert_eq!(ch.adpcm_val, -0x7FFF);
    for _ in 0..30 {
        ch.adpcm_decode(0x8); // index delta -1 each, floors at 0
    }
    assert_eq!(ch.adpcm_idx, 58);
}

#[test]
fn mix_respects_enable_volume_and_pan() {
    let mut apu = NdsApu::new();
    apu.channels[0].active = true;
    apu.channels[0].cnt = 0x007F_007F; // vol 127, div /1, pan 127 = right
    apu.channels[0].sample = 16384;
    assert_eq!(mixed(&apu), (0.0, 0.0), "master disable must silence");
    apu.soundcnt = 0x807F;
    let (l, r) = mixed(&apu);
    assert!(r > 0.05, "right channel must carry signal, got {r}");
    assert!(
        (r / l - 127.0).abs() < 1e-6,
        "pan 127 must split 127:1, got {r}:{l}"
    );

    let mut centred = NdsApu::new();
    centred.soundcnt = 0x807F;
    centred.channels[0].active = true;
    centred.channels[0].cnt = 0x0040_007F; // vol 127, div /1, pan 64
    centred.channels[0].sample = 16384;
    let (cl, cr) = mixed(&centred);
    assert!((cl - cr).abs() < 1e-12, "pan 64 must be exactly half: {cl} vs {cr}");

    apu.channels[0].cnt |= 3 << 29;
    assert_eq!(mixed(&apu), (0.0, 0.0));
    apu.channels[8] = apu.channels[0];
    apu.channels[0] = NdsChannel::default();
    let (_, r) = mixed(&apu);
    assert!(r > 0.05, "PSG channel 8 must reach the mix, got {r}");
}

#[test]
fn psg_duty_high_fractions() {
    let count_high = |duty: u32| {
        let mut ch = NdsChannel { cnt: duty << 24, ..Default::default() };
        (0..8).filter(|_| { ch.psg_step(8); ch.sample > 0 }).count()
    };
    assert_eq!(count_high(0), 1, "duty 0 = high 1/8");
    assert_eq!(count_high(3), 4, "duty 3 = high 4/8 (square)");
    assert_eq!(count_high(6), 7, "duty 6 = high 7/8");
    assert_eq!(count_high(7), 0, "duty 7 = constant low");
    let mut ch = NdsChannel::default();
    for k in 0..16 {
        ch.psg_step(8);
        assert_eq!(ch.sample > 0, k % 8 == 7, "step {k}");
    }
    let mut ch = NdsChannel { sample: 1234, ..Default::default() };
    ch.psg_step(0);
    assert_eq!(ch.sample, 1234);
}

#[test]
fn psg_noise_lfsr_reference_vector() {
    let mut ch = NdsChannel { noise_lfsr: 0x7FFF, ..Default::default() };
    for k in 0..29 {
        ch.psg_step(14);
        let expect_low = k < 14 || k == 28;
        assert_eq!(ch.sample < 0, expect_low, "step {k} lfsr={:#06x}", ch.noise_lfsr);
    }
    assert_eq!(ch.noise_lfsr, 0x6000);
}

#[test]
fn read_reg_busy_and_write_only_semantics() {
    let mut apu = NdsApu::new();
    apu.channels[2].cnt = 0xAB00_1234; // written start bit set
    apu.channels[2].active = false;
    let base = 0x400 + 2 * 16;
    assert_eq!(apu.read_reg(base + 3), 0x2B, "busy bit follows active, not the written bit");
    apu.channels[2].active = true;
    assert_eq!(apu.read_reg(base + 3), 0xAB);
    assert_eq!(apu.read_reg(base + 4), 0, "SAD is write-only");
    assert_eq!(apu.read_reg(base + 8), 0, "TMR is write-only");
    assert_eq!(apu.read_reg(base + 0xC), 0, "LEN is write-only");
}

#[test]
fn adpcm_stays_within_its_range() {
    let mut ch = NdsChannel { adpcm_val: -0x7FF0, adpcm_idx: 88, ..Default::default() };
    ch.adpcm_decode(0xF);
    assert_eq!(ch.adpcm_val, -0x7FFF);
    for n in 0..1000u32 {
        ch.adpcm_decode((n * 7 % 16) as u8);
        assert!((-0x7FFF..=0x7FFF).contains(&ch.adpcm_val), "after nibble {n}");
        assert!((0..=88).contains(&ch.adpcm_idx));
    }
}

#[test]
fn adpcm_accepts_values_up_to_the_machine_limit() {
    let mut ch = NdsChannel { adpcm_val: i32::MAX, adpcm_idx: 0, ..Default::default() };
    ch.adpcm_decode(0x8);
    assert_eq!(ch.adpcm_val, i32::MAX, "a step of zero, and no upper bound on this side");
}
