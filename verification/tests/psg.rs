use nds_core::psg::{
    frame_sequencer_step, write_channel_register, NoiseChannel, Square1Channel, Square2Channel,
    WaveChannel,
};

/// The wave channel's output as a fraction of full scale.
fn wave_level(ch: &WaveChannel) -> f64 {
    f64::from(ch.get_amplitude()) / 60.0
}

#[test]
fn triggering_square1_produces_signal() {
    let mut ch1 = Square1Channel::default();
    let mut ch2 = Square2Channel::default();
    let mut ch3 = WaveChannel::default();
    let mut ch4 = NoiseChannel::default();
    write_channel_register(&mut ch1, &mut ch2, &mut ch3, &mut ch4, 0x11, 0x80); // duty 2
    write_channel_register(&mut ch1, &mut ch2, &mut ch3, &mut ch4, 0x12, 0xF0); // vol 15
    write_channel_register(&mut ch1, &mut ch2, &mut ch3, &mut ch4, 0x13, 0x00);
    write_channel_register(&mut ch1, &mut ch2, &mut ch3, &mut ch4, 0x14, 0x87); // trigger, freq hi
    assert!(ch1.enabled, "trigger must enable the channel");
    let mut saw_signal = false;
    for _ in 0..16 {
        ch1.tick_period(4096);
        if ch1.get_amplitude().abs() > 0 {
            saw_signal = true;
        }
    }
    assert!(saw_signal, "a triggered square must output a non-zero sample");
}

#[test]
fn length_counter_disables_channel() {
    let mut ch1 = Square1Channel::default();
    let mut ch2 = Square2Channel::default();
    let mut ch3 = WaveChannel::default();
    let mut ch4 = NoiseChannel::default();
    write_channel_register(&mut ch1, &mut ch2, &mut ch3, &mut ch4, 0x11, 0x3F);
    write_channel_register(&mut ch1, &mut ch2, &mut ch3, &mut ch4, 0x12, 0xF0);
    write_channel_register(&mut ch1, &mut ch2, &mut ch3, &mut ch4, 0x14, 0xC7); // trigger + length enable
    assert!(ch1.enabled);
    frame_sequencer_step(0, &mut ch1, &mut ch2, &mut ch3, &mut ch4);
    assert!(!ch1.enabled, "length expiry must disable the channel");
}

#[test]
fn wave_full_volume_endpoints() {
    let mut ch3 = WaveChannel {
        enabled: true,
        dac_enabled: true,
        volume_shift: 1,
        ..Default::default()
    };
    ch3.wave_ram = [0xFF; 16]; // every nibble = 0xF
    ch3.sample_pointer = 0;
    assert!((wave_level(&ch3) - 1.0).abs() < 1e-9, "code 0xF at 100% must be +1.0");
    ch3.wave_ram = [0x00; 16]; // every nibble = 0x0
    assert!((wave_level(&ch3) + 1.0).abs() < 1e-9, "code 0x0 at 100% must be -1.0");
}

#[test]
fn wave_low_volume_is_bipolar() {
    let mut ch3 = WaveChannel {
        enabled: true,
        dac_enabled: true,
        volume_shift: 2, // 50%
        ..Default::default()
    };
    ch3.wave_ram = [0x0F; 16];
    let mut saw_pos = false;
    let mut saw_neg = false;
    let mut sum = 0.0;
    for p in 0..32u8 {
        ch3.sample_pointer = p;
        let a = wave_level(&ch3);
        if a > 0.0 {
            saw_pos = true;
        }
        if a < 0.0 {
            saw_neg = true;
        }
        sum += a;
    }
    assert!(saw_pos && saw_neg, "50% wave must swing both signs, not sit on one rail");
    assert!((sum / 32.0).abs() < 1e-9, "a symmetric wave must have ~zero DC even at 50%");
}

#[test]
fn tick_period_advances_multiple_steps() {
    let mut ch1 = Square1Channel {
        enabled: true,
        period: 2047,
        period_timer: 4, // = (2048-2047)*4
        duty_pointer: 0,
        ..Default::default()
    };
    ch1.tick_period(40);
    assert_eq!(ch1.duty_pointer, 2, "10 steps mod 8 = 2");
    assert!(
        ch1.period_timer >= 1 && ch1.period_timer <= 4,
        "reloaded timer must land in 1..=p"
    );
}

#[test]
fn noise_lfsr_clocks_n_times() {
    let base = NoiseChannel {
        enabled: true,
        divisor: 1,      // -> get_period() = 16
        shift_clock: 0,
        lfsr: 0x7FFF,
        period_timer: 16,
        ..Default::default()
    };
    let p = base.get_period();
    assert_eq!(p, 16);

    let mut lumped = base.clone();
    lumped.tick_period(5 * p); // one coarse tick

    let mut stepped = base.clone();
    for _ in 0..5 {
        stepped.tick_period(p); // five fine ticks
    }

    assert_eq!(lumped.lfsr, stepped.lfsr, "coarse tick must equal N fine ticks");
    assert_ne!(lumped.lfsr, 0x7FFF, "the LFSR must actually have advanced");
}

