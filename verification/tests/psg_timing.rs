use nds_core::psg::{
    frame_sequencer_step, write_channel_register, NoiseChannel, Square1Channel, Square2Channel,
    WaveChannel,
};
use nds_core::sound_tables::{pitch, sine, volume};

fn square(period: u16) -> Square1Channel {
    let mut ch = Square1Channel { period, duty: 2, env_initial_volume: 15, ..Default::default() };
    ch.trigger();
    ch
}

#[test]
fn squares_do_not_depend_on_slicing() {
    for slices in [vec![1000u32, 1], vec![3; 400], vec![8191, 8193, 7]] {
        let total: u32 = slices.iter().sum();
        let mut once = square(1900);
        once.tick_period(total);
        let mut sliced = square(1900);
        let mut second = Square2Channel { period: 1900, enabled: true, ..Default::default() };
        let mut second_once = second;
        second_once.tick_period(total);
        for s in slices {
            sliced.tick_period(s);
            second.tick_period(s);
        }
        assert_eq!(once, sliced);
        assert_eq!(second, second_once);
    }
}

#[test]
fn waves_and_noise_do_not_depend_on_slicing() {
    let mut wave = WaveChannel { enabled: true, period: 2000, ..Default::default() };
    let mut wave_once = wave.clone();
    wave_once.tick_period(999);
    wave.tick_period(500);
    wave.tick_period(499);
    assert_eq!(wave.sample_pointer, wave_once.sample_pointer);
    assert_eq!(wave.period_timer, wave_once.period_timer);
    let mut noise = NoiseChannel { divisor: 2, env_initial_volume: 9, ..Default::default() };
    noise.trigger();
    let mut noise_once = noise;
    noise_once.tick_period(32 * 500 + 5);
    for _ in 0..500 {
        noise.tick_period(32);
    }
    noise.tick_period(5);
    assert_eq!(noise, noise_once);
    assert_ne!(noise.lfsr, 0, "it never locks");
}

#[test]
fn envelopes_stop_at_their_ends() {
    let mut ch = Square2Channel {
        env_initial_volume: 14,
        env_direction: true,
        env_period: 1,
        ..Default::default()
    };
    ch.trigger();
    for _ in 0..5 {
        ch.tick_envelope();
    }
    assert_eq!((ch.volume, ch.env_enabled), (15, false));
    ch.env_direction = false;
    ch.trigger();
    for _ in 0..40 {
        ch.tick_envelope();
    }
    assert_eq!((ch.volume, ch.env_enabled), (0, false));
}

#[test]
fn a_sweep_past_the_top_silences_the_channel() {
    let mut ch = Square1Channel { period: 1024, sweep_period: 1, sweep_shift: 1, ..Default::default() };
    ch.trigger();
    ch.tick_sweep();
    assert_eq!((ch.enabled, ch.period), (true, 1536));
    ch.tick_sweep();
    assert!(!ch.enabled, "2304 is past 2047");
    let mut ch = Square1Channel {
        period: 1024,
        sweep_period: 1,
        sweep_shift: 1,
        sweep_direction: true,
        ..Default::default()
    };
    ch.trigger();
    ch.tick_sweep();
    assert_eq!((ch.enabled, ch.period), (true, 512));
}

#[test]
fn every_register_reaches_its_channel_only() {
    let mut ch1 = Square1Channel::default();
    let mut ch2 = Square2Channel::default();
    let mut ch3 = WaveChannel::default();
    let mut ch4 = NoiseChannel::default();
    write_channel_register(&mut ch1, &mut ch2, &mut ch3, &mut ch4, 0x10, 0x5B);
    assert_eq!((ch1.sweep_period, ch1.sweep_direction, ch1.sweep_shift), (5, true, 3));
    write_channel_register(&mut ch1, &mut ch2, &mut ch3, &mut ch4, 0x16, 0xC1);
    assert_eq!((ch2.duty, ch2.length_counter), (3, 63));
    write_channel_register(&mut ch1, &mut ch2, &mut ch3, &mut ch4, 0x1B, 0x10);
    assert_eq!(ch3.length_counter, 240);
    write_channel_register(&mut ch1, &mut ch2, &mut ch3, &mut ch4, 0x35, 0xA7);
    assert_eq!(ch3.wave_ram[5], 0xA7);
    write_channel_register(&mut ch1, &mut ch2, &mut ch3, &mut ch4, 0x22, 0x4A);
    assert_eq!((ch4.shift_clock, ch4.width_7bit, ch4.divisor), (4, true, 2));
    assert_eq!(ch4.get_period(), 32 << 4);
    assert_eq!(ch1.duty, 0);
    let before = ch1;
    frame_sequencer_step(1, &mut ch1, &mut ch2, &mut ch3, &mut ch4);
    assert_eq!(ch1, before, "odd steps below seven clock nothing");
}

#[test]
fn table_entries_are_exact() {
    assert_eq!((sine(32), sine(63), sine(64)), (0x5A81, 0x7FF5, 0x7FF5));
    assert_eq!((pitch(64), pitch(384), pitch(448), pitch(767)), (3897, 27146, 32657, 0xFF8A));
    assert_eq!((volume(723), volume(663), volume(523), volume(0)), (127, 63, 12, 0));
}
