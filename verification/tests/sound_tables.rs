use nds_core::sound_tables::{pitch, sine, volume, PITCH_LEN, SINE_LEN, VOLUME_LEN};

#[test]
fn tables_match_the_documented_ranges() {
    assert_eq!(sine(0), 0, "SIN(0) = 0");
    assert_eq!(sine(SINE_LEN as u32 - 1), 0x7FF5, "documented entries 0000h..7FF5h");

    assert_eq!(pitch(0), 0, "a x1.0 multiplier is a zero fraction");
    assert!(
        (0xFF8A..=0xFF8E).contains(&pitch(PITCH_LEN as u32 - 1)),
        "documented entries 0000h..FF8Ah, got {:#06x}",
        pitch(PITCH_LEN as u32 - 1)
    );

    assert_eq!(volume(0), 0, "documented entries 00h..7Fh");
    assert_eq!(volume(VOLUME_LEN as u32 - 1), 0x7F);
}

#[test]
fn tables_are_monotonic_and_clamped() {
    for i in 1..PITCH_LEN as u32 {
        assert!(pitch(i) >= pitch(i - 1), "pitch dips at {i}");
    }
    for i in 1..VOLUME_LEN as u32 {
        assert!(volume(i) >= volume(i - 1), "volume dips at {i}");
    }
    assert_eq!(pitch(u32::MAX), pitch(PITCH_LEN as u32 - 1));
    assert_eq!(volume(u32::MAX), volume(VOLUME_LEN as u32 - 1));
    assert_eq!(sine(u32::MAX), sine(SINE_LEN as u32 - 1));
}

#[test]
fn pitch_table_is_one_octave_of_equal_temperament() {
    let mult = |i: u32| (f64::from(pitch(i)) + 65536.0) / 65536.0;
    assert!((mult(64) - 2f64.powf(1.0 / 12.0)).abs() < 1e-4, "one semitone");
    assert!((mult(448) - 2f64.powf(7.0 / 12.0)).abs() < 1e-4, "seven semitones");
    let last = mult(PITCH_LEN as u32 - 1);
    assert!(
        (last - 2f64.powf(767.0 / 768.0)).abs() < 1e-4 && last < 2.0,
        "the table spans one octave minus one step, got {last}"
    );
    let index_as_multiplier = (f64::from(PITCH_LEN as u16 - 1) + 65536.0) / 65536.0;
    assert!(
        index_as_multiplier < 1.012,
        "returning the index instead of the entry must be a <20-cent spread"
    );
}

