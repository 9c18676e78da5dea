use nds_core::spi::{FirmwareState, TouchScreenController};

#[test]
fn touch_transform_round_trips_without_saturating() {
    let adc_x1: i32 = 608;
    let scr_x1: i32 = 32;
    let adc_x2: i32 = 3488;
    let scr_x2: i32 = 224;
    let adc_y1: i32 = 608;
    let scr_y1: i32 = 24;
    let adc_y2: i32 = 3488;
    let scr_y2: i32 = 168;

    let mut tsc = TouchScreenController::new();
    tsc.touch_pressed = true;
    for x in 0..256u16 {
        tsc.touch_x = x;
        tsc.current_channel = 5;
        let adc = tsc.calculate_result() as i32;
        assert!(
            (1..4095).contains(&adc),
            "x={x} produced ADC {adc}, at or past the converter's rail"
        );
        let back = scr_x1 + (adc - adc_x1) * (scr_x2 - scr_x1) / (adc_x2 - adc_x1);
        assert_eq!(back, i32::from(x), "x={x} round-tripped to {back}");
    }
    for y in 0..192u16 {
        tsc.touch_y = y;
        tsc.current_channel = 1;
        let adc = tsc.calculate_result() as i32;
        assert!(
            (1..4095).contains(&adc),
            "y={y} produced ADC {adc}, at or past the converter's rail"
        );
        let back = scr_y1 + (adc - adc_y1) * (scr_y2 - scr_y1) / (adc_y2 - adc_y1);
        assert_eq!(back, i32::from(y), "y={y} round-tripped to {back}");
    }
}

#[test]
fn tsc_overlapped_pipelined_conversions_repeat_result() {
    let mut tsc = TouchScreenController::new();
    tsc.touch_x = 128;
    tsc.touch_y = 96;
    tsc.touch_pressed = true;

    assert_eq!(tsc.process_byte(0xD1), 0); // X, differential, 12-bit
    let hi1 = tsc.process_byte(0x00);
    let lo1 = tsc.process_byte(0xD1); // low bits out + next control in
    let hi2 = tsc.process_byte(0x00);
    let lo2 = tsc.process_byte(0xD1);
    let hi3 = tsc.process_byte(0x00);
    assert_eq!((hi2, lo2), (hi1, lo1), "conversion 2 must repeat, not zero");
    assert_eq!(hi3, hi1, "conversion 3 must repeat, not zero");
    let adc = ((hi1 as u16) << 5) | ((lo1 as u16) >> 3);
    assert_eq!(adc, 128 * 15 + 128, "X ADC per calibration");

    let _lo = tsc.process_byte(0x91); // Y control rides the low-bits read
    let hi_y = tsc.process_byte(0x00);
    let lo_y = tsc.process_byte(0x00);
    let adc_y = ((hi_y as u16) << 5) | ((lo_y as u16) >> 3);
    assert_eq!(adc_y, 96 * 20 + 128, "Y ADC per calibration");
}

#[test]
fn tsc_pen_up_conversions_read_rail_signature() {
    let mut tsc = TouchScreenController::new();
    tsc.touch_pressed = false;
    tsc.process_byte(0x91); // Y position conversion
    let hi = tsc.process_byte(0x00);
    let lo = tsc.process_byte(0x00);
    assert_eq!(((hi as u16) << 5) | ((lo as u16) >> 3), 0xFFF, "Y rails high");
    tsc.process_byte(0xD1); // X position conversion
    let hi = tsc.process_byte(0x00);
    assert_eq!(hi, 0, "X floats low");
    tsc.touch_x = 128;
    tsc.touch_y = 96;
    tsc.touch_pressed = true;
    tsc.process_byte(0x00); // drain pending data byte
    tsc.process_byte(0xD1);
    let hi = tsc.process_byte(0x00);
    let lo = tsc.process_byte(0x00);
    assert_eq!(((hi as u16) << 5) | ((lo as u16) >> 3), 128 * 15 + 128);
}

#[test]
fn released_firmware_takes_a_new_command() {
    let mut flash = FirmwareState::new();
    for b in [0x0A, 0x01, 0x00, 0x10, 0x5A, 0x5B] {
        flash.process_byte(b);
    }
    flash.reset_state();
    for b in [0x03, 0x01, 0x00, 0x0F] {
        flash.process_byte(b);
    }
    let read: Vec<u8> = (0..4).map(|_| flash.process_byte(0)).collect();
    assert_eq!(read, [0xFF, 0x5A, 0x5B, 0xFF]);
}
