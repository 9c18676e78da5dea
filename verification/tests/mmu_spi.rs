use nds_core::mmu::NdsMmu;
use nds_core::user_settings::build_user_settings;

#[test]
fn test_spi_tsc_keypad_simulation() {
    let mut mmu = NdsMmu::new();

    mmu.buttons.a = true;
    mmu.buttons.x = true;
    mmu.buttons.nds_touch_pressed = true;

    let keyinput = mmu.read_halfword_arm7(0x04000130);
    let extkeyin = mmu.read_halfword_arm7(0x04000136);

    assert_eq!(keyinput & 0x0001, 0); // A pressed -> bit 0 is 0
    assert_ne!(keyinput & 0x0002, 0); // B not pressed -> bit 1 is 1
    assert_eq!(extkeyin & 0x0001, 0); // X pressed -> bit 0 is 0
    assert_eq!(extkeyin & 0x0040, 0); // Touch pressed -> pen-down bit 6 is 0
    assert_eq!(extkeyin & 0x0080, 0); // Hinge bit 7 is 0 = lid OPEN

    mmu.spi.tsc.touch_x = 100;
    mmu.spi.tsc.touch_y = 120;
    mmu.spi.tsc.touch_pressed = true;

    mmu.write_halfword_arm7(0x040001C0, 0x8200 | 0x0800);

    mmu.write_byte_arm7(0x040001C2, 0x90 | (5 << 4)); // Start + Channel 5 (X-coordinate)
    let response1 = mmu.read_byte_arm7(0x040001C2);
    assert_eq!(response1, 0);

    mmu.write_byte_arm7(0x040001C2, 0);
    let response2 = mmu.read_byte_arm7(0x040001C2);

    mmu.write_halfword_arm7(0x040001C0, 0x8200); // CS Hold released
    mmu.write_byte_arm7(0x040001C2, 0);
    let response3 = mmu.read_byte_arm7(0x040001C2);

    let raw_x = ((response2 as u16) << 5) | ((response3 as u16) >> 3);
    assert_eq!(raw_x, 100 * 15 + 128);
}

#[test]
fn test_spi_8bit_and_halfword_access() {
    let mut mmu = NdsMmu::new();
    mmu.spi.tsc.touch_x = 100;
    mmu.spi.tsc.touch_y = 120;
    mmu.spi.tsc.touch_pressed = true;

    mmu.write_halfword_arm7(0x040001C0, 0x8A00);
    assert_eq!(mmu.read_halfword_arm7(0x040001C0), 0x8A00);

    mmu.write_halfword_arm7(0x040001C2, 0xD8);
    assert_eq!(mmu.read_halfword_arm7(0x040001C2), 0); // Returns 0 on control byte write

    mmu.write_halfword_arm7(0x040001C2, 0x00);
    let resp = mmu.read_halfword_arm7(0x040001C2);
    assert_eq!(resp, ((100 * 15 + 128) >> 4) & 0xFF); // 8-bit read of the same value
}

#[test]
fn spi_transfer_completion_requests_the_spi_irq_not_dma0() {
    let mut mmu = NdsMmu::new();
    mmu.irq.arm7_if = 0;
    mmu.write_byte_arm7(0x0400_01C0, 0x00);
    mmu.write_byte_arm7(0x0400_01C1, 0xC0);
    mmu.write_byte_arm7(0x0400_01C2, 0x00); // write SPIDATA -> transfer

    assert_ne!(mmu.irq.arm7_if & (1 << 23), 0, "SPI completion must raise IF bit 23");
    assert_eq!(mmu.irq.arm7_if & (1 << 8), 0, "bit 8 is DMA 0, not SPI");

    mmu.irq.arm7_if = 0;
    mmu.write_byte_arm7(0x0400_01C1, 0x80); // bus enabled, IRQ off
    mmu.write_byte_arm7(0x0400_01C2, 0x00);
    assert_eq!(mmu.irq.arm7_if, 0, "SPICNT bit 14 clear must not request an IRQ");
}

#[test]
fn test_user_settings_trailer_is_counter_then_crc() {
    let s = build_user_settings();
    assert_eq!(s[0x00], 5, "settings version must be 5");
    assert_eq!(
        u16::from_le_bytes([s[0x70], s[0x71]]),
        0,
        "0x70 holds the update counter, not a CRC"
    );
    let mut crc = 0xFFFFu16;
    for &b in &s[0..0x70] {
        crc ^= b as u16;
        for _ in 0..8 {
            crc = if crc & 1 != 0 { (crc >> 1) ^ 0xA001 } else { crc >> 1 };
        }
    }
    assert_eq!(u16::from_le_bytes([s[0x72], s[0x73]]), crc);
}

#[test]
fn test_tsc_adc_roundtrips_through_user_calibration() {
    let mut mmu = NdsMmu::new();
    mmu.spi.tsc.touch_x = 128;
    mmu.spi.tsc.touch_y = 96;
    mmu.spi.tsc.touch_pressed = true;

    let mut convert = |ctrl: u8| -> u16 {
        mmu.write_halfword_arm7(0x040001C0, 0x8A00); // enable + hold + TSC
        mmu.write_byte_arm7(0x040001C2, ctrl);
        mmu.write_byte_arm7(0x040001C2, 0);
        let hi = mmu.read_byte_arm7(0x040001C2) as u16;
        mmu.write_byte_arm7(0x040001C2, 0);
        let lo = mmu.read_byte_arm7(0x040001C2) as u16;
        (hi << 5) | (lo >> 3)
    };
    let adc_x = convert(0xD0); // channel 5 = X
    let adc_y = convert(0x90); // channel 1 = Y

    let s = build_user_settings();
    let rd16 = |o: usize| u16::from_le_bytes([s[o], s[o + 1]]) as i32;
    let (adc_x1, adc_y1) = (rd16(0x58), rd16(0x5A));
    let (px1, py1) = (s[0x5C] as i32, s[0x5D] as i32);
    let (adc_x2, adc_y2) = (rd16(0x5E), rd16(0x60));
    let (px2, py2) = (s[0x62] as i32, s[0x63] as i32);
    let px = (adc_x as i32 - adc_x1) * (px2 - px1) / (adc_x2 - adc_x1) + px1;
    let py = (adc_y as i32 - adc_y1) * (py2 - py1) / (adc_y2 - adc_y1) + py1;
    assert!((px - 128).abs() <= 1, "X: adc={adc_x} -> px={px}, want 128+-1");
    assert!((py - 96).abs() <= 1, "Y: adc={adc_y} -> px={py}, want 96+-1");
}

