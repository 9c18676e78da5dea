//! Firmware user-settings page: language, touch calibration and its checksum.

use vstd::prelude::*;
use vstd::slice::slice_subrange;

verus! {

/// Size of the settings page.
pub const SETTINGS_BYTES: usize = 512;

/// Bytes of the page that the checksum covers.
pub const CHECKED_BYTES: usize = 0x70;

/// Touch calibration: converter counts and pixels of the two reference points.
pub const ADC_X1: u16 = 608;

pub const ADC_Y1: u16 = 608;

pub const SCREEN_X1: u8 = 32;

pub const SCREEN_Y1: u8 = 24;

pub const ADC_X2: u16 = 3488;

pub const ADC_Y2: u16 = 3488;

pub const SCREEN_X2: u8 = 224;

pub const SCREEN_Y2: u8 = 168;

/// One shift of the reflected CRC-16 register with polynomial 0xA001.
pub open spec fn crc_shift(crc: u16) -> u16 {
    if (crc & 1) != 0 {
        (crc >> 1) ^ 0xA001
    } else {
        crc >> 1
    }
}

/// `n` shifts of the register.
pub open spec fn crc_shifts(crc: u16, n: nat) -> u16
    decreases n,
{
    if n == 0 {
        crc
    } else {
        crc_shift(crc_shifts(crc, (n - 1) as nat))
    }
}

/// CRC-16 of a byte string: initial value 0xFFFF, one byte at a time.
pub open spec fn spec_crc16(data: Seq<u8>) -> u16
    decreases data.len(),
{
    if data.len() == 0 {
        0xFFFF
    } else {
        crc_shifts(spec_crc16(data.drop_last()) ^ data.last() as u16, 8)
    }
}

/// CRC-16 with polynomial 0xA001 and initial value 0xFFFF.
pub fn crc16(data: &[u8]) -> (crc: u16)
    ensures
        crc == spec_crc16(data@),
{
    let mut crc: u16 = 0xFFFF;
    let mut i: usize = 0;
    assert(data@.subrange(0, 0) =~= Seq::empty());
    while i < data.len()
        invariant
            0 <= i <= data@.len(),
            crc == spec_crc16(data@.subrange(0, i as int)),
        decreases data@.len() - i,
    {
        let ghost prev = data@.subrange(0, i as int);
        crc = crc ^ (data[i] as u16);
        let ghost start = crc;
        let mut bit: u32 = 0;
        while bit < 8
            invariant
                0 <= bit <= 8,
                crc == crc_shifts(start, bit as nat),
            decreases 8 - bit,
        {
            if (crc & 1) != 0 {
                crc = (crc >> 1) ^ 0xA001;
            } else {
                crc = crc >> 1;
            }
            bit = bit + 1;
        }
        i = i + 1;
        proof {
            let next = data@.subrange(0, i as int);
            assert(next.drop_last() =~= prev);
        }
    }
    assert(data@.subrange(0, i as int) =~= data@);
    crc
}

/// Byte `i` of the page before the checksum is stored.
pub open spec fn settings_field(i: int) -> u8 {
    if i == 0x00 {
        5  // version

    } else if i == 0x03 {
        1  // birthday month

    } else if i == 0x04 {
        1  // birthday day

    } else if i == 0x58 {
        (ADC_X1 % 256) as u8
    } else if i == 0x59 {
        (ADC_X1 / 256) as u8
    } else if i == 0x5A {
        (ADC_Y1 % 256) as u8
    } else if i == 0x5B {
        (ADC_Y1 / 256) as u8
    } else if i == 0x5C {
        SCREEN_X1
    } else if i == 0x5D {
        SCREEN_Y1
    } else if i == 0x5E {
        (ADC_X2 % 256) as u8
    } else if i == 0x5F {
        (ADC_X2 / 256) as u8
    } else if i == 0x60 {
        (ADC_Y2 % 256) as u8
    } else if i == 0x61 {
        (ADC_Y2 / 256) as u8
    } else if i == 0x62 {
        SCREEN_X2
    } else if i == 0x63 {
        SCREEN_Y2
    } else if i == 0x64 {
        1  // language

    } else {
        0
    }
}

/// Checksum the page carries at 0x72.
pub open spec fn settings_crc() -> u16 {
    spec_crc16(Seq::new(CHECKED_BYTES as nat, |i: int| settings_field(i)))
}

/// The settings page. The update counter at 0x70 is zero; the checksum over
/// the first 0x70 bytes follows it, low byte first.
pub open spec fn user_settings() -> Seq<u8> {
    Seq::new(
        SETTINGS_BYTES as nat,
        |i: int|
            if i == 0x72 {
                (settings_crc() % 256) as u8
            } else if i == 0x73 {
                (settings_crc() / 256) as u8
            } else {
                settings_field(i)
            },
    )
}

/// Builds the 512-byte settings page.
pub fn build_user_settings() -> (settings: Vec<u8>)
    ensures
        settings@ == user_settings(),
{
    let mut settings: Vec<u8> = vec![0u8; SETTINGS_BYTES];
    settings[0x00] = 5;
    settings[0x03] = 1;
    settings[0x04] = 1;
    settings[0x64] = 1;
    settings[0x58] = (ADC_X1 % 256) as u8;
    settings[0x59] = (ADC_X1 / 256) as u8;
    settings[0x5A] = (ADC_Y1 % 256) as u8;
    settings[0x5B] = (ADC_Y1 / 256) as u8;
    settings[0x5C] = SCREEN_X1;
    settings[0x5D] = SCREEN_Y1;
    settings[0x5E] = (ADC_X2 % 256) as u8;
    settings[0x5F] = (ADC_X2 / 256) as u8;
    settings[0x60] = (ADC_Y2 % 256) as u8;
    settings[0x61] = (ADC_Y2 / 256) as u8;
    settings[0x62] = SCREEN_X2;
    settings[0x63] = SCREEN_Y2;
    assert(settings@.subrange(0, CHECKED_BYTES as int) =~= Seq::new(
        CHECKED_BYTES as nat,
        |i: int| settings_field(i),
    ));
    let crc: u16 = crc16(slice_subrange(settings.as_slice(), 0, CHECKED_BYTES));
    settings[0x72] = (crc % 256) as u8;
    settings[0x73] = (crc / 256) as u8;
    assert(settings@ =~= user_settings());
    settings
}

/// A reader that recomputes the checksum over the first 0x70 bytes finds it in
/// the trailer, and finds a zero update counter in front of it.
pub proof fn law_settings_trailer_is_valid()
    ensures
        user_settings()[0x70] == 0,
        user_settings()[0x71] == 0,
        user_settings()[0x72] + 256 * user_settings()[0x73] == spec_crc16(
            user_settings().subrange(0, CHECKED_BYTES as int),
        ),
{
    assert(user_settings().subrange(0, CHECKED_BYTES as int) =~= Seq::new(
        CHECKED_BYTES as nat,
        |i: int| settings_field(i),
    ));
}

} // verus!
