//! Tables that the start-up code publishes to sound drivers.
//!
//! An index past the end of a table reads its last entry.

use vstd::prelude::*;

verus! {

/// Entries of the sine table.
pub const SINE_LEN: usize = 64;

/// Entries of the pitch table.
pub const PITCH_LEN: usize = 768;

/// Entries of the volume table.
pub const VOLUME_LEN: usize = 724;

/// Sine of a quarter turn in 64 steps: entry `i` is 32767 times the sine of
/// `i` * 90 / 64 degrees, rounded down.
pub const SINE: [u16; 64] = [
    0, 804, 1607, 2410, 3211, 4011, 4807, 5601, 6392, 7179, 7961, 8739,
    9511, 10278, 11038, 11792, 12539, 13278, 14009, 14732, 15446, 16150, 16845, 17530,
    18204, 18867, 19519, 20159, 20787, 21402, 22004, 22594, 23169, 23731, 24278, 24811,
    25329, 25831, 26318, 26789, 27244, 27683, 28105, 28510, 28897, 29268, 29621, 29955,
    30272, 30571, 30851, 31113, 31356, 31580, 31785, 31970, 32137, 32284, 32412, 32520,
    32609, 32678, 32727, 32757,
];

// One octave in 768 steps, a semitone of 64 steps to a row: entry `i` plus 65536
// is 65536 times 2 to the power `i` / 768, to the nearest integer.

pub const PITCH_0: [u16; 64] = [
    0, 59, 118, 178, 237, 296, 356, 415, 475, 535, 594, 654,
    714, 773, 833, 893, 953, 1013, 1073, 1134, 1194, 1254, 1314, 1375,
    1435, 1496, 1556, 1617, 1677, 1738, 1799, 1859, 1920, 1981, 2042, 2103,
    2164, 2225, 2287, 2348, 2409, 2471, 2532, 2593, 2655, 2716, 2778, 2840,
    2902, 2963, 3025, 3087, 3149, 3211, 3273, 3335, 3397, 3460, 3522, 3584,
    3647, 3709, 3772, 3834,
];

pub const PITCH_1: [u16; 64] = [
    3897, 3960, 4022, 4085, 4148, 4211, 4274, 4337, 4400, 4463, 4526, 4590,
    4653, 4716, 4780, 4843, 4907, 4971, 5034, 5098, 5162, 5226, 5289, 5353,
    5417, 5481, 5546, 5610, 5674, 5738, 5803, 5867, 5932, 5996, 6061, 6125,
    6190, 6255, 6320, 6384, 6449, 6514, 6579, 6645, 6710, 6775, 6840, 6906,
    6971, 7037, 7102, 7168, 7233, 7299, 7365, 7431, 7496, 7562, 7628, 7694,
    7761, 7827, 7893, 7959,
];

pub const PITCH_2: [u16; 64] = [
    8026, 8092, 8159, 8225, 8292, 8358, 8425, 8492, 8559, 8626, 8693, 8760,
    8827, 8894, 8961, 9028, 9096, 9163, 9230, 9298, 9366, 9433, 9501, 9569,
    9636, 9704, 9772, 9840, 9908, 9976, 10045, 10113, 10181, 10250, 10318, 10386,
    10455, 10524, 10592, 10661, 10730, 10799, 10868, 10937, 11006, 11075, 11144, 11213,
    11283, 11352, 11421, 11491, 11560, 11630, 11700, 11769, 11839, 11909, 11979, 12049,
    12119, 12189, 12259, 12330,
];

pub const PITCH_3: [u16; 64] = [
    12400, 12470, 12541, 12611, 12682, 12752, 12823, 12894, 12965, 13036, 13106, 13177,
    13249, 13320, 13391, 13462, 13533, 13605, 13676, 13748, 13819, 13891, 13963, 14035,
    14106, 14178, 14250, 14322, 14394, 14467, 14539, 14611, 14684, 14756, 14829, 14901,
    14974, 15046, 15119, 15192, 15265, 15338, 15411, 15484, 15557, 15630, 15704, 15777,
    15850, 15924, 15997, 16071, 16145, 16218, 16292, 16366, 16440, 16514, 16588, 16662,
    16737, 16811, 16885, 16960,
];

pub const PITCH_4: [u16; 64] = [
    17034, 17109, 17183, 17258, 17333, 17408, 17483, 17557, 17633, 17708, 17783, 17858,
    17933, 18009, 18084, 18160, 18235, 18311, 18387, 18462, 18538, 18614, 18690, 18766,
    18842, 18918, 18995, 19071, 19147, 19224, 19300, 19377, 19454, 19530, 19607, 19684,
    19761, 19838, 19915, 19992, 20070, 20147, 20224, 20302, 20379, 20457, 20534, 20612,
    20690, 20768, 20846, 20924, 21002, 21080, 21158, 21236, 21315, 21393, 21472, 21550,
    21629, 21708, 21786, 21865,
];

pub const PITCH_5: [u16; 64] = [
    21944, 22023, 22102, 22181, 22260, 22340, 22419, 22498, 22578, 22658, 22737, 22817,
    22897, 22977, 23056, 23136, 23216, 23297, 23377, 23457, 23537, 23618, 23698, 23779,
    23860, 23940, 24021, 24102, 24183, 24264, 24345, 24426, 24507, 24589, 24670, 24752,
    24833, 24915, 24996, 25078, 25160, 25242, 25324, 25406, 25488, 25570, 25652, 25735,
    25817, 25900, 25982, 26065, 26148, 26230, 26313, 26396, 26479, 26562, 26645, 26729,
    26812, 26895, 26979, 27062,
];

pub const PITCH_6: [u16; 64] = [
    27146, 27230, 27313, 27397, 27481, 27565, 27649, 27733, 27818, 27902, 27986, 28071,
    28155, 28240, 28324, 28409, 28494, 28579, 28664, 28749, 28834, 28919, 29005, 29090,
    29175, 29261, 29346, 29432, 29518, 29604, 29690, 29776, 29862, 29948, 30034, 30120,
    30207, 30293, 30380, 30466, 30553, 30640, 30727, 30814, 30900, 30988, 31075, 31162,
    31249, 31337, 31424, 31512, 31599, 31687, 31775, 31863, 31951, 32039, 32127, 32215,
    32303, 32392, 32480, 32568,
];

pub const PITCH_7: [u16; 64] = [
    32657, 32746, 32834, 32923, 33012, 33101, 33190, 33279, 33369, 33458, 33547, 33637,
    33726, 33816, 33906, 33995, 34085, 34175, 34265, 34355, 34446, 34536, 34626, 34717,
    34807, 34898, 34988, 35079, 35170, 35261, 35352, 35443, 35534, 35626, 35717, 35808,
    35900, 35991, 36083, 36175, 36267, 36359, 36451, 36543, 36635, 36727, 36820, 36912,
    37004, 37097, 37190, 37282, 37375, 37468, 37561, 37654, 37747, 37841, 37934, 38028,
    38121, 38215, 38308, 38402,
];

pub const PITCH_8: [u16; 64] = [
    38496, 38590, 38684, 38778, 38872, 38966, 39061, 39155, 39250, 39344, 39439, 39534,
    39629, 39724, 39819, 39914, 40009, 40104, 40200, 40295, 40391, 40486, 40582, 40678,
    40774, 40870, 40966, 41062, 41158, 41255, 41351, 41448, 41544, 41641, 41738, 41835,
    41932, 42029, 42126, 42223, 42320, 42418, 42515, 42613, 42710, 42808, 42906, 43004,
    43102, 43200, 43298, 43396, 43495, 43593, 43692, 43790, 43889, 43988, 44087, 44186,
    44285, 44384, 44483, 44583,
];

pub const PITCH_9: [u16; 64] = [
    44682, 44781, 44881, 44981, 45081, 45180, 45280, 45381, 45481, 45581, 45681, 45782,
    45882, 45983, 46083, 46184, 46285, 46386, 46487, 46588, 46690, 46791, 46892, 46994,
    47095, 47197, 47299, 47401, 47503, 47605, 47707, 47809, 47912, 48014, 48117, 48219,
    48322, 48425, 48528, 48631, 48734, 48837, 48940, 49044, 49147, 49251, 49354, 49458,
    49562, 49666, 49770, 49874, 49978, 50082, 50187, 50291, 50396, 50500, 50605, 50710,
    50815, 50920, 51025, 51131,
];

pub const PITCH_10: [u16; 64] = [
    51236, 51341, 51447, 51552, 51658, 51764, 51870, 51976, 52082, 52188, 52295, 52401,
    52507, 52614, 52721, 52827, 52934, 53041, 53148, 53256, 53363, 53470, 53578, 53685,
    53793, 53901, 54008, 54116, 54224, 54333, 54441, 54549, 54658, 54766, 54875, 54983,
    55092, 55201, 55310, 55419, 55529, 55638, 55747, 55857, 55966, 56076, 56186, 56296,
    56406, 56516, 56626, 56736, 56847, 56957, 57068, 57179, 57289, 57400, 57511, 57622,
    57734, 57845, 57956, 58068,
];

pub const PITCH_11: [u16; 64] = [
    58179, 58291, 58403, 58515, 58627, 58739, 58851, 58964, 59076, 59189, 59301, 59414,
    59527, 59640, 59753, 59866, 59979, 60092, 60206, 60319, 60433, 60547, 60661, 60774,
    60889, 61003, 61117, 61231, 61346, 61460, 61575, 61690, 61805, 61920, 62035, 62150,
    62265, 62381, 62496, 62612, 62727, 62843, 62959, 63075, 63191, 63308, 63424, 63540,
    63657, 63774, 63890, 64007, 64124, 64241, 64358, 64476, 64593, 64711, 64828, 64946,
    65064, 65182, 65300, 65418,
];

// Volume in tenths of a decibel, in four rows: entry `i` is 127 times 10 to the
// power (`i` - 723) / 200, rounded down.

pub const VOLUME_0: [u8; 181] = [
    0, 0, 0, 0, 0, 0, 0, 0, 0, 0, 0, 0, 0, 0, 0, 0, 0, 0, 0, 0,
    0, 0, 0, 0, 0, 0, 0, 0, 0, 0, 0, 0, 0, 0, 0, 0, 0, 0, 0, 0,
    0, 0, 0, 0, 0, 0, 0, 0, 0, 0, 0, 0, 0, 0, 0, 0, 0, 0, 0, 0,
    0, 0, 0, 0, 0, 0, 0, 0, 0, 0, 0, 0, 0, 0, 0, 0, 0, 0, 0, 0,
    0, 0, 0, 0, 0, 0, 0, 0, 0, 0, 0, 0, 0, 0, 0, 0, 0, 0, 0, 0,
    0, 0, 0, 0, 0, 0, 0, 0, 0, 0, 0, 0, 0, 0, 0, 0, 0, 0, 0, 0,
    0, 0, 0, 0, 0, 0, 0, 0, 0, 0, 0, 0, 0, 0, 0, 0, 0, 0, 0, 0,
    0, 0, 0, 0, 0, 0, 0, 0, 0, 0, 0, 0, 0, 0, 0, 0, 0, 0, 0, 0,
    0, 0, 0, 0, 0, 0, 0, 0, 0, 0, 0, 0, 0, 0, 0, 0, 0, 0, 0, 0,
    0,
];

pub const VOLUME_1: [u8; 181] = [
    0, 0, 0, 0, 0, 0, 0, 0, 0, 0, 0, 0, 0, 0, 0, 0, 0, 0, 0, 0,
    0, 0, 0, 0, 0, 0, 0, 0, 0, 0, 0, 0, 0, 0, 0, 0, 0, 0, 0, 0,
    0, 0, 0, 0, 0, 0, 0, 0, 0, 0, 0, 0, 0, 0, 0, 0, 0, 0, 0, 0,
    0, 0, 0, 0, 0, 0, 0, 0, 0, 0, 0, 0, 0, 0, 0, 0, 0, 0, 0, 0,
    0, 0, 0, 0, 0, 0, 0, 0, 0, 0, 0, 0, 0, 0, 0, 0, 0, 0, 0, 0,
    0, 0, 0, 0, 0, 0, 0, 0, 0, 0, 0, 0, 0, 0, 0, 0, 0, 0, 0, 0,
    0, 0, 1, 1, 1, 1, 1, 1, 1, 1, 1, 1, 1, 1, 1, 1, 1, 1, 1, 1,
    1, 1, 1, 1, 1, 1, 1, 1, 1, 1, 1, 1, 1, 1, 1, 1, 1, 1, 1, 1,
    1, 1, 1, 1, 1, 1, 1, 1, 1, 1, 1, 1, 1, 1, 1, 1, 1, 1, 1, 1,
    1,
];

pub const VOLUME_2: [u8; 181] = [
    1, 2, 2, 2, 2, 2, 2, 2, 2, 2, 2, 2, 2, 2, 2, 2, 2, 2, 2, 2,
    2, 2, 2, 2, 2, 2, 2, 2, 2, 2, 2, 2, 2, 2, 2, 2, 3, 3, 3, 3,
    3, 3, 3, 3, 3, 3, 3, 3, 3, 3, 3, 3, 3, 3, 3, 3, 3, 3, 3, 3,
    3, 4, 4, 4, 4, 4, 4, 4, 4, 4, 4, 4, 4, 4, 4, 4, 4, 4, 4, 4,
    4, 5, 5, 5, 5, 5, 5, 5, 5, 5, 5, 5, 5, 5, 5, 5, 6, 6, 6, 6,
    6, 6, 6, 6, 6, 6, 6, 6, 6, 6, 7, 7, 7, 7, 7, 7, 7, 7, 7, 7,
    7, 8, 8, 8, 8, 8, 8, 8, 8, 8, 8, 8, 9, 9, 9, 9, 9, 9, 9, 9,
    9, 10, 10, 10, 10, 10, 10, 10, 10, 11, 11, 11, 11, 11, 11, 11, 11, 12, 12, 12,
    12, 12, 12, 12, 13, 13, 13, 13, 13, 13, 14, 14, 14, 14, 14, 14, 15, 15, 15, 15,
    15,
];

pub const VOLUME_3: [u8; 181] = [
    15, 16, 16, 16, 16, 16, 17, 17, 17, 17, 17, 18, 18, 18, 18, 19, 19, 19, 19, 19,
    20, 20, 20, 20, 21, 21, 21, 21, 22, 22, 22, 22, 23, 23, 23, 23, 24, 24, 24, 25,
    25, 25, 25, 26, 26, 26, 27, 27, 27, 28, 28, 28, 29, 29, 29, 30, 30, 30, 31, 31,
    31, 32, 32, 33, 33, 33, 34, 34, 34, 35, 35, 36, 36, 37, 37, 37, 38, 38, 39, 39,
    40, 40, 41, 41, 42, 42, 43, 43, 44, 44, 45, 45, 46, 46, 47, 47, 48, 48, 49, 49,
    50, 51, 51, 52, 52, 53, 54, 54, 55, 56, 56, 57, 58, 58, 59, 60, 60, 61, 62, 62,
    63, 64, 65, 65, 66, 67, 68, 68, 69, 70, 71, 72, 73, 73, 74, 75, 76, 77, 78, 79,
    80, 81, 81, 82, 83, 84, 85, 86, 87, 88, 89, 90, 92, 93, 94, 95, 96, 97, 98, 99,
    100, 102, 103, 104, 105, 106, 108, 109, 110, 111, 113, 114, 115, 117, 118, 119, 121, 122, 124, 125,
    127,
];

/// An index, or the last one of a table.
pub open spec fn clamped(index: u32, len: usize) -> int {
    if index < len {
        index as int
    } else {
        len - 1
    }
}

/// Reads the sine table.
pub fn sine(index: u32) -> (v: u16)
    ensures
        v == SINE@[clamped(index, SINE_LEN)],
{
    if index < 64 {
        SINE[index as usize]
    } else {
        SINE[63]
    }
}

/// Entry of the pitch table.
pub open spec fn pitch_entry(i: int) -> u16 {
    let row = i / 64;
    let col = i % 64;
    if row == 0 {
        PITCH_0@[col]
    } else if row == 1 {
        PITCH_1@[col]
    } else if row == 2 {
        PITCH_2@[col]
    } else if row == 3 {
        PITCH_3@[col]
    } else if row == 4 {
        PITCH_4@[col]
    } else if row == 5 {
        PITCH_5@[col]
    } else if row == 6 {
        PITCH_6@[col]
    } else if row == 7 {
        PITCH_7@[col]
    } else if row == 8 {
        PITCH_8@[col]
    } else if row == 9 {
        PITCH_9@[col]
    } else if row == 10 {
        PITCH_10@[col]
    } else {
        PITCH_11@[col]
    }
}

/// Reads the pitch table.
pub fn pitch(index: u32) -> (v: u16)
    ensures
        v == pitch_entry(clamped(index, PITCH_LEN)),
{
    let i: usize = if (index as u64) < PITCH_LEN as u64 {
        index as usize
    } else {
        PITCH_LEN - 1
    };
    let row: usize = i / 64;
    let col: usize = i % 64;
    if row == 0 {
        PITCH_0[col]
    } else if row == 1 {
        PITCH_1[col]
    } else if row == 2 {
        PITCH_2[col]
    } else if row == 3 {
        PITCH_3[col]
    } else if row == 4 {
        PITCH_4[col]
    } else if row == 5 {
        PITCH_5[col]
    } else if row == 6 {
        PITCH_6[col]
    } else if row == 7 {
        PITCH_7[col]
    } else if row == 8 {
        PITCH_8[col]
    } else if row == 9 {
        PITCH_9[col]
    } else if row == 10 {
        PITCH_10[col]
    } else {
        PITCH_11[col]
    }
}

proof fn lemma_pitch_row_0(j: int)
    requires
        0 <= j < 63,
    ensures
        PITCH_0@[j] <= PITCH_0@[j + 1],
{
}

proof fn lemma_pitch_row_1(j: int)
    requires
        0 <= j < 63,
    ensures
        PITCH_1@[j] <= PITCH_1@[j + 1],
{
}

proof fn lemma_pitch_row_2(j: int)
    requires
        0 <= j < 63,
    ensures
        PITCH_2@[j] <= PITCH_2@[j + 1],
{
}

proof fn lemma_pitch_row_3(j: int)
    requires
        0 <= j < 63,
    ensures
        PITCH_3@[j] <= PITCH_3@[j + 1],
{
}

proof fn lemma_pitch_row_4(j: int)
    requires
        0 <= j < 63,
    ensures
        PITCH_4@[j] <= PITCH_4@[j + 1],
{
}

proof fn lemma_pitch_row_5(j: int)
    requires
        0 <= j < 63,
    ensures
        PITCH_5@[j] <= PITCH_5@[j + 1],
{
}

proof fn lemma_pitch_row_6(j: int)
    requires
        0 <= j < 63,
    ensures
        PITCH_6@[j] <= PITCH_6@[j + 1],
{
}

proof fn lemma_pitch_row_7(j: int)
    requires
        0 <= j < 63,
    ensures
        PITCH_7@[j] <= PITCH_7@[j + 1],
{
}

proof fn lemma_pitch_row_8(j: int)
    requires
        0 <= j < 63,
    ensures
        PITCH_8@[j] <= PITCH_8@[j + 1],
{
}

proof fn lemma_pitch_row_9(j: int)
    requires
        0 <= j < 63,
    ensures
        PITCH_9@[j] <= PITCH_9@[j + 1],
{
}

proof fn lemma_pitch_row_10(j: int)
    requires
        0 <= j < 63,
    ensures
        PITCH_10@[j] <= PITCH_10@[j + 1],
{
}

proof fn lemma_pitch_row_11(j: int)
    requires
        0 <= j < 63,
    ensures
        PITCH_11@[j] <= PITCH_11@[j + 1],
{
}

proof fn lemma_pitch_rows_join()
    ensures
        PITCH_0@[63] <= PITCH_1@[0],
        PITCH_1@[63] <= PITCH_2@[0],
        PITCH_2@[63] <= PITCH_3@[0],
        PITCH_3@[63] <= PITCH_4@[0],
        PITCH_4@[63] <= PITCH_5@[0],
        PITCH_5@[63] <= PITCH_6@[0],
        PITCH_6@[63] <= PITCH_7@[0],
        PITCH_7@[63] <= PITCH_8@[0],
        PITCH_8@[63] <= PITCH_9@[0],
        PITCH_9@[63] <= PITCH_10@[0],
        PITCH_10@[63] <= PITCH_11@[0],
{
}

proof fn lemma_pitch_step(i: int)
    requires
        0 <= i < 767,
    ensures
        pitch_entry(i) <= pitch_entry(i + 1),
{
    let row = i / 64;
    let col = i % 64;
    if col < 63 {
        assert((i + 1) / 64 == row && (i + 1) % 64 == col + 1);
        if row == 0 {
            lemma_pitch_row_0(col);
        } else if row == 1 {
            lemma_pitch_row_1(col);
        } else if row == 2 {
            lemma_pitch_row_2(col);
        } else if row == 3 {
            lemma_pitch_row_3(col);
        } else if row == 4 {
            lemma_pitch_row_4(col);
        } else if row == 5 {
            lemma_pitch_row_5(col);
        } else if row == 6 {
            lemma_pitch_row_6(col);
        } else if row == 7 {
            lemma_pitch_row_7(col);
        } else if row == 8 {
            lemma_pitch_row_8(col);
        } else if row == 9 {
            lemma_pitch_row_9(col);
        } else if row == 10 {
            lemma_pitch_row_10(col);
        } else {
            lemma_pitch_row_11(col);
        }
    } else {
        assert((i + 1) / 64 == row + 1 && (i + 1) % 64 == 0);
        lemma_pitch_rows_join();
    }
}

/// A higher index is never a lower pitch.
pub proof fn law_pitch_never_dips(i: int, j: int)
    requires
        0 <= i <= j < PITCH_LEN,
    ensures
        pitch_entry(i) <= pitch_entry(j),
    decreases j - i,
{
    if i < j {
        law_pitch_never_dips(i, j - 1);
        lemma_pitch_step(j - 1);
    }
}

/// Entry of the volume table.
pub open spec fn volume_entry(i: int) -> u8 {
    let row = i / 181;
    let col = i % 181;
    if row == 0 {
        VOLUME_0@[col]
    } else if row == 1 {
        VOLUME_1@[col]
    } else if row == 2 {
        VOLUME_2@[col]
    } else {
        VOLUME_3@[col]
    }
}

/// Reads the volume table.
pub fn volume(index: u32) -> (v: u8)
    ensures
        v == volume_entry(clamped(index, VOLUME_LEN)),
{
    let i: usize = if (index as u64) < VOLUME_LEN as u64 {
        index as usize
    } else {
        VOLUME_LEN - 1
    };
    let row: usize = i / 181;
    let col: usize = i % 181;
    if row == 0 {
        VOLUME_0[col]
    } else if row == 1 {
        VOLUME_1[col]
    } else if row == 2 {
        VOLUME_2[col]
    } else {
        VOLUME_3[col]
    }
}

proof fn lemma_volume_row_0(j: int)
    requires
        0 <= j < 180,
    ensures
        VOLUME_0@[j] <= VOLUME_0@[j + 1],
{
}

proof fn lemma_volume_row_1(j: int)
    requires
        0 <= j < 180,
    ensures
        VOLUME_1@[j] <= VOLUME_1@[j + 1],
{
}

proof fn lemma_volume_row_2(j: int)
    requires
        0 <= j < 180,
    ensures
        VOLUME_2@[j] <= VOLUME_2@[j + 1],
{
}

proof fn lemma_volume_row_3(j: int)
    requires
        0 <= j < 180,
    ensures
        VOLUME_3@[j] <= VOLUME_3@[j + 1],
{
}

proof fn lemma_volume_rows_join()
    ensures
        VOLUME_0@[180] <= VOLUME_1@[0],
        VOLUME_1@[180] <= VOLUME_2@[0],
        VOLUME_2@[180] <= VOLUME_3@[0],
{
}

proof fn lemma_volume_step(i: int)
    requires
        0 <= i < 723,
    ensures
        volume_entry(i) <= volume_entry(i + 1),
{
    let row = i / 181;
    let col = i % 181;
    if col < 180 {
        assert((i + 1) / 181 == row && (i + 1) % 181 == col + 1);
        if row == 0 {
            lemma_volume_row_0(col);
        } else if row == 1 {
            lemma_volume_row_1(col);
        } else if row == 2 {
            lemma_volume_row_2(col);
        } else {
            lemma_volume_row_3(col);
        }
    } else {
        assert((i + 1) / 181 == row + 1 && (i + 1) % 181 == 0);
        lemma_volume_rows_join();
    }
}

/// A higher index is never a lower volume.
pub proof fn law_volume_never_dips(i: int, j: int)
    requires
        0 <= i <= j < VOLUME_LEN,
    ensures
        volume_entry(i) <= volume_entry(j),
    decreases j - i,
{
    if i < j {
        law_volume_never_dips(i, j - 1);
        lemma_volume_step(j - 1);
    }
}

/// A higher index is never a lower sine.
pub proof fn law_sine_never_dips(i: int, j: int)
    requires
        0 <= i <= j < SINE_LEN,
    ensures
        SINE@[i] <= SINE@[j],
    decreases j - i,
{
    if i < j {
        law_sine_never_dips(i, j - 1);
        lemma_sine_step(j - 1);
    }
}

proof fn lemma_sine_step(i: int)
    requires
        0 <= i < 63,
    ensures
        SINE@[i] <= SINE@[i + 1],
{
}

/// The tables span the published ranges.
pub proof fn law_tables_span_their_ranges()
    ensures
        SINE@[0] == 0,
        SINE@[63] == 0x7FF5,
        pitch_entry(0) == 0,
        0xFF8A <= pitch_entry(767) <= 0xFF8E,
        volume_entry(0) == 0,
        volume_entry(723) == 0x7F,
{
}

/// Reading the pitch table: a higher index is never a lower pitch, whatever the
/// indices, the first entry is zero, and indices past the table read its last
/// entry.
pub proof fn law_pitch_reads_in_order(i: u32, j: u32)
    requires
        i <= j,
    ensures
        pitch_entry(clamped(i, PITCH_LEN)) <= pitch_entry(clamped(j, PITCH_LEN)),
        pitch_entry(clamped(0, PITCH_LEN)) == 0,
        j >= 0x2FF ==> pitch_entry(clamped(j, PITCH_LEN)) == pitch_entry(0x2FF),
        0xFF8A <= pitch_entry(0x2FF) <= 0xFF8E,
{
    law_pitch_never_dips(clamped(i, PITCH_LEN), clamped(j, PITCH_LEN));
    law_tables_span_their_ranges();
}

/// Reading the volume table, in the same way.
pub proof fn law_volume_reads_in_order(i: u32, j: u32)
    requires
        i <= j,
    ensures
        volume_entry(clamped(i, VOLUME_LEN)) <= volume_entry(clamped(j, VOLUME_LEN)),
        volume_entry(clamped(0, VOLUME_LEN)) == 0,
        j >= 0x2D3 ==> volume_entry(clamped(j, VOLUME_LEN)) == 0x7F,
{
    law_volume_never_dips(clamped(i, VOLUME_LEN), clamped(j, VOLUME_LEN));
    law_tables_span_their_ranges();
}

} // verus!
