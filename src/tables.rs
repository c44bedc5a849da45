use vstd::prelude::*;

verus! {

/// Energy codebook, indexed by the 4-bit energy code.
pub const ENERGY: [i16; 16] = [
    0, 52, 87, 123, 174, 246, 348, 491, 694, 981, 1385, 1957, 2764, 3904, 5514, 7789,
];

/// Pitch period codebook in samples, indexed by the 6-bit period code.
pub const PERIOD: [i16; 64] = [
    0, 15, 16, 17, 18, 19, 20, 21, 22, 23, 24, 25, 26, 27, 28, 29, 30, 31, 32, 33, 34, 35, 36, 37,
    38, 39, 40, 41, 42, 44, 46, 48, 50, 52, 53, 56, 58, 60, 62, 65, 68, 70, 72, 76, 78, 80, 84, 86,
    91, 94, 98, 101, 105, 109, 114, 118, 122, 127, 132, 137, 142, 148, 153, 159,
];

/// Reflection coefficient codebooks in Q9, one per lattice stage.
pub const K1: [i16; 32] = [
    -501, -498, -497, -495, -493, -491, -488, -482, -478, -474, -469, -464, -459, -452, -445, -437,
    -412, -380, -339, -288, -227, -158, -81, -1, 80, 157, 226, 287, 337, 379, 411, 436,
];

pub const K2: [i16; 32] = [
    -328, -303, -274, -244, -211, -175, -138, -99, -59, -18, 24, 64, 105, 143, 180, 215, 248, 278,
    306, 331, 354, 374, 392, 408, 422, 435, 445, 455, 463, 470, 476, 506,
];

pub const K3: [i16; 16] = [
    -441, -387, -333, -279, -225, -171, -117, -63, -9, 45, 98, 152, 206, 260, 314, 368,
];

pub const K4: [i16; 16] = [
    -328, -273, -217, -161, -106, -50, 5, 61, 116, 172, 228, 283, 339, 394, 450, 506,
];

pub const K5: [i16; 16] = [
    -328, -282, -235, -189, -142, -96, -50, -3, 43, 90, 136, 182, 229, 275, 322, 368,
];

pub const K6: [i16; 16] = [
    -256, -212, -168, -123, -79, -35, 10, 54, 98, 143, 187, 232, 276, 320, 365, 409,
];

pub const K7: [i16; 16] = [
    -308, -260, -212, -164, -117, -69, -21, 27, 75, 122, 170, 218, 266, 314, 361, 409,
];

pub const K8: [i16; 8] = [-256, -161, -66, 29, 124, 219, 314, 409];

pub const K9: [i16; 8] = [-256, -176, -96, -15, 65, 146, 226, 307];

pub const K10: [i16; 8] = [-205, -132, -59, 14, 87, 160, 234, 307];

/// Voiced excitation pulse; entries are signed 8-bit values stored as bytes.
pub const CHIRP: [u8; 52] = [
    0x00, 0x03, 0x0f, 0x28, 0x4c, 0x6c, 0x71, 0x50, 0x25, 0x26, 0x4c, 0x44, 0x1a, 0x32, 0x3b, 0x13,
    0x37, 0x1a, 0x25, 0x1f, 0x1d, 0x00, 0x00, 0x00, 0x00, 0x00, 0x00, 0x00, 0x00, 0x00, 0x00, 0x00,
    0x00, 0x00, 0x00, 0x00, 0x00, 0x00, 0x00, 0x00, 0x00, 0x00, 0x00, 0x00, 0x00, 0x00, 0x00, 0x00,
    0x00, 0x00, 0x00, 0x00,
];

/// Every codebook entry lies in the range that the decoder's state admits.
pub proof fn lemma_table_ranges()
    ensures
        forall|i: int| 0 <= i < 16 ==> 0 <= #[trigger] ENERGY@[i] <= 7789,
        forall|i: int| 0 <= i < 64 ==> 0 <= #[trigger] PERIOD@[i] <= 159,
        forall|i: int| 0 <= i < 32 ==> -512 < #[trigger] K1@[i] < 512,
        forall|i: int| 0 <= i < 32 ==> -512 < #[trigger] K2@[i] < 512,
        forall|i: int| 0 <= i < 16 ==> -512 < #[trigger] K3@[i] < 512,
        forall|i: int| 0 <= i < 16 ==> -512 < #[trigger] K4@[i] < 512,
        forall|i: int| 0 <= i < 16 ==> -512 < #[trigger] K5@[i] < 512,
        forall|i: int| 0 <= i < 16 ==> -512 < #[trigger] K6@[i] < 512,
        forall|i: int| 0 <= i < 16 ==> -512 < #[trigger] K7@[i] < 512,
        forall|i: int| 0 <= i < 8 ==> -512 < #[trigger] K8@[i] < 512,
        forall|i: int| 0 <= i < 8 ==> -512 < #[trigger] K9@[i] < 512,
        forall|i: int| 0 <= i < 8 ==> -512 < #[trigger] K10@[i] < 512,
{
}

} // verus!
