//! Capacity and structure tables for symbol versions 1 through 40.
//!
//! Everything here is fixed by the QR standard: the matrix side length,
//! the codeword capacity of each (version, level) pair, the error-correction
//! block structure, the alignment-pattern coordinates, and the number of
//! leftover remainder bits after the last codeword.

use vstd::prelude::*;
use crate::error::EcLevel;

verus! {

/// Matrix side length of a version: 17 + 4 * version modules.
pub open spec fn spec_side_len(v: int) -> int {
    17 + 4 * v
}

pub fn side_len(version: u8) -> (r: usize)
    requires
        1 <= version <= 40,
    ensures
        r == spec_side_len(version as int),
        21 <= r <= 177,
{
    17 + 4 * (version as usize)
}

/// Block structure of a (version, level) pair: error-correction codewords
/// per block, group-1 block count, data codewords per group-1 block,
/// group-2 block count, data codewords per group-2 block.
pub open spec fn spec_block_info(v: int, ec: EcLevel) -> (int, int, int, int, int) {
    if v == 1 {
        match ec {
            EcLevel::Low => (7, 1, 19, 0, 0),
            EcLevel::Medium => (10, 1, 16, 0, 0),
            EcLevel::Quartile => (13, 1, 13, 0, 0),
            EcLevel::High => (17, 1, 9, 0, 0),
        }
    } else if v == 2 {
        match ec {
            EcLevel::Low => (10, 1, 34, 0, 0),
            EcLevel::Medium => (16, 1, 28, 0, 0),
            EcLevel::Quartile => (22, 1, 22, 0, 0),
            EcLevel::High => (28, 1, 16, 0, 0),
        }
    } else if v == 3 {
        match ec {
            EcLevel::Low => (15, 1, 55, 0, 0),
            EcLevel::Medium => (26, 1, 44, 0, 0),
            EcLevel::Quartile => (18, 2, 17, 0, 0),
            EcLevel::High => (22, 2, 13, 0, 0),
        }
    } else if v == 4 {
        match ec {
            EcLevel::Low => (20, 1, 80, 0, 0),
            EcLevel::Medium => (18, 2, 32, 0, 0),
            EcLevel::Quartile => (26, 2, 24, 0, 0),
            EcLevel::High => (16, 4, 9, 0, 0),
        }
    } else if v == 5 {
        match ec {
            EcLevel::Low => (26, 1, 108, 0, 0),
            EcLevel::Medium => (24, 2, 43, 0, 0),
            EcLevel::Quartile => (18, 2, 15, 2, 16),
            EcLevel::High => (22, 2, 11, 2, 12),
        }
    } else if v == 6 {
        match ec {
            EcLevel::Low => (18, 2, 68, 0, 0),
            EcLevel::Medium => (16, 4, 27, 0, 0),
            EcLevel::Quartile => (24, 4, 19, 0, 0),
            EcLevel::High => (28, 4, 15, 0, 0),
        }
    } else if v == 7 {
        match ec {
            EcLevel::Low => (20, 2, 78, 0, 0),
            EcLevel::Medium => (18, 4, 31, 0, 0),
            EcLevel::Quartile => (18, 2, 14, 4, 15),
            EcLevel::High => (26, 4, 13, 1, 14),
        }
    } else if v == 8 {
        match ec {
            EcLevel::Low => (24, 2, 97, 0, 0),
            EcLevel::Medium => (22, 2, 38, 2, 39),
            EcLevel::Quartile => (22, 4, 18, 2, 19),
            EcLevel::High => (26, 4, 14, 2, 15),
        }
    } else if v == 9 {
        match ec {
            EcLevel::Low => (30, 2, 116, 0, 0),
            EcLevel::Medium => (22, 3, 36, 2, 37),
            EcLevel::Quartile => (20, 4, 16, 4, 17),
            EcLevel::High => (24, 4, 12, 4, 13),
        }
    } else if v == 10 {
        match ec {
            EcLevel::Low => (18, 2, 68, 2, 69),
            EcLevel::Medium => (26, 4, 43, 1, 44),
            EcLevel::Quartile => (24, 6, 19, 2, 20),
            EcLevel::High => (28, 6, 15, 2, 16),
        }
    } else if v == 11 {
        match ec {
            EcLevel::Low => (20, 4, 81, 0, 0),
            EcLevel::Medium => (30, 1, 50, 4, 51),
            EcLevel::Quartile => (28, 4, 22, 4, 23),
            EcLevel::High => (24, 3, 12, 8, 13),
        }
    } else if v == 12 {
        match ec {
            EcLevel::Low => (24, 2, 92, 2, 93),
            EcLevel::Medium => (22, 6, 36, 2, 37),
            EcLevel::Quartile => (26, 4, 20, 6, 21),
            EcLevel::High => (28, 7, 14, 4, 15),
        }
    } else if v == 13 {
        match ec {
            EcLevel::Low => (26, 4, 107, 0, 0),
            EcLevel::Medium => (22, 8, 37, 1, 38),
            EcLevel::Quartile => (24, 8, 20, 4, 21),
            EcLevel::High => (22, 12, 11, 4, 12),
        }
    } else if v == 14 {
        match ec {
            EcLevel::Low => (30, 3, 115, 1, 116),
            EcLevel::Medium => (24, 4, 40, 5, 41),
            EcLevel::Quartile => (20, 11, 16, 5, 17),
            EcLevel::High => (24, 11, 12, 5, 13),
        }
    } else if v == 15 {
        match ec {
            EcLevel::Low => (22, 5, 87, 1, 88),
            EcLevel::Medium => (24, 5, 41, 5, 42),
            EcLevel::Quartile => (30, 5, 24, 7, 25),
            EcLevel::High => (24, 11, 12, 7, 13),
        }
    } else if v == 16 {
        match ec {
            EcLevel::Low => (24, 5, 98, 1, 99),
            EcLevel::Medium => (28, 7, 45, 3, 46),
            EcLevel::Quartile => (24, 15, 19, 2, 20),
            EcLevel::High => (30, 3, 15, 13, 16),
        }
    } else if v == 17 {
        match ec {
            EcLevel::Low => (28, 1, 107, 5, 108),
            EcLevel::Medium => (28, 10, 46, 1, 47),
            EcLevel::Quartile => (28, 1, 22, 15, 23),
            EcLevel::High => (28, 2, 14, 17, 15),
        }
    } else if v == 18 {
        match ec {
            EcLevel::Low => (30, 5, 120, 1, 121),
            EcLevel::Medium => (26, 9, 43, 4, 44),
            EcLevel::Quartile => (28, 17, 22, 1, 23),
            EcLevel::High => (28, 2, 14, 19, 15),
        }
    } else if v == 19 {
        match ec {
            EcLevel::Low => (28, 3, 113, 4, 114),
            EcLevel::Medium => (26, 3, 44, 11, 45),
            EcLevel::Quartile => (26, 17, 21, 4, 22),
            EcLevel::High => (26, 9, 13, 16, 14),
        }
    } else if v == 20 {
        match ec {
            EcLevel::Low => (28, 3, 107, 5, 108),
            EcLevel::Medium => (26, 3, 41, 13, 42),
            EcLevel::Quartile => (30, 15, 24, 5, 25),
            EcLevel::High => (28, 15, 15, 10, 16),
        }
    } else if v == 21 {
        match ec {
            EcLevel::Low => (28, 4, 116, 4, 117),
            EcLevel::Medium => (26, 17, 42, 0, 0),
            EcLevel::Quartile => (28, 17, 22, 6, 23),
            EcLevel::High => (30, 19, 16, 6, 17),
        }
    } else if v == 22 {
        match ec {
            EcLevel::Low => (28, 2, 111, 7, 112),
            EcLevel::Medium => (28, 17, 46, 0, 0),
            EcLevel::Quartile => (30, 7, 24, 16, 25),
            EcLevel::High => (24, 34, 13, 0, 0),
        }
    } else if v == 23 {
        match ec {
            EcLevel::Low => (30, 4, 121, 5, 122),
            EcLevel::Medium => (28, 4, 47, 14, 48),
            EcLevel::Quartile => (30, 11, 24, 14, 25),
            EcLevel::High => (30, 16, 15, 14, 16),
        }
    } else if v == 24 {
        match ec {
            EcLevel::Low => (30, 6, 117, 4, 118),
            EcLevel::Medium => (28, 6, 45, 14, 46),
            EcLevel::Quartile => (30, 11, 24, 16, 25),
            EcLevel::High => (30, 30, 16, 2, 17),
        }
    } else if v == 25 {
        match ec {
            EcLevel::Low => (26, 8, 106, 4, 107),
            EcLevel::Medium => (28, 8, 47, 13, 48),
            EcLevel::Quartile => (30, 7, 24, 22, 25),
            EcLevel::High => (30, 22, 15, 13, 16),
        }
    } else if v == 26 {
        match ec {
            EcLevel::Low => (28, 10, 114, 2, 115),
            EcLevel::Medium => (28, 19, 46, 4, 47),
            EcLevel::Quartile => (28, 28, 22, 6, 23),
            EcLevel::High => (30, 33, 16, 4, 17),
        }
    } else if v == 27 {
        match ec {
            EcLevel::Low => (30, 8, 122, 4, 123),
            EcLevel::Medium => (28, 22, 45, 3, 46),
            EcLevel::Quartile => (30, 8, 23, 26, 24),
            EcLevel::High => (30, 12, 15, 28, 16),
        }
    } else if v == 28 {
        match ec {
            EcLevel::Low => (30, 3, 117, 10, 118),
            EcLevel::Medium => (28, 3, 45, 23, 46),
            EcLevel::Quartile => (30, 4, 24, 31, 25),
            EcLevel::High => (30, 11, 15, 31, 16),
        }
    } else if v == 29 {
        match ec {
            EcLevel::Low => (30, 7, 116, 7, 117),
            EcLevel::Medium => (28, 21, 45, 7, 46),
            EcLevel::Quartile => (30, 1, 23, 37, 24),
            EcLevel::High => (30, 19, 15, 26, 16),
        }
    } else if v == 30 {
        match ec {
            EcLevel::Low => (30, 5, 115, 10, 116),
            EcLevel::Medium => (28, 19, 47, 10, 48),
            EcLevel::Quartile => (30, 15, 24, 25, 25),
            EcLevel::High => (30, 23, 15, 25, 16),
        }
    } else if v == 31 {
        match ec {
            EcLevel::Low => (30, 13, 115, 3, 116),
            EcLevel::Medium => (28, 2, 46, 29, 47),
            EcLevel::Quartile => (30, 42, 24, 1, 25),
            EcLevel::High => (30, 23, 15, 28, 16),
        }
    } else if v == 32 {
        match ec {
            EcLevel::Low => (30, 17, 115, 0, 0),
            EcLevel::Medium => (28, 10, 46, 23, 47),
            EcLevel::Quartile => (30, 10, 24, 35, 25),
            EcLevel::High => (30, 19, 15, 35, 16),
        }
    } else if v == 33 {
        match ec {
            EcLevel::Low => (30, 17, 115, 1, 116),
            EcLevel::Medium => (28, 14, 46, 21, 47),
            EcLevel::Quartile => (30, 29, 24, 19, 25),
            EcLevel::High => (30, 11, 15, 46, 16),
        }
    } else if v == 34 {
        match ec {
            EcLevel::Low => (30, 13, 115, 6, 116),
            EcLevel::Medium => (28, 14, 46, 23, 47),
            EcLevel::Quartile => (30, 44, 24, 7, 25),
            EcLevel::High => (30, 59, 16, 1, 17),
        }
    } else if v == 35 {
        match ec {
            EcLevel::Low => (30, 12, 121, 7, 122),
            EcLevel::Medium => (28, 12, 47, 26, 48),
            EcLevel::Quartile => (30, 39, 24, 14, 25),
            EcLevel::High => (30, 22, 15, 41, 16),
        }
    } else if v == 36 {
        match ec {
            EcLevel::Low => (30, 6, 121, 14, 122),
            EcLevel::Medium => (28, 6, 47, 34, 48),
            EcLevel::Quartile => (30, 46, 24, 10, 25),
            EcLevel::High => (30, 2, 15, 64, 16),
        }
    } else if v == 37 {
        match ec {
            EcLevel::Low => (30, 17, 122, 4, 123),
            EcLevel::Medium => (28, 29, 46, 14, 47),
            EcLevel::Quartile => (30, 49, 24, 10, 25),
            EcLevel::High => (30, 24, 15, 46, 16),
        }
    } else if v == 38 {
        match ec {
            EcLevel::Low => (30, 4, 122, 18, 123),
            EcLevel::Medium => (28, 13, 46, 32, 47),
            EcLevel::Quartile => (30, 48, 24, 14, 25),
            EcLevel::High => (30, 42, 15, 32, 16),
        }
    } else if v == 39 {
        match ec {
            EcLevel::Low => (30, 20, 117, 4, 118),
            EcLevel::Medium => (28, 40, 47, 7, 48),
            EcLevel::Quartile => (30, 43, 24, 22, 25),
            EcLevel::High => (30, 10, 15, 67, 16),
        }
    } else if v == 40 {
        match ec {
            EcLevel::Low => (30, 19, 118, 6, 119),
            EcLevel::Medium => (28, 18, 47, 31, 48),
            EcLevel::Quartile => (30, 34, 24, 34, 25),
            EcLevel::High => (30, 20, 15, 61, 16),
        }
    } else {
        (0, 0, 0, 0, 0)
    }}

/// Total codeword capacity (data plus error correction) of a version.
pub open spec fn spec_total_codewords(v: int) -> int {
    if v == 1 { 26
    } else if v == 2 { 44
    } else if v == 3 { 70
    } else if v == 4 { 100
    } else if v == 5 { 134
    } else if v == 6 { 172
    } else if v == 7 { 196
    } else if v == 8 { 242
    } else if v == 9 { 292
    } else if v == 10 { 346
    } else if v == 11 { 404
    } else if v == 12 { 466
    } else if v == 13 { 532
    } else if v == 14 { 581
    } else if v == 15 { 655
    } else if v == 16 { 733
    } else if v == 17 { 815
    } else if v == 18 { 901
    } else if v == 19 { 991
    } else if v == 20 { 1085
    } else if v == 21 { 1156
    } else if v == 22 { 1258
    } else if v == 23 { 1364
    } else if v == 24 { 1474
    } else if v == 25 { 1588
    } else if v == 26 { 1706
    } else if v == 27 { 1828
    } else if v == 28 { 1921
    } else if v == 29 { 2051
    } else if v == 30 { 2185
    } else if v == 31 { 2323
    } else if v == 32 { 2465
    } else if v == 33 { 2611
    } else if v == 34 { 2761
    } else if v == 35 { 2876
    } else if v == 36 { 3034
    } else if v == 37 { 3196
    } else if v == 38 { 3362
    } else if v == 39 { 3532
    } else if v == 40 { 3706
    } else {
        0
    }}

/// Data codeword capacity of a (version, level) pair.
pub open spec fn spec_data_codewords(v: int, ec: EcLevel) -> int {
    let (e, g1, d1, g2, d2) = spec_block_info(v, ec);
    g1 * d1 + g2 * d2
}

/// Error-correction codeword count of a (version, level) pair.
pub open spec fn spec_ec_codewords(v: int, ec: EcLevel) -> int {
    let (e, g1, d1, g2, d2) = spec_block_info(v, ec);
    (g1 + g2) * e
}

/// The block table is consistent with the per-version totals: for every
/// (version, level) pair the data codewords and the error-correction
/// codewords together fill the version's codeword capacity exactly.
#[verifier::rlimit(100)]
pub proof fn lemma_capacity_consistent(v: int, ec: EcLevel)
    requires
        1 <= v <= 40,
    ensures
        spec_data_codewords(v, ec) + spec_ec_codewords(v, ec) == spec_total_codewords(v),
        1 <= spec_data_codewords(v, ec) <= 2956,
        spec_total_codewords(v) <= 3706,
        ({ let (e, g1, d1, g2, d2) = spec_block_info(v, ec);
            7 <= e <= 30 && 1 <= g1 && 0 <= g2 && 1 <= d1 <= 123
            && (g2 == 0 ==> d2 == 0) && (g2 != 0 ==> d2 == d1 + 1)
            && g1 + g2 <= 81 && g1 * d1 + g2 * d2 + (g1 + g2) * e <= 3706 }),
{
    if v == 1 { }
    if v == 2 { }
    if v == 3 { }
    if v == 4 { }
    if v == 5 { }
    if v == 6 { }
    if v == 7 { }
    if v == 8 { }
    if v == 9 { }
    if v == 10 { }
    if v == 11 { }
    if v == 12 { }
    if v == 13 { }
    if v == 14 { }
    if v == 15 { }
    if v == 16 { }
    if v == 17 { }
    if v == 18 { }
    if v == 19 { }
    if v == 20 { }
    if v == 21 { }
    if v == 22 { }
    if v == 23 { }
    if v == 24 { }
    if v == 25 { }
    if v == 26 { }
    if v == 27 { }
    if v == 28 { }
    if v == 29 { }
    if v == 30 { }
    if v == 31 { }
    if v == 32 { }
    if v == 33 { }
    if v == 34 { }
    if v == 35 { }
    if v == 36 { }
    if v == 37 { }
    if v == 38 { }
    if v == 39 { }
    if v == 40 { }
}

/// Data capacity by version class: what each character-count indicator
/// width must be able to express.
#[verifier::rlimit(100)]
pub proof fn lemma_dcw_class_bounds(v: int, ec: EcLevel)
    requires
        1 <= v <= 40,
    ensures
        v <= 9 ==> spec_data_codewords(v, ec) <= 232,
        v <= 26 ==> spec_data_codewords(v, ec) <= 1370,
        spec_data_codewords(v, ec) <= 2956,
{
    if v == 1 { }
    if v == 2 { }
    if v == 3 { }
    if v == 4 { }
    if v == 5 { }
    if v == 6 { }
    if v == 7 { }
    if v == 8 { }
    if v == 9 { }
    if v == 10 { }
    if v == 11 { }
    if v == 12 { }
    if v == 13 { }
    if v == 14 { }
    if v == 15 { }
    if v == 16 { }
    if v == 17 { }
    if v == 18 { }
    if v == 19 { }
    if v == 20 { }
    if v == 21 { }
    if v == 22 { }
    if v == 23 { }
    if v == 24 { }
    if v == 25 { }
    if v == 26 { }
    if v == 27 { }
    if v == 28 { }
    if v == 29 { }
    if v == 30 { }
    if v == 31 { }
    if v == 32 { }
    if v == 33 { }
    if v == 34 { }
    if v == 35 { }
    if v == 36 { }
    if v == 37 { }
    if v == 38 { }
    if v == 39 { }
    if v == 40 { }
}

pub fn block_info(version: u8, ec: EcLevel) -> (r: (u8, u8, u8, u8, u8))
    requires
        1 <= version <= 40,
    ensures
        (r.0 as int, r.1 as int, r.2 as int, r.3 as int, r.4 as int)
            == spec_block_info(version as int, ec),
{
    match (version, ec) {
        (1, EcLevel::Low) => (7, 1, 19, 0, 0),
        (1, EcLevel::Medium) => (10, 1, 16, 0, 0),
        (1, EcLevel::Quartile) => (13, 1, 13, 0, 0),
        (1, EcLevel::High) => (17, 1, 9, 0, 0),
        (2, EcLevel::Low) => (10, 1, 34, 0, 0),
        (2, EcLevel::Medium) => (16, 1, 28, 0, 0),
        (2, EcLevel::Quartile) => (22, 1, 22, 0, 0),
        (2, EcLevel::High) => (28, 1, 16, 0, 0),
        (3, EcLevel::Low) => (15, 1, 55, 0, 0),
        (3, EcLevel::Medium) => (26, 1, 44, 0, 0),
        (3, EcLevel::Quartile) => (18, 2, 17, 0, 0),
        (3, EcLevel::High) => (22, 2, 13, 0, 0),
        (4, EcLevel::Low) => (20, 1, 80, 0, 0),
        (4, EcLevel::Medium) => (18, 2, 32, 0, 0),
        (4, EcLevel::Quartile) => (26, 2, 24, 0, 0),
        (4, EcLevel::High) => (16, 4, 9, 0, 0),
        (5, EcLevel::Low) => (26, 1, 108, 0, 0),
        (5, EcLevel::Medium) => (24, 2, 43, 0, 0),
        (5, EcLevel::Quartile) => (18, 2, 15, 2, 16),
        (5, EcLevel::High) => (22, 2, 11, 2, 12),
        (6, EcLevel::Low) => (18, 2, 68, 0, 0),
        (6, EcLevel::Medium) => (16, 4, 27, 0, 0),
        (6, EcLevel::Quartile) => (24, 4, 19, 0, 0),
        (6, EcLevel::High) => (28, 4, 15, 0, 0),
        (7, EcLevel::Low) => (20, 2, 78, 0, 0),
        (7, EcLevel::Medium) => (18, 4, 31, 0, 0),
        (7, EcLevel::Quartile) => (18, 2, 14, 4, 15),
        (7, EcLevel::High) => (26, 4, 13, 1, 14),
        (8, EcLevel::Low) => (24, 2, 97, 0, 0),
        (8, EcLevel::Medium) => (22, 2, 38, 2, 39),
        (8, EcLevel::Quartile) => (22, 4, 18, 2, 19),
        (8, EcLevel::High) => (26, 4, 14, 2, 15),
        (9, EcLevel::Low) => (30, 2, 116, 0, 0),
        (9, EcLevel::Medium) => (22, 3, 36, 2, 37),
        (9, EcLevel::Quartile) => (20, 4, 16, 4, 17),
        (9, EcLevel::High) => (24, 4, 12, 4, 13),
        (10, EcLevel::Low) => (18, 2, 68, 2, 69),
        (10, EcLevel::Medium) => (26, 4, 43, 1, 44),
        (10, EcLevel::Quartile) => (24, 6, 19, 2, 20),
        (10, EcLevel::High) => (28, 6, 15, 2, 16),
        (11, EcLevel::Low) => (20, 4, 81, 0, 0),
        (11, EcLevel::Medium) => (30, 1, 50, 4, 51),
        (11, EcLevel::Quartile) => (28, 4, 22, 4, 23),
        (11, EcLevel::High) => (24, 3, 12, 8, 13),
        (12, EcLevel::Low) => (24, 2, 92, 2, 93),
        (12, EcLevel::Medium) => (22, 6, 36, 2, 37),
        (12, EcLevel::Quartile) => (26, 4, 20, 6, 21),
        (12, EcLevel::High) => (28, 7, 14, 4, 15),
        (13, EcLevel::Low) => (26, 4, 107, 0, 0),
        (13, EcLevel::Medium) => (22, 8, 37, 1, 38),
        (13, EcLevel::Quartile) => (24, 8, 20, 4, 21),
        (13, EcLevel::High) => (22, 12, 11, 4, 12),
        (14, EcLevel::Low) => (30, 3, 115, 1, 116),
        (14, EcLevel::Medium) => (24, 4, 40, 5, 41),
        (14, EcLevel::Quartile) => (20, 11, 16, 5, 17),
        (14, EcLevel::High) => (24, 11, 12, 5, 13),
        (15, EcLevel::Low) => (22, 5, 87, 1, 88),
        (15, EcLevel::Medium) => (24, 5, 41, 5, 42),
        (15, EcLevel::Quartile) => (30, 5, 24, 7, 25),
        (15, EcLevel::High) => (24, 11, 12, 7, 13),
        (16, EcLevel::Low) => (24, 5, 98, 1, 99),
        (16, EcLevel::Medium) => (28, 7, 45, 3, 46),
        (16, EcLevel::Quartile) => (24, 15, 19, 2, 20),
        (16, EcLevel::High) => (30, 3, 15, 13, 16),
        (17, EcLevel::Low) => (28, 1, 107, 5, 108),
        (17, EcLevel::Medium) => (28, 10, 46, 1, 47),
        (17, EcLevel::Quartile) => (28, 1, 22, 15, 23),
        (17, EcLevel::High) => (28, 2, 14, 17, 15),
        (18, EcLevel::Low) => (30, 5, 120, 1, 121),
        (18, EcLevel::Medium) => (26, 9, 43, 4, 44),
        (18, EcLevel::Quartile) => (28, 17, 22, 1, 23),
        (18, EcLevel::High) => (28, 2, 14, 19, 15),
        (19, EcLevel::Low) => (28, 3, 113, 4, 114),
        (19, EcLevel::Medium) => (26, 3, 44, 11, 45),
        (19, EcLevel::Quartile) => (26, 17, 21, 4, 22),
        (19, EcLevel::High) => (26, 9, 13, 16, 14),
        (20, EcLevel::Low) => (28, 3, 107, 5, 108),
        (20, EcLevel::Medium) => (26, 3, 41, 13, 42),
        (20, EcLevel::Quartile) => (30, 15, 24, 5, 25),
        (20, EcLevel::High) => (28, 15, 15, 10, 16),
        (21, EcLevel::Low) => (28, 4, 116, 4, 117),
        (21, EcLevel::Medium) => (26, 17, 42, 0, 0),
        (21, EcLevel::Quartile) => (28, 17, 22, 6, 23),
        (21, EcLevel::High) => (30, 19, 16, 6, 17),
        (22, EcLevel::Low) => (28, 2, 111, 7, 112),
        (22, EcLevel::Medium) => (28, 17, 46, 0, 0),
        (22, EcLevel::Quartile) => (30, 7, 24, 16, 25),
        (22, EcLevel::High) => (24, 34, 13, 0, 0),
        (23, EcLevel::Low) => (30, 4, 121, 5, 122),
        (23, EcLevel::Medium) => (28, 4, 47, 14, 48),
        (23, EcLevel::Quartile) => (30, 11, 24, 14, 25),
        (23, EcLevel::High) => (30, 16, 15, 14, 16),
        (24, EcLevel::Low) => (30, 6, 117, 4, 118),
        (24, EcLevel::Medium) => (28, 6, 45, 14, 46),
        (24, EcLevel::Quartile) => (30, 11, 24, 16, 25),
        (24, EcLevel::High) => (30, 30, 16, 2, 17),
        (25, EcLevel::Low) => (26, 8, 106, 4, 107),
        (25, EcLevel::Medium) => (28, 8, 47, 13, 48),
        (25, EcLevel::Quartile) => (30, 7, 24, 22, 25),
        (25, EcLevel::High) => (30, 22, 15, 13, 16),
        (26, EcLevel::Low) => (28, 10, 114, 2, 115),
        (26, EcLevel::Medium) => (28, 19, 46, 4, 47),
        (26, EcLevel::Quartile) => (28, 28, 22, 6, 23),
        (26, EcLevel::High) => (30, 33, 16, 4, 17),
        (27, EcLevel::Low) => (30, 8, 122, 4, 123),
        (27, EcLevel::Medium) => (28, 22, 45, 3, 46),
        (27, EcLevel::Quartile) => (30, 8, 23, 26, 24),
        (27, EcLevel::High) => (30, 12, 15, 28, 16),
        (28, EcLevel::Low) => (30, 3, 117, 10, 118),
        (28, EcLevel::Medium) => (28, 3, 45, 23, 46),
        (28, EcLevel::Quartile) => (30, 4, 24, 31, 25),
        (28, EcLevel::High) => (30, 11, 15, 31, 16),
        (29, EcLevel::Low) => (30, 7, 116, 7, 117),
        (29, EcLevel::Medium) => (28, 21, 45, 7, 46),
        (29, EcLevel::Quartile) => (30, 1, 23, 37, 24),
        (29, EcLevel::High) => (30, 19, 15, 26, 16),
        (30, EcLevel::Low) => (30, 5, 115, 10, 116),
        (30, EcLevel::Medium) => (28, 19, 47, 10, 48),
        (30, EcLevel::Quartile) => (30, 15, 24, 25, 25),
        (30, EcLevel::High) => (30, 23, 15, 25, 16),
        (31, EcLevel::Low) => (30, 13, 115, 3, 116),
        (31, EcLevel::Medium) => (28, 2, 46, 29, 47),
        (31, EcLevel::Quartile) => (30, 42, 24, 1, 25),
        (31, EcLevel::High) => (30, 23, 15, 28, 16),
        (32, EcLevel::Low) => (30, 17, 115, 0, 0),
        (32, EcLevel::Medium) => (28, 10, 46, 23, 47),
        (32, EcLevel::Quartile) => (30, 10, 24, 35, 25),
        (32, EcLevel::High) => (30, 19, 15, 35, 16),
        (33, EcLevel::Low) => (30, 17, 115, 1, 116),
        (33, EcLevel::Medium) => (28, 14, 46, 21, 47),
        (33, EcLevel::Quartile) => (30, 29, 24, 19, 25),
        (33, EcLevel::High) => (30, 11, 15, 46, 16),
        (34, EcLevel::Low) => (30, 13, 115, 6, 116),
        (34, EcLevel::Medium) => (28, 14, 46, 23, 47),
        (34, EcLevel::Quartile) => (30, 44, 24, 7, 25),
        (34, EcLevel::High) => (30, 59, 16, 1, 17),
        (35, EcLevel::Low) => (30, 12, 121, 7, 122),
        (35, EcLevel::Medium) => (28, 12, 47, 26, 48),
        (35, EcLevel::Quartile) => (30, 39, 24, 14, 25),
        (35, EcLevel::High) => (30, 22, 15, 41, 16),
        (36, EcLevel::Low) => (30, 6, 121, 14, 122),
        (36, EcLevel::Medium) => (28, 6, 47, 34, 48),
        (36, EcLevel::Quartile) => (30, 46, 24, 10, 25),
        (36, EcLevel::High) => (30, 2, 15, 64, 16),
        (37, EcLevel::Low) => (30, 17, 122, 4, 123),
        (37, EcLevel::Medium) => (28, 29, 46, 14, 47),
        (37, EcLevel::Quartile) => (30, 49, 24, 10, 25),
        (37, EcLevel::High) => (30, 24, 15, 46, 16),
        (38, EcLevel::Low) => (30, 4, 122, 18, 123),
        (38, EcLevel::Medium) => (28, 13, 46, 32, 47),
        (38, EcLevel::Quartile) => (30, 48, 24, 14, 25),
        (38, EcLevel::High) => (30, 42, 15, 32, 16),
        (39, EcLevel::Low) => (30, 20, 117, 4, 118),
        (39, EcLevel::Medium) => (28, 40, 47, 7, 48),
        (39, EcLevel::Quartile) => (30, 43, 24, 22, 25),
        (39, EcLevel::High) => (30, 10, 15, 67, 16),
        (40, EcLevel::Low) => (30, 19, 118, 6, 119),
        (40, EcLevel::Medium) => (28, 18, 47, 31, 48),
        (40, EcLevel::Quartile) => (30, 34, 24, 34, 25),
        (40, EcLevel::High) => (30, 20, 15, 61, 16),
        _ => (0, 0, 0, 0, 0),
    }}

pub fn data_codewords(version: u8, ec: EcLevel) -> (r: usize)
    requires
        1 <= version <= 40,
    ensures
        r == spec_data_codewords(version as int, ec),
        1 <= r <= 2956,
{
    let (_e, g1, d1, g2, d2) = block_info(version, ec);
    proof {
        lemma_capacity_consistent(version as int, ec);
    }
    (g1 as usize) * (d1 as usize) + (g2 as usize) * (d2 as usize)
}

pub fn total_codewords(version: u8) -> (r: usize)
    requires
        1 <= version <= 40,
    ensures
        r == spec_total_codewords(version as int),
        r <= 3706,
{
    let (e, g1, d1, g2, d2) = block_info(version, EcLevel::Low);
    proof {
        lemma_capacity_consistent(version as int, EcLevel::Low);
    }
    (g1 as usize) * (d1 as usize) + (g2 as usize) * (d2 as usize)
        + ((g1 as usize) + (g2 as usize)) * (e as usize)
}

/// Remainder bits left over after the final codeword is placed.
pub open spec fn spec_remainder_bits(v: int) -> int {
    if v == 1 { 0 }
    else if v <= 6 { 7 }
    else if v <= 13 { 0 }
    else if v <= 20 { 3 }
    else if v <= 27 { 4 }
    else if v <= 34 { 3 }
    else { 0 }
}

pub fn remainder_bits(version: u8) -> (r: usize)
    requires
        1 <= version <= 40,
    ensures
        r == spec_remainder_bits(version as int),
        r <= 7,
{
    if version == 1 { 0 }
    else if version <= 6 { 7 }
    else if version <= 13 { 0 }
    else if version <= 20 { 3 }
    else if version <= 27 { 4 }
    else if version <= 34 { 3 }
    else { 0 }
}

/// Row/column coordinates of the alignment pattern centers of a version.
pub fn align_coords(version: u8) -> (r: Vec<u8>)
    requires
        1 <= version <= 40,
    ensures
        r@.len() <= 7,
        version == 1 ==> r@.len() == 0,
        version >= 2 ==> r@.len() >= 2 && r@[0] == 6
            && r@[r@.len() - 1] as int == spec_side_len(version as int) - 7,
        forall|i: int| 0 <= i < r@.len()
            ==> 6 <= #[trigger] r@[i] as int <= spec_side_len(version as int) - 7,
{
    let mut r: Vec<u8> = Vec::new();
    match version {
        1 => {  },
        2 => { r.push(6); r.push(18); },
        3 => { r.push(6); r.push(22); },
        4 => { r.push(6); r.push(26); },
        5 => { r.push(6); r.push(30); },
        6 => { r.push(6); r.push(34); },
        7 => { r.push(6); r.push(22); r.push(38); },
        8 => { r.push(6); r.push(24); r.push(42); },
        9 => { r.push(6); r.push(26); r.push(46); },
        10 => { r.push(6); r.push(28); r.push(50); },
        11 => { r.push(6); r.push(30); r.push(54); },
        12 => { r.push(6); r.push(32); r.push(58); },
        13 => { r.push(6); r.push(34); r.push(62); },
        14 => { r.push(6); r.push(26); r.push(46); r.push(66); },
        15 => { r.push(6); r.push(26); r.push(48); r.push(70); },
        16 => { r.push(6); r.push(26); r.push(50); r.push(74); },
        17 => { r.push(6); r.push(30); r.push(54); r.push(78); },
        18 => { r.push(6); r.push(30); r.push(56); r.push(82); },
        19 => { r.push(6); r.push(30); r.push(58); r.push(86); },
        20 => { r.push(6); r.push(34); r.push(62); r.push(90); },
        21 => { r.push(6); r.push(28); r.push(50); r.push(72); r.push(94); },
        22 => { r.push(6); r.push(26); r.push(50); r.push(74); r.push(98); },
        23 => { r.push(6); r.push(30); r.push(54); r.push(78); r.push(102); },
        24 => { r.push(6); r.push(28); r.push(54); r.push(80); r.push(106); },
        25 => { r.push(6); r.push(32); r.push(58); r.push(84); r.push(110); },
        26 => { r.push(6); r.push(30); r.push(58); r.push(86); r.push(114); },
        27 => { r.push(6); r.push(34); r.push(62); r.push(90); r.push(118); },
        28 => { r.push(6); r.push(26); r.push(50); r.push(74); r.push(98); r.push(122); },
        29 => { r.push(6); r.push(30); r.push(54); r.push(78); r.push(102); r.push(126); },
        30 => { r.push(6); r.push(26); r.push(52); r.push(78); r.push(104); r.push(130); },
        31 => { r.push(6); r.push(30); r.push(56); r.push(82); r.push(108); r.push(134); },
        32 => { r.push(6); r.push(34); r.push(60); r.push(86); r.push(112); r.push(138); },
        33 => { r.push(6); r.push(30); r.push(58); r.push(86); r.push(114); r.push(142); },
        34 => { r.push(6); r.push(34); r.push(62); r.push(90); r.push(118); r.push(146); },
        35 => { r.push(6); r.push(30); r.push(54); r.push(78); r.push(102); r.push(126); r.push(150); },
        36 => { r.push(6); r.push(24); r.push(50); r.push(76); r.push(102); r.push(128); r.push(154); },
        37 => { r.push(6); r.push(28); r.push(54); r.push(80); r.push(106); r.push(132); r.push(158); },
        38 => { r.push(6); r.push(32); r.push(58); r.push(84); r.push(110); r.push(136); r.push(162); },
        39 => { r.push(6); r.push(26); r.push(54); r.push(82); r.push(110); r.push(138); r.push(166); },
        40 => { r.push(6); r.push(30); r.push(58); r.push(86); r.push(114); r.push(142); r.push(170); },
        _ => { },
    }    r
}

} // verus!
