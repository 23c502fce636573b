//! Mode and version selection: classify a payload as numeric, alphanumeric
//! or byte, count the bits its encoding needs, and pick the smallest version
//! whose data capacity at the requested error-correction level holds it.

use vstd::prelude::*;
use crate::error::{EcLevel, QrError};
use crate::tables::{spec_data_codewords, data_codewords, lemma_capacity_consistent};

verus! {

/// Encoding mode, from most to least compact.
#[derive(Clone, Copy, Debug, PartialEq, Eq, Structural)]
pub enum Mode {
    Numeric,
    Alphanumeric,
    Byte,
}

/// ASCII decimal digit.
pub open spec fn spec_is_digit(b: u8) -> bool {
    48 <= b <= 57
}

/// Member of the alphanumeric set: digits, upper-case letters,
/// and the nine punctuation marks space $ % * + - . / :
pub open spec fn spec_is_alnum(b: u8) -> bool {
    spec_is_digit(b) || (65 <= b <= 90) || b == 32 || b == 36 || b == 37
        || b == 42 || b == 43 || b == 45 || b == 46 || b == 47 || b == 58
}

/// Value of an alphanumeric character in the 45-symbol alphabet.
pub open spec fn spec_alnum_val(b: u8) -> int {
    if spec_is_digit(b) { b - 48 }
    else if 65 <= b <= 90 { b - 65 + 10 }
    else if b == 32 { 36 }
    else if b == 36 { 37 }
    else if b == 37 { 38 }
    else if b == 42 { 39 }
    else if b == 43 { 40 }
    else if b == 45 { 41 }
    else if b == 46 { 42 }
    else if b == 47 { 43 }
    else { 44 }
}

pub open spec fn spec_all_digits(s: Seq<u8>) -> bool {
    forall|i: int| 0 <= i < s.len() ==> spec_is_digit(#[trigger] s[i])
}

pub open spec fn spec_all_alnum(s: Seq<u8>) -> bool {
    forall|i: int| 0 <= i < s.len() ==> spec_is_alnum(#[trigger] s[i])
}

/// The most compact mode that can represent every byte of the payload.
pub open spec fn spec_mode_of(s: Seq<u8>) -> Mode {
    if spec_all_digits(s) { Mode::Numeric }
    else if spec_all_alnum(s) { Mode::Alphanumeric }
    else { Mode::Byte }
}

pub fn is_digit(b: u8) -> (r: bool)
    ensures
        r == spec_is_digit(b),
{
    48 <= b && b <= 57
}

pub fn is_alnum(b: u8) -> (r: bool)
    ensures
        r == spec_is_alnum(b),
{
    is_digit(b) || (65 <= b && b <= 90) || b == 32 || b == 36 || b == 37
        || b == 42 || b == 43 || b == 45 || b == 46 || b == 47 || b == 58
}

pub fn alnum_val(b: u8) -> (r: u8)
    requires
        spec_is_alnum(b),
    ensures
        r as int == spec_alnum_val(b),
        r < 45,
{
    if 48 <= b && b <= 57 { b - 48 }
    else if 65 <= b && b <= 90 { b - 65 + 10 }
    else if b == 32 { 36 }
    else if b == 36 { 37 }
    else if b == 37 { 38 }
    else if b == 42 { 39 }
    else if b == 43 { 40 }
    else if b == 45 { 41 }
    else if b == 46 { 42 }
    else if b == 47 { 43 }
    else { 44 }
}

/// Classify a payload into the most compact mode that represents it.
pub fn classify(data: &Vec<u8>) -> (m: Mode)
    ensures
        m == spec_mode_of(data@),
{
    let mut all_d = true;
    let mut all_a = true;
    let mut i: usize = 0;
    while i < data.len()
        invariant
            i <= data.len(),
            all_d <==> (forall|j: int| 0 <= j < i ==> spec_is_digit(#[trigger] data@[j])),
            all_a <==> (forall|j: int| 0 <= j < i ==> spec_is_alnum(#[trigger] data@[j])),
        decreases data.len() - i,
    {
        let b = data[i];
        all_d = all_d && is_digit(b);
        all_a = all_a && is_alnum(b);
        i += 1;
    }
    if all_d { Mode::Numeric } else if all_a { Mode::Alphanumeric } else { Mode::Byte }
}

/// Width of the character-count indicator for a mode and version.
pub open spec fn spec_cci_bits(m: Mode, v: int) -> int {
    match m {
        Mode::Numeric => if v <= 9 { 10 } else if v <= 26 { 12 } else { 14 },
        Mode::Alphanumeric => if v <= 9 { 9 } else if v <= 26 { 11 } else { 13 },
        Mode::Byte => if v <= 9 { 8 } else { 16 },
    }
}

pub fn cci_bits(m: Mode, version: u8) -> (r: usize)
    requires
        1 <= version <= 40,
    ensures
        r == spec_cci_bits(m, version as int),
        8 <= r <= 16,
{
    match m {
        Mode::Numeric => if version <= 9 { 10 } else if version <= 26 { 12 } else { 14 },
        Mode::Alphanumeric => if version <= 9 { 9 } else if version <= 26 { 11 } else { 13 },
        Mode::Byte => if version <= 9 { 8 } else { 16 },
    }
}

/// Bits taken by the packed payload itself: numeric packs 3 digits into
/// 10 bits (2 into 7, 1 into 4), alphanumeric packs 2 characters into
/// 11 bits (1 into 6), byte mode spends 8 bits per byte.
pub open spec fn spec_payload_bits(m: Mode, n: nat) -> nat
    decreases n,
{
    match m {
        Mode::Numeric => {
            if n == 0 { 0 }
            else if n == 1 { 4 }
            else if n == 2 { 7 }
            else { (10 + spec_payload_bits(m, (n - 3) as nat)) as nat }
        }
        Mode::Alphanumeric => {
            if n == 0 { 0 }
            else if n == 1 { 6 }
            else { (11 + spec_payload_bits(m, (n - 2) as nat)) as nat }
        }
        Mode::Byte => 8 * n,
    }
}

/// Whole bit cost of a payload of n characters in mode m at version v:
/// 4-bit mode indicator, character-count indicator, packed payload.
pub open spec fn spec_total_bits(m: Mode, v: int, n: nat) -> int {
    4 + spec_cci_bits(m, v) + spec_payload_bits(m, n)
}

/// Numeric packing never spends more than 4 bits per digit.
pub proof fn lemma_pb_num_ub(n: nat)
    ensures
        spec_payload_bits(Mode::Numeric, n) <= 4 * n,
    decreases n,
{
    if n >= 3 {
        lemma_pb_num_ub((n - 3) as nat);
    }
}

/// Numeric packing spends at least (10 n - 8) / 3 bits.
pub proof fn lemma_pb_num_lb(n: nat)
    ensures
        3 * spec_payload_bits(Mode::Numeric, n) >= 10 * n - 8,
    decreases n,
{
    if n >= 3 {
        lemma_pb_num_lb((n - 3) as nat);
    }
}

/// Alphanumeric packing never spends more than 6 bits per character.
pub proof fn lemma_pb_al_ub(n: nat)
    ensures
        spec_payload_bits(Mode::Alphanumeric, n) <= 6 * n,
    decreases n,
{
    if n >= 2 {
        lemma_pb_al_ub((n - 2) as nat);
    }
}

/// Alphanumeric packing spends at least 11 n / 2 bits.
pub proof fn lemma_pb_al_lb(n: nat)
    ensures
        2 * spec_payload_bits(Mode::Alphanumeric, n) >= 11 * n,
    decreases n,
{
    if n >= 2 {
        lemma_pb_al_lb((n - 2) as nat);
    }
}

/// Packed payload bits grow monotonically with the character count.
pub proof fn lemma_pb_mono(m: Mode, n1: nat, n2: nat)
    requires
        n1 <= n2,
    ensures
        spec_payload_bits(m, n1) <= spec_payload_bits(m, n2),
    decreases n2,
{
    match m {
        Mode::Numeric => {
            if n2 >= 3 && n1 >= 3 {
                lemma_pb_mono(m, (n1 - 3) as nat, (n2 - 3) as nat);
            } else if n2 >= 3 {
                lemma_pb_mono(m, 0, (n2 - 3) as nat);
            }
        }
        Mode::Alphanumeric => {
            if n2 >= 2 && n1 >= 2 {
                lemma_pb_mono(m, (n1 - 2) as nat, (n2 - 2) as nat);
            } else if n2 >= 2 {
                lemma_pb_mono(m, 0, (n2 - 2) as nat);
            }
        }
        Mode::Byte => { }
    }
}

pub fn payload_bits(m: Mode, n: usize) -> (r: usize)
    requires
        n <= 7089,
    ensures
        r == spec_payload_bits(m, n as nat),
        r <= 8 * 7089,
{
    proof {
        lemma_pb_num_ub(n as nat);
        lemma_pb_al_ub(n as nat);
    }
    match m {
        Mode::Numeric => {
            let mut k: usize = n;
            let mut b: usize = 0;
            while k >= 3
                invariant
                    n <= 7089,
                    b + spec_payload_bits(Mode::Numeric, k as nat)
                        == spec_payload_bits(Mode::Numeric, n as nat),
                    b <= 4 * n,
                decreases k,
            {
                proof {
                    lemma_pb_num_ub(n as nat);
                }
                b += 10;
                k -= 3;
            }
            if k == 0 { b } else if k == 1 { b + 4 } else { b + 7 }
        }
        Mode::Alphanumeric => {
            let mut k: usize = n;
            let mut b: usize = 0;
            while k >= 2
                invariant
                    n <= 7089,
                    b + spec_payload_bits(Mode::Alphanumeric, k as nat)
                        == spec_payload_bits(Mode::Alphanumeric, n as nat),
                    b <= 6 * n,
                decreases k,
            {
                proof {
                    lemma_pb_al_ub(n as nat);
                }
                b += 11;
                k -= 2;
            }
            if k == 0 { b } else { b + 6 }
        }
        Mode::Byte => 8 * n,
    }
}

/// A payload fits a (version, level) pair when its whole bit cost is at most
/// the pair's data capacity in bits.
pub open spec fn spec_fits(s: Seq<u8>, v: int, ec: EcLevel) -> bool {
    spec_total_bits(spec_mode_of(s), v, s.len()) <= 8 * spec_data_codewords(v, ec)
}

/// No payload of more than 7089 characters fits any version at any level:
/// 7089 digits is the largest capacity in the whole table.
pub proof fn lemma_no_fit_large(s: Seq<u8>, v: int, ec: EcLevel)
    requires
        1 <= v <= 40,
        s.len() > 7089,
    ensures
        !spec_fits(s, v, ec),
{
    lemma_capacity_consistent(v, ec);
    lemma_pb_num_lb(s.len());
    lemma_pb_al_lb(s.len());
}

/// `v` is the smallest version whose capacity at `ec` holds the payload.
pub open spec fn spec_is_selected(s: Seq<u8>, ec: EcLevel, v: int) -> bool {
    1 <= v <= 40 && spec_fits(s, v, ec)
        && forall|w: int| 1 <= w < v ==> !spec_fits(s, w, ec)
}

/// Choose the mode and the smallest sufficient version for a payload.
///
/// Succeeds exactly when some version up to 40 holds the payload at the
/// requested level; otherwise the capacity is exceeded.
pub fn select_version(data: &Vec<u8>, ec: EcLevel) -> (r: Result<(Mode, u8), QrError>)
    ensures
        match r {
            Ok(mv) => mv.0 == spec_mode_of(data@) && spec_is_selected(data@, ec, mv.1 as int),
            Err(e) => e == QrError::CapacityExceeded
                && forall|w: int| 1 <= w <= 40 ==> !spec_fits(data@, w, ec),
        },
{
    if data.len() > 7089 {
        proof {
            assert forall|w: int| 1 <= w <= 40 implies !spec_fits(data@, w, ec) by {
                lemma_no_fit_large(data@, w, ec);
            }
        }
        return Err(QrError::CapacityExceeded);
    }
    let m = classify(data);
    let need = payload_bits(m, data.len());
    let mut version: u8 = 1;
    loop
        invariant
            1 <= version <= 41,
            m == spec_mode_of(data@),
            need == spec_payload_bits(m, data@.len()),
            need <= 8 * 7089,
            forall|w: int| 1 <= w < version ==> !spec_fits(data@, w, ec),
        decreases 41 - version,
    {
        if version > 40 {
            return Err(QrError::CapacityExceeded);
        }
        let total = 4 + cci_bits(m, version) + need;
        let cap = 8 * data_codewords(version, ec);
        if total <= cap {
            return Ok((m, version));
        }
        version += 1;
    }
}

/// The smallest version that holds the payload, where one exists.
pub open spec fn spec_selected_version(s: Seq<u8>, ec: EcLevel) -> int {
    choose|v: int| spec_is_selected(s, ec, v)
}

/// The selected version is unique, so the choice above is it.
pub proof fn lemma_selected_unique(s: Seq<u8>, ec: EcLevel, v: int)
    requires
        spec_is_selected(s, ec, v),
    ensures
        spec_selected_version(s, ec) == v,
{
    let w = spec_selected_version(s, ec);
    assert(spec_is_selected(s, ec, w)) by {
        assert(spec_is_selected(s, ec, v));
    }
    if w < v {
        assert(!spec_fits(s, w, ec));
    }
    if v < w {
        assert(!spec_fits(s, v, ec));
    }
}

/// Appending characters to a payload never lets it fit where the original
/// would not: every version that holds the extended payload holds the
/// original. Hence the selected version never decreases under appending.
pub proof fn lemma_fits_prefix(s: Seq<u8>, t: Seq<u8>, v: int, ec: EcLevel)
    requires
        1 <= v <= 40,
        spec_fits(s + t, v, ec),
    ensures
        spec_fits(s, v, ec),
{
    let u = s + t;
    let m1 = spec_mode_of(s);
    let m2 = spec_mode_of(u);
    let n1 = s.len();
    let n2 = u.len();
    if spec_all_digits(u) {
        assert forall|i: int| 0 <= i < s.len() implies spec_is_digit(#[trigger] s[i]) by {
            assert(u[i] == s[i]);
            assert(spec_is_digit(u[i]));
        }
    }
    if spec_all_alnum(u) {
        assert forall|i: int| 0 <= i < s.len() implies spec_is_alnum(#[trigger] s[i]) by {
            assert(u[i] == s[i]);
            assert(spec_is_alnum(u[i]));
        }
    }
    lemma_pb_mono(m2, n1, n2);
    if m1 == m2 {
        // same mode: the bit cost is monotone in the character count
    } else {
        // the mode widened, so some appended character forced it: t is nonempty
        assert(n2 >= n1 + 1) by {
            if s =~= u {
                assert(m1 == m2);
            }
        }
        lemma_pb_mono(m2, (n1 + 1) as nat, n2);
        lemma_pb_num_ub(n1);
        lemma_pb_al_ub(n1);
        lemma_pb_al_lb((n1 + 1) as nat);
    }
}

/// Mode selection is monotonic: the smallest version for a payload is at
/// most the smallest version for that payload with anything appended.
pub proof fn lemma_version_monotonic(s: Seq<u8>, t: Seq<u8>, ec: EcLevel, v1: int, v2: int)
    requires
        spec_is_selected(s, ec, v1),
        spec_is_selected(s + t, ec, v2),
    ensures
        v1 <= v2,
{
    lemma_fits_prefix(s, t, v2, ec);
}

} // verus!
