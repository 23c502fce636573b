//! Data encoder: pack a payload into the mode-specific bit stream — mode
//! indicator, character-count indicator, packed characters, terminator,
//! zero bits to the next byte boundary, then alternating pad bytes until
//! the stream exactly fills the data-codeword capacity.

use vstd::prelude::*;
use crate::bits::{
    spec_pow2, spec_bits_of, spec_bytes_of, lemma_pow2_values, lemma_bits_of_len,
    push_bits, bits_to_bytes,
};
use crate::error::EcLevel;
use crate::mode::{
    Mode, spec_mode_of, spec_all_digits, spec_all_alnum, spec_alnum_val,
    spec_cci_bits, spec_payload_bits, spec_total_bits, spec_fits,
    lemma_pb_num_lb, lemma_pb_al_lb, cci_bits, alnum_val,
};
use crate::tables::{spec_data_codewords, data_codewords, lemma_capacity_consistent};

verus! {

/// The 4-bit mode indicator.
pub open spec fn spec_mode_indicator(m: Mode) -> int {
    match m {
        Mode::Numeric => 1,
        Mode::Alphanumeric => 2,
        Mode::Byte => 4,
    }
}

/// The packed payload: numeric digits in groups of three (10 bits each,
/// 7 or 4 for a 2- or 1-digit remainder), alphanumeric characters in pairs
/// (11 bits each, 6 for a single remainder), bytes verbatim.
pub open spec fn spec_payload_seq(m: Mode, s: Seq<u8>) -> Seq<bool>
    decreases s.len(),
{
    match m {
        Mode::Numeric => {
            if s.len() == 0 {
                Seq::empty()
            } else if s.len() == 1 {
                spec_bits_of(s[0] - 48, 4)
            } else if s.len() == 2 {
                spec_bits_of((s[0] - 48) * 10 + (s[1] - 48), 7)
            } else {
                spec_bits_of((s[0] - 48) * 100 + (s[1] - 48) * 10 + (s[2] - 48), 10)
                    + spec_payload_seq(m, s.skip(3))
            }
        }
        Mode::Alphanumeric => {
            if s.len() == 0 {
                Seq::empty()
            } else if s.len() == 1 {
                spec_bits_of(spec_alnum_val(s[0]), 6)
            } else {
                spec_bits_of(spec_alnum_val(s[0]) * 45 + spec_alnum_val(s[1]), 11)
                    + spec_payload_seq(m, s.skip(2))
            }
        }
        Mode::Byte => {
            if s.len() == 0 {
                Seq::empty()
            } else {
                spec_bits_of(s[0] as int, 8) + spec_payload_seq(m, s.skip(1))
            }
        }
    }
}

/// The packed payload's length agrees with the bit-count formula.
pub proof fn lemma_payload_seq_len(m: Mode, s: Seq<u8>)
    ensures
        spec_payload_seq(m, s).len() == spec_payload_bits(m, s.len()),
    decreases s.len(),
{
    match m {
        Mode::Numeric => {
            if s.len() == 1 {
                lemma_bits_of_len(s[0] - 48, 4);
            } else if s.len() == 2 {
                lemma_bits_of_len((s[0] - 48) * 10 + (s[1] - 48), 7);
            } else if s.len() >= 3 {
                lemma_bits_of_len((s[0] - 48) * 100 + (s[1] - 48) * 10 + (s[2] - 48), 10);
                lemma_payload_seq_len(m, s.skip(3));
            }
        }
        Mode::Alphanumeric => {
            if s.len() == 1 {
                lemma_bits_of_len(spec_alnum_val(s[0]), 6);
            } else if s.len() >= 2 {
                lemma_bits_of_len(spec_alnum_val(s[0]) * 45 + spec_alnum_val(s[1]), 11);
                lemma_payload_seq_len(m, s.skip(2));
            }
        }
        Mode::Byte => {
            if s.len() >= 1 {
                lemma_bits_of_len(s[0] as int, 8);
                lemma_payload_seq_len(m, s.skip(1));
            }
        }
    }
}

/// k whole pad bytes, alternating the two fixed padding values
/// 0xEC and 0x11, starting with 0xEC.
pub open spec fn spec_pad(k: nat) -> Seq<bool>
    decreases k,
{
    if k == 0 {
        Seq::empty()
    } else {
        spec_pad((k - 1) as nat)
            + spec_bits_of(if (k - 1) % 2 == 0 { 0xEC } else { 0x11 }, 8)
    }
}

pub proof fn lemma_pad_len(k: nat)
    ensures
        spec_pad(k).len() == 8 * k,
    decreases k,
{
    if k > 0 {
        lemma_pad_len((k - 1) as nat);
        lemma_bits_of_len(if (k - 1) % 2 == 0 { 0xEC } else { 0x11 }, 8);
    }
}

/// Mode indicator, character count, packed payload.
pub open spec fn spec_header_payload(s: Seq<u8>, v: int) -> Seq<bool> {
    let m = spec_mode_of(s);
    spec_bits_of(spec_mode_indicator(m), 4)
        + spec_bits_of(s.len() as int, spec_cci_bits(m, v) as nat)
        + spec_payload_seq(m, s)
}

/// The complete data bit stream of a payload at (version, level): header and
/// payload, a terminator of up to four zero bits (truncated if the capacity
/// leaves less room), zero bits to the next byte boundary, and whole pad
/// bytes up to the exact data capacity.
pub open spec fn spec_encoded_bits(s: Seq<u8>, v: int, ec: EcLevel) -> Seq<bool> {
    let hp = spec_header_payload(s, v);
    let cap = 8 * spec_data_codewords(v, ec);
    let term = if cap - hp.len() < 4 { cap - hp.len() } else { 4int };
    let tz = term + (8 - (hp.len() + term) % 8) % 8;
    let nb = (cap - hp.len() - tz) / 8;
    hp + spec_bits_of(0, tz as nat) + spec_pad(nb as nat)
}

/// The data codewords of a payload at (version, level).
pub open spec fn spec_data_bytes(s: Seq<u8>, v: int, ec: EcLevel) -> Seq<u8> {
    spec_bytes_of(spec_encoded_bits(s, v, ec))
}

/// A payload that fits is short enough for its character-count indicator:
/// the capacity tables never outrun the indicator's width.
pub proof fn lemma_fits_length_bound(s: Seq<u8>, v: int, ec: EcLevel)
    requires
        1 <= v <= 40,
        spec_fits(s, v, ec),
    ensures
        s.len() <= 7089,
        (s.len() as int) < spec_pow2(spec_cci_bits(spec_mode_of(s), v) as nat),
{
    lemma_capacity_consistent(v, ec);
    lemma_pow2_values();
    let m = spec_mode_of(s);
    match m {
        Mode::Numeric => {
            lemma_pb_num_lb(s.len());
        }
        Mode::Alphanumeric => {
            lemma_pb_al_lb(s.len());
        }
        Mode::Byte => { }
    }
}

/// Emit mode indicator, character-count indicator and packed payload.
#[verifier::rlimit(100)]
fn encode_header_payload(data: &Vec<u8>, m: Mode, version: u8) -> (bits: Vec<bool>)
    requires
        1 <= version <= 40,
        m == spec_mode_of(data@),
        data@.len() <= 7089,
        (data@.len() as int) < spec_pow2(spec_cci_bits(m, version as int) as nat),
    ensures
        bits@ == spec_header_payload(data@, version as int),
{
    let ghost s = data@;
    let n = data.len();
    proof {
        lemma_pow2_values();
    }
    let cci = cci_bits(m, version);
    let mut bits: Vec<bool> = Vec::new();
    let ind: u32 = match m {
        Mode::Numeric => 1,
        Mode::Alphanumeric => 2,
        Mode::Byte => 4,
    };
    push_bits(&mut bits, ind, 4);
    proof {
        assert(bits@ =~= spec_bits_of(spec_mode_indicator(m), 4));
    }
    push_bits(&mut bits, n as u32, cci);
    let ghost head = bits@;
    proof {
        assert(head == spec_bits_of(spec_mode_indicator(m), 4)
            + spec_bits_of(s.len() as int, spec_cci_bits(m, version as int) as nat));
    }
    // pack the payload, consuming the characters from the front
    let mut i: usize = 0;
    proof {
        assert(s.skip(0) =~= s);
    }
    match m {
        Mode::Numeric => {
            proof {
                assert(spec_all_digits(s));
            }
            while n - i >= 3
                invariant
                    i <= n,
                    n == s.len(),
                    n == data@.len(),
                    s == data@,
                    spec_all_digits(s),
                    bits@ + spec_payload_seq(Mode::Numeric, s.skip(i as int))
                        == head + spec_payload_seq(Mode::Numeric, s),
                decreases n - i,
            {
                proof {
                    lemma_pow2_values();
                }
                let ghost b0 = bits@;
                let d0 = (data[i] - 48) as u32;
                let d1 = (data[i + 1] - 48) as u32;
                let d2 = (data[i + 2] - 48) as u32;
                let val = d0 * 100 + d1 * 10 + d2;
                push_bits(&mut bits, val, 10);
                proof {
                    assert(s.skip(i as int).skip(3) =~= s.skip(i as int + 3));
                    assert(spec_payload_seq(Mode::Numeric, s.skip(i as int))
                        == spec_bits_of(val as int, 10)
                            + spec_payload_seq(Mode::Numeric, s.skip(i as int + 3)));
                    assert(bits@ + spec_payload_seq(Mode::Numeric, s.skip(i as int + 3))
                        =~= b0 + spec_payload_seq(Mode::Numeric, s.skip(i as int)));
                }
                i += 3;
            }
            if n - i == 1 {
                let ghost b0 = bits@;
                let d0 = (data[i] - 48) as u32;
                push_bits(&mut bits, d0, 4);
                proof {
                    lemma_pow2_values();
                    assert(bits@ + spec_payload_seq(Mode::Numeric, s.skip(n as int))
                        =~= b0 + spec_payload_seq(Mode::Numeric, s.skip(i as int)));
                }
                i = n;
            } else if n - i == 2 {
                let ghost b0 = bits@;
                let d0 = (data[i] - 48) as u32;
                let d1 = (data[i + 1] - 48) as u32;
                push_bits(&mut bits, d0 * 10 + d1, 7);
                proof {
                    lemma_pow2_values();
                    assert(bits@ + spec_payload_seq(Mode::Numeric, s.skip(n as int))
                        =~= b0 + spec_payload_seq(Mode::Numeric, s.skip(i as int)));
                }
                i = n;
            }
        }
        Mode::Alphanumeric => {
            proof {
                assert(spec_all_alnum(s));
            }
            while n - i >= 2
                invariant
                    i <= n,
                    n == s.len(),
                    n == data@.len(),
                    s == data@,
                    spec_all_alnum(s),
                    bits@ + spec_payload_seq(Mode::Alphanumeric, s.skip(i as int))
                        == head + spec_payload_seq(Mode::Alphanumeric, s),
                decreases n - i,
            {
                proof {
                    lemma_pow2_values();
                }
                let ghost b0 = bits@;
                let v0 = alnum_val(data[i]) as u32;
                let v1 = alnum_val(data[i + 1]) as u32;
                let val = v0 * 45 + v1;
                push_bits(&mut bits, val, 11);
                proof {
                    assert(s.skip(i as int).skip(2) =~= s.skip(i as int + 2));
                    assert(spec_payload_seq(Mode::Alphanumeric, s.skip(i as int))
                        == spec_bits_of(val as int, 11)
                            + spec_payload_seq(Mode::Alphanumeric, s.skip(i as int + 2)));
                    assert(bits@ + spec_payload_seq(Mode::Alphanumeric, s.skip(i as int + 2))
                        =~= b0 + spec_payload_seq(Mode::Alphanumeric, s.skip(i as int)));
                }
                i += 2;
            }
            if n - i == 1 {
                let ghost b0 = bits@;
                let v0 = alnum_val(data[i]) as u32;
                push_bits(&mut bits, v0, 6);
                proof {
                    lemma_pow2_values();
                    assert(bits@ + spec_payload_seq(Mode::Alphanumeric, s.skip(n as int))
                        =~= b0 + spec_payload_seq(Mode::Alphanumeric, s.skip(i as int)));
                }
                i = n;
            }
        }
        Mode::Byte => {
            while i < n
                invariant
                    i <= n,
                    n == s.len(),
                    n == data@.len(),
                    s == data@,
                    bits@ + spec_payload_seq(Mode::Byte, s.skip(i as int))
                        == head + spec_payload_seq(Mode::Byte, s),
                decreases n - i,
            {
                proof {
                    lemma_pow2_values();
                }
                let ghost b0 = bits@;
                let b = data[i] as u32;
                push_bits(&mut bits, b, 8);
                proof {
                    assert(s.skip(i as int).skip(1) =~= s.skip(i as int + 1));
                    assert(spec_payload_seq(Mode::Byte, s.skip(i as int))
                        == spec_bits_of(b as int, 8)
                            + spec_payload_seq(Mode::Byte, s.skip(i as int + 1)));
                    assert(bits@ + spec_payload_seq(Mode::Byte, s.skip(i as int + 1))
                        =~= b0 + spec_payload_seq(Mode::Byte, s.skip(i as int)));
                }
                i += 1;
            }
        }
    }
    proof {
        assert(s.skip(n as int) =~= Seq::<u8>::empty());
        assert(bits@ + spec_payload_seq(m, s.skip(n as int)) =~= bits@);
        assert(bits@ == spec_header_payload(s, version as int));
    }
    bits
}

/// Encode a payload's data codewords for a chosen mode and version.
///
/// The result always has exactly the (version, level) data capacity.
#[verifier::rlimit(100)]
pub fn encode_data(data: &Vec<u8>, m: Mode, version: u8, ec: EcLevel) -> (r: Vec<u8>)
    requires
        1 <= version <= 40,
        m == spec_mode_of(data@),
        spec_fits(data@, version as int, ec),
    ensures
        r@ == spec_data_bytes(data@, version as int, ec),
        r@.len() == spec_data_codewords(version as int, ec),
{
    let ghost s = data@;
    proof {
        lemma_fits_length_bound(s, version as int, ec);
    }
    let mut bits = encode_header_payload(data, m, version);
    proof {
        lemma_bits_of_len(spec_mode_indicator(m), 4);
        lemma_bits_of_len(s.len() as int, spec_cci_bits(m, version as int) as nat);
        lemma_payload_seq_len(m, s);
        assert(bits@.len() == spec_total_bits(m, version as int, s.len()));
        lemma_capacity_consistent(version as int, ec);
    }
    let ghost hp = bits@;
    let used = bits.len();
    let cap = 8 * data_codewords(version, ec);
    // terminator, truncated when less than four bits of room remain,
    // then zero bits to the next byte boundary
    let term = if cap - used < 4 { cap - used } else { 4 };
    let tz = term + (8 - (used + term) % 8) % 8;
    let mut j: usize = 0;
    while j < tz
        invariant
            j <= tz,
            bits@ == hp + spec_bits_of(0, j as nat),
        decreases tz - j,
    {
        let ghost b0 = bits@;
        bits.push(false);
        proof {
            assert(spec_bits_of(0, j as nat + 1) == spec_bits_of(0, j as nat).push(false));
            assert(b0.push(false) =~= hp + spec_bits_of(0, j as nat + 1));
        }
        j += 1;
    }
    proof {
        lemma_bits_of_len(0, tz as nat);
        assert(bits@.len() == used + tz);
        assert((used + tz) % 8 == 0);
        assert(cap % 8 == 0);
    }
    let ghost hz = bits@;
    let nb = (cap - bits.len()) / 8;
    proof {
        assert(8 * nb == cap - (used + tz));
    }
    let mut k: usize = 0;
    while k < nb
        invariant
            k <= nb,
            bits@ == hz + spec_pad(k as nat),
        decreases nb - k,
    {
        proof {
            lemma_pow2_values();
        }
        let ghost b0 = bits@;
        let pb: u32 = if k % 2 == 0 { 0xEC } else { 0x11 };
        push_bits(&mut bits, pb, 8);
        proof {
            assert(spec_pad(k as nat + 1)
                == spec_pad(k as nat) + spec_bits_of(pb as int, 8));
            assert(b0 + spec_bits_of(pb as int, 8) =~= hz + spec_pad(k as nat + 1));
        }
        k += 1;
    }
    proof {
        lemma_pad_len(nb as nat);
        assert(bits@.len() == cap);
        assert(bits@ == spec_encoded_bits(s, version as int, ec));
        assert(8 * spec_data_codewords(version as int, ec) / 8
            == spec_data_codewords(version as int, ec));
    }
    bits_to_bytes(&bits)
}

} // verus!
