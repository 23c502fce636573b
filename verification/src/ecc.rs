//! Error-correction encoder: split the data codewords into blocks per the
//! (version, level) table — short blocks first — compute each block's
//! Reed-Solomon codewords, and interleave data then error correction
//! byte-by-byte across the blocks.

use vstd::prelude::*;
use crate::error::EcLevel;
use crate::gf256::{spec_gen_poly, spec_rs_rem, gen_poly, rs_remainder};
use crate::tables::{
    spec_block_info, spec_data_codewords, spec_total_codewords,
    block_info, total_codewords, lemma_capacity_consistent,
};

verus! {

/// Offset of block b's data codewords in the data stream: the g1 short
/// blocks come first, then the g2 long blocks.
pub open spec fn spec_block_start(v: int, ec: EcLevel, b: int) -> int {
    let (e, g1, d1, g2, d2) = spec_block_info(v, ec);
    if b < g1 { b * d1 } else { g1 * d1 + (b - g1) * d2 }
}

/// Length of block b's data portion.
pub open spec fn spec_block_len(v: int, ec: EcLevel, b: int) -> int {
    let (e, g1, d1, g2, d2) = spec_block_info(v, ec);
    if b < g1 { d1 } else { d2 }
}

/// Block b's data codewords.
pub open spec fn spec_data_block(s: Seq<u8>, v: int, ec: EcLevel, b: int) -> Seq<u8> {
    s.subrange(spec_block_start(v, ec, b), spec_block_start(v, ec, b) + spec_block_len(v, ec, b))
}

/// Block b's error-correction codewords.
pub open spec fn spec_ec_block(s: Seq<u8>, v: int, ec: EcLevel, b: int) -> Seq<u8> {
    let (e, g1, d1, g2, d2) = spec_block_info(v, ec);
    spec_rs_rem(spec_data_block(s, v, ec, b), spec_gen_poly(e as nat))
}

/// The final codeword stream: data codewords interleaved byte-by-byte
/// across the blocks (all blocks for the first d1 rows, then one further
/// byte from each long block), followed by the error-correction codewords
/// interleaved the same way.
pub open spec fn spec_interleaved(s: Seq<u8>, v: int, ec: EcLevel) -> Seq<u8> {
    let (e, g1, d1, g2, d2) = spec_block_info(v, ec);
    let nb = g1 + g2;
    let dcw = spec_data_codewords(v, ec);
    Seq::new((dcw + nb * e) as nat, |p: int|
        if p < d1 * nb {
            s[spec_block_start(v, ec, p % nb) + p / nb]
        } else if p < dcw {
            s[spec_block_start(v, ec, g1 + (p - d1 * nb)) + d1]
        } else {
            spec_ec_block(s, v, ec, (p - dcw) % nb)[(p - dcw) / nb]
        })
}

/// Build the interleaved data + error-correction codeword stream.
///
/// Its length is always exactly the version's total codeword capacity.
#[verifier::rlimit(100)]
pub fn build_codewords(data_cw: &Vec<u8>, version: u8, ec: EcLevel) -> (r: Vec<u8>)
    requires
        1 <= version <= 40,
        data_cw@.len() == spec_data_codewords(version as int, ec),
    ensures
        r@ == spec_interleaved(data_cw@, version as int, ec),
        r@.len() == spec_total_codewords(version as int),
{
    proof {
        lemma_capacity_consistent(version as int, ec);
    }
    let ghost s = data_cw@;
    let ghost v = version as int;
    let info = block_info(version, ec);
    let e: usize = info.0 as usize;
    let g1: usize = info.1 as usize;
    let d1: usize = info.2 as usize;
    let g2: usize = info.3 as usize;
    let d2: usize = info.4 as usize;
    let nb: usize = g1 + g2;
    let dcw: usize = data_cw.len();
    let gp = gen_poly(e);
    // Reed-Solomon codewords for each block
    let mut ecb: Vec<Vec<u8>> = Vec::new();
    let mut b: usize = 0;
    while b < nb
        invariant
            b <= nb,
            1 <= v <= 40,
            s == data_cw@,
            s.len() == spec_data_codewords(v, ec),
            (e as int, g1 as int, d1 as int, g2 as int, d2 as int) == spec_block_info(v, ec),
            nb == g1 + g2,
            dcw == s.len(),
            7 <= e <= 30,
            1 <= g1,
            nb <= 81,
            1 <= d1 <= 123,
            g2 != 0 ==> d2 == d1 + 1,
            g2 == 0 ==> d2 == 0,
            gp@ == spec_gen_poly(e as nat),
            gp@.len() == e + 1,
            ecb@.len() == b,
            forall|t: int| 0 <= t < b
                ==> #[trigger] ecb@[t]@ == spec_ec_block(s, v, ec, t) && ecb@[t]@.len() == e,
        decreases nb - b,
    {
        proof {
            assert(g1 as int * d1 as int + g2 as int * d2 as int == dcw as int);
            if b < g1 {
                assert(b * d1 + d1 <= g1 * d1) by (nonlinear_arith)
                    requires (b as int) < g1 as int, 0 <= b, 1 <= d1;
                assert(g1 * d1 <= dcw) by (nonlinear_arith)
                    requires
                        g1 as int * d1 as int + g2 as int * d2 as int == dcw as int,
                        0 <= g2, 0 <= d2;
            } else {
                assert(g2 >= 1);
                assert((b - g1) * d2 + d2 <= g2 * d2) by (nonlinear_arith)
                    requires (b as int) < g1 as int + g2 as int, g1 <= b, 1 <= d2;
                assert(g1 * d1 + g2 * d2 == dcw);
            }
        }
        let start: usize = if b < g1 { b * d1 } else { g1 * d1 + (b - g1) * d2 };
        let len: usize = if b < g1 { d1 } else { d2 };
        proof {
            assert(start + len <= dcw);
        }
        let mut blk: Vec<u8> = Vec::new();
        let mut t: usize = 0;
        while t < len
            invariant
                t <= len,
                start + len <= dcw,
                dcw == data_cw@.len(),
                blk@.len() == t,
                forall|q: int| 0 <= q < t ==> #[trigger] blk@[q] == data_cw@[start + q],
            decreases len - t,
        {
            blk.push(data_cw[start + t]);
            t += 1;
        }
        proof {
            assert(blk@ =~= s.subrange(start as int, start as int + len as int));
            assert(blk@ == spec_data_block(s, v, ec, b as int));
        }
        let rb = rs_remainder(&blk, &gp);
        ecb.push(rb);
        b += 1;
    }
    // interleave: data rows first, then error-correction rows
    let total = total_codewords(version);
    let mut out: Vec<u8> = Vec::new();
    let mut p: usize = 0;
    proof {
        assert(dcw + nb * e == total);
        assert(d1 * nb <= dcw) by (nonlinear_arith)
            requires
                g1 as int * d1 as int + g2 as int * d2 as int == dcw as int,
                nb == g1 + g2,
                0 <= g1, 0 <= g2, 0 <= d1,
                g2 != 0 ==> d1 <= d2,
                g2 == 0 ==> d2 == 0;
    }
    while p < total
        invariant
            p <= total,
            1 <= v <= 40,
            s == data_cw@,
            s.len() == spec_data_codewords(v, ec),
            (e as int, g1 as int, d1 as int, g2 as int, d2 as int) == spec_block_info(v, ec),
            nb == g1 + g2,
            dcw == s.len(),
            total == spec_total_codewords(v),
            total == dcw + nb * e,
            total <= 3706,
            dcw <= 2956,
            d1 * nb <= dcw,
            7 <= e <= 30,
            1 <= g1,
            1 <= nb <= 81,
            1 <= d1 <= 123,
            g2 != 0 ==> d2 == d1 + 1,
            g2 == 0 ==> d2 == 0,
            ecb@.len() == nb,
            forall|t: int| 0 <= t < nb
                ==> #[trigger] ecb@[t]@ == spec_ec_block(s, v, ec, t) && ecb@[t]@.len() == e,
            out@.len() == p,
            forall|q: int| 0 <= q < p
                ==> #[trigger] out@[q] == spec_interleaved(s, v, ec)[q],
        decreases total - p,
    {
        let val: u8;
        if p < d1 * nb {
            let row = p / nb;
            let col = p % nb;
            proof {
                assert(row < d1 && col < nb) by (nonlinear_arith)
                    requires
                        (p as int) < d1 as int * nb as int,
                        0 <= p,
                        1 <= nb,
                        row as int == p as int / nb as int,
                        col as int == p as int % nb as int;
                if col < g1 {
                    assert(col * d1 + row < g1 * d1) by (nonlinear_arith)
                        requires (col as int) < g1 as int, 0 <= col, (row as int) < d1 as int, 0 <= row, 1 <= d1;
                    assert(g1 * d1 <= dcw) by (nonlinear_arith)
                        requires
                            g1 as int * d1 as int + g2 as int * d2 as int == dcw as int,
                            0 <= g2 as int * d2 as int;
                } else {
                    assert((col - g1) * d2 + row < g2 * d2) by (nonlinear_arith)
                        requires
                            (col as int) < g1 as int + g2 as int, g1 <= col,
                            (row as int) < d1 as int, d1 <= d2, 0 <= row, 1 <= d2;
                }
            }
            let start: usize = if col < g1 { col * d1 } else { g1 * d1 + (col - g1) * d2 };
            val = data_cw[start + row];
        } else if p < dcw {
            let k = p - d1 * nb;
            proof {
                assert(d1 * nb + g2 * (d2 - d1) == dcw) by (nonlinear_arith)
                    requires
                        g1 as int * d1 as int + g2 as int * d2 as int == dcw as int,
                        nb == g1 + g2;
                assert((k as int) < g2 * (d2 as int - d1 as int));
                assert(g2 != 0) by (nonlinear_arith)
                    requires
                        0 <= (k as int),
                        (k as int) < g2 as int * (d2 as int - d1 as int);
                assert((k as int) < g2 as int) by (nonlinear_arith)
                    requires
                        (k as int) < g2 as int * (d2 as int - d1 as int),
                        d2 == d1 + 1;
                assert(g1 * d1 + k * d2 + d1 < dcw) by (nonlinear_arith)
                    requires
                        g1 as int * d1 as int + g2 as int * d2 as int == dcw as int,
                        (k as int) < g2 as int, 0 <= k,
                        d2 == d1 + 1, 1 <= d1;
            }
            val = data_cw[g1 * d1 + k * d2 + d1];
        } else {
            let q = p - dcw;
            let col = q % nb;
            let row = q / nb;
            proof {
                assert(col < nb && row < e) by (nonlinear_arith)
                    requires
                        (q as int) < nb as int * e as int,
                        0 <= q,
                        1 <= nb,
                        col as int == q as int % nb as int,
                        row as int == q as int / nb as int;
            }
            val = ecb[col][row];
        }
        out.push(val);
        p += 1;
    }
    proof {
        assert(out@ =~= spec_interleaved(s, v, ec));
    }
    out
}

} // verus!
