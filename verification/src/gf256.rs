//! Arithmetic in GF(256) with the reduction polynomial x^8+x^4+x^3+x^2+1,
//! and the Reed-Solomon generator polynomials built from it.

use vstd::prelude::*;

verus! {

/// Multiply by x in GF(256): shift left and reduce by 0x1D when the
/// high bit falls out.
pub open spec fn spec_xtime(a: u8) -> u8 {
    if a < 128 { a << 1 } else { (a << 1) ^ 0x1D }
}

pub fn xtime(a: u8) -> (r: u8)
    ensures
        r == spec_xtime(a),
{
    if a < 128 { a << 1 } else { (a << 1) ^ 0x1D }
}

/// Product in GF(256) by repeated doubling over the bits of b.
pub open spec fn spec_gf_mul(a: u8, b: u8) -> u8
    decreases b,
{
    if b == 0 {
        0
    } else {
        (if b % 2 == 1 { a } else { 0 }) ^ spec_gf_mul(spec_xtime(a), b / 2)
    }
}

pub fn gf_mul(a: u8, b: u8) -> (r: u8)
    ensures
        r == spec_gf_mul(a, b),
    decreases b,
{
    if b == 0 {
        0
    } else {
        let t = gf_mul(xtime(a), b / 2);
        let m: u8 = if b % 2 == 1 { a } else { 0 };
        m ^ t
    }
}

/// The power alpha^k of the generator element alpha = x.
pub open spec fn spec_alpha_pow(k: nat) -> u8
    decreases k,
{
    if k == 0 { 1 } else { spec_xtime(spec_alpha_pow((k - 1) as nat)) }
}

/// One multiplication of a monic generator polynomial (highest degree
/// first) by the factor (x + c).
pub open spec fn spec_gen_step(g: Seq<u8>, c: u8) -> Seq<u8> {
    Seq::new(g.len() + 1, |i: int|
        if i == 0 { g[0] }
        else if i < g.len() { g[i] ^ spec_gf_mul(g[i - 1], c) }
        else { spec_gf_mul(g[g.len() - 1], c) })
}

/// The degree-n Reed-Solomon generator polynomial: the product of
/// (x + alpha^k) for k = 0 .. n-1, coefficients highest degree first.
pub open spec fn spec_gen_poly(n: nat) -> Seq<u8>
    decreases n,
{
    if n == 0 {
        seq![1u8]
    } else {
        spec_gen_step(spec_gen_poly((n - 1) as nat), spec_alpha_pow((n - 1) as nat))
    }
}

pub fn gen_poly(e: usize) -> (r: Vec<u8>)
    requires
        e <= 30,
    ensures
        r@ == spec_gen_poly(e as nat),
        r@.len() == e + 1,
{
    let mut g: Vec<u8> = Vec::new();
    g.push(1);
    proof {
        assert(g@ =~= spec_gen_poly(0));
    }
    let mut k: usize = 0;
    let mut ap: u8 = 1;
    while k < e
        invariant
            k <= e,
            e <= 30,
            g@ == spec_gen_poly(k as nat),
            g@.len() == k + 1,
            ap == spec_alpha_pow(k as nat),
        decreases e - k,
    {
        let len = g.len();
        let mut ng: Vec<u8> = Vec::new();
        let mut idx: usize = 0;
        while idx < len + 1
            invariant
                idx <= len + 1,
                len == g@.len(),
                1 <= len <= 31,
                ng@.len() == idx,
                forall|t: int| 0 <= t < idx
                    ==> #[trigger] ng@[t] == spec_gen_step(g@, ap)[t],
            decreases len + 1 - idx,
        {
            let val = if idx == 0 {
                g[0]
            } else if idx < len {
                g[idx] ^ gf_mul(g[idx - 1], ap)
            } else {
                gf_mul(g[len - 1], ap)
            };
            ng.push(val);
            idx += 1;
        }
        proof {
            assert(ng@ =~= spec_gen_step(g@, spec_alpha_pow(k as nat)));
        }
        g = ng;
        ap = xtime(ap);
        k += 1;
    }
    g
}

/// One step of polynomial long division: fold the next data byte into the
/// running remainder.
pub open spec fn spec_rs_step(r: Seq<u8>, g: Seq<u8>, d: u8) -> Seq<u8> {
    Seq::new(r.len(), |j: int|
        (if j < r.len() - 1 { r[j + 1] } else { 0u8 }) ^ spec_gf_mul(g[j + 1], d ^ r[0]))
}

/// The remainder after folding in each data byte in order.
pub open spec fn spec_rs_fold(r: Seq<u8>, data: Seq<u8>, g: Seq<u8>) -> Seq<u8>
    decreases data.len(),
{
    if data.len() == 0 {
        r
    } else {
        spec_rs_fold(spec_rs_step(r, g, data[0]), data.skip(1), g)
    }
}

/// The Reed-Solomon remainder of a data polynomial divided by the monic
/// generator g: exactly g.len() - 1 error-correction codewords.
pub open spec fn spec_rs_rem(data: Seq<u8>, g: Seq<u8>) -> Seq<u8> {
    spec_rs_fold(Seq::new((g.len() - 1) as nat, |i: int| 0u8), data, g)
}

/// Divide the data polynomial by the generator and return the remainder.
pub fn rs_remainder(data: &Vec<u8>, gen: &Vec<u8>) -> (r: Vec<u8>)
    requires
        gen@.len() >= 2,
    ensures
        r@ == spec_rs_rem(data@, gen@),
        r@.len() == gen@.len() - 1,
{
    let e = gen.len() - 1;
    let mut rem: Vec<u8> = Vec::new();
    let mut z: usize = 0;
    while z < e
        invariant
            z <= e,
            rem@.len() == z,
            forall|t: int| 0 <= t < z ==> #[trigger] rem@[t] == 0u8,
        decreases e - z,
    {
        rem.push(0);
        z += 1;
    }
    proof {
        assert(rem@ =~= Seq::new(e as nat, |i: int| 0u8));
        assert(data@.skip(0) =~= data@);
    }
    let mut i: usize = 0;
    while i < data.len()
        invariant
            i <= data@.len(),
            e == gen@.len() - 1,
            e >= 1,
            rem@.len() == e,
            spec_rs_fold(rem@, data@.skip(i as int), gen@) == spec_rs_rem(data@, gen@),
        decreases data@.len() - i,
    {
        let ghost r0 = rem@;
        let f = data[i] ^ rem[0];
        let mut nr: Vec<u8> = Vec::new();
        let mut j: usize = 0;
        while j < e
            invariant
                j <= e,
                e == gen@.len() - 1,
                e >= 1,
                rem@.len() == e,
                i < data@.len(),
                f == data@[i as int] ^ rem@[0],
                nr@.len() == j,
                forall|t: int| 0 <= t < j
                    ==> #[trigger] nr@[t] == spec_rs_step(rem@, gen@, data@[i as int])[t],
            decreases e - j,
        {
            let base: u8 = if j < e - 1 { rem[j + 1] } else { 0 };
            nr.push(base ^ gf_mul(gen[j + 1], f));
            j += 1;
        }
        proof {
            assert(nr@ =~= spec_rs_step(rem@, gen@, data@[i as int]));
            assert(data@.skip(i as int).skip(1) =~= data@.skip(i as int + 1));
            assert(data@.skip(i as int)[0] == data@[i as int]);
        }
        rem = nr;
        i += 1;
    }
    proof {
        assert(data@.skip(data@.len() as int) =~= Seq::<u8>::empty());
    }
    rem
}

} // verus!
