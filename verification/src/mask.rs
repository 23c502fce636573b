//! Mask evaluator: apply each of the eight mask formulas to the data
//! modules, score the four penalty rules, commit the lowest-penalty mask
//! (ties to the lowest id), and write the BCH-protected format and
//! version information into the reserved areas.

use vstd::prelude::*;
use crate::error::EcLevel;
use crate::matrix::{Matrix, spec_dark_count};

verus! {

/// The eight mask formulas: a cell (r, c) is flipped when the formula holds.
pub open spec fn spec_mask_bit(mask: int, r: int, c: int) -> bool {
    if mask == 0 { (r + c) % 2 == 0 }
    else if mask == 1 { r % 2 == 0 }
    else if mask == 2 { c % 3 == 0 }
    else if mask == 3 { (r + c) % 3 == 0 }
    else if mask == 4 { (r / 2 + c / 3) % 2 == 0 }
    else if mask == 5 { (r * c) % 2 + (r * c) % 3 == 0 }
    else if mask == 6 { ((r * c) % 2 + (r * c) % 3) % 2 == 0 }
    else { ((r + c) % 2 + (r * c) % 3) % 2 == 0 }
}

pub fn mask_bit(mask: u8, r: usize, c: usize) -> (b: bool)
    requires
        mask < 8,
        r < 177,
        c < 177,
    ensures
        b == spec_mask_bit(mask as int, r as int, c as int),
{
    proof {
        assert(r * c <= 176 * 176) by (nonlinear_arith)
            requires r < 177, c < 177;
    }
    if mask == 0 { (r + c) % 2 == 0 }
    else if mask == 1 { r % 2 == 0 }
    else if mask == 2 { c % 3 == 0 }
    else if mask == 3 { (r + c) % 3 == 0 }
    else if mask == 4 { (r / 2 + c / 3) % 2 == 0 }
    else if mask == 5 { (r * c) % 2 + (r * c) % 3 == 0 }
    else if mask == 6 { ((r * c) % 2 + (r * c) % 3) % 2 == 0 }
    else { ((r + c) % 2 + (r * c) % 3) % 2 == 0 }
}

/// Row/column pairs map to distinct flat indices.
proof fn lemma_idx_lt(size: int, r1: int, c1: int, r2: int, c2: int)
    requires
        0 <= c1 < size,
        0 <= c2 < size,
        0 <= r1,
        r1 < r2 || (r1 == r2 && c1 < c2),
    ensures
        r1 * size + c1 < r2 * size + c2,
{
    assert(r1 * size + c1 < r2 * size + c2) by (nonlinear_arith)
        requires
            0 <= c1 < size,
            0 <= c2 < size,
            0 <= r1,
            r1 < r2 || (r1 == r2 && c1 < c2);
}

/// The cells of a resolved matrix with a mask XORed into its data
/// modules: function cells keep their value, data cells flip exactly
/// where the mask formula holds.
pub open spec fn spec_masked_cells(m: Matrix, mask: int) -> Seq<u8> {
    Seq::new(m.cells@.len(), |i: int|
        {
            let rr = i / m.size as int;
            let cc = i % m.size as int;
            if m.spec_func(rr, cc) || !spec_mask_bit(mask, rr, cc) {
                m.cells@[i]
            } else if m.cells@[i] == 2 {
                1u8
            } else {
                2u8
            }
        })
}

/// A copy of the matrix with the mask XORed into the data modules only:
/// function cells keep their value, data cells flip exactly where the
/// mask formula holds.
pub fn apply_mask(m: &Matrix, mask: u8) -> (r: Matrix)
    requires
        m.wf(),
        m.resolved(),
        mask < 8,
    ensures
        r.wf(),
        r.resolved(),
        r.size == m.size,
        r.func@ == m.func@,
        r.cells@ == spec_masked_cells(*m, mask as int),
        forall|rr: int, cc: int| 0 <= rr < m.size && 0 <= cc < m.size ==>
            #[trigger] r.spec_dark(rr, cc) == if m.spec_func(rr, cc) {
                m.spec_dark(rr, cc)
            } else {
                m.spec_dark(rr, cc) != spec_mask_bit(mask as int, rr, cc)
            },
{
    let size = m.size;
    let mut cells: Vec<u8> = Vec::new();
    let mut rr: usize = 0;
    while rr < size
        invariant
            rr <= size,
            size == m.size,
            m.wf(),
            m.resolved(),
            mask < 8,
            cells@.len() == rr * size,
            forall|j: int| 0 <= j < cells@.len() ==> 1 <= #[trigger] cells@[j] <= 2,
            forall|r2: int, c2: int| 0 <= r2 < rr && 0 <= c2 < size ==>
                (#[trigger] cells@[r2 * size + c2] == 2) == (if m.spec_func(r2, c2) {
                    m.spec_dark(r2, c2)
                } else {
                    m.spec_dark(r2, c2) != spec_mask_bit(mask as int, r2, c2)
                }),
        decreases size - rr,
    {
        let mut cc: usize = 0;
        while cc < size
            invariant
                rr < size,
                cc <= size,
                size == m.size,
                m.wf(),
                m.resolved(),
                mask < 8,
                cells@.len() == rr * size + cc,
                forall|j: int| 0 <= j < cells@.len() ==> 1 <= #[trigger] cells@[j] <= 2,
                forall|r2: int, c2: int|
                    0 <= r2 < size && 0 <= c2 < size
                    && (r2 < rr || (r2 == rr && c2 < cc)) ==>
                    (#[trigger] cells@[r2 * size + c2] == 2) == (if m.spec_func(r2, c2) {
                        m.spec_dark(r2, c2)
                    } else {
                        m.spec_dark(r2, c2) != spec_mask_bit(mask as int, r2, c2)
                    }),
            decreases size - cc,
        {
            let dark0 = m.get(rr, cc) == 2;
            let dark = if m.is_func(rr, cc) {
                dark0
            } else {
                dark0 != mask_bit(mask, rr, cc)
            };
            let ghost cells0 = cells@;
            cells.push(if dark { 2 } else { 1 });
            proof {
                assert forall|r2: int, c2: int|
                    0 <= r2 < size && 0 <= c2 < size
                    && (r2 < rr || (r2 == rr && c2 < cc + 1))
                    implies (#[trigger] cells@[r2 * size + c2] == 2)
                        == (if m.spec_func(r2, c2) {
                            m.spec_dark(r2, c2)
                        } else {
                            m.spec_dark(r2, c2) != spec_mask_bit(mask as int, r2, c2)
                        }) by {
                    if r2 < rr as int || (r2 == rr as int && c2 < cc as int) {
                        lemma_idx_lt(size as int, r2, c2, rr as int, cc as int);
                        assert(0 <= r2 * size + c2 < cells0.len()) by (nonlinear_arith)
                            requires
                                0 <= r2, 0 <= c2 < size as int,
                                r2 * size + c2 < rr as int * size + cc as int,
                                cells0.len() == rr as int * size + cc as int;
                        assert(cells@[r2 * size + c2] == cells0[r2 * size + c2]);
                    } else {
                        assert(r2 == rr as int && c2 == cc as int);
                        assert(cells@[r2 * size + c2] == (if dark { 2u8 } else { 1u8 }));
                    }
                }
            }
            cc += 1;
        }
        proof {
            assert((rr + 1) * size == rr * size + size) by (nonlinear_arith);
        }
        rr += 1;
    }
    let out = Matrix { size, cells, func: clone_func(&m.func) };
    proof {
        assert forall|i: int| 0 <= i < out.cells@.len()
            implies #[trigger] out.cells@[i] == spec_masked_cells(*m, mask as int)[i] by {
            let rr2 = i / size as int;
            let cc2 = i % size as int;
            assert(0 <= rr2 < size && 0 <= cc2 < size && rr2 * size + cc2 == i)
                by (nonlinear_arith)
                requires
                    0 <= i < size as int * size as int,
                    rr2 == i / size as int,
                    cc2 == i % size as int,
                    1 <= size as int;
            assert(m.resolved());
            assert(1 <= m.cells@[i] <= 2);
        }
        assert(out.cells@ =~= spec_masked_cells(*m, mask as int));
        assert forall|rr2: int, cc2: int| 0 <= rr2 < m.size && 0 <= cc2 < m.size
            implies #[trigger] out.spec_dark(rr2, cc2) == (if m.spec_func(rr2, cc2) {
                m.spec_dark(rr2, cc2)
            } else {
                m.spec_dark(rr2, cc2) != spec_mask_bit(mask as int, rr2, cc2)
            }) by {
            assert(out.cells@[rr2 * size + cc2] == 2 <==> (if m.spec_func(rr2, cc2) {
                m.spec_dark(rr2, cc2)
            } else {
                m.spec_dark(rr2, cc2) != spec_mask_bit(mask as int, rr2, cc2)
            }));
        }
    }
    out
}

/// Copy of the function-pattern map.
fn clone_func(v: &Vec<bool>) -> (r: Vec<bool>)
    ensures
        r@ == v@,
{
    let mut r: Vec<bool> = Vec::new();
    let mut i: usize = 0;
    while i < v.len()
        invariant
            i <= v@.len(),
            r@.len() == i,
            forall|j: int| 0 <= j < i ==> #[trigger] r@[j] == v@[j],
        decreases v@.len() - i,
    {
        r.push(v[i]);
        i += 1;
    }
    proof {
        assert(r@ =~= v@);
    }
    r
}

/// The cell at line a, position b, reading rows (axis 0) or columns (axis 1).
pub open spec fn spec_at(cells: Seq<u8>, size: int, axis: int, a: int, b: int) -> u8 {
    if axis == 0 { cells[a * size + b] } else { cells[b * size + a] }
}

/// Penalty rule 1 from position b of one line, given the current run
/// length and the value it is a run of: 3 points when a run reaches five,
/// 1 more for each module beyond five.
pub open spec fn spec_runs_scan(
    cells: Seq<u8>, size: int, axis: int, a: int, b: int, run: int, last: int,
) -> int
    decreases size - b,
{
    if b >= size {
        0
    } else {
        let v = spec_at(cells, size, axis, a, b) as int;
        if v == last {
            (if run + 1 == 5 { 3int } else if run + 1 > 5 { 1 } else { 0 })
                + spec_runs_scan(cells, size, axis, a, b + 1, run + 1, last)
        } else {
            spec_runs_scan(cells, size, axis, a, b + 1, 1, v)
        }
    }
}

/// Rule 1 summed over the lines from (axis, a) on.
pub open spec fn spec_runs_from(cells: Seq<u8>, size: int, axis: int, a: int) -> int
    decreases 2 - axis, size - a + 1,
{
    if axis >= 2 {
        0
    } else if a >= size {
        spec_runs_from(cells, size, axis + 1, 0)
    } else {
        spec_runs_scan(cells, size, axis, a, 0, 0, 3) + spec_runs_from(cells, size, axis, a + 1)
    }
}

/// Penalty rule 1: for every run of five or more same-colored modules in a
/// row or column, 3 points plus 1 for each module beyond five.
fn penalty_runs(m: &Matrix) -> (p: u64)
    requires
        m.wf(),
        m.resolved(),
    ensures
        p == spec_runs_from(m.cells@, m.size as int, 0, 0),
        p <= 6 * 177 * 177,
{
    let size = m.size;
    let ghost cells = m.cells@;
    let ghost total = spec_runs_from(cells, size as int, 0, 0);
    let mut pen: u64 = 0;
    let mut axis: usize = 0;
    while axis < 2
        invariant
            m.wf(),
            m.resolved(),
            size == m.size,
            cells == m.cells@,
            total == spec_runs_from(cells, size as int, 0, 0),
            axis <= 2,
            pen + spec_runs_from(cells, size as int, axis as int, 0) == total,
            pen <= (axis as u64) * 3 * 177 * 177,
        decreases 2 - axis,
    {
        let mut a: usize = 0;
        while a < size
            invariant
                m.wf(),
                m.resolved(),
                size == m.size,
                cells == m.cells@,
                total == spec_runs_from(cells, size as int, 0, 0),
                axis < 2,
                a <= size,
                pen + spec_runs_from(cells, size as int, axis as int, a as int) == total,
                pen <= (axis as u64) * 3 * 177 * 177 + (a as u64) * 3 * 177,
            decreases size - a,
        {
            let mut run: u64 = 0;
            let mut last: u8 = 3;
            let mut b: usize = 0;
            let ghost pen0 = pen;
            while b < size
                invariant
                    m.wf(),
                    m.resolved(),
                    size == m.size,
                    cells == m.cells@,
                    axis < 2,
                    a < size,
                    b <= size,
                    run <= b,
                    pen + spec_runs_scan(cells, size as int, axis as int, a as int,
                        b as int, run as int, last as int)
                        == pen0 + spec_runs_scan(cells, size as int, axis as int, a as int,
                            0, 0, 3),
                    pen <= pen0 + 3 * (b as u64),
                    pen0 <= (axis as u64) * 3 * 177 * 177 + (a as u64) * 3 * 177,
                decreases size - b,
            {
                let v = if axis == 0 { m.get(a, b) } else { m.get(b, a) };
                if v == last {
                    run += 1;
                    if run == 5 {
                        pen += 3;
                    } else if run > 5 {
                        pen += 1;
                    }
                } else {
                    last = v;
                    run = 1;
                }
                b += 1;
            }
            a += 1;
        }
        axis += 1;
    }
    pen
}

/// The score of the 2 x 2 block whose top-left corner is (r, c).
pub open spec fn spec_block_score(cells: Seq<u8>, size: int, r: int, c: int) -> int {
    let v = cells[r * size + c];
    if cells[r * size + c + 1] == v && cells[(r + 1) * size + c] == v
        && cells[(r + 1) * size + c + 1] == v { 3 } else { 0 }
}

/// Rule 2 summed over the block positions from (r, c) on.
pub open spec fn spec_blocks_from(cells: Seq<u8>, size: int, r: int, c: int) -> int
    decreases size - r, size - c + 1,
{
    if r + 1 >= size {
        0
    } else if c + 1 >= size {
        spec_blocks_from(cells, size, r + 1, 0)
    } else {
        spec_block_score(cells, size, r, c) + spec_blocks_from(cells, size, r, c + 1)
    }
}

/// Penalty rule 2: 3 points for every 2 x 2 block of same-colored modules.
fn penalty_blocks(m: &Matrix) -> (p: u64)
    requires
        m.wf(),
        m.resolved(),
    ensures
        p == spec_blocks_from(m.cells@, m.size as int, 0, 0),
        p <= 3 * 177 * 177,
{
    let size = m.size;
    let ghost cells = m.cells@;
    let ghost total = spec_blocks_from(cells, size as int, 0, 0);
    let mut pen: u64 = 0;
    let mut r: usize = 0;
    while r + 1 < size
        invariant
            m.wf(),
            m.resolved(),
            size == m.size,
            cells == m.cells@,
            total == spec_blocks_from(cells, size as int, 0, 0),
            r <= size,
            pen + spec_blocks_from(cells, size as int, r as int, 0) == total,
            pen <= (r as u64) * 3 * 177,
        decreases size - r,
    {
        let mut c: usize = 0;
        while c + 1 < size
            invariant
                m.wf(),
                m.resolved(),
                size == m.size,
                cells == m.cells@,
                total == spec_blocks_from(cells, size as int, 0, 0),
                r + 1 < size,
                c <= size,
                pen + spec_blocks_from(cells, size as int, r as int, c as int) == total,
                pen <= (r as u64) * 3 * 177 + (c as u64) * 3,
            decreases size - c,
        {
            let v = m.get(r, c);
            if m.get(r, c + 1) == v && m.get(r + 1, c) == v && m.get(r + 1, c + 1) == v {
                pen += 3;
            }
            c += 1;
        }
        r += 1;
    }
    pen
}

/// The score of the 11-module window starting at position b of a line:
/// 40 points when it shows the finder-like ratio pattern
/// dark-light-dark-dark-dark-light-dark flanked by four light modules.
pub open spec fn spec_finder_score(cells: Seq<u8>, size: int, axis: int, a: int, b: int) -> int {
    let d0 = spec_at(cells, size, axis, a, b) == 2;
    let d1 = spec_at(cells, size, axis, a, b + 1) == 2;
    let d2 = spec_at(cells, size, axis, a, b + 2) == 2;
    let d3 = spec_at(cells, size, axis, a, b + 3) == 2;
    let d4 = spec_at(cells, size, axis, a, b + 4) == 2;
    let d5 = spec_at(cells, size, axis, a, b + 5) == 2;
    let d6 = spec_at(cells, size, axis, a, b + 6) == 2;
    let d7 = spec_at(cells, size, axis, a, b + 7) == 2;
    let d8 = spec_at(cells, size, axis, a, b + 8) == 2;
    let d9 = spec_at(cells, size, axis, a, b + 9) == 2;
    let d10 = spec_at(cells, size, axis, a, b + 10) == 2;
    let head = d0 && !d1 && d2 && d3 && d4 && !d5 && d6 && !d7 && !d8 && !d9 && !d10;
    let tail = !d0 && !d1 && !d2 && !d3 && d4 && !d5 && d6 && d7 && d8 && !d9 && d10;
    if head || tail { 40 } else { 0 }
}

/// Rule 3 summed over the windows of one line from position b on.
pub open spec fn spec_finder_line(cells: Seq<u8>, size: int, axis: int, a: int, b: int) -> int
    decreases size - b,
{
    if b + 10 >= size {
        0
    } else {
        spec_finder_score(cells, size, axis, a, b) + spec_finder_line(cells, size, axis, a, b + 1)
    }
}

/// Rule 3 summed over the lines from (axis, a) on.
pub open spec fn spec_finder_from(cells: Seq<u8>, size: int, axis: int, a: int) -> int
    decreases 2 - axis, size - a + 1,
{
    if axis >= 2 {
        0
    } else if a >= size {
        spec_finder_from(cells, size, axis + 1, 0)
    } else {
        spec_finder_line(cells, size, axis, a, 0) + spec_finder_from(cells, size, axis, a + 1)
    }
}

/// Penalty rule 3: 40 points for each occurrence of the finder-like ratio
/// pattern dark-light-dark-dark-dark-light-dark flanked by four light
/// modules, in any row or column.
fn penalty_finder_like(m: &Matrix) -> (p: u64)
    requires
        m.wf(),
        m.resolved(),
    ensures
        p == spec_finder_from(m.cells@, m.size as int, 0, 0),
        p <= 2 * 40 * 177 * 177,
{
    let size = m.size;
    let ghost cells = m.cells@;
    let ghost total = spec_finder_from(cells, size as int, 0, 0);
    let mut pen: u64 = 0;
    let mut axis: usize = 0;
    while axis < 2
        invariant
            m.wf(),
            m.resolved(),
            size == m.size,
            cells == m.cells@,
            total == spec_finder_from(cells, size as int, 0, 0),
            axis <= 2,
            pen + spec_finder_from(cells, size as int, axis as int, 0) == total,
            pen <= (axis as u64) * 40 * 177 * 177,
        decreases 2 - axis,
    {
        let mut a: usize = 0;
        while a < size
            invariant
                m.wf(),
                m.resolved(),
                size == m.size,
                cells == m.cells@,
                total == spec_finder_from(cells, size as int, 0, 0),
                axis < 2,
                a <= size,
                pen + spec_finder_from(cells, size as int, axis as int, a as int) == total,
                pen <= (axis as u64) * 40 * 177 * 177 + (a as u64) * 40 * 177,
            decreases size - a,
        {
            let mut b: usize = 0;
            let ghost pen0 = pen;
            while b + 10 < size
                invariant
                    m.wf(),
                    m.resolved(),
                    size == m.size,
                    cells == m.cells@,
                    axis < 2,
                    a < size,
                    b <= size,
                    pen + spec_finder_line(cells, size as int, axis as int, a as int, b as int)
                        == pen0 + spec_finder_line(cells, size as int, axis as int, a as int, 0),
                    pen <= pen0 + (b as u64) * 40,
                    pen0 <= (axis as u64) * 40 * 177 * 177 + (a as u64) * 40 * 177,
                decreases size - b,
            {
                let dark0 = (if axis == 0 { m.get(a, b) } else { m.get(b, a) }) == 2;
                let dark1 = (if axis == 0 { m.get(a, b + 1) } else { m.get(b + 1, a) }) == 2;
                let dark2 = (if axis == 0 { m.get(a, b + 2) } else { m.get(b + 2, a) }) == 2;
                let dark3 = (if axis == 0 { m.get(a, b + 3) } else { m.get(b + 3, a) }) == 2;
                let dark4 = (if axis == 0 { m.get(a, b + 4) } else { m.get(b + 4, a) }) == 2;
                let dark5 = (if axis == 0 { m.get(a, b + 5) } else { m.get(b + 5, a) }) == 2;
                let dark6 = (if axis == 0 { m.get(a, b + 6) } else { m.get(b + 6, a) }) == 2;
                let dark7 = (if axis == 0 { m.get(a, b + 7) } else { m.get(b + 7, a) }) == 2;
                let dark8 = (if axis == 0 { m.get(a, b + 8) } else { m.get(b + 8, a) }) == 2;
                let dark9 = (if axis == 0 { m.get(a, b + 9) } else { m.get(b + 9, a) }) == 2;
                let dark10 = (if axis == 0 { m.get(a, b + 10) } else { m.get(b + 10, a) }) == 2;
                let head = dark0 && !dark1 && dark2 && dark3 && dark4 && !dark5 && dark6
                    && !dark7 && !dark8 && !dark9 && !dark10;
                let tail = !dark0 && !dark1 && !dark2 && !dark3 && dark4 && !dark5 && dark6
                    && dark7 && dark8 && !dark9 && dark10;
                if head || tail {
                    pen += 40;
                }
                b += 1;
            }
            a += 1;
        }
        axis += 1;
    }
    pen
}

/// Penalty rule 4 as a value: 10 points for each 5% step the dark
/// proportion's bracketing multiples of five deviate from 50%.
pub open spec fn spec_balance(cells: Seq<u8>, size: int) -> int {
    let dark = spec_dark_count(cells, size * size);
    let percent = dark * 100 / (size * size);
    let lower = percent - percent % 5;
    let upper = lower + 5;
    let dl = if lower >= 50 { lower - 50 } else { 50 - lower };
    let du = if upper >= 50 { upper - 50 } else { 50 - upper };
    10 * (if dl < du { dl / 5 } else { du / 5 })
}

/// Penalty rule 4: 10 points for each 5% step the dark-module proportion
/// deviates from 50%.
fn penalty_balance(m: &Matrix) -> (p: u64)
    requires
        m.wf(),
        m.resolved(),
    ensures
        p == spec_balance(m.cells@, m.size as int),
        p <= 100,
{
    proof {
        assert(1 <= m.size * m.size <= 31329) by (nonlinear_arith)
            requires 21 <= m.size <= 177;
    }
    let dark = m.count_dark();
    let total = m.cells.len();
    proof {
        assert((dark as int) * 100 / (total as int) <= 100) by (nonlinear_arith)
            requires
                1 <= total as int,
                dark as int <= total as int;
    }
    let percent = (dark * 100) / total;
    let lower = percent - percent % 5;
    let upper = lower + 5;
    let dl = if lower >= 50 { lower - 50 } else { 50 - lower };
    let du = if upper >= 50 { upper - 50 } else { 50 - upper };
    let k = if dl < du { dl / 5 } else { du / 5 };
    10 * (k as u64)
}

/// The total penalty of a candidate's cells under the four rules.
pub open spec fn spec_penalty(cells: Seq<u8>, size: int) -> int {
    spec_runs_from(cells, size, 0, 0) + spec_blocks_from(cells, size, 0, 0)
        + spec_finder_from(cells, size, 0, 0) + spec_balance(cells, size)
}

/// The total penalty of a masked candidate under the four rules.
pub fn penalty(m: &Matrix) -> (p: u64)
    requires
        m.wf(),
        m.resolved(),
    ensures
        p == spec_penalty(m.cells@, m.size as int),
        p < 10_000_000,
{
    let p1 = penalty_runs(m);
    let p2 = penalty_blocks(m);
    let p3 = penalty_finder_like(m);
    let p4 = penalty_balance(m);
    p1 + p2 + p3 + p4
}

/// Score all eight mask candidates, lowest id first: entry i is the
/// four-rule penalty of the matrix with mask i applied.
pub fn mask_scores(m: &Matrix) -> (scores: Vec<u64>)
    requires
        m.wf(),
        m.resolved(),
    ensures
        scores@.len() == 8,
        forall|i: int| 0 <= i < 8 ==> #[trigger] scores@[i]
            == spec_penalty(spec_masked_cells(*m, i), m.size as int),
{
    let mut scores: Vec<u64> = Vec::new();
    let mut id: u8 = 0;
    while id < 8
        invariant
            m.wf(),
            m.resolved(),
            id <= 8,
            scores@.len() == id,
            forall|i: int| 0 <= i < id ==> #[trigger] scores@[i]
                == spec_penalty(spec_masked_cells(*m, i), m.size as int),
        decreases 8 - id,
    {
        let cand = apply_mask(m, id);
        scores.push(penalty(&cand));
        id += 1;
    }
    scores
}

/// Choose the mask with the lowest total penalty, ties broken by the
/// lowest mask id, and return the winning masked matrix with its id: the
/// id minimizes the given scores (strictly below every lower id), and the
/// matrix is exactly the input with that mask applied to the data modules.
pub fn select_mask(m: &Matrix, scores: &Vec<u64>) -> (r: (Matrix, u8))
    requires
        m.wf(),
        m.resolved(),
        scores@.len() == 8,
    ensures
        r.0.wf(),
        r.0.resolved(),
        r.0.size == m.size,
        r.0.func@ == m.func@,
        r.1 < 8,
        forall|i: int| 0 <= i < 8 ==> scores@[r.1 as int] <= #[trigger] scores@[i],
        forall|i: int| 0 <= i < r.1 as int ==> scores@[r.1 as int] < #[trigger] scores@[i],
        forall|rr: int, cc: int| 0 <= rr < m.size && 0 <= cc < m.size ==>
            #[trigger] r.0.spec_dark(rr, cc) == if m.spec_func(rr, cc) {
                m.spec_dark(rr, cc)
            } else {
                m.spec_dark(rr, cc) != spec_mask_bit(r.1 as int, rr, cc)
            },
{
    let mut best: u8 = 0;
    let mut best_score: u64 = scores[0];
    let mut id: u8 = 1;
    while id < 8
        invariant
            best < id,
            1 <= id <= 8,
            scores@.len() == 8,
            best_score == scores@[best as int],
            forall|j: int| 0 <= j < id ==> best_score <= #[trigger] scores@[j],
            forall|j: int| 0 <= j < best ==> best_score < #[trigger] scores@[j],
        decreases 8 - id,
    {
        if scores[id as usize] < best_score {
            best = id;
            best_score = scores[id as usize];
        }
        id += 1;
    }
    let winner = apply_mask(m, best);
    (winner, best)
}

/// BCH remainder step: reduce k more bit positions of r against the
/// generator g aligned at bit position pos.
pub open spec fn spec_bch_reduce(r: u32, k: nat, pos: nat, g: u32) -> u32
    decreases k,
{
    if k == 0 {
        r
    } else {
        let kk = (k - 1) as nat;
        let r2 = if (r >> ((pos + kk) as u32)) & 1 == 1 {
            r ^ (g << (kk as u32))
        } else {
            r
        };
        spec_bch_reduce(r2, kk, pos, g)
    }
}

fn bch_reduce(r: u32, k: usize, pos: u32, g: u32) -> (res: u32)
    requires
        k <= 8,
        pos + k <= 31,
    ensures
        res == spec_bch_reduce(r, k as nat, pos as nat, g),
    decreases k,
{
    if k == 0 {
        r
    } else {
        let kk = k - 1;
        let r2 = if (r >> (pos + kk as u32)) & 1 == 1 {
            r ^ (g << (kk as u32))
        } else {
            r
        };
        bch_reduce(r2, kk, pos, g)
    }
}

/// The two format bits of an error-correction level.
pub open spec fn spec_ec_bits(ec: EcLevel) -> int {
    match ec {
        EcLevel::Low => 1,
        EcLevel::Medium => 0,
        EcLevel::Quartile => 3,
        EcLevel::High => 2,
    }
}

/// The 15 format information bits: 2 level bits and 3 mask bits, their
/// 10-bit BCH remainder under generator 0x537, all XORed with the fixed
/// pattern 0x5412.
pub open spec fn spec_format_bits(ec: EcLevel, mask: int) -> u32 {
    let d = (spec_ec_bits(ec) * 8 + mask) as u32;
    let shifted = d << 10u32;
    (shifted | spec_bch_reduce(shifted, 5, 10, 0x537)) ^ 0x5412
}

pub fn format_bits(ec: EcLevel, mask: u8) -> (r: u32)
    requires
        mask < 8,
    ensures
        r == spec_format_bits(ec, mask as int),
{
    let eb: u32 = match ec {
        EcLevel::Low => 1,
        EcLevel::Medium => 0,
        EcLevel::Quartile => 3,
        EcLevel::High => 2,
    };
    let d: u32 = eb * 8 + mask as u32;
    let shifted = d << 10u32;
    let rem = bch_reduce(shifted, 5, 10, 0x537);
    (shifted | rem) ^ 0x5412
}

/// The 18 version information bits (versions 7 and up): the 6 version
/// bits and their 12-bit BCH remainder under generator 0x1F25.
pub open spec fn spec_version_bits(v: int) -> u32 {
    let shifted = (v as u32) << 12u32;
    shifted | spec_bch_reduce(shifted, 6, 12, 0x1F25)
}

pub fn version_bits(version: u8) -> (r: u32)
    requires
        7 <= version <= 40,
    ensures
        r == spec_version_bits(version as int),
{
    let shifted = (version as u32) << 12u32;
    let rem = bch_reduce(shifted, 6, 12, 0x1F25);
    shifted | rem
}

/// Flat positions are injective in (row, column).
proof fn lemma_idx_inj(size: int, r1: int, c1: int, r2: int, c2: int)
    requires
        0 <= c1 < size,
        0 <= c2 < size,
        0 <= r1,
        0 <= r2,
        r1 * size + c1 == r2 * size + c2,
    ensures
        r1 == r2 && c1 == c2,
{
    assert(r1 == r2 && c1 == c2) by (nonlinear_arith)
        requires
            0 <= c1 < size,
            0 <= c2 < size,
            0 <= r1,
            0 <= r2,
            r1 * size + c1 == r2 * size + c2;
}

/// The format-information bit a cell carries, or -1 for every other cell.
/// One copy surrounds the top-left finder; the second is split between
/// the other two finders.
pub open spec fn spec_format_bit_at(size: int, r: int, c: int) -> int {
    if c == 8 && 0 <= r <= 5 { r }
    else if r == 7 && c == 8 { 6 }
    else if r == 8 && c == 8 { 7 }
    else if r == 8 && c == 7 { 8 }
    else if r == 8 && 0 <= c <= 5 { 14 - c }
    else if r == 8 && size - 8 <= c <= size - 1 { size - 1 - c }
    else if c == 8 && size - 7 <= r <= size - 1 { r - (size - 15) }
    else { -1 }
}

/// Write both copies of the format information into the reserved cells:
/// each cell that carries a format bit becomes dark exactly when that bit
/// of `spec_format_bits(ec, mask)` is set and is marked mask-exempt;
/// every other cell, and its function flag, is untouched.
#[verifier::rlimit(100)]
pub fn write_format(m: &mut Matrix, ec: EcLevel, mask: u8)
    requires
        old(m).wf(),
        old(m).resolved(),
        mask < 8,
    ensures
        final(m).wf(),
        final(m).resolved(),
        final(m).size == old(m).size,
        forall|r: int, c: int|
            #![trigger final(m).cells@[r * old(m).size + c]]
            0 <= r < old(m).size && 0 <= c < old(m).size ==> {
            let b = spec_format_bit_at(old(m).size as int, r, c);
            let i = r * old(m).size + c;
            &&& (b >= 0 ==> final(m).cells@[i] == (
                    if (spec_format_bits(ec, mask as int) >> (b as u32)) & 1 == 1 { 2u8 }
                    else { 1u8 })
                && final(m).func@[i])
            &&& (b < 0 ==> final(m).cells@[i] == old(m).cells@[i]
                && final(m).func@[i] == old(m).func@[i])
        },
{
    let f = format_bits(ec, mask);
    let size = m.size;
    let ghost sz = size as int;
    let mut t: usize = 0;
    while t < 15
        invariant
            m.wf(),
            m.resolved(),
            m.size == size,
            sz == size as int,
            21 <= size <= 177,
            t <= 15,
            f == spec_format_bits(ec, mask as int),
            forall|r: int, c: int|
                #![trigger m.cells@[r * sz + c]]
                0 <= r < sz && 0 <= c < sz ==> {
                let b = spec_format_bit_at(sz, r, c);
                let i = r * sz + c;
                &&& (0 <= b < t ==> m.cells@[i] == (
                        if (f >> (b as u32)) & 1 == 1 { 2u8 } else { 1u8 })
                    && m.func@[i])
                &&& ((b < 0 || b >= t) ==> m.cells@[i] == old(m).cells@[i]
                    && m.func@[i] == old(m).func@[i])
            },
        decreases 15 - t,
    {
        let dark = (f >> (t as u32)) & 1 == 1;
        // first copy, around the top-left finder
        let (r1, c1): (usize, usize) = if t <= 5 { (t, 8) }
            else if t == 6 { (7, 8) }
            else if t == 7 { (8, 8) }
            else if t == 8 { (8, 7) }
            else { (8, 14 - t) };
        // second copy, split between the other two finders
        let (r2, c2): (usize, usize) = if t <= 7 { (8, size - 1 - t) }
            else { (size - 15 + t, 8) };
        let ghost m1 = *m;
        m.set_func_module(r1, c1, dark);
        let ghost m2 = *m;
        m.set_func_module(r2, c2, dark);
        proof {
            let v: u8 = if dark { 2u8 } else { 1u8 };
            assert(m1.size == size && m2.size == size);
            assert(m2.cells@ == m1.cells@.update(r1 as int * sz + c1, v));
            assert(m.cells@ == m2.cells@.update(r2 as int * sz + c2, v));
            assert(m2.func@ == m1.func@.update(r1 as int * sz + c1, true));
            assert(m.func@ == m2.func@.update(r2 as int * sz + c2, true));
            assert(spec_format_bit_at(sz, r1 as int, c1 as int) == t);
            assert(spec_format_bit_at(sz, r2 as int, c2 as int) == t);
            assert(!(r1 == r2 && c1 == c2));
            assert(0 <= r1 as int * sz + c1 < sz * sz) by (nonlinear_arith)
                requires
                    0 <= (r1 as int) && (r1 as int) < sz,
                    0 <= (c1 as int) && (c1 as int) < sz;
            assert(0 <= r2 as int * sz + c2 < sz * sz) by (nonlinear_arith)
                requires
                    0 <= (r2 as int) && (r2 as int) < sz,
                    0 <= (c2 as int) && (c2 as int) < sz;
            assert(r1 as int * sz + c1 != r2 as int * sz + c2) by {
                if r1 as int * sz + c1 == r2 as int * sz + c2 {
                    lemma_idx_inj(sz, r1 as int, c1 as int, r2 as int, c2 as int);
                }
            }
            assert forall|r: int, c: int|
                #![trigger m.cells@[r * sz + c]]
                0 <= r < sz && 0 <= c < sz implies {
                let b = spec_format_bit_at(sz, r, c);
                let i = r * sz + c;
                &&& (0 <= b < t + 1 ==> m.cells@[i] == (
                        if (f >> (b as u32)) & 1 == 1 { 2u8 } else { 1u8 })
                    && m.func@[i])
                &&& ((b < 0 || b >= t + 1) ==> m.cells@[i] == old(m).cells@[i]
                    && m.func@[i] == old(m).func@[i])
            } by {
                let b = spec_format_bit_at(sz, r, c);
                let i = r * sz + c;
                assert(0 <= r * sz + c < sz * sz) by (nonlinear_arith)
                    requires
                        0 <= r < sz,
                        0 <= c < sz;
                if r == r1 as int && c == c1 as int {
                    assert(b == t);
                    assert(m.cells@[i] == m2.cells@[i]);
                } else if r == r2 as int && c == c2 as int {
                    assert(b == t);
                } else {
                    assert(i != r1 as int * sz + c1 as int) by {
                        if i == r1 as int * sz + c1 as int {
                            lemma_idx_inj(sz, r, c, r1 as int, c1 as int);
                        }
                    }
                    assert(i != r2 as int * sz + c2 as int) by {
                        if i == r2 as int * sz + c2 as int {
                            lemma_idx_inj(sz, r, c, r2 as int, c2 as int);
                        }
                    }
                    assert(m.cells@[i] == m1.cells@[i] && m.func@[i] == m1.func@[i]);
                    assert(b != t);
                }
            }
        }
        t += 1;
    }
}

/// The version-information bit a cell carries, or -1 for every other
/// cell: a 6 x 3 block beside the top-right finder and its transpose
/// above the bottom-left finder.
pub open spec fn spec_version_bit_at(size: int, r: int, c: int) -> int {
    if 0 <= r <= 5 && size - 11 <= c <= size - 9 { 3 * r + (c - (size - 11)) }
    else if 0 <= c <= 5 && size - 11 <= r <= size - 9 { 3 * c + (r - (size - 11)) }
    else { -1 }
}

/// Write both copies of the version information (versions 7 and up):
/// each cell that carries a version bit becomes dark exactly when that
/// bit of `spec_version_bits(version)` is set and is marked mask-exempt;
/// every other cell, and its function flag, is untouched.
#[verifier::rlimit(100)]
pub fn write_version_info(m: &mut Matrix, version: u8)
    requires
        old(m).wf(),
        old(m).resolved(),
        7 <= version <= 40,
        old(m).size == 17 + 4 * version as int,
    ensures
        final(m).wf(),
        final(m).resolved(),
        final(m).size == old(m).size,
        forall|r: int, c: int|
            #![trigger final(m).cells@[r * old(m).size + c]]
            0 <= r < old(m).size && 0 <= c < old(m).size ==> {
            let b = spec_version_bit_at(old(m).size as int, r, c);
            let i = r * old(m).size + c;
            &&& (b >= 0 ==> final(m).cells@[i] == (
                    if (spec_version_bits(version as int) >> (b as u32)) & 1 == 1 { 2u8 }
                    else { 1u8 })
                && final(m).func@[i])
            &&& (b < 0 ==> final(m).cells@[i] == old(m).cells@[i]
                && final(m).func@[i] == old(m).func@[i])
        },
{
    let vb = version_bits(version);
    let size = m.size;
    let ghost sz = size as int;
    let mut t: usize = 0;
    while t < 18
        invariant
            m.wf(),
            m.resolved(),
            m.size == size,
            sz == size as int,
            45 <= size <= 177,
            t <= 18,
            vb == spec_version_bits(version as int),
            forall|r: int, c: int|
                #![trigger m.cells@[r * sz + c]]
                0 <= r < sz && 0 <= c < sz ==> {
                let b = spec_version_bit_at(sz, r, c);
                let i = r * sz + c;
                &&& (0 <= b < t ==> m.cells@[i] == (
                        if (vb >> (b as u32)) & 1 == 1 { 2u8 } else { 1u8 })
                    && m.func@[i])
                &&& ((b < 0 || b >= t) ==> m.cells@[i] == old(m).cells@[i]
                    && m.func@[i] == old(m).func@[i])
            },
        decreases 18 - t,
    {
        let dark = (vb >> (t as u32)) & 1 == 1;
        let r1: usize = t / 3;
        let c1: usize = size - 11 + t % 3;
        let r2: usize = size - 11 + t % 3;
        let c2: usize = t / 3;
        let ghost m1 = *m;
        m.set_func_module(r1, c1, dark);
        let ghost m2 = *m;
        m.set_func_module(r2, c2, dark);
        proof {
            let v: u8 = if dark { 2u8 } else { 1u8 };
            assert(m1.size == size && m2.size == size);
            assert(m2.cells@ == m1.cells@.update(r1 as int * sz + c1, v));
            assert(m.cells@ == m2.cells@.update(r2 as int * sz + c2, v));
            assert(m2.func@ == m1.func@.update(r1 as int * sz + c1, true));
            assert(m.func@ == m2.func@.update(r2 as int * sz + c2, true));
            assert(spec_version_bit_at(sz, r1 as int, c1 as int) == t);
            assert(spec_version_bit_at(sz, r2 as int, c2 as int) == t);
            assert(!(r1 == r2 && c1 == c2));
            assert(0 <= r1 as int * sz + c1 < sz * sz) by (nonlinear_arith)
                requires
                    0 <= (r1 as int) && (r1 as int) < sz,
                    0 <= (c1 as int) && (c1 as int) < sz;
            assert(0 <= r2 as int * sz + c2 < sz * sz) by (nonlinear_arith)
                requires
                    0 <= (r2 as int) && (r2 as int) < sz,
                    0 <= (c2 as int) && (c2 as int) < sz;
            assert(r1 as int * sz + c1 != r2 as int * sz + c2) by {
                if r1 as int * sz + c1 == r2 as int * sz + c2 {
                    lemma_idx_inj(sz, r1 as int, c1 as int, r2 as int, c2 as int);
                }
            }
            assert forall|r: int, c: int|
                #![trigger m.cells@[r * sz + c]]
                0 <= r < sz && 0 <= c < sz implies {
                let b = spec_version_bit_at(sz, r, c);
                let i = r * sz + c;
                &&& (0 <= b < t + 1 ==> m.cells@[i] == (
                        if (vb >> (b as u32)) & 1 == 1 { 2u8 } else { 1u8 })
                    && m.func@[i])
                &&& ((b < 0 || b >= t + 1) ==> m.cells@[i] == old(m).cells@[i]
                    && m.func@[i] == old(m).func@[i])
            } by {
                let b = spec_version_bit_at(sz, r, c);
                let i = r * sz + c;
                assert(0 <= r * sz + c < sz * sz) by (nonlinear_arith)
                    requires
                        0 <= r < sz,
                        0 <= c < sz;
                if r == r1 as int && c == c1 as int {
                    assert(b == t);
                    assert(m.cells@[i] == m2.cells@[i]);
                } else if r == r2 as int && c == c2 as int {
                    assert(b == t);
                } else {
                    assert(i != r1 as int * sz + c1 as int) by {
                        if i == r1 as int * sz + c1 as int {
                            lemma_idx_inj(sz, r, c, r1 as int, c1 as int);
                        }
                    }
                    assert(i != r2 as int * sz + c2 as int) by {
                        if i == r2 as int * sz + c2 as int {
                            lemma_idx_inj(sz, r, c, r2 as int, c2 as int);
                        }
                    }
                    assert(m.cells@[i] == m1.cells@[i] && m.func@[i] == m1.func@[i]);
                    assert(b != t);
                }
            }
        }
        t += 1;
    }
}

} // verus!
