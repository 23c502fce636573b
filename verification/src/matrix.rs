//! Module matrix: an N x N grid of tri-state cells (empty, light, dark)
//! with a parallel function-pattern map. The builder stamps the finder,
//! separator, timing and alignment patterns, reserves the format and
//! version information areas, and writes the codeword bits along the
//! two-column zig-zag traversal.

use vstd::prelude::*;
use crate::bits::push_bits;
use crate::tables::{spec_side_len, spec_total_codewords, side_len, align_coords};

verus! {

/// How many of the first n cells are dark.
pub open spec fn spec_dark_count(cells: Seq<u8>, n: int) -> int
    decreases n,
{
    if n <= 0 {
        0
    } else {
        spec_dark_count(cells, n - 1) + (if cells[n - 1] == 2 { 1int } else { 0 })
    }
}

/// An N x N grid of cells plus a map of which cells belong to function
/// patterns or reserved information areas (and are therefore mask-exempt).
/// A cell holds 0 while reserved but unwritten, 1 for light, 2 for dark.
pub struct Matrix {
    pub size: usize,
    pub cells: Vec<u8>,
    pub func: Vec<bool>,
}

impl Matrix {
    /// Both grids are square of the same side, and every cell holds one of
    /// the three cell values.
    pub open spec fn wf(self) -> bool {
        21 <= self.size <= 177
        && self.cells@.len() == self.size * self.size
        && self.func@.len() == self.size * self.size
        && forall|i: int| 0 <= i < self.cells@.len() ==> #[trigger] self.cells@[i] <= 2
    }

    pub open spec fn spec_idx(self, r: int, c: int) -> int {
        r * self.size + c
    }

    /// The cell at (r, c) is dark.
    pub open spec fn spec_dark(self, r: int, c: int) -> bool {
        self.cells@[self.spec_idx(r, c)] == 2
    }

    /// The cell at (r, c) belongs to a function pattern or reserved area.
    pub open spec fn spec_func(self, r: int, c: int) -> bool {
        self.func@[self.spec_idx(r, c)]
    }

    /// No cell is left unwritten.
    pub open spec fn resolved(self) -> bool {
        forall|i: int| 0 <= i < self.cells@.len() ==> 1 <= #[trigger] self.cells@[i] <= 2
    }

    proof fn lemma_idx_bound(self, r: int, c: int)
        requires
            self.wf(),
            0 <= r < self.size,
            0 <= c < self.size,
        ensures
            0 <= self.spec_idx(r, c) < self.size * self.size,
            self.spec_idx(r, c) <= 31329,
    {
        assert(r * self.size + c < self.size * self.size && self.size * self.size <= 31329)
            by (nonlinear_arith)
            requires
                0 <= r < self.size as int,
                0 <= c < self.size as int,
                self.size <= 177;
    }

    /// A fresh all-empty grid with no function cells.
    pub fn new_empty(size: usize) -> (m: Matrix)
        requires
            21 <= size <= 177,
        ensures
            m.wf(),
            m.size == size,
            forall|i: int| 0 <= i < m.cells@.len() ==> #[trigger] m.cells@[i] == 0,
            forall|i: int| 0 <= i < m.func@.len() ==> !(#[trigger] m.func@[i]),
    {
        proof {
            assert(size * size <= 31329) by (nonlinear_arith)
                requires size <= 177;
        }
        let n = size * size;
        let mut cells: Vec<u8> = Vec::new();
        let mut func: Vec<bool> = Vec::new();
        let mut i: usize = 0;
        while i < n
            invariant
                i <= n,
                cells@.len() == i,
                func@.len() == i,
                forall|j: int| 0 <= j < i ==> #[trigger] cells@[j] == 0,
                forall|j: int| 0 <= j < i ==> !(#[trigger] func@[j]),
            decreases n - i,
        {
            cells.push(0);
            func.push(false);
            i += 1;
        }
        Matrix { size, cells, func }
    }

    /// Read the cell at (r, c).
    pub fn get(&self, r: usize, c: usize) -> (v: u8)
        requires
            self.wf(),
            r < self.size,
            c < self.size,
        ensures
            v == self.cells@[self.spec_idx(r as int, c as int)],
            v <= 2,
    {
        proof {
            self.lemma_idx_bound(r as int, c as int);
        }
        self.cells[r * self.size + c]
    }

    /// Whether (r, c) is a function-pattern or reserved cell.
    pub fn is_func(&self, r: usize, c: usize) -> (v: bool)
        requires
            self.wf(),
            r < self.size,
            c < self.size,
        ensures
            v == self.spec_func(r as int, c as int),
    {
        proof {
            self.lemma_idx_bound(r as int, c as int);
        }
        self.func[r * self.size + c]
    }

    /// Write a function-pattern module and mark it mask-exempt.
    pub fn set_func_module(&mut self, r: usize, c: usize, dark: bool)
        requires
            old(self).wf(),
            r < old(self).size,
            c < old(self).size,
        ensures
            final(self).wf(),
            final(self).size == old(self).size,
            final(self).cells@ == old(self).cells@.update(
                old(self).spec_idx(r as int, c as int), if dark { 2u8 } else { 1u8 }),
            final(self).func@ == old(self).func@.update(
                old(self).spec_idx(r as int, c as int), true),
            old(self).resolved() ==> final(self).resolved(),
    {
        proof {
            old(self).lemma_idx_bound(r as int, c as int);
        }
        let i = r * self.size + c;
        self.cells.set(i, if dark { 2 } else { 1 });
        self.func.set(i, true);
    }

    /// Write a data module; the function map is untouched.
    pub fn set_data_module(&mut self, r: usize, c: usize, dark: bool)
        requires
            old(self).wf(),
            r < old(self).size,
            c < old(self).size,
        ensures
            final(self).wf(),
            final(self).size == old(self).size,
            final(self).cells@ == old(self).cells@.update(
                old(self).spec_idx(r as int, c as int), if dark { 2u8 } else { 1u8 }),
            final(self).func@ == old(self).func@,
            old(self).resolved() ==> final(self).resolved(),
    {
        proof {
            old(self).lemma_idx_bound(r as int, c as int);
        }
        let i = r * self.size + c;
        self.cells.set(i, if dark { 2 } else { 1 });
    }

    /// True exactly when no cell is left empty.
    pub fn check_resolved(&self) -> (r: bool)
        requires
            self.wf(),
        ensures
            r == self.resolved(),
    {
        let n = self.cells.len();
        let mut i: usize = 0;
        while i < n
            invariant
                i <= n,
                n == self.cells@.len(),
                self.wf(),
                forall|j: int| 0 <= j < i ==> 1 <= #[trigger] self.cells@[j] <= 2,
            decreases n - i,
        {
            if self.cells[i] == 0 {
                return false;
            }
            i += 1;
        }
        true
    }

    /// Resolve every still-empty cell to light.
    pub fn fill_unset(&mut self)
        requires
            old(self).wf(),
        ensures
            final(self).wf(),
            final(self).resolved(),
            final(self).size == old(self).size,
            final(self).func@ == old(self).func@,
    {
        let n = self.cells.len();
        let mut i: usize = 0;
        while i < n
            invariant
                i <= n,
                n == self.cells@.len(),
                self.wf(),
                self.size == old(self).size,
                self.func@ == old(self).func@,
                forall|j: int| 0 <= j < i ==> 1 <= #[trigger] self.cells@[j] <= 2,
            decreases n - i,
        {
            if self.cells[i] == 0 {
                self.cells.set(i, 1);
            }
            i += 1;
        }
    }

    /// Count of dark modules.
    pub fn count_dark(&self) -> (r: usize)
        requires
            self.wf(),
        ensures
            r == spec_dark_count(self.cells@, self.cells@.len() as int),
            r <= self.cells@.len(),
    {
        let n = self.cells.len();
        let mut count: usize = 0;
        let mut i: usize = 0;
        while i < n
            invariant
                i <= n,
                n == self.cells@.len(),
                count <= i,
                count == spec_dark_count(self.cells@, i as int),
            decreases n - i,
        {
            if self.cells[i] == 2 {
                count += 1;
            }
            i += 1;
        }
        count
    }
}

/// Stamp a 7 x 7 finder pattern whose top-left corner is (r0, c0).
fn stamp_finder(m: &mut Matrix, r0: usize, c0: usize)
    requires
        old(m).wf(),
        r0 + 7 <= old(m).size,
        c0 + 7 <= old(m).size,
    ensures
        final(m).wf(),
        final(m).size == old(m).size,
{
    let mut dr: usize = 0;
    while dr < 7
        invariant
            m.wf(),
            m.size == old(m).size,
            r0 + 7 <= m.size,
            c0 + 7 <= m.size,
        decreases 7 - dr,
    {
        let mut dc: usize = 0;
        while dc < 7
            invariant
                m.wf(),
                m.size == old(m).size,
                r0 + 7 <= m.size,
                c0 + 7 <= m.size,
                dr < 7,
            decreases 7 - dc,
        {
            let dark = dr == 0 || dr == 6 || dc == 0 || dc == 6
                || (2 <= dr && dr <= 4 && 2 <= dc && dc <= 4);
            m.set_func_module(r0 + dr, c0 + dc, dark);
            dc += 1;
        }
        dr += 1;
    }
}

/// Stamp a 5 x 5 alignment pattern centered at (r, c).
fn stamp_alignment(m: &mut Matrix, r: usize, c: usize)
    requires
        old(m).wf(),
        2 <= r,
        r + 3 <= old(m).size,
        2 <= c,
        c + 3 <= old(m).size,
    ensures
        final(m).wf(),
        final(m).size == old(m).size,
{
    let mut dr: usize = 0;
    while dr < 5
        invariant
            m.wf(),
            m.size == old(m).size,
            2 <= r && r + 3 <= m.size,
            2 <= c && c + 3 <= m.size,
        decreases 5 - dr,
    {
        let mut dc: usize = 0;
        while dc < 5
            invariant
                m.wf(),
                m.size == old(m).size,
                2 <= r && r + 3 <= m.size,
                2 <= c && c + 3 <= m.size,
                dr < 5,
            decreases 5 - dc,
        {
            let dark = dr == 0 || dr == 4 || dc == 0 || dc == 4 || (dr == 2 && dc == 2);
            m.set_func_module(r - 2 + dr, c - 2 + dc, dark);
            dc += 1;
        }
        dr += 1;
    }
}

/// Place all fixed function patterns and reserve the format and version
/// information areas (with light placeholders, finalized after masking).
fn place_function_patterns(version: u8) -> (m: Matrix)
    requires
        1 <= version <= 40,
    ensures
        m.wf(),
        m.size == spec_side_len(version as int),
{
    let size = side_len(version);
    let mut m = Matrix::new_empty(size);
    // finder patterns at three corners
    stamp_finder(&mut m, 0, 0);
    stamp_finder(&mut m, 0, size - 7);
    stamp_finder(&mut m, size - 7, 0);
    // separators: one-module light border between each finder and the rest
    let mut i: usize = 0;
    while i < 8
        invariant
            m.wf(),
            m.size == size,
            21 <= size <= 177,
        decreases 8 - i,
    {
        m.set_func_module(7, i, false);
        m.set_func_module(i, 7, false);
        m.set_func_module(7, size - 1 - i, false);
        m.set_func_module(i, size - 8, false);
        m.set_func_module(size - 8, i, false);
        m.set_func_module(size - 1 - i, 7, false);
        i += 1;
    }
    // timing patterns along row 6 and column 6
    let mut t: usize = 8;
    while t < size - 8
        invariant
            m.wf(),
            m.size == size,
            21 <= size <= 177,
        decreases size - 8 - t,
    {
        m.set_func_module(6, t, t % 2 == 0);
        m.set_func_module(t, 6, t % 2 == 0);
        t += 1;
    }
    // alignment patterns, skipping the three that would overlap the finders
    let coords = align_coords(version);
    let mut a: usize = 0;
    while a < coords.len()
        invariant
            m.wf(),
            m.size == size,
            size == spec_side_len(version as int),
            21 <= size <= 177,
            coords@.len() <= 7,
            forall|q: int| 0 <= q < coords@.len()
                ==> 6 <= #[trigger] coords@[q] as int <= size - 7,
        decreases coords@.len() - a,
    {
        let ra = coords[a];
        let mut b: usize = 0;
        while b < coords.len()
            invariant
                m.wf(),
                m.size == size,
                21 <= size <= 177,
                coords@.len() <= 7,
                a < coords@.len(),
                ra == coords@[a as int],
                6 <= ra as int <= size - 7,
                forall|q: int| 0 <= q < coords@.len()
                    ==> 6 <= #[trigger] coords@[q] as int <= size - 7,
            decreases coords@.len() - b,
        {
            let cb = coords[b];
            let overlap = (ra == 6 && cb == 6)
                || (ra == 6 && cb as usize + 7 == size)
                || (ra as usize + 7 == size && cb == 6);
            if !overlap {
                stamp_alignment(&mut m, ra as usize, cb as usize);
            }
            b += 1;
        }
        a += 1;
    }
    // the one module that is always dark
    m.set_func_module(size - 8, 8, true);
    // reserve the two format information areas
    let mut f: usize = 0;
    while f < 6
        invariant
            m.wf(),
            m.size == size,
            21 <= size <= 177,
        decreases 6 - f,
    {
        m.set_func_module(8, f, false);
        m.set_func_module(f, 8, false);
        f += 1;
    }
    m.set_func_module(8, 7, false);
    m.set_func_module(8, 8, false);
    m.set_func_module(7, 8, false);
    let mut f2: usize = 0;
    while f2 < 8
        invariant
            m.wf(),
            m.size == size,
            21 <= size <= 177,
        decreases 8 - f2,
    {
        m.set_func_module(8, size - 8 + f2, false);
        f2 += 1;
    }
    let mut f3: usize = 0;
    while f3 < 7
        invariant
            m.wf(),
            m.size == size,
            21 <= size <= 177,
        decreases 7 - f3,
    {
        m.set_func_module(size - 7 + f3, 8, false);
        f3 += 1;
    }
    // reserve the version information areas (versions 7 and up)
    if version >= 7 {
        let mut vi: usize = 0;
        while vi < 18
            invariant
                m.wf(),
                m.size == size,
                21 <= size <= 177,
            decreases 18 - vi,
        {
            m.set_func_module(vi / 3, size - 11 + vi % 3, false);
            m.set_func_module(size - 11 + vi % 3, vi / 3, false);
            vi += 1;
        }
    }
    m
}

/// Write the codeword bits into the data modules along the standard
/// zig-zag traversal: column pairs from the right edge, alternating
/// vertical direction, skipping the timing column and every function cell.
/// Modules left over once the bits are exhausted are set light.
fn place_data(m: &mut Matrix, bits: &Vec<bool>)
    requires
        old(m).wf(),
        old(m).size % 2 == 1,
    ensures
        final(m).wf(),
        final(m).size == old(m).size,
{
    let size = m.size;
    let mut bit_idx: usize = 0;
    let mut upward = true;
    let mut right: usize = size - 1;
    loop
        invariant
            m.wf(),
            m.size == size,
            21 <= size <= 177,
            1 <= right < size,
            (right >= 7 && right % 2 == 0) || (right <= 5 && right % 2 == 1),
            bit_idx <= bits@.len(),
        decreases right,
    {
        let mut rr: usize = 0;
        while rr < size
            invariant
                m.wf(),
                m.size == size,
                21 <= size <= 177,
                1 <= right < size,
                rr <= size,
                bit_idx <= bits@.len(),
            decreases size - rr,
        {
            let r = if upward { size - 1 - rr } else { rr };
            let mut d: usize = 0;
            while d < 2
                invariant
                    m.wf(),
                    m.size == size,
                    21 <= size <= 177,
                    1 <= right < size,
                    r < size,
                    d <= 2,
                    bit_idx <= bits@.len(),
                decreases 2 - d,
            {
                let c = right - d;
                if !m.is_func(r, c) && m.get(r, c) == 0 {
                    let dark = if bit_idx < bits.len() {
                        let b = bits[bit_idx];
                        bit_idx += 1;
                        b
                    } else {
                        false
                    };
                    m.set_data_module(r, c, dark);
                }
                d += 1;
            }
            rr += 1;
        }
        upward = !upward;
        if right == 1 {
            break;
        }
        right -= 2;
        if right == 6 {
            right = 5;
        }
    }
}

/// Build the module matrix for a version from its final codeword stream:
/// function patterns, reserved areas, then the codeword bits along the
/// zig-zag traversal. Every cell ends resolved to dark or light: the
/// modules past the last codeword bit are light, as are any cells the
/// traversal leaves unwritten.
pub fn build_matrix(version: u8, codewords: &Vec<u8>) -> (m: Matrix)
    requires
        1 <= version <= 40,
        codewords@.len() == spec_total_codewords(version as int),
    ensures
        m.wf(),
        m.resolved(),
        m.size == spec_side_len(version as int),
{
    let mut m = place_function_patterns(version);
    // expand the codewords into bits, most significant first
    let mut bits: Vec<bool> = Vec::new();
    let mut i: usize = 0;
    while i < codewords.len()
        invariant
            i <= codewords@.len(),
            bits@.len() == 8 * i,
        decreases codewords@.len() - i,
    {
        proof {
            crate::bits::lemma_pow2_values();
        }
        push_bits(&mut bits, codewords[i] as u32, 8);
        proof {
            crate::bits::lemma_bits_of_len(codewords@[i as int] as int, 8);
        }
        i += 1;
    }
    place_data(&mut m, &bits);
    m.fill_unset();
    m
}

} // verus!
