//! Weight quantization: the integer side of storing weight matrices as
//! INT8/INT4 codes with one scale per row.
//!
//! Weights dominate both the memory footprint and the memory bandwidth that
//! bottlenecks CPU decoding. Storing them as INT8/INT4 codes with a per-row
//! scale shrinks the model about 2x/4x. A symmetric per-row scale is
//! `max|w_row| / qmax` and a weight's code is `round(w / scale)`; the forward
//! path dequantizes on the fly inside the mat-vec, `w ≈ code * scale`.
//!
//! This module holds the codes and the bit patterns of the `f32` scales. INT4
//! codes are packed two per byte: within a row, byte `j` holds the code of
//! column `2j` in its low four bits and that of column `2j + 1` in its high
//! four bits, each in 4-bit two's complement; a row of odd width pads its
//! last high half with zero.

use vstd::prelude::*;

verus! {

/// Quantization width.
#[derive(Debug, Clone, Copy, PartialEq, Eq, Structural)]
pub enum QuantBits {
    /// 8-bit signed, one value per byte.
    Int8,
    /// 4-bit signed, two values packed per byte.
    Int4,
}

impl QuantBits {
    /// The largest code magnitude a symmetric scale maps the row's largest
    /// weight to.
    pub open spec fn spec_qmax(self) -> int {
        match self {
            QuantBits::Int8 => 127,
            QuantBits::Int4 => 7,
        }
    }

    /// Whether `q` can be stored at this width.
    pub open spec fn holds(self, q: int) -> bool {
        match self {
            QuantBits::Int8 => -128 <= q <= 127,
            QuantBits::Int4 => -8 <= q <= 7,
        }
    }

    /// Bytes one row of `cols` codes takes.
    pub open spec fn spec_row_bytes(self, cols: int) -> int {
        match self {
            QuantBits::Int8 => cols,
            QuantBits::Int4 => (cols + 1) / 2,
        }
    }

    /// The largest code magnitude: 127 for INT8, 7 for INT4.
    pub fn qmax(self) -> (r: i8)
        ensures
            r == self.spec_qmax(),
    {
        match self {
            QuantBits::Int8 => 127,
            QuantBits::Int4 => 7,
        }
    }

    /// Bytes one row of `cols` codes takes at this width.
    pub fn row_bytes(self, cols: usize) -> (r: usize)
        ensures
            r == self.spec_row_bytes(cols as int),
    {
        match self {
            QuantBits::Int8 => cols,
            QuantBits::Int4 => cols / 2 + cols % 2,
        }
    }
}

/// The weight storage a model is loaded with.
#[derive(Debug, Clone, Copy, PartialEq, Eq, Structural)]
pub enum Quant {
    /// Dense `f32` weights.
    Dense,
    /// Row-wise INT8 codes.
    Int8,
    /// Row-wise INT4 codes.
    Int4,
}

impl Quant {
    /// The quantization width of this scheme, if it quantizes at all.
    pub open spec fn spec_bits(self) -> Option<QuantBits> {
        match self {
            Quant::Dense => None,
            Quant::Int8 => Some(QuantBits::Int8),
            Quant::Int4 => Some(QuantBits::Int4),
        }
    }

    /// Read a scheme from its command-line name: `none`, `int8` or `int4`.
    pub fn parse(s: &str) -> (r: Option<Quant>)
        ensures
            r == Some(Quant::Dense) <==> s@ == "none"@,
            r == Some(Quant::Int8) <==> s@ == "int8"@,
            r == Some(Quant::Int4) <==> s@ == "int4"@,
            r is None <==> (s@ != "none"@ && s@ != "int8"@ && s@ != "int4"@),
    {
        proof {
            reveal_strlit("none");
            reveal_strlit("int8");
            reveal_strlit("int4");
            assert("none"@[0] != "int8"@[0]);
            assert("none"@[0] != "int4"@[0]);
            assert("int8"@[3] != "int4"@[3]);
        }
        let owned = s.to_owned();
        if owned == String::from_str("none") {
            Some(Quant::Dense)
        } else if owned == String::from_str("int8") {
            Some(Quant::Int8)
        } else if owned == String::from_str("int4") {
            Some(Quant::Int4)
        } else {
            None
        }
    }

    /// The quantization width of this scheme, or `None` for dense weights.
    pub fn bits(self) -> (r: Option<QuantBits>)
        ensures
            r == self.spec_bits(),
            r is None <==> self == Quant::Dense,
            r matches Some(b) ==> b.spec_qmax() == (if self == Quant::Int8 { 127int } else { 7int }),
    {
        match self {
            Quant::Dense => None,
            Quant::Int8 => Some(QuantBits::Int8),
            Quant::Int4 => Some(QuantBits::Int4),
        }
    }
}

/// Each scheme quantizes at the width its name says: `none` keeps dense
/// weights, `int8` stores one byte per weight with codes up to 127, `int4`
/// two weights per byte with codes up to 7; no two schemes share a width.
pub proof fn lemma_scheme_widths(q: Quant, other: Quant, cols: int)
    requires
        cols >= 0,
    ensures
        q.spec_bits() is None <==> q == Quant::Dense,
        q == Quant::Int8 ==> q.spec_bits() is Some && q.spec_bits()->0.spec_qmax() == 127
            && q.spec_bits()->0.spec_row_bytes(cols) == cols,
        q == Quant::Int4 ==> q.spec_bits() is Some && q.spec_bits()->0.spec_qmax() == 7
            && q.spec_bits()->0.spec_row_bytes(cols) == (cols + 1) / 2,
        q != other ==> q.spec_bits() != other.spec_bits(),
{
}

/// The scheme each command-line name selects quantizes at the width that
/// name says.
pub proof fn lemma_named_scheme_widths(name: Seq<char>, q: Quant)
    requires
        name == "int8"@ ==> q == Quant::Int8,
        name == "int4"@ ==> q == Quant::Int4,
        name == "none"@ ==> q == Quant::Dense,
    ensures
        name == "int8"@ ==> q.spec_bits() == Some(QuantBits::Int8) && q.spec_bits()->0.spec_qmax() == 127,
        name == "int4"@ ==> q.spec_bits() == Some(QuantBits::Int4) && q.spec_bits()->0.spec_qmax() == 7,
        name == "none"@ ==> q.spec_bits() is None,
{
}

/// A byte read as unsigned, `0..=255`.
pub open spec fn byte_value(b: i8) -> int {
    if b < 0 {
        b + 256
    } else {
        b as int
    }
}

/// A 4-bit two's complement digit read as a signed value, `-8..=7`.
pub open spec fn signed_nibble(n: int) -> int {
    if n >= 8 {
        n - 16
    } else {
        n
    }
}

/// The code in the low four bits of a byte.
pub open spec fn low_nibble(b: i8) -> int {
    signed_nibble(byte_value(b) % 16)
}

/// The code in the high four bits of a byte.
pub open spec fn high_nibble(b: i8) -> int {
    signed_nibble(byte_value(b) / 16)
}

/// Two INT4 codes packed into one byte, `lo` in the low four bits.
pub open spec fn nibble_pair(lo: int, hi: int) -> int {
    let v = (if lo < 0 { lo + 16 } else { lo }) + 16 * (if hi < 0 { hi + 16 } else { hi });
    if v >= 128 {
        v - 256
    } else {
        v
    }
}

/// Packing two INT4 codes into a byte and unpacking that byte gives the two
/// codes back.
pub proof fn lemma_nibbles_round_trip(lo: int, hi: int)
    requires
        -8 <= lo <= 7,
        -8 <= hi <= 7,
    ensures
        -128 <= nibble_pair(lo, hi) <= 127,
        low_nibble(nibble_pair(lo, hi) as i8) == lo,
        high_nibble(nibble_pair(lo, hi) as i8) == hi,
{
    let a = if lo < 0 { lo + 16 } else { lo };
    let b = if hi < 0 { hi + 16 } else { hi };
    let v = a + 16 * b;
    assert(v % 16 == a && v / 16 == b) by (nonlinear_arith)
        requires
            0 <= a < 16,
            0 <= b < 16,
            v == a + 16 * b,
    ;
}

/// Pack two INT4 codes into one byte.
fn pack_nibbles(lo: i8, hi: i8) -> (r: i8)
    requires
        -8 <= lo <= 7,
        -8 <= hi <= 7,
    ensures
        r == nibble_pair(lo as int, hi as int),
{
    let a: i16 = if lo < 0 { lo as i16 + 16 } else { lo as i16 };
    let b: i16 = if hi < 0 { hi as i16 + 16 } else { hi as i16 };
    let v: i16 = a + 16 * b;
    if v >= 128 {
        (v - 256) as i8
    } else {
        v as i8
    }
}

/// The code in the low four bits of `b`.
fn unpack_low(b: i8) -> (r: i8)
    ensures
        r == low_nibble(b),
{
    let u: i16 = if b < 0 { b as i16 + 256 } else { b as i16 };
    let n: i16 = u % 16;
    if n >= 8 {
        (n - 16) as i8
    } else {
        n as i8
    }
}

/// The code in the high four bits of `b`.
fn unpack_high(b: i8) -> (r: i8)
    ensures
        r == high_nibble(b),
{
    let u: i16 = if b < 0 { b as i16 + 256 } else { b as i16 };
    let n: i16 = u / 16;
    if n >= 8 {
        (n - 16) as i8
    } else {
        n as i8
    }
}

/// Row `r`, column `c` of a `cols`-wide matrix lies inside it, at flat index
/// `r * cols + c`.
proof fn lemma_cell_index(r: int, c: int, rows: int, cols: int)
    requires
        0 <= r < rows,
        0 <= c < cols,
    ensures
        0 <= r * cols,
        r * cols + c < rows * cols,
        (r + 1) * cols == r * cols + cols,
{
    assert(r * cols + c < rows * cols) by (nonlinear_arith)
        requires
            0 <= r < rows,
            0 <= c < cols,
    ;
    assert((r + 1) * cols == r * cols + cols) by (nonlinear_arith);
    assert(0 <= r * cols) by (nonlinear_arith)
        requires
            0 <= r,
            0 <= c < cols,
    ;
}

/// A weight matrix stored as row-wise-quantized integer codes plus per-row
/// scales.
pub struct QuantMatrix {
    /// Packed codes (one `i8` each, or two 4-bit codes per byte for INT4),
    /// row after row.
    pub packed: Vec<i8>,
    /// Bit pattern of each output row's `f32` dequantization scale.
    pub scales: Vec<u32>,
    /// Output rows.
    pub rows: usize,
    /// Input columns.
    pub cols: usize,
    /// Width of the codes.
    pub bits: QuantBits,
}

impl QuantMatrix {
    /// The packed bytes and the scales have the lengths `rows`, `cols` and the
    /// width call for.
    pub open spec fn wf(&self) -> bool {
        &&& self.packed@.len() == self.rows * self.bits.spec_row_bytes(self.cols as int)
        &&& self.scales@.len() == self.rows
    }

    /// The code of the weight at row `r`, column `c`.
    pub open spec fn code_at(&self, r: int, c: int) -> int {
        match self.bits {
            QuantBits::Int8 => self.packed@[r * self.cols + c] as int,
            QuantBits::Int4 => {
                let b = self.packed@[r * self.bits.spec_row_bytes(self.cols as int) + c / 2];
                if c % 2 == 0 {
                    low_nibble(b)
                } else {
                    high_nibble(b)
                }
            },
        }
    }

    /// Store the `rows x cols` codes `codes` (row-major) with the given
    /// per-row scales, packing them at width `bits`.
    pub fn from_codes(codes: &[i8], scales: Vec<u32>, rows: usize, cols: usize, bits: QuantBits) -> (m:
        QuantMatrix)
        requires
            codes@.len() == rows * cols,
            scales@.len() == rows,
            forall|i: int| 0 <= i < codes@.len() ==> bits.holds(#[trigger] codes@[i] as int),
        ensures
            m.wf(),
            m.rows == rows,
            m.cols == cols,
            m.bits == bits,
            m.scales@ == scales@,
            forall|r: int, c: int| 0 <= r < rows && 0 <= c < cols ==> #[trigger] m.code_at(r, c) == codes@[r * cols + c],
            bits == QuantBits::Int4 && cols % 2 == 1 ==> forall|r: int| 0 <= r < rows ==>
                #[trigger] high_nibble(m.packed@[r * bits.spec_row_bytes(cols as int) + cols / 2]) == 0,
    {
        match bits {
            QuantBits::Int8 => {
                let packed = vstd::slice::slice_to_vec(codes);
                let m = QuantMatrix { packed, scales, rows, cols, bits };
                assert forall|r: int, c: int| 0 <= r < rows && 0 <= c < cols implies #[trigger] m.code_at(r, c)
                    == codes@[r * cols + c] by {
                    lemma_cell_index(r, c, rows as int, cols as int);
                }
                m
            },
            QuantBits::Int4 => {
                let rb = bits.row_bytes(cols);
                let n = codes.len();
                let mut packed: Vec<i8> = Vec::new();
                assert(0 * rb == 0);
                for r in 0..rows
                    invariant
                        n == codes@.len(),
                        rb == (cols + 1) / 2,
                        codes@.len() == rows * cols,
                        bits == QuantBits::Int4,
                        forall|i: int| 0 <= i < codes@.len() ==> bits.holds(#[trigger] codes@[i] as int),
                        packed@.len() == r * rb,
                        cols % 2 == 1 ==> forall|r2: int| 0 <= r2 < r ==> #[trigger] high_nibble(packed@[r2 * rb + cols / 2]) == 0,
                        forall|r2: int, c: int| 0 <= r2 < r && 0 <= c < cols ==> {
                            let b = #[trigger] packed@[r2 * rb + c / 2];
                            (if c % 2 == 0 { low_nibble(b) } else { high_nibble(b) }) == codes@[r2 * cols + c]
                        },
                {
                    proof {
                        lemma_row_bytes_fit(r as int, rows as int, cols as int, rb as int);
                    }
                    let base = r * cols;
                    let ghost start = packed@.len();
                    for j in 0..rb
                        invariant
                            n == codes@.len(),
                            rb == (cols + 1) / 2,
                            r < rows,
                            base == r * cols,
                            base + cols <= codes@.len(),
                            codes@.len() == rows * cols,
                            bits == QuantBits::Int4,
                            forall|i: int| 0 <= i < codes@.len() ==> bits.holds(#[trigger] codes@[i] as int),
                            start == r * rb,
                            packed@.len() == start + j,
                            cols % 2 == 1 ==> forall|r2: int| 0 <= r2 < r ==> #[trigger] high_nibble(packed@[r2 * rb + cols / 2]) == 0,
                            cols % 2 == 1 && cols / 2 < j ==> high_nibble(packed@[start + cols / 2]) == 0,
                            forall|r2: int, c: int| 0 <= r2 < r && 0 <= c < cols ==> {
                                let b = #[trigger] packed@[r2 * rb + c / 2];
                                (if c % 2 == 0 { low_nibble(b) } else { high_nibble(b) }) == codes@[r2 * cols + c]
                            },
                            forall|c: int| 0 <= c < cols && c / 2 < j ==> {
                                let b = #[trigger] packed@[start + c / 2];
                                (if c % 2 == 0 { low_nibble(b) } else { high_nibble(b) }) == codes@[base + c]
                            },
                    {
                        assert(2 * j < cols);
                        let lo = codes[base + 2 * j];
                        let hi = if 2 * j + 1 < cols { codes[base + 2 * j + 1] } else { 0 };
                        proof {
                            assert(bits.holds(codes@[base + 2 * j] as int));
                            if 2 * j + 1 < cols {
                                assert(bits.holds(codes@[base + 2 * j + 1] as int));
                            }
                            lemma_nibbles_round_trip(lo as int, hi as int);
                        }
                        let byte = pack_nibbles(lo, hi);
                        let ghost before = packed@;
                        packed.push(byte);
                        proof {
                            assert forall|r2: int, c: int| 0 <= r2 < r && 0 <= c < cols implies {
                                let b = #[trigger] packed@[r2 * rb + c / 2];
                                (if c % 2 == 0 { low_nibble(b) } else { high_nibble(b) }) == codes@[r2 * cols + c]
                            } by {
                                lemma_earlier_row_byte(r2, c, r as int, cols as int, rb as int);
                                assert(packed@[r2 * rb + c / 2] == before[r2 * rb + c / 2]);
                            }
                            if cols % 2 == 1 {
                                assert forall|r2: int| 0 <= r2 < r implies #[trigger] high_nibble(packed@[r2 * rb + cols / 2]) == 0 by {
                                    lemma_earlier_row_byte(r2, cols - 1, r as int, cols as int, rb as int);
                                    assert(packed@[r2 * rb + cols / 2] == before[r2 * rb + cols / 2]);
                                }
                                if cols / 2 < j {
                                    assert(packed@[start + cols / 2] == before[start + cols / 2]);
                                } else if cols / 2 == j {
                                    assert(packed@[start + cols / 2] == byte);
                                }
                            }
                            assert forall|c: int| 0 <= c < cols && c / 2 < j + 1 implies {
                                let b = #[trigger] packed@[start + c / 2];
                                (if c % 2 == 0 { low_nibble(b) } else { high_nibble(b) }) == codes@[base + c]
                            } by {
                                if c / 2 < j {
                                    assert(packed@[start + c / 2] == before[start + c / 2]);
                                } else {
                                    assert(c / 2 == j);
                                    assert(packed@[start + c / 2] == byte);
                                }
                            }
                        }
                    }
                    proof {
                        assert forall|r2: int, c: int| 0 <= r2 < r + 1 && 0 <= c < cols implies {
                            let b = #[trigger] packed@[r2 * rb + c / 2];
                            (if c % 2 == 0 { low_nibble(b) } else { high_nibble(b) }) == codes@[r2 * cols + c]
                        } by {
                            if r2 == r {
                                assert(c / 2 < rb);
                            }
                        }
                        assert((r + 1) * rb == r * rb + rb) by (nonlinear_arith);
                        if cols % 2 == 1 {
                            assert forall|r2: int| 0 <= r2 < r + 1 implies #[trigger] high_nibble(packed@[r2 * rb + cols / 2]) == 0 by {
                                if r2 == r {
                                    assert(cols / 2 < rb);
                                }
                            }
                        }
                    }
                }
                QuantMatrix { packed, scales, rows, cols, bits }
            },
        }
    }

    /// Bytes the matrix occupies: its packed codes plus four bytes for each
    /// row's `f32` scale.
    pub fn byte_size(&self) -> (r: usize)
        requires
            self.packed@.len() + 4 * self.scales@.len() <= usize::MAX,
        ensures
            r == self.packed@.len() + 4 * self.scales@.len(),
    {
        self.packed.len() + 4 * self.scales.len()
    }

    /// The codes of row `r`, one per column.
    pub fn row_codes(&self, r: usize) -> (v: Vec<i8>)
        requires
            self.wf(),
            r < self.rows,
        ensures
            v@.len() == self.cols,
            forall|c: int| 0 <= c < self.cols ==> #[trigger] v@[c] as int == self.code_at(r as int, c),
    {
        let cols = self.cols;
        let rb = self.bits.row_bytes(cols);
        let plen = self.packed.len();
        proof {
            lemma_row_bytes_fit(r as int, self.rows as int, cols as int, rb as int);
        }
        let mut v: Vec<i8> = Vec::new();
        match self.bits {
            QuantBits::Int8 => {
                let base = r * cols;
                for c in 0..cols
                    invariant
                        self.wf(),
                        self.bits == QuantBits::Int8,
                        plen == self.packed@.len(),
                        cols == self.cols,
                        r < self.rows,
                        base == r * cols,
                        base + cols <= self.packed@.len(),
                        v@.len() == c,
                        forall|k: int| 0 <= k < c ==> #[trigger] v@[k] as int == self.code_at(r as int, k),
                {
                    v.push(self.packed[base + c]);
                }
            },
            QuantBits::Int4 => {
                let base = r * rb;
                for c in 0..cols
                    invariant
                        self.wf(),
                        self.bits == QuantBits::Int4,
                        plen == self.packed@.len(),
                        cols == self.cols,
                        rb == (cols + 1) / 2,
                        r < self.rows,
                        base == r * rb,
                        base + rb <= self.packed@.len(),
                        v@.len() == c,
                        forall|k: int| 0 <= k < c ==> #[trigger] v@[k] as int == self.code_at(r as int, k),
                {
                    let b = self.packed[base + c / 2];
                    if c % 2 == 0 {
                        v.push(unpack_low(b));
                    } else {
                        v.push(unpack_high(b));
                    }
                }
            },
        }
        v
    }
}

/// Reading back a row of a matrix packed from `codes` gives that row of
/// `codes`: what `row_codes` returns of a matrix that `from_codes` built is
/// the slice of the codes it was given.
pub proof fn lemma_codes_read_back(m: QuantMatrix, codes: Seq<i8>, r: int)
    requires
        m.wf(),
        codes.len() == m.rows * m.cols,
        0 <= r < m.rows,
        forall|r2: int, c: int| 0 <= r2 < m.rows && 0 <= c < m.cols ==> #[trigger] m.code_at(r2, c) == codes[r2 * m.cols + c],
    ensures
        Seq::new(m.cols as nat, |c: int| m.code_at(r, c) as i8) == codes.subrange(r * m.cols, r * m.cols + m.cols),
{
    lemma_row_bytes_fit(r, m.rows as int, m.cols as int, m.cols as int);
    let row = Seq::new(m.cols as nat, |c: int| m.code_at(r, c) as i8);
    assert forall|c: int| 0 <= c < m.cols implies #[trigger] row[c] == codes.subrange(r * m.cols, r * m.cols + m.cols)[c] by {
        assert(m.code_at(r, c) == codes[r * m.cols + c]);
    }
    assert(Seq::new(m.cols as nat, |c: int| m.code_at(r, c) as i8) =~= codes.subrange(r * m.cols, r * m.cols + m.cols));
}

/// Row `r` of `rows` rows, `rb` bytes or `cols` codes each, ends within
/// the whole matrix.
proof fn lemma_row_bytes_fit(r: int, rows: int, cols: int, rb: int)
    requires
        0 <= r < rows,
        0 <= cols,
        0 <= rb,
    ensures
        r * rb + rb <= rows * rb,
        0 <= r * rb,
        r * cols + cols <= rows * cols,
{
    assert(r * rb + rb <= rows * rb) by (nonlinear_arith)
        requires
            0 <= r < rows,
            0 <= rb,
    ;
    assert(0 <= r * rb) by (nonlinear_arith)
        requires
            0 <= r,
            0 <= rb,
    ;
    assert(r * cols + cols <= rows * cols) by (nonlinear_arith)
        requires
            0 <= r < rows,
            0 <= cols,
    ;
}

/// A byte of an earlier row sits before the row being packed.
proof fn lemma_earlier_row_byte(r2: int, c: int, r: int, cols: int, rb: int)
    requires
        0 <= r2 < r,
        0 <= c < cols,
        rb == (cols + 1) / 2,
    ensures
        0 <= r2 * rb + c / 2 < r * rb,
{
    assert(c / 2 < rb);
    assert(r2 * rb + rb <= r * rb) by (nonlinear_arith)
        requires
            0 <= r2 < r,
            0 <= rb,
    ;
    assert(0 <= r2 * rb) by (nonlinear_arith)
        requires
            0 <= r2,
            0 <= rb,
    ;
}

} // verus!
