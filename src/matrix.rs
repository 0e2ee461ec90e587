//! The 64x64 mixing matrix, held row-major, and its 8192-byte wire form.
use vstd::prelude::*;
use crate::error::PowError;

verus! {

/// Number of cells.
pub const CELLS: usize = 4096;

/// Length of the serialized matrix: two little-endian bytes per cell.
pub const MATRIX_BYTES: usize = 8192;

/// A 64x64 matrix of 16-bit cells, row-major: cell `(i, j)` is `cells[64 * i + j]`.
pub struct Matrix {
    pub cells: Vec<u16>,
}

impl View for Matrix {
    type V = Seq<u16>;

    open spec fn view(&self) -> Seq<u16> {
        self.cells@
    }
}

impl Matrix {
    pub open spec fn wf(&self) -> bool {
        self.cells@.len() == CELLS
    }
}

/// The little-endian encoding of a sequence of 16-bit cells.
pub open spec fn cells_to_bytes(c: Seq<u16>) -> Seq<u8> {
    Seq::new(2 * c.len(), |b: int| if b % 2 == 0 { (c[b / 2] % 256) as u8 } else { (c[b / 2] / 256) as u8 })
}

/// The cells read back from their little-endian encoding.
pub open spec fn bytes_to_cells(b: Seq<u8>) -> Seq<u16> {
    Seq::new(b.len() / 2, |i: int| (b[2 * i] as nat + 256 * b[2 * i + 1] as nat) as u16)
}

/// Reading back the serialized cells gives the cells.
pub proof fn lemma_matrix_bytes_round_trip(c: Seq<u16>)
    ensures
        bytes_to_cells(cells_to_bytes(c)) =~= c,
{
    let b = cells_to_bytes(c);
    assert forall|i: int| 0 <= i < c.len() implies bytes_to_cells(b)[i] == c[i] by {
        assert((2 * i) / 2 == i && (2 * i + 1) / 2 == i && (2 * i) % 2 == 0 && (2 * i + 1) % 2
            == 1) by (nonlinear_arith);
        assert(b[2 * i] == (c[i] % 256) as u8);
        assert(b[2 * i + 1] == (c[i] / 256) as u8);
    }
}

/// Serializes the matrix row-major, each cell as a little-endian 16-bit value.
pub fn matrix_to_bytes(m: &Matrix) -> (r: Vec<u8>)
    requires
        m.wf(),
    ensures
        r@ == cells_to_bytes(m@),
        r@.len() == MATRIX_BYTES,
{
    let mut out: Vec<u8> = Vec::new();
    let mut i: usize = 0;
    while i < CELLS
        invariant
            m.wf(),
            i <= CELLS,
            out@.len() == 2 * i,
            forall|b: int| 0 <= b < 2 * i ==> out@[b] == cells_to_bytes(m@)[b],
        decreases CELLS - i,
    {
        let v: u16 = m.cells[i];
        out.push((v % 256) as u8);
        out.push((v / 256) as u8);
        i = i + 1;
    }
    assert(out@ =~= cells_to_bytes(m@));
    out
}

/// Reads a matrix from its 8192-byte serialized form.
pub fn matrix_from_bytes(bytes: &[u8]) -> (r: Result<Matrix, PowError>)
    ensures
        bytes@.len() != MATRIX_BYTES ==> r == Err::<Matrix, PowError>(PowError::InvalidLength),
        bytes@.len() == MATRIX_BYTES ==> r is Ok && r->Ok_0.wf() && r->Ok_0@ == bytes_to_cells(
            bytes@,
        ),
{
    if bytes.len() != MATRIX_BYTES {
        return Err(PowError::InvalidLength);
    }
    let mut cells: Vec<u16> = Vec::new();
    let mut i: usize = 0;
    while i < CELLS
        invariant
            bytes@.len() == MATRIX_BYTES,
            i <= CELLS,
            cells@.len() == i,
            forall|c: int| 0 <= c < i ==> cells@[c] == bytes_to_cells(bytes@)[c],
        decreases CELLS - i,
    {
        let lo: u16 = bytes[2 * i] as u16;
        let hi: u16 = bytes[2 * i + 1] as u16;
        cells.push(lo + 256 * hi);
        i = i + 1;
    }
    let m = Matrix { cells };
    assert(m@ =~= bytes_to_cells(bytes@));
    Ok(m)
}

} // verus!
