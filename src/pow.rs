//! The proof-of-work pipeline: the 80-byte header, the first cSHAKE256 stage,
//! the heavy matrix transform and the final cSHAKE256 stage.
use vstd::prelude::*;
use crate::error::PowError;
use crate::matrix::{bytes_to_cells, matrix_from_bytes, Matrix, MATRIX_BYTES};
use crate::uint256::radix;
use vstd::string::StringSliceAdditionalSpecFns;

verus! {

/// The first `len` bytes of cSHAKE256 output, with an empty function name and
/// customization string `custom`, on input `data`.
pub uninterp spec fn cshake256_of(custom: Seq<u8>, data: Seq<u8>, len: nat) -> Seq<u8>;

/// Relies on sha3's `CShake256` built from `CShake256Core::new(custom)`: after
/// `data` is absorbed, `XofReader::read` fills the whole output buffer with the
/// leading bytes of the cSHAKE256 output stream.
#[verifier::external_body]
fn cshake256(custom: &[u8], data: &[u8], output_len: usize) -> (r: Vec<u8>)
    ensures
        r@ == cshake256_of(custom@, data@, output_len as nat),
        r@.len() == output_len,
{
    let hasher = sha3::digest::Update::chain(
        sha3::CShake256::from_core(sha3::CShake256Core::new(custom)),
        data,
    );
    let mut output = vec![0u8; output_len];
    let mut reader = sha3::digest::ExtendableOutput::finalize_xof(hasher);
    sha3::digest::XofReader::read(&mut reader, &mut output);
    output
}

/// Customization string of the first stage.
pub open spec fn pow_label() -> Seq<u8> {
    "ProofOfWorkHash".spec_bytes()
}

/// Customization string of the final stage.
pub open spec fn heavy_label() -> Seq<u8> {
    "HeavyHash".spec_bytes()
}

/// The eight little-endian bytes of `x`.
pub open spec fn u64_le_bytes(x: u64) -> Seq<u8> {
    Seq::new(8, |i: int| ((x as nat / radix(i as nat)) % 256) as u8)
}

/// The 80-byte header: pre-image hash, little-endian timestamp, 32 reserved
/// zero bytes, little-endian nonce.
pub open spec fn header_of(pre_pow_hash: Seq<u8>, timestamp: u64, nonce: u64) -> Seq<u8> {
    pre_pow_hash + u64_le_bytes(timestamp) + Seq::new(32, |i: int| 0u8) + u64_le_bytes(nonce)
}

/// The 64 four-bit values of a 32-byte hash, high nibble of each byte first.
pub open spec fn expand_nibbles(h: Seq<u8>) -> Seq<u16> {
    Seq::new(
        64,
        |i: int|
            if i % 2 == 0 {
                (h[i / 2] / 16) as u16
            } else {
                (h[i / 2] % 16) as u16
            },
    )
}

/// The sum of the first `n` products of row `i` of `m` with `v`.
pub open spec fn row_sum(m: Seq<u16>, v: Seq<u16>, i: int, n: nat) -> int
    decreases n,
{
    if n == 0 {
        0
    } else {
        row_sum(m, v, i, (n - 1) as nat) + m[64 * i + n - 1] as int * v[n - 1] as int
    }
}

/// Row `i` of the product of `m` with the nibbles of `h`, shifted right by ten
/// bits and cut to four bits.
pub open spec fn product_nibble(m: Seq<u16>, h: Seq<u8>, i: int) -> int {
    (row_sum(m, expand_nibbles(h), i, 64) / 1024) % 16
}

/// The 32 bytes that the final stage absorbs: each byte of `h` xored with two
/// product nibbles, the even row in the high half.
pub open spec fn heavy_mix(m: Seq<u16>, h: Seq<u8>) -> Seq<u8> {
    Seq::new(
        32,
        |i: int|
            h[i] ^ ((16 * product_nibble(m, h, 2 * i) + product_nibble(m, h, 2 * i + 1)) as u8),
    )
}

/// The heavy transform of `h` by the matrix with cells `m`.
pub open spec fn heavy_hash_spec(m: Seq<u16>, h: Seq<u8>) -> Seq<u8> {
    cshake256_of(heavy_label(), heavy_mix(m, h), 32)
}

/// The proof-of-work digest of a header under the matrix with cells `m`.
pub open spec fn pow_digest(pre_pow_hash: Seq<u8>, timestamp: u64, nonce: u64, m: Seq<u16>) -> Seq<u8> {
    heavy_hash_spec(m, cshake256_of(pow_label(), header_of(pre_pow_hash, timestamp, nonce), 32))
}

/// Appends the eight little-endian bytes of `x`.
fn push_u64_le(out: &mut Vec<u8>, x: u64)
    ensures
        final(out)@ == old(out)@ + u64_le_bytes(x),
{
    let ghost start = out@;
    let mut rest: u64 = x;
    let mut k: usize = 0;
    assert(radix(0) == 1);
    while k < 8
        invariant
            k <= 8,
            out@.len() == start.len() + k,
            forall|j: int| 0 <= j < start.len() ==> out@[j] == start[j],
            forall|j: int| 0 <= j < k ==> out@[start.len() + j] == u64_le_bytes(x)[j],
            rest as nat == x as nat / radix(k as nat),
        decreases 8 - k,
    {
        proof {
            crate::uint256::lemma_radix_mono(0, k as nat);
            assert(radix(0) == 1);
            vstd::arithmetic::div_mod::lemma_div_denominator(x as int, radix(k as nat) as int, 256);
            assert(radix((k + 1) as nat) == radix(k as nat) * 256);
        }
        out.push((rest % 256) as u8);
        rest = rest / 256;
        k = k + 1;
    }
    assert(out@ =~= start + u64_le_bytes(x));
}

/// Builds the 80-byte header.
pub fn build_header(pre_pow_hash: &Vec<u8>, timestamp: u64, nonce: u64) -> (r: Vec<u8>)
    requires
        pre_pow_hash@.len() == 32,
    ensures
        r@ == header_of(pre_pow_hash@, timestamp, nonce),
{
    let mut header: Vec<u8> = Vec::new();
    let mut i: usize = 0;
    while i < 32
        invariant
            pre_pow_hash@.len() == 32,
            i <= 32,
            header@ == pre_pow_hash@.subrange(0, i as int),
        decreases 32 - i,
    {
        header.push(pre_pow_hash[i]);
        i = i + 1;
        assert(header@ =~= pre_pow_hash@.subrange(0, i as int));
    }
    assert(pre_pow_hash@.subrange(0, 32) =~= pre_pow_hash@);
    push_u64_le(&mut header, timestamp);
    let ghost before = header@;
    let mut z: usize = 0;
    while z < 32
        invariant
            z <= 32,
            header@ == before + Seq::new(z as nat, |i: int| 0u8),
        decreases 32 - z,
    {
        header.push(0u8);
        z = z + 1;
        assert(header@ =~= before + Seq::new(z as nat, |i: int| 0u8));
    }
    push_u64_le(&mut header, nonce);
    header
}

/// Mixes the matrix into a 32-byte hash: the bytes that the final stage absorbs.
pub fn heavy_mix_bytes(matrix: &Matrix, hash: &Vec<u8>) -> (r: Vec<u8>)
    requires
        matrix.wf(),
        hash@.len() == 32,
    ensures
        r@ == heavy_mix(matrix@, hash@),
{
    let ghost m = matrix@;
    let ghost nib = expand_nibbles(hash@);
    assert(nib.len() == 64);
    assert forall|k: int| 0 <= k < 64 implies nib[k] < 16 by {}
    let mut v: Vec<u16> = Vec::new();
    let mut i: usize = 0;
    while i < 32
        invariant
            hash@.len() == 32,
            nib == expand_nibbles(hash@),
            nib.len() == 64,
            i <= 32,
            v@ == nib.subrange(0, 2 * i),
        decreases 32 - i,
    {
        let ghost i0 = i as int;
        v.push((hash[i] / 16) as u16);
        v.push((hash[i] % 16) as u16);
        proof {
            assert((2 * i0) / 2 == i0 && (2 * i0 + 1) / 2 == i0 && (2 * i0) % 2 == 0 && (2 * i0
                + 1) % 2 == 1) by (nonlinear_arith);
            assert(nib[2 * i0] == (hash@[i0] / 16) as u16);
            assert(nib[2 * i0 + 1] == (hash@[i0] % 16) as u16);
            assert(v@ =~= nib.subrange(0, 2 * i0 + 2));
        }
        i = i + 1;
    }
    assert(v@ =~= nib);
    let mut p: Vec<u64> = Vec::new();
    let mut row: usize = 0;
    while row < 64
        invariant
            matrix.wf(),
            m == matrix@,
            v@ == nib,
            nib == expand_nibbles(hash@),
            nib.len() == 64,
            forall|k: int| 0 <= k < 64 ==> nib[k] < 16,
            row <= 64,
            p@.len() == row,
            forall|k: int| 0 <= k < row ==> p@[k] as int == product_nibble(m, hash@, k),
        decreases 64 - row,
    {
        let mut sum: u64 = 0;
        let mut col: usize = 0;
        while col < 64
            invariant
                matrix.wf(),
                m == matrix@,
                v@ == nib,
                nib.len() == 64,
                forall|k: int| 0 <= k < 64 ==> nib[k] < 16,
                row < 64,
                col <= 64,
                sum as int == row_sum(m, nib, row as int, col as nat),
                sum <= col * 983025,
            decreases 64 - col,
        {
            let a: u16 = matrix.cells[64 * row + col];
            let b: u16 = v[col];
            proof {
                assert(b < 16);
                assert(a as int * b as int <= 983025) by (nonlinear_arith)
                    requires
                        a <= 65535,
                        b < 16,
                ;
            }
            sum = sum + (a as u64) * (b as u64);
            col = col + 1;
        }
        p.push((sum / 1024) % 16);
        assert(p@[row as int] as int == product_nibble(m, hash@, row as int));
        row = row + 1;
    }
    let mut digest: Vec<u8> = Vec::new();
    let mut j: usize = 0;
    while j < 32
        invariant
            hash@.len() == 32,
            p@.len() == 64,
            forall|k: int| 0 <= k < 64 ==> p@[k] as int == product_nibble(m, hash@, k),
            j <= 32,
            digest@ == heavy_mix(m, hash@).subrange(0, j as int),
        decreases 32 - j,
    {
        let high4: u64 = p[2 * j];
        let low4: u64 = p[2 * j + 1];
        digest.push(hash[j] ^ ((high4 * 16 + low4) as u8));
        j = j + 1;
        assert(digest@ =~= heavy_mix(m, hash@).subrange(0, j as int));
    }
    assert(digest@ =~= heavy_mix(m, hash@));
    digest
}

/// Mixes the matrix into a 32-byte hash and applies the final stage.
pub fn heavy_hash_internal(matrix: &Matrix, hash: &Vec<u8>) -> (r: Vec<u8>)
    requires
        matrix.wf(),
        hash@.len() == 32,
    ensures
        r@ == heavy_hash_spec(matrix@, hash@),
        r@.len() == 32,
{
    let digest = heavy_mix_bytes(matrix, hash);
    cshake256("HeavyHash".as_bytes(), digest.as_slice(), 32)
}

/// The proof-of-work digest: first stage on the header, then the heavy transform.
pub fn calculate_pow_internal(pre_pow_hash: &Vec<u8>, timestamp: u64, nonce: u64, matrix: &Matrix) -> (r: Vec<u8>)
    requires
        pre_pow_hash@.len() == 32,
        matrix.wf(),
    ensures
        r@ == pow_digest(pre_pow_hash@, timestamp, nonce, matrix@),
        r@.len() == 32,
{
    let header = build_header(pre_pow_hash, timestamp, nonce);
    let pow_hash = cshake256("ProofOfWorkHash".as_bytes(), header.as_slice(), 32);
    heavy_hash_internal(matrix, &pow_hash)
}

/// The proof-of-work digest for a pre-image hash, timestamp, nonce and a
/// serialized matrix; the result depends on these arguments alone.
pub fn compute_pow(pre_pow_hash: &[u8], timestamp: u64, nonce: u64, matrix_bytes: &[u8]) -> (r:
    Result<Vec<u8>, PowError>)
    ensures
        pre_pow_hash@.len() != 32 || matrix_bytes@.len() != MATRIX_BYTES <==> r == Err::<
            Vec<u8>,
            PowError,
        >(PowError::InvalidLength),
        pre_pow_hash@.len() == 32 && matrix_bytes@.len() == MATRIX_BYTES ==> r is Ok,
        r is Ok ==> r->Ok_0@ == pow_digest(
            pre_pow_hash@,
            timestamp,
            nonce,
            bytes_to_cells(matrix_bytes@),
        ) && r->Ok_0@.len() == 32,
{
    if pre_pow_hash.len() != 32 {
        return Err(PowError::InvalidLength);
    }
    let matrix = match matrix_from_bytes(matrix_bytes) {
        Ok(m) => m,
        Err(e) => {
            return Err(e);
        },
    };
    let hash = vstd::slice::slice_to_vec(pre_pow_hash);
    Ok(calculate_pow_internal(&hash, timestamp, nonce, &matrix))
}

} // verus!
