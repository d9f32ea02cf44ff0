//! Storage proofs: which chunk of a file a block hash picks, the Bao slice
//! that proves that chunk, and the BLAKE3 digest and Bao outboard encoding
//! of a file.

use vstd::prelude::*;
use vstd::arithmetic::div_mod::{lemma_add_mod_noop, lemma_mul_mod_noop_left, lemma_mod_bound};
use vstd::slice::slice_subrange;
use vstd::arithmetic::power::pow;
use std::io::Read;
use blake3::Hasher;
use crate::types::{BlockNum, Proof};

verus! {

/// Bytes per Bao chunk.
pub const CHUNK_SIZE: u64 = 1024;

/// The number of chunks of `size` bytes: `size / CHUNK_SIZE`, rounded up.
pub open spec fn num_chunks(size: int) -> int {
    (size + CHUNK_SIZE - 1) / (CHUNK_SIZE as int)
}

/// The number of `CHUNK_SIZE`-byte chunks that a file of `size` bytes is
/// cut into, the last one possibly short.
pub fn get_num_chunks(size: u64) -> (chunks: u64)
    ensures
        chunks == num_chunks(size as int),
        chunks * CHUNK_SIZE >= size,
        chunks == 0 || (chunks - 1) * CHUNK_SIZE < size,
{
    let whole = size / CHUNK_SIZE;
    if size % CHUNK_SIZE != 0 {
        whole + 1
    } else {
        whole
    }
}

/// The unsigned number that `bytes` encode, most significant byte first.
pub open spec fn be_value(bytes: Seq<u8>) -> nat
    decreases bytes.len(),
{
    if bytes.len() == 0 {
        0
    } else {
        be_value(bytes.drop_last()) * 256 + bytes.last() as nat
    }
}

/// The number that `bytes` encode when byte `i` of `n` is weighted
/// `256^(n - 1 - i)`.
pub open spec fn weighted_bytes(bytes: Seq<u8>) -> int
    decreases bytes.len(),
{
    if bytes.len() == 0 {
        0
    } else {
        bytes[0] * pow(256, (bytes.len() - 1) as nat) + weighted_bytes(bytes.drop_first())
    }
}

proof fn lemma_weighted_bytes_drop_last(bytes: Seq<u8>)
    requires
        bytes.len() >= 1,
    ensures
        weighted_bytes(bytes) == weighted_bytes(bytes.drop_last()) * 256 + bytes.last(),
    decreases bytes.len(),
{
    reveal(pow);
    let n = bytes.len();
    if n == 1 {
        assert(pow(256, 0) == 1);
        assert(bytes.drop_first().len() == 0);
        assert(bytes.drop_last().len() == 0);
        assert(weighted_bytes(bytes.drop_first()) == 0);
        assert(weighted_bytes(bytes.drop_last()) == 0);
        assert(bytes.last() == bytes[0]);
        assert(weighted_bytes(bytes) == bytes[0] * pow(256, 0) + weighted_bytes(bytes.drop_first()));
    } else {
        let first = bytes.drop_first();
        let init = bytes.drop_last();
        lemma_weighted_bytes_drop_last(first);
        assert(first.drop_last() =~= init.drop_first());
        assert(first.last() == bytes.last());
        assert(init[0] == bytes[0]);
        let p = pow(256, (n - 2) as nat);
        assert(pow(256, (n - 1) as nat) == 256 * p);
        let b0 = bytes[0] as int;
        let rest = weighted_bytes(init.drop_first());
        assert(weighted_bytes(init) == b0 * p + rest);
        assert((b0 * p + rest) * 256 == b0 * (256 * p) + rest * 256) by (nonlinear_arith);
        assert(weighted_bytes(first) == rest * 256 + bytes.last());
        assert(weighted_bytes(bytes) == b0 * pow(256, (n - 1) as nat) + weighted_bytes(first));
    }
}

/// Reading bytes most significant first weighs byte `i` of `n` by
/// `256^(n - 1 - i)`.
pub proof fn lemma_be_value_weights(bytes: Seq<u8>)
    ensures
        be_value(bytes) == weighted_bytes(bytes),
    decreases bytes.len(),
{
    if bytes.len() > 0 {
        lemma_be_value_weights(bytes.drop_last());
        lemma_weighted_bytes_drop_last(bytes);
    }
}

/// The chunk that a block hash picks in a file of `file_length` bytes, as
/// (offset, length): the chunk whose index is the hash, read as a big-endian
/// number, modulo the number of chunks. Every chunk is `CHUNK_SIZE` bytes but
/// the last, which holds the rest of the file.
pub open spec fn chunk_choice(block_hash: Seq<u8>, file_length: int) -> (int, int) {
    let chunks = num_chunks(file_length);
    let chunk_number = (be_value(block_hash) as int) % chunks;
    let offset = chunk_number * CHUNK_SIZE;
    let size = if chunk_number == chunks - 1 {
        file_length - offset
    } else {
        CHUNK_SIZE as int
    };
    (offset, size)
}

/// Horner's rule, one step, modulo `m`.
proof fn lemma_mod_horner_step(a: int, b: int, m: int)
    requires
        m > 0,
    ensures
        ((a % m) * 256 + b) % m == (a * 256 + b) % m,
{
    lemma_mul_mod_noop_left(a, 256, m);
    lemma_add_mod_noop((a % m) * 256, b, m);
    lemma_add_mod_noop(a * 256, b, m);
}

/// The big-endian number that `block_hash` encodes, modulo `modulus`.
fn hash_mod(block_hash: &[u8; 32], modulus: u64) -> (rem: u64)
    requires
        modulus > 0,
    ensures
        rem == be_value(block_hash@) % (modulus as nat),
{
    let mut acc: u64 = 0;
    let mut i: usize = 0;
    assert(be_value(block_hash@.take(0)) == 0);
    while i < 32
        invariant
            i <= 32,
            modulus > 0,
            block_hash@.len() == 32,
            acc == be_value(block_hash@.take(i as int)) % (modulus as nat),
        decreases 32 - i,
    {
        let byte = block_hash[i];
        let step: u128 = ((acc as u128) * 256 + (byte as u128)) % (modulus as u128);
        proof {
            let prefix = block_hash@.take(i as int);
            let longer = block_hash@.take(i + 1);
            assert(longer.drop_last() =~= prefix);
            assert(longer.last() == byte);
            lemma_mod_horner_step(be_value(prefix) as int, byte as int, modulus as int);
            lemma_mod_bound((acc as int) * 256 + byte as int, modulus as int);
        }
        acc = step as u64;
        i = i + 1;
    }
    proof {
        assert(block_hash@.take(32) =~= block_hash@);
    }
    acc
}

/// The (offset, length) of the chunk of a `file_length`-byte file that
/// `block_hash` picks; see `chunk_choice`. The chunk is never empty, holds
/// at most `CHUNK_SIZE` bytes, starts on a chunk boundary and ends within
/// the file.
pub fn compute_random_block_choice_from_hash(block_hash: &[u8; 32], file_length: u64) -> (choice: (
    u64,
    u64,
))
    requires
        file_length > 0,
    ensures
        choice.0 == chunk_choice(block_hash@, file_length as int).0,
        choice.1 == chunk_choice(block_hash@, file_length as int).1,
        0 < choice.1 <= CHUNK_SIZE,
        choice.0 + choice.1 <= file_length,
        choice.0 % CHUNK_SIZE == 0,
        choice.0 == (weighted_bytes(block_hash@) % ((file_length + 1023) / 1024)) * 1024,
        choice.0 + CHUNK_SIZE < file_length ==> choice.1 == CHUNK_SIZE,
        choice.0 + CHUNK_SIZE >= file_length ==> choice.1 == file_length - choice.0,
{
    proof {
        lemma_be_value_weights(block_hash@);
    }
    let chunks = get_num_chunks(file_length);
    let chunk_number = hash_mod(block_hash, chunks);
    let chunk_offset = chunk_number * CHUNK_SIZE;
    let chunk_size = if chunk_number == chunks - 1 {
        file_length - chunk_offset
    } else {
        CHUNK_SIZE
    };
    (chunk_offset, chunk_size)
}

/// Declares BLAKE3's incremental hasher.
#[verifier::external_type_specification]
#[verifier::external_body]
pub struct ExHasher(Hasher);

/// The bytes that a BLAKE3 hasher has been fed so far.
pub uninterp spec fn hasher_input(hasher: Hasher) -> Seq<u8>;

/// The BLAKE3 digest of `input`.
pub uninterp spec fn blake3_digest(input: Seq<u8>) -> Seq<u8>;

/// Calls `blake3::Hasher::new`: a hasher that has been fed nothing.
#[verifier::external_body]
fn hasher_new() -> (hasher: Hasher)
    ensures
        hasher_input(hasher) == Seq::<u8>::empty(),
{
    Hasher::new()
}

/// Calls `blake3::Hasher::update`: the hasher has then been fed `data` after
/// what it had been fed before.
#[verifier::external_body]
fn hasher_update(hasher: &mut Hasher, data: &[u8])
    ensures
        hasher_input(*final(hasher)) == hasher_input(*old(hasher)) + data@,
{
    hasher.update(data);
}

/// Calls `blake3::Hasher::finalize` and takes the digest's bytes: the BLAKE3
/// digest of all that the hasher has been fed (blake3's documentation shows
/// incremental and one-shot hashing agree).
#[verifier::external_body]
fn hasher_finalize(hasher: &Hasher) -> (digest: [u8; 32])
    ensures
        digest@ == blake3_digest(hasher_input(*hasher)),
{
    *hasher.finalize().as_bytes()
}

/// The BLAKE3 digest of `data`, fed to the hasher `CHUNK_SIZE` bytes at a time.
pub fn compute_blake3_digest(data: &[u8]) -> (digest: [u8; 32])
    ensures
        digest@ == blake3_digest(data@),
{
    let mut hasher = hasher_new();
    let mut pos: usize = 0;
    while pos < data.len()
        invariant
            pos <= data@.len(),
            hasher_input(hasher) == data@.take(pos as int),
        decreases data@.len() - pos,
    {
        let end: usize = if data.len() - pos > 1024 {
            pos + 1024
        } else {
            data.len()
        };
        let chunk = slice_subrange(data, pos, end);
        hasher_update(&mut hasher, chunk);
        proof {
            assert(data@.take(pos as int) + data@.subrange(pos as int, end as int) =~= data@.take(
                end as int,
            ));
        }
        pos = end;
    }
    proof {
        assert(data@.take(data@.len() as int) =~= data@);
    }
    hasher_finalize(&hasher)
}

/// The Bao outboard encoding of `input`.
pub uninterp spec fn bao_outboard_bytes(input: Seq<u8>) -> Seq<u8>;

/// Calls `bao::encode::outboard` and takes the root hash's bytes: the
/// outboard encoding of `input`, and its root hash, which Bao's documentation
/// shows is the BLAKE3 digest of `input`.
#[verifier::external_body]
fn bao_outboard(input: &[u8]) -> (encoded: (Vec<u8>, [u8; 32]))
    ensures
        encoded.0@ == bao_outboard_bytes(input@),
        encoded.1@ == blake3_digest(input@),
{
    let (outboard, hash) = bao::encode::outboard(input);
    (outboard, *hash.as_bytes())
}

/// The outboard encoding of a file, and its root hash, the file's BLAKE3 digest.
pub fn gen_obao(data: &[u8]) -> (obao: (Vec<u8>, [u8; 32]))
    ensures
        obao.0@ == bao_outboard_bytes(data@),
        obao.1@ == blake3_digest(data@),
{
    bao_outboard(data)
}

/// The Bao slice of a file that proves the `len` content bytes from `start`
/// on, given the file and its outboard encoding; `None` where the extraction
/// fails.
pub uninterp spec fn bao_slice(input: Seq<u8>, outboard: Seq<u8>, start: u64, len: u64) -> Option<
    Seq<u8>,
>;

/// Reads a `bao::encode::SliceExtractor::new_outboard` over the two buffers
/// to its end: the slice, or `None` where reading fails.
#[verifier::external_body]
fn bao_extract_slice(input: &[u8], outboard: &[u8], start: u64, len: u64) -> (slice: Option<Vec<u8>>)
    ensures
        match slice {
            Some(bytes) => bao_slice(input@, outboard@, start, len) == Some(bytes@),
            None => bao_slice(input@, outboard@, start, len) is None,
        },
{
    let mut extractor = bao::encode::SliceExtractor::new_outboard(
        std::io::Cursor::new(input),
        std::io::Cursor::new(outboard),
        start,
        len,
    );
    let mut bytes = Vec::new();
    match extractor.read_to_end(&mut bytes) {
        Ok(_) => Some(bytes),
        Err(_) => None,
    }
}

/// Why no proof could be made.
#[derive(Clone, Copy, Debug, PartialEq, Eq, Structural)]
pub enum ProofError {
    /// The Bao slice of the chosen chunk could not be read from the file and
    /// its outboard encoding.
    SliceUnavailable,
}

/// The proof for the window that starts at `block_number`: the Bao slice of
/// the chunk that the window's block hash picks (see `chunk_choice`), read
/// from the file and its outboard encoding.
pub fn gen_proof(
    block_number: BlockNum,
    block_hash: &[u8; 32],
    file: &[u8],
    obao: &[u8],
    file_length: u64,
) -> (proof: Result<Proof, ProofError>)
    requires
        file_length > 0,
    ensures
        ({
            let choice = chunk_choice(block_hash@, file_length as int);
            match bao_slice(file@, obao@, choice.0 as u64, choice.1 as u64) {
                Some(data) => proof matches Ok(p) && p.block_number == block_number
                    && p.bao_proof_data@ == data,
                None => proof == Err::<Proof, ProofError>(ProofError::SliceUnavailable),
            }
        }),
{
    let (chunk_offset, chunk_size) = compute_random_block_choice_from_hash(block_hash, file_length);
    match bao_extract_slice(file, obao, chunk_offset, chunk_size) {
        Some(bao_proof_data) => Ok(Proof { block_number, bao_proof_data }),
        None => Err(ProofError::SliceUnavailable),
    }
}

} // verus!
