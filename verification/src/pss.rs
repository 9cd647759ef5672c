//! EMSA-PSS message encoding (RFC 8017 section 9.1.1) with MGF1 (appendix
//! B.2.1), for tokens that cannot perform PSS padding internally, and the
//! bit-length helper callers use to derive the encoded message size.

use vstd::prelude::*;

use crate::error::Error;
use crate::hash::{compute_hash, hash_length, spec_hash, spec_hash_len, spec_hash_supported};
use crate::rng::random_bytes;

verus! {

/// The parameters of one PSS operation: the PKCS#11 mechanism number of
/// the hash to use, and the salt length in bytes.  These mirror the
/// `hashAlg` and `sLen` fields of the PKCS#11 PSS parameter structure.
#[derive(Clone, Copy, Debug, PartialEq, Eq, Structural)]
pub struct PssParams {
    /// The PKCS#11 mechanism number of the hash algorithm.
    pub hash_alg: u64,
    /// The salt length in bytes.
    pub salt_len: u64,
}

/// A counter laid out as four big-endian bytes.
pub open spec fn spec_be32(counter: u32) -> Seq<u8> {
    seq![
        (counter / 0x1000000) as u8,
        ((counter / 0x10000) % 256) as u8,
        ((counter / 256) % 256) as u8,
        (counter % 256) as u8,
    ]
}

/// The concatenated hash blocks MGF1 draws from a seed: block `i` is
/// `Hash(seed ‖ BE32(i))`, for `i` from zero up to `count`.
pub open spec fn spec_mgf_chunks(seed: Seq<u8>, hash_alg: u64, count: nat) -> Seq<u8>
    decreases count,
{
    if count == 0 {
        Seq::empty()
    } else {
        spec_mgf_chunks(seed, hash_alg, (count - 1) as nat) + spec_hash(
            hash_alg,
            seed + spec_be32(((count - 1) as nat) as u32),
        )
    }
}

/// How many hash blocks MGF1 needs: the mask length divided by the hash
/// length, rounded up.
pub open spec fn spec_chunk_count(mask_len: nat, h_len: nat) -> nat
    recommends
        h_len > 0,
{
    mask_len / h_len + if mask_len % h_len == 0 {
        0nat
    } else {
        1nat
    }
}

/// The MGF1 output: as many hash blocks as needed, truncated to the mask
/// length.
pub open spec fn spec_mgf(seed: Seq<u8>, mask_len: nat, h_len: nat, hash_alg: u64) -> Seq<u8> {
    spec_mgf_chunks(seed, hash_alg, spec_chunk_count(mask_len, h_len)).take(mask_len as int)
}

/// Implements MGF1 as per RFC 8017 appendix B.2.1.  `h_len` must be the
/// output length of the configured hash; masks longer than 2^30 bytes are
/// refused as a sanity bound, and an unsupported hash algorithm fails on
/// the first block.
pub fn mgf(mgf_seed: &[u8], mask_len: usize, h_len: usize, params: &PssParams) -> (r: Result<
    Vec<u8>,
    Error,
>)
    requires
        h_len >= 1,
        spec_hash_supported(params.hash_alg) ==> h_len == spec_hash_len(params.hash_alg),
    ensures
        match r {
            Ok(mask) => {
                &&& mask_len <= 0x4000_0000
                &&& spec_hash_supported(params.hash_alg) || mask_len == 0
                &&& mask@ == spec_mgf(mgf_seed@, mask_len as nat, h_len as nat, params.hash_alg)
                &&& mask@.len() == mask_len
            },
            Err(e) => {
                &&& e == Error::LibraryFailure
                &&& mask_len > 0x4000_0000 || (!spec_hash_supported(params.hash_alg) && mask_len
                    > 0)
            },
        },
{
    if mask_len > 0x4000_0000 {
        return Err(Error::LibraryFailure);
    }
    let count: usize = mask_len / h_len + if mask_len % h_len == 0 {
        0
    } else {
        1
    };
    proof {
        assert(count == spec_chunk_count(mask_len as nat, h_len as nat));
        assert(mask_len / h_len <= mask_len) by {
            vstd::arithmetic::div_mod::lemma_div_is_ordered_by_denominator(
                mask_len as int,
                1,
                h_len as int,
            );
            vstd::arithmetic::div_mod::lemma_div_basics(mask_len as int);
        }
        let q = mask_len as int / h_len as int;
        let rem = mask_len as int % h_len as int;
        vstd::arithmetic::div_mod::lemma_fundamental_div_mod(mask_len as int, h_len as int);
        vstd::arithmetic::div_mod::lemma_mod_bound(mask_len as int, h_len as int);
        vstd::arithmetic::div_mod::lemma_div_pos_is_pos(mask_len as int, h_len as int);
        assert(mask_len == 0 ==> q == 0 && rem == 0) by (nonlinear_arith)
            requires
                mask_len as int == h_len as int * q + rem,
                0 <= rem,
                0 <= q,
                h_len >= 1,
        ;
    }
    let mut t: Vec<u8> = Vec::new();
    let mut counter: usize = 0;
    while counter < count
        invariant
            counter <= count,
            count <= 0x4000_0001,
            count == spec_chunk_count(mask_len as nat, h_len as nat),
            count > 0 ==> mask_len > 0,
            counter > 0 ==> spec_hash_supported(params.hash_alg),
            h_len >= 1,
            spec_hash_supported(params.hash_alg) ==> h_len == spec_hash_len(params.hash_alg),
            t@ == spec_mgf_chunks(mgf_seed@, params.hash_alg, counter as nat),
            t@.len() == counter * h_len,
        decreases count - counter,
    {
        let mut hash_input: Vec<u8> = Vec::new();
        let mut i: usize = 0;
        while i < mgf_seed.len()
            invariant
                i <= mgf_seed@.len(),
                hash_input@ == mgf_seed@.subrange(0, i as int),
            decreases mgf_seed@.len() - i,
        {
            hash_input.push(mgf_seed[i]);
            proof {
                assert(mgf_seed@.subrange(0, i as int).push(mgf_seed@[i as int]) =~= mgf_seed@
                    .subrange(0, i + 1));
            }
            i += 1;
        }
        proof {
            assert(mgf_seed@.subrange(0, mgf_seed@.len() as int) =~= mgf_seed@);
        }
        let c = counter as u32;
        hash_input.push((c / 0x1000000) as u8);
        hash_input.push(((c / 0x10000) % 256) as u8);
        hash_input.push(((c / 256) % 256) as u8);
        hash_input.push((c % 256) as u8);
        proof {
            assert(hash_input@ =~= mgf_seed@ + spec_be32(counter as u32));
        }
        let mut chunk = match compute_hash(params.hash_alg, hash_input.as_slice()) {
            Ok(chunk) => chunk,
            Err(e) => {
                return Err(e);
            },
        };
        t.append(&mut chunk);
        proof {
            assert(t@ == spec_mgf_chunks(mgf_seed@, params.hash_alg, (counter + 1) as nat));
            assert((counter + 1) * h_len == counter * h_len + h_len) by (nonlinear_arith);
        }
        counter += 1;
    }
    proof {
        let q = mask_len as int / h_len as int;
        let rem = mask_len as int % h_len as int;
        vstd::arithmetic::div_mod::lemma_fundamental_div_mod(mask_len as int, h_len as int);
        vstd::arithmetic::div_mod::lemma_mod_bound(mask_len as int, h_len as int);
        if rem == 0 {
            assert(count * h_len >= mask_len) by (nonlinear_arith)
                requires
                    count == q,
                    mask_len == h_len * q + rem,
                    rem == 0,
            ;
        } else {
            assert(count * h_len >= mask_len) by (nonlinear_arith)
                requires
                    count == q + 1,
                    mask_len == h_len * q + rem,
                    rem < h_len,
            ;
        }
    }
    t.truncate(mask_len);
    proof {
        assert(t@ == spec_mgf(mgf_seed@, mask_len as nat, h_len as nat, params.hash_alg));
    }
    Ok(t)
}

/// The length in bytes of the encoded message for a target bit count:
/// `em_bits` divided by eight, rounded up.
pub open spec fn spec_em_len(em_bits: nat) -> nat {
    (em_bits + 7) / 8
}

/// The PSS hash block `H = Hash(0x00×8 ‖ mHash ‖ salt)`.
pub open spec fn spec_pss_h(m_hash: Seq<u8>, hash_alg: u64, salt: Seq<u8>) -> Seq<u8> {
    spec_hash(hash_alg, seq![0u8, 0u8, 0u8, 0u8, 0u8, 0u8, 0u8, 0u8] + m_hash + salt)
}

/// The data block after masking: the mask with its last byte before the
/// salt region flipped in its lowest bit (the 0x01 separator) and its last
/// `salt.len()` bytes XORed with the salt.
pub open spec fn spec_pss_masked_db(db_mask: Seq<u8>, salt: Seq<u8>) -> Seq<u8>
    recommends
        db_mask.len() >= salt.len() + 1,
{
    let salt_index = db_mask.len() - salt.len();
    Seq::new(
        db_mask.len(),
        |i: int|
            if i == salt_index - 1 {
                db_mask[i] ^ 1
            } else if i >= salt_index {
                db_mask[i] ^ salt[i - salt_index]
            } else {
                db_mask[i]
            },
    )
}

/// A byte with its topmost `bit_diff` bits cleared.
pub open spec fn spec_clear_top_bits(b: u8, bit_diff: u8) -> u8
    recommends
        bit_diff < 8,
{
    b & (0xffu8 >> bit_diff)
}

/// The whole encoded message for a given salt: `maskedDB ‖ H ‖ 0xBC`, with
/// the leftmost `8·emLen − emBits` bits of the first byte cleared.
pub open spec fn spec_emsa_pss_em(
    m_hash: Seq<u8>,
    em_bits: nat,
    hash_alg: u64,
    salt: Seq<u8>,
) -> Seq<u8> {
    let em_len = spec_em_len(em_bits);
    let h_len = spec_hash_len(hash_alg);
    let h = spec_pss_h(m_hash, hash_alg, salt);
    let db_mask = spec_mgf(h, (em_len - h_len - 1) as nat, h_len, hash_alg);
    let masked_db = spec_pss_masked_db(db_mask, salt);
    let bit_diff = (8 * em_len - em_bits) as u8;
    masked_db.update(0, spec_clear_top_bits(masked_db[0], bit_diff)) + h + seq![0xbcu8]
}

/// Implements EMSA-PSS-ENCODE as per RFC 8017 section 9.1.1, with the salt
/// supplied by the caller rather than drawn from the random source; the
/// result is a function of its arguments alone.  The digest handed in must
/// be at least as long as the configured hash's output: a shorter one
/// would underflow the data-block arithmetic.
pub fn emsa_pss_encode_with_salt(
    m_hash: &[u8],
    em_bits: usize,
    params: &PssParams,
    salt: &[u8],
) -> (r: Result<Vec<u8>, Error>)
    requires
        em_bits <= usize::MAX - 7,
        spec_hash_supported(params.hash_alg) ==> m_hash@.len() >= spec_hash_len(params.hash_alg),
    ensures
        match r {
            Ok(em) => {
                &&& spec_hash_supported(params.hash_alg)
                &&& spec_em_len(em_bits as nat) >= m_hash@.len() + salt@.len() + 2
                &&& spec_em_len(em_bits as nat) <= 0x4000_0000 + spec_hash_len(params.hash_alg) + 1
                &&& em@ == spec_emsa_pss_em(m_hash@, em_bits as nat, params.hash_alg, salt@)
                &&& em@.len() == spec_em_len(em_bits as nat)
                &&& em@[em@.len() - 1] == 0xbc
                &&& em@.subrange(
                    em@.len() - spec_hash_len(params.hash_alg) - 1,
                    em@.len() - 1,
                ) == spec_pss_h(m_hash@, params.hash_alg, salt@)
                &&& em@[0] == spec_clear_top_bits(
                    em@[0],
                    (8 * spec_em_len(em_bits as nat) - em_bits) as u8,
                )
            },
            Err(e) => {
                &&& e == Error::LibraryFailure
                &&& (!spec_hash_supported(params.hash_alg) || spec_em_len(em_bits as nat)
                    < m_hash@.len() + salt@.len() + 2 || spec_em_len(em_bits as nat)
                    > 0x4000_0000 + spec_hash_len(params.hash_alg) + 1)
            },
        },
{
    let em_len = (em_bits + 7) / 8;
    let s_len = salt.len();
    if em_len < 2 || em_len - 2 < m_hash.len() || em_len - 2 - m_hash.len() < s_len {
        return Err(Error::LibraryFailure);
    }
    let h_len = match hash_length(params.hash_alg) {
        Ok(h_len) => h_len,
        Err(e) => {
            return Err(e);
        },
    };
    let mut m_prime: Vec<u8> = Vec::new();
    let mut i: usize = 0;
    while i < 8
        invariant
            i <= 8,
            m_prime@ == seq![0u8, 0u8, 0u8, 0u8, 0u8, 0u8, 0u8, 0u8].subrange(0, i as int),
        decreases 8 - i,
    {
        m_prime.push(0);
        proof {
            assert(seq![0u8, 0u8, 0u8, 0u8, 0u8, 0u8, 0u8, 0u8].subrange(0, i as int).push(0u8)
                =~= seq![0u8, 0u8, 0u8, 0u8, 0u8, 0u8, 0u8, 0u8].subrange(0, i + 1));
        }
        i += 1;
    }
    let ghost zeros = seq![0u8, 0u8, 0u8, 0u8, 0u8, 0u8, 0u8, 0u8];
    proof {
        assert(zeros.subrange(0, 8) =~= zeros);
    }
    let mut i: usize = 0;
    while i < m_hash.len()
        invariant
            i <= m_hash@.len(),
            m_prime@ == zeros + m_hash@.subrange(0, i as int),
        decreases m_hash@.len() - i,
    {
        m_prime.push(m_hash[i]);
        proof {
            assert((zeros + m_hash@.subrange(0, i as int)).push(m_hash@[i as int]) =~= zeros
                + m_hash@.subrange(0, i + 1));
        }
        i += 1;
    }
    let mut i: usize = 0;
    while i < s_len
        invariant
            i <= salt@.len(),
            s_len == salt@.len(),
            m_prime@ == zeros + m_hash@.subrange(0, m_hash@.len() as int) + salt@.subrange(
                0,
                i as int,
            ),
        decreases salt@.len() - i,
    {
        m_prime.push(salt[i]);
        proof {
            assert((zeros + m_hash@.subrange(0, m_hash@.len() as int) + salt@.subrange(0, i as int))
                .push(salt@[i as int]) =~= zeros + m_hash@.subrange(0, m_hash@.len() as int)
                + salt@.subrange(0, i + 1));
        }
        i += 1;
    }
    proof {
        assert(m_prime@ =~= zeros + m_hash@ + salt@);
    }
    let h = match compute_hash(params.hash_alg, m_prime.as_slice()) {
        Ok(h) => h,
        Err(e) => {
            return Err(e);
        },
    };
    let mask_len = em_len - h_len - 1;
    let mut db_mask = match mgf(h.as_slice(), mask_len, h_len, params) {
        Ok(m) => m,
        Err(e) => {
            return Err(e);
        },
    };
    let ghost db0 = db_mask@;
    let salt_index = mask_len - s_len;
    let b = db_mask[salt_index - 1];
    db_mask.set(salt_index - 1, b ^ 1);
    let mut j: usize = 0;
    while j < s_len
        invariant
            j <= s_len,
            s_len == salt@.len(),
            db_mask@.len() == db0.len(),
            db0.len() == salt_index + s_len,
            db0.len() <= usize::MAX,
            salt_index >= 1,
            forall|k: int| 0 <= k < salt_index - 1 ==> db_mask@[k] == db0[k],
            db_mask@[salt_index - 1] == db0[salt_index - 1] ^ 1,
            forall|k: int|
                salt_index <= k < salt_index + j ==> db_mask@[k] == (db0[k] ^ salt@[k
                    - salt_index]),
            forall|k: int| salt_index + j <= k < db0.len() ==> db_mask@[k] == db0[k],
        decreases s_len - j,
    {
        let b = db_mask[salt_index + j];
        db_mask.set(salt_index + j, b ^ salt[j]);
        j += 1;
    }
    proof {
        assert(db_mask@ =~= spec_pss_masked_db(db0, salt@));
    }
    proof {
        vstd::arithmetic::div_mod::lemma_fundamental_div_mod((em_bits + 7) as int, 8);
        vstd::arithmetic::div_mod::lemma_mod_bound((em_bits + 7) as int, 8);
    }
    let bit_diff = 8 * em_len - em_bits;
    let first = db_mask[0];
    db_mask.set(0, first & (0xffu8 >> (bit_diff as u8)));
    let ghost masked = spec_pss_masked_db(db0, salt@);
    proof {
        assert(db_mask@ =~= masked.update(
            0,
            spec_clear_top_bits(masked[0], (8 * spec_em_len(em_bits as nat) - em_bits) as u8),
        ));
    }
    let ghost cleared = db_mask@;
    let mut em = db_mask;
    let mut j: usize = 0;
    while j < h.len()
        invariant
            j <= h@.len(),
            em@ == cleared + h@.subrange(0, j as int),
        decreases h@.len() - j,
    {
        em.push(h[j]);
        proof {
            assert((cleared + h@.subrange(0, j as int)).push(h@[j as int]) =~= cleared
                + h@.subrange(0, j + 1));
        }
        j += 1;
    }
    proof {
        assert(h@.subrange(0, h@.len() as int) =~= h@);
    }
    em.push(0xbc);
    proof {
        assert(em@ =~= cleared + h@ + seq![0xbcu8]);
        assert(em@ =~= spec_emsa_pss_em(m_hash@, em_bits as nat, params.hash_alg, salt@));
        assert(em@.subrange(em@.len() - h@.len() - 1, em@.len() - 1) =~= h@);
        let bd = (8 * spec_em_len(em_bits as nat) - em_bits) as u8;
        assert(em@[0] == spec_clear_top_bits(masked[0], bd));
        assert(spec_clear_top_bits(masked[0], bd) == spec_clear_top_bits(
            spec_clear_top_bits(masked[0], bd),
            bd,
        )) by {
            let x = masked[0];
            assert((x & (0xffu8 >> bd)) == ((x & (0xffu8 >> bd)) & (0xffu8 >> bd)))
                by (bit_vector);
        }
    }
    Ok(em)
}

/// Implements EMSA-PSS-ENCODE as per RFC 8017 section 9.1.1, drawing the
/// salt from the operating system's secure random source.  The digest
/// handed in must be at least as long as the configured hash's output.
/// The structural facts below hold of the result whatever salt was drawn:
/// its length is `⌈emBits/8⌉`, its trailer byte is 0xBC, the bytes before
/// the trailer are the hash block `H`, and the leftmost `8·emLen − emBits`
/// bits are zero.
pub fn emsa_pss_encode(m_hash: &[u8], em_bits: usize, params: &PssParams) -> (r: Result<
    Vec<u8>,
    Error,
>)
    requires
        em_bits <= usize::MAX - 7,
        spec_hash_supported(params.hash_alg) ==> m_hash@.len() >= spec_hash_len(params.hash_alg),
    ensures
        match r {
            Ok(em) => {
                &&& spec_hash_supported(params.hash_alg)
                &&& params.salt_len <= usize::MAX
                &&& spec_em_len(em_bits as nat) >= m_hash@.len() + params.salt_len + 2
                &&& em@.len() == spec_em_len(em_bits as nat)
                &&& em@[em@.len() - 1] == 0xbc
                &&& em@[0] == spec_clear_top_bits(
                    em@[0],
                    (8 * spec_em_len(em_bits as nat) - em_bits) as u8,
                )
                &&& exists|salt: Seq<u8>|
                    {
                        &&& salt.len() == params.salt_len
                        &&& em@ == spec_emsa_pss_em(m_hash@, em_bits as nat, params.hash_alg, salt)
                        &&& em@.subrange(
                            em@.len() - spec_hash_len(params.hash_alg) - 1,
                            em@.len() - 1,
                        ) == spec_pss_h(m_hash@, params.hash_alg, salt)
                    }
            },
            Err(e) => {
                &&& e == Error::LibraryFailure
                &&& (params.salt_len > usize::MAX || !spec_hash_supported(params.hash_alg)
                    || spec_em_len(em_bits as nat) < m_hash@.len() + params.salt_len + 2
                    || spec_em_len(em_bits as nat) > 0x4000_0000 + spec_hash_len(params.hash_alg)
                    + 1)
            },
        },
{
    if params.salt_len > usize::MAX as u64 {
        return Err(Error::LibraryFailure);
    }
    let s_len = params.salt_len as usize;
    let salt = random_bytes(s_len);
    match emsa_pss_encode_with_salt(m_hash, em_bits, params, salt.as_slice()) {
        Ok(em) => {
            proof {
                let w = salt@;
                assert(w.len() == params.salt_len && em@ == spec_emsa_pss_em(
                    m_hash@,
                    em_bits as nat,
                    params.hash_alg,
                    w,
                ) && em@.subrange(
                    em@.len() - spec_hash_len(params.hash_alg) - 1,
                    em@.len() - 1,
                ) == spec_pss_h(m_hash@, params.hash_alg, w));
            }
            Ok(em)
        },
        Err(e) => Err(e),
    }
}

/// How many leading zero bits a byte has.
pub open spec fn spec_u8_leading_zeros(b: u8) -> nat {
    if b >= 0x80 {
        0
    } else if b >= 0x40 {
        1
    } else if b >= 0x20 {
        2
    } else if b >= 0x10 {
        3
    } else if b >= 0x08 {
        4
    } else if b >= 0x04 {
        5
    } else if b >= 0x02 {
        6
    } else if b >= 0x01 {
        7
    } else {
        8
    }
}

/// The true bit length of a big-endian unsigned integer: eight bits per
/// byte, not counting leading zero bytes nor the leading zero bits of the
/// first significant byte.
pub open spec fn spec_modulus_bit_length(modulus: Seq<u8>) -> nat
    decreases modulus.len(),
{
    if modulus.len() == 0 {
        0
    } else if modulus[0] != 0 {
        (8 * modulus.len() - spec_u8_leading_zeros(modulus[0])) as nat
    } else {
        spec_modulus_bit_length(modulus.drop_first())
    }
}

/// How many leading zero bits a byte has.
fn u8_leading_zero_bits(b: u8) -> (r: u8)
    ensures
        r == spec_u8_leading_zeros(b),
{
    if b >= 0x80 {
        0
    } else if b >= 0x40 {
        1
    } else if b >= 0x20 {
        2
    } else if b >= 0x10 {
        3
    } else if b >= 0x08 {
        4
    } else if b >= 0x04 {
        5
    } else if b >= 0x02 {
        6
    } else if b >= 0x01 {
        7
    } else {
        8
    }
}

/// The true bit length of a big-endian unsigned integer, accounting for
/// leading zero bytes and the leading zero bits of the first significant
/// byte.  Callers derive `em_bits` for the PSS engine from it.
pub fn modulus_bit_length(modulus: &[u8]) -> (r: usize)
    requires
        modulus@.len() <= usize::MAX / 8,
    ensures
        r == spec_modulus_bit_length(modulus@),
{
    let mut i: usize = 0;
    proof {
        assert(modulus@.skip(0) =~= modulus@);
    }
    while i < modulus.len()
        invariant
            i <= modulus@.len(),
            modulus@.len() <= usize::MAX / 8,
            spec_modulus_bit_length(modulus@) == spec_modulus_bit_length(
                modulus@.skip(i as int),
            ),
        decreases modulus@.len() - i,
    {
        let byte = modulus[i];
        if byte != 0 {
            let leading_zeros = u8_leading_zero_bits(byte);
            proof {
                assert(modulus@.skip(i as int)[0] == modulus@[i as int]);
                assert(modulus@.skip(i as int).len() == modulus@.len() - i);
            }
            return 8 * (modulus.len() - i) - (leading_zeros as usize);
        }
        proof {
            assert(modulus@.skip(i as int).drop_first() =~= modulus@.skip(i + 1));
        }
        i += 1;
    }
    proof {
        assert(modulus@.skip(modulus@.len() as int) =~= Seq::<u8>::empty());
    }
    0
}

} // verus!
