//! The page-list cipher of the HentaiNexus reader.
//!
//! The reader page embeds `initReader("<base64>", ...)`. The payload is
//! base64-decoded; its first 15 bytes are masked with the host name; bytes
//! `0..64` key an RC4-style substitution box; a CRC-like fold of the same
//! bytes picks a prime step; bytes `64..` are then deciphered with a modified
//! RC4 generator, one Latin-1 character per byte.
use base64::Engine;
use vstd::prelude::*;

use crate::text::push_char;

verus! {

/// Why a page payload could not be deciphered.
#[derive(Debug, Clone, Copy, PartialEq, Eq, Structural)]
pub enum DecryptError {
    /// The payload is not valid standard base64.
    Base64,
    /// The decoded payload holds fewer than 65 bytes.
    TooShort,
}

// ---------------------------------------------------------------------------
// Base64 decoding (outside crate)
// ---------------------------------------------------------------------------

#[verifier::external_type_specification]
#[verifier::external_body]
pub struct ExDecodeError(base64::DecodeError);

/// What `base64::engine::general_purpose::STANDARD.decode` makes of the bytes
/// of a string: `Some` of the decoded bytes, or `None` when it refuses them.
pub uninterp spec fn base64_standard_decode(input: Seq<char>) -> Option<Seq<u8>>;

/// Decodes `encoded` with the standard base64 alphabet and canonical padding.
/// Calls `STANDARD.decode` of the `base64` crate; the contract claims only that
/// the outcome is the one `base64_standard_decode` names for the input.
#[verifier::external_body]
fn standard_decode(encoded: &str) -> (r: Result<Vec<u8>, base64::DecodeError>)
    ensures
        match r {
            Ok(v) => base64_standard_decode(encoded@) == Some(v@),
            Err(_) => base64_standard_decode(encoded@) is None,
        },
{
    base64::engine::general_purpose::STANDARD.decode(encoded)
}

// ---------------------------------------------------------------------------
// Specification
// ---------------------------------------------------------------------------

/// The bytes of `hentainexus.com`.
pub open spec fn host_bytes() -> Seq<u8> {
    seq![104u8, 101, 110, 116, 97, 105, 110, 101, 120, 117, 115, 46, 99, 111, 109]
}

/// The candidate steps of the generator.
pub open spec fn primes() -> Seq<u32> {
    seq![2u32, 3, 5, 7, 11, 13, 17, 19]
}

/// The payload with its first 15 bytes masked by the host name.
pub open spec fn unmask(data: Seq<u8>) -> Seq<u8> {
    Seq::new(data.len(), |i: int| if i < 15 { data[i] ^ host_bytes()[i] } else { data[i] })
}

pub open spec fn swap(d: Seq<u32>, i: int, j: int) -> Seq<u32> {
    d.update(i, d[j]).update(j, d[i])
}

/// The box and key after `n` rounds of the key schedule over `ks`.
pub open spec fn ksa(ks: Seq<u8>, n: nat) -> (Seq<u32>, u32)
    decreases n,
{
    if n == 0 {
        (Seq::new(256, |i: int| i as u32), 0u32)
    } else {
        let (d, key) = ksa(ks, (n - 1) as nat);
        let i = n - 1;
        let key2 = ((key + d[i] + ks[i % 64]) % 256) as u32;
        (swap(d, i, key2 as int), key2)
    }
}

/// One round of the fold: shift right, folding in 12 when a one falls out.
pub open spec fn crc_step(p: u32) -> u32 {
    if p & 1 != 0 {
        (p >> 1u32) ^ 12u32
    } else {
        p >> 1u32
    }
}

pub open spec fn crc_rounds(p: u32, j: nat) -> u32
    decreases j,
{
    if j == 0 {
        p
    } else {
        crc_step(crc_rounds(p, (j - 1) as nat))
    }
}

/// The fold over the first `n` key bytes.
pub open spec fn prime_fold(ks: Seq<u8>, n: nat) -> u32
    decreases n,
{
    if n == 0 {
        0u32
    } else {
        crc_rounds(prime_fold(ks, (n - 1) as nat) ^ (ks[n - 1] as u32), 8)
    }
}

/// The step of the generator chosen by the key bytes.
pub open spec fn prime_step(ks: Seq<u8>) -> u32 {
    primes()[(prime_fold(ks, 64) & 7u32) as int]
}

/// The state of the generator: the box and the four counters.
pub struct Prga {
    pub d: Seq<u32>,
    pub k: u32,
    pub n: u32,
    pub p: u32,
    pub x: u32,
}

pub open spec fn prga_step(s: Prga, q: u32) -> Prga {
    let d = s.d;
    let k = ((s.k + q) % 256) as u32;
    let n = ((s.p + d[(s.n + d[k as int]) % 256]) % 256) as u32;
    let p = ((s.p + k + d[k as int]) % 256) as u32;
    let d2 = swap(d, k as int, n as int);
    let x = d2[(n + d2[(k + d2[(s.x + p) % 256]) % 256]) % 256];
    Prga { d: d2, k, n, p, x }
}

/// The generator after `j` steps from box `d0`.
pub open spec fn prga(d0: Seq<u32>, q: u32, j: nat) -> Prga
    decreases j,
{
    if j == 0 {
        Prga { d: d0, k: 0, n: 0, p: 0, x: 0 }
    } else {
        prga_step(prga(d0, q, (j - 1) as nat), q)
    }
}

/// The Latin-1 character of a byte.
pub open spec fn latin1(b: u8) -> char {
    b as char
}

/// The clear text of the first `j` cipher bytes.
pub open spec fn decipher(ct: Seq<u8>, d0: Seq<u32>, q: u32, j: nat) -> Seq<char>
    decreases j,
{
    if j == 0 {
        Seq::<char>::empty()
    } else {
        decipher(ct, d0, q, (j - 1) as nat).push(
            latin1(((ct[j - 1] as u32) ^ prga(d0, q, j).x) as u8),
        )
    }
}

/// The clear text of a decoded payload of at least 65 bytes.
pub open spec fn decrypted(data: Seq<u8>) -> Seq<char> {
    let u = unmask(data);
    let ks = u.take(64);
    let ct = u.skip(64);
    decipher(ct, ksa(ks, 256).0, prime_step(ks), ct.len())
}

/// What deciphering a decoded payload gives.
pub open spec fn decrypt_payload_spec(data: Seq<u8>) -> Result<Seq<char>, DecryptError> {
    if data.len() < 65 {
        Err(DecryptError::TooShort)
    } else {
        Ok(decrypted(data))
    }
}

/// What deciphering the base64 text of a payload gives.
pub open spec fn decrypt_pages_spec(encoded: Seq<char>) -> Result<Seq<char>, DecryptError> {
    match base64_standard_decode(encoded) {
        None => Err(DecryptError::Base64),
        Some(data) => decrypt_payload_spec(data),
    }
}

pub open spec fn result_view(r: Result<String, DecryptError>) -> Result<Seq<char>, DecryptError> {
    match r {
        Ok(s) => Ok(s@),
        Err(e) => Err(e),
    }
}

// ---------------------------------------------------------------------------
// Implementation
// ---------------------------------------------------------------------------

pub open spec fn is_box(d: Seq<u32>) -> bool {
    d.len() == 256 && forall|i: int| 0 <= i < 256 ==> d[i] < 256
}

fn host_byte(i: usize) -> (b: u8)
    requires
        i < 15,
    ensures
        b == host_bytes()[i as int],
{
    let host: Vec<u8> = vec![104u8, 101, 110, 116, 97, 105, 110, 101, 120, 117, 115, 46, 99, 111, 109];
    assert(host@ =~= host_bytes());
    host[i]
}

fn prime_at(i: u32) -> (r: u32)
    requires
        i < 8,
    ensures
        r == primes()[i as int],
{
    let table: Vec<u32> = vec![2u32, 3, 5, 7, 11, 13, 17, 19];
    assert(table@ =~= primes());
    table[i as usize]
}

fn swap_exec(d: &mut Vec<u32>, i: usize, j: usize)
    requires
        i < old(d).len(),
        j < old(d).len(),
    ensures
        final(d)@ == swap(old(d)@, i as int, j as int),
{
    let a = d[i];
    let b = d[j];
    d.set(i, b);
    d.set(j, a);
}

pub proof fn lemma_swap_box(d: Seq<u32>, i: int, j: int)
    requires
        is_box(d),
        0 <= i < 256,
        0 <= j < 256,
    ensures
        is_box(swap(d, i, j)),
{
}

/// The box built by the key schedule over the 64 key bytes.
fn key_schedule(ks: &Vec<u8>) -> (d: Vec<u32>)
    requires
        ks.len() == 64,
    ensures
        d@ == ksa(ks@, 256).0,
        is_box(d@),
{
    let mut d: Vec<u32> = Vec::new();
    let mut i: u32 = 0;
    while i < 256
        invariant
            i <= 256,
            d.len() == i,
            forall|j: int| 0 <= j < i ==> d@[j] == j as u32,
        decreases 256 - i,
    {
        d.push(i);
        i = i + 1;
    }
    assert(d@ =~= ksa(ks@, 0).0);
    let mut key: u32 = 0;
    let mut i: usize = 0;
    while i < 256
        invariant
            ks.len() == 64,
            i <= 256,
            (d@, key) == ksa(ks@, i as nat),
            is_box(d@),
            key < 256,
        decreases 256 - i,
    {
        key = (key + d[i] + ks[i % 64] as u32) % 256;
        proof {
            lemma_swap_box(d@, i as int, key as int);
        }
        swap_exec(&mut d, i, key as usize);
        i = i + 1;
    }
    d
}

fn crc_step_exec(p: u32) -> (r: u32)
    ensures
        r == crc_step(p),
        p < 256 ==> r < 256,
{
    if p & 1 != 0 {
        assert(p < 256 ==> (p >> 1u32) ^ 12u32 < 256) by (bit_vector);
        (p >> 1) ^ 12
    } else {
        assert(p < 256 ==> p >> 1u32 < 256) by (bit_vector);
        p >> 1
    }
}

/// The index of the generator step chosen by the key bytes.
fn prime_index(ks: &Vec<u8>) -> (r: u32)
    requires
        ks.len() == 64,
    ensures
        r == prime_fold(ks@, 64) & 7u32,
        r < 8,
{
    let mut p: u32 = 0;
    let mut i: usize = 0;
    while i < 64
        invariant
            ks.len() == 64,
            i <= 64,
            p == prime_fold(ks@, i as nat),
            p < 256,
        decreases 64 - i,
    {
        let b = ks[i] as u32;
        assert(p < 256 && b < 256 ==> p ^ b < 256) by (bit_vector);
        let start = p ^ b;
        p = start;
        let mut j: u32 = 0;
        while j < 8
            invariant
                j <= 8,
                p == crc_rounds(start, j as nat),
                p < 256,
            decreases 8 - j,
        {
            p = crc_step_exec(p);
            j = j + 1;
        }
        i = i + 1;
    }
    let r = p & 7;
    assert(p & 7u32 < 8) by (bit_vector);
    r
}

/// Deciphers a decoded payload.
pub fn decrypt_payload(data: Vec<u8>) -> (r: Result<String, DecryptError>)
    ensures
        result_view(r) == decrypt_payload_spec(data@),
{
    if data.len() < 65 {
        return Err(DecryptError::TooShort);
    }
    let ghost u = unmask(data@);
    let mut data = data;
    let ghost orig = data@;
    let mut i: usize = 0;
    while i < 15
        invariant
            orig.len() >= 65,
            i <= 15,
            data@.len() == orig.len(),
            forall|j: int| 0 <= j < i ==> data@[j] == orig[j] ^ host_bytes()[j],
            forall|j: int| i <= j < orig.len() ==> data@[j] == orig[j],
        decreases 15 - i,
    {
        let h = host_byte(i);
        let v = data[i] ^ h;
        data.set(i, v);
        i = i + 1;
    }
    assert(data@ =~= u);
    let mut ks: Vec<u8> = Vec::new();
    let mut i: usize = 0;
    while i < 64
        invariant
            data@ == u,
            u.len() >= 65,
            i <= 64,
            ks@ == u.take(i as int),
        decreases 64 - i,
    {
        ks.push(data[i]);
        assert(u.take(i + 1) =~= u.take(i as int).push(u[i as int]));
        i = i + 1;
    }
    let ghost ct = u.skip(64);
    let mut d = key_schedule(&ks);
    let q = prime_at(prime_index(&ks));
    let ghost d0 = d@;
    let mut k: u32 = 0;
    let mut n: u32 = 0;
    let mut p: u32 = 0;
    let mut x: u32 = 0;
    let mut out = String::new();
    let mut j: usize = 64;
    while j < data.len()
        invariant
            data@ == u,
            u.len() >= 65,
            ct == u.skip(64),
            q == prime_step(ks@),
            q < 20,
            d0 == ksa(ks@, 256).0,
            64 <= j <= data.len(),
            is_box(d@),
            k < 256,
            n < 256,
            p < 256,
            x < 256,
            prga(d0, q, (j - 64) as nat) == (Prga { d: d@, k, n, p, x }),
            out@ == decipher(ct, d0, q, (j - 64) as nat),
        decreases data.len() - j,
    {
        k = (k + q) % 256;
        n = (p + d[((n as usize) + (d[k as usize] as usize)) % 256]) % 256;
        p = (p + k + d[k as usize]) % 256;
        proof {
            lemma_swap_box(d@, k as int, n as int);
        }
        swap_exec(&mut d, k as usize, n as usize);
        let a = d[((x as usize) + (p as usize)) % 256] as usize;
        let b = d[((k as usize) + a) % 256] as usize;
        x = d[((n as usize) + b) % 256];
        let c = data[j] as u32;
        assert(c < 256 && x < 256 ==> c ^ x < 256) by (bit_vector);
        let byte = (c ^ x) as u8;
        push_char(&mut out, byte as char);
        assert(ct[(j + 1 - 64) - 1] == data@[j as int]);
        j = j + 1;
    }
    assert(ct.len() == j - 64);
    Ok(out)
}

/// Deciphers the page list carried by a reader page.
pub fn decrypt_pages(encoded: &str) -> (r: Result<String, DecryptError>)
    ensures
        result_view(r) == decrypt_pages_spec(encoded@),
{
    match standard_decode(encoded) {
        Ok(data) => decrypt_payload(data),
        Err(_) => Err(DecryptError::Base64),
    }
}

} // verus!
