//! The page-list cipher written out step by step: the key bytes, each round
//! of the key schedule and each step of the generator, and how the clear
//! text follows from them.
use vstd::prelude::*;

use crate::decrypt::{decrypt_payload_spec, decrypted, prime_fold, DecryptError, Prga};

verus! {

/// A state of the generator: the box, the counters `k`, `n`, `p`, and the
/// last output byte `x`.
pub type GenState = (Seq<u32>, u32, u32, u32, u32);

/// The `i`-th key byte of a payload: its byte, masked by the bytes of the
/// host name `hentainexus.com` within the first 15.
pub open spec fn key_byte(data: Seq<u8>, i: int) -> u8 {
    if i < 15 {
        data[i] ^ seq![104u8, 101, 110, 116, 97, 105, 110, 101, 120, 117, 115, 46, 99, 111, 109][i]
    } else {
        data[i]
    }
}

/// The 64 key bytes of a payload.
pub open spec fn key_bytes(data: Seq<u8>) -> Seq<u8> {
    Seq::new(64, |i: int| key_byte(data, i))
}

/// Round `i` of the key schedule: the key moves by the box entry `i` and the
/// key byte `i mod 64`, and the entries at `i` and at the key are exchanged.
pub open spec fn schedule_round(s: (Seq<u32>, u32), data: Seq<u8>, i: int) -> (Seq<u32>, u32) {
    let d = s.0;
    let key = (s.1 + d[i] + key_byte(data, i % 64)) % 256;
    (d.update(i, d[key]).update(key, d[i]), key as u32)
}

/// One step of the generator with step `q`: `k` moves by `q`, `n` and `p`
/// follow from the box, the entries at `k` and `n` are exchanged, and the
/// output byte is read through the new box.
pub open spec fn generator_step(s: GenState, q: u32) -> GenState {
    let d = s.0;
    let k = (s.1 + q) % 256;
    let n = (s.3 + d[(s.2 + d[k]) % 256]) % 256;
    let p = (s.3 + k + d[k]) % 256;
    let e = d.update(k, d[n]).update(n, d[k]);
    (e, k as u32, n as u32, p as u32, e[(n + e[(k + e[(s.4 + p) % 256]) % 256]) % 256])
}

/// `rounds[i + 1]` is round `i` of the key schedule applied to `rounds[i]`.
pub open spec fn schedule_follows(rounds: Seq<(Seq<u32>, u32)>, data: Seq<u8>, i: int) -> bool {
    rounds[i + 1] == schedule_round(rounds[i], data, i)
}

/// `states[j + 1]` is one step of the generator with step `q` from `states[j]`.
pub open spec fn generator_follows(states: Seq<GenState>, q: u32, j: int) -> bool {
    states[j + 1] == generator_step(states[j], q)
}

/// One bit of the fold: shift right, folding in 12 when a one falls out.
pub open spec fn fold_bit(p: u32) -> u32 {
    if p & 1u32 != 0 {
        (p >> 1u32) ^ 12u32
    } else {
        p >> 1u32
    }
}

/// The fold of one byte: eight bits.
pub open spec fn fold_byte(p: u32) -> u32 {
    fold_bit(fold_bit(fold_bit(fold_bit(fold_bit(fold_bit(fold_bit(fold_bit(p))))))))
}

/// `folds[i + 1]` folds key byte `i` into `folds[i]`.
pub open spec fn fold_follows(folds: Seq<u32>, data: Seq<u8>, i: int) -> bool {
    folds[i + 1] == fold_byte(folds[i] ^ (key_byte(data, i) as u32))
}

/// The step of the generator picked by the fold `f` of the key bytes:
/// the prime `[2, 3, 5, 7, 11, 13, 17, 19][f & 7]`.
pub open spec fn step_of_fold(f: u32) -> u32 {
    seq![2u32, 3, 5, 7, 11, 13, 17, 19][(f & 7u32) as int]
}

proof fn lemma_folds_are_prime_fold(data: Seq<u8>, folds: Seq<u32>, m: int)
    requires
        data.len() >= 64,
        0 <= m <= 64,
        folds.len() == 65,
        folds[0] == 0,
        forall|i: int| 0 <= i < 64 ==> #[trigger] fold_follows(folds, data, i),
    ensures
        folds[m] == prime_fold(key_bytes(data), m as nat),
    decreases m,
{
    if m > 0 {
        lemma_folds_are_prime_fold(data, folds, m - 1);
        assert(fold_follows(folds, data, m - 1));
        reveal_with_fuel(crate::decrypt::crc_rounds, 9);
    }
}

spec fn state_of(s: Prga) -> GenState {
    (s.d, s.k, s.n, s.p, s.x)
}

proof fn lemma_rounds_are_schedule(data: Seq<u8>, rounds: Seq<(Seq<u32>, u32)>, m: int)
    requires
        data.len() >= 64,
        0 <= m <= 256,
        rounds.len() == 257,
        rounds[0] == (Seq::new(256, |i: int| i as u32), 0u32),
        forall|i: int| 0 <= i < 256 ==> #[trigger] schedule_follows(rounds, data, i),
    ensures
        rounds[m] == crate::decrypt::ksa(key_bytes(data), m as nat),
    decreases m,
{
    let ks = key_bytes(data);
    if m == 0 {
        assert(rounds[0].0 =~= crate::decrypt::ksa(ks, 0).0);
    } else {
        lemma_rounds_are_schedule(data, rounds, m - 1);
        assert(schedule_follows(rounds, data, m - 1));
        let i = m - 1;
        assert(ks[i % 64] == key_byte(data, i % 64));
    }
}

proof fn lemma_states_are_generator(states: Seq<GenState>, d0: Seq<u32>, q: u32, m: int)
    requires
        0 <= m < states.len(),
        states[0] == (d0, 0u32, 0u32, 0u32, 0u32),
        forall|j: int| 0 <= j < states.len() - 1 ==> #[trigger] generator_follows(states, q, j),
    ensures
        states[m] == state_of(crate::decrypt::prga(d0, q, m as nat)),
    decreases m,
{
    if m > 0 {
        lemma_states_are_generator(states, d0, q, m - 1);
        assert(generator_follows(states, q, m - 1));
    }
}

/// The page-list cipher (`decrypt_payload`) step by step. Take any payload
/// of at least 65 bytes; let `rounds` run the key schedule from the identity
/// box and key 0 through its 256 rounds over the key bytes; let `states` run
/// let `folds` fold the 64 key bytes in turn from 0, eight bits a byte; let
/// `states` run the generator from the final box with all counters 0, each
/// state one step after the last, with the one step
/// `q = [2, 3, 5, 7, 11, 13, 17, 19][fold & 7]` picked by the final fold and
/// used at every position. Then the payload is
/// deciphered, its clear text has one character per cipher byte, and the
/// `i`-th character is cipher byte `i` XOR the output of state `i + 1`.
pub proof fn law_cipher_step_by_step(
    data: Seq<u8>,
    rounds: Seq<(Seq<u32>, u32)>,
    folds: Seq<u32>,
    states: Seq<GenState>,
)
    requires
        data.len() >= 65,
        rounds.len() == 257,
        rounds[0] == (Seq::new(256, |i: int| i as u32), 0u32),
        forall|i: int| 0 <= i < 256 ==> #[trigger] schedule_follows(rounds, data, i),
        folds.len() == 65,
        folds[0] == 0,
        forall|i: int| 0 <= i < 64 ==> #[trigger] fold_follows(folds, data, i),
        states.len() == data.len() - 63,
        states[0] == (rounds[256].0, 0u32, 0u32, 0u32, 0u32),
        forall|j: int|
            0 <= j < data.len() - 64 ==> #[trigger] generator_follows(states, step_of_fold(folds[64]), j),
    ensures
        decrypt_payload_spec(data) == Ok::<Seq<char>, DecryptError>(decrypted(data)),
        decrypted(data).len() == data.len() - 64,
        forall|i: int|
            0 <= i < data.len() - 64 ==> #[trigger] decrypted(data)[i] == ((((data[64 + i]
                as u32) ^ states[i + 1].4) as u8) as char),
{
    let ks = crate::decrypt::unmask(data).take(64);
    assert(ks =~= key_bytes(data));
    lemma_rounds_are_schedule(data, rounds, 256);
    let d0 = crate::decrypt::ksa(ks, 256).0;
    let q = crate::decrypt::prime_step(ks);
    lemma_folds_are_prime_fold(data, folds, 64);
    assert(q == step_of_fold(folds[64]));
    lemma_states_are_generator(states, d0, q, 0);
    crate::laws::law_decrypted_length(data);
    assert forall|i: int| 0 <= i < data.len() - 64 implies #[trigger] decrypted(data)[i] == ((((
    data[64 + i] as u32) ^ states[i + 1].4) as u8) as char) by {
        lemma_states_are_generator(states, d0, q, i + 1);
        crate::laws::lemma_decrypted_at(data, i);
    }
}

/// When the reader's page list is refused (`decrypt_pages`): text that is
/// not standard base64 is refused as such, a decoded payload of fewer than
/// 65 bytes (64 key bytes and at least one cipher byte) as too short, and
/// any other payload is deciphered.
pub proof fn law_cipher_refusals(encoded: Seq<char>)
    ensures
        crate::decrypt::base64_standard_decode(encoded) is None
            ==> crate::decrypt::decrypt_pages_spec(encoded) == Err::<Seq<char>, DecryptError>(
            DecryptError::Base64,
        ),
        crate::decrypt::base64_standard_decode(encoded) matches Some(data)
            ==> crate::decrypt::decrypt_pages_spec(encoded) == (if data.len() < 65 {
            Err::<Seq<char>, DecryptError>(DecryptError::TooShort)
        } else {
            Ok::<Seq<char>, DecryptError>(decrypted(data))
        }),
{
}

} // verus!
