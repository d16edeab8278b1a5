use aidoku_sources::decrypt::{decrypt_pages, decrypt_payload, DecryptError};
use base64::Engine;

const HOST: &[u8] = b"hentainexus.com";

/// An independent straightforward implementation used as an oracle.
fn oracle(mut data: Vec<u8>) -> String {
    for (i, h) in HOST.iter().enumerate() {
        data[i] ^= h;
    }
    let ks: Vec<u32> = data[..64].iter().map(|&b| b as u32).collect();
    let ct: Vec<u32> = data[64..].iter().map(|&b| b as u32).collect();
    let mut d: Vec<u32> = (0..256).collect();
    let mut key = 0u32;
    for i in 0..256usize {
        key = (key + d[i] + ks[i % 64]) % 256;
        d.swap(i, key as usize);
    }
    let mut p = 0u32;
    for &b in ks.iter() {
        p ^= b;
        for _ in 0..8 {
            p = if p & 1 == 1 { (p >> 1) ^ 12 } else { p >> 1 };
        }
    }
    let q = [2u32, 3, 5, 7, 11, 13, 17, 19][(p & 7) as usize];
    let (mut k, mut n, mut pp, mut x) = (0u32, 0u32, 0u32, 0u32);
    let mut out = String::new();
    for c in ct {
        k = (k + q) % 256;
        n = (pp + d[((n + d[k as usize]) % 256) as usize]) % 256;
        pp = (pp + k + d[k as usize]) % 256;
        d.swap(k as usize, n as usize);
        let a = d[((x + pp) % 256) as usize];
        let b = d[((k + a) % 256) as usize];
        x = d[((n + b) % 256) as usize];
        out.push(((c ^ x) as u8) as char);
    }
    out
}

fn key_bytes(seed: u8) -> Vec<u8> {
    (0..64u32).map(|i| (i as u8).wrapping_mul(37).wrapping_add(seed)).collect()
}

#[test]
fn short_payload_is_refused() {
    assert_eq!(decrypt_payload(vec![0u8; 64]), Err(DecryptError::TooShort));
    assert_eq!(decrypt_payload(Vec::new()), Err(DecryptError::TooShort));
}

#[test]
fn invalid_base64_is_refused() {
    assert_eq!(decrypt_pages("not base64!"), Err(DecryptError::Base64));
    assert_eq!(decrypt_pages("QQ="), Err(DecryptError::Base64));
}

#[test]
fn decoded_but_short_payload_is_refused() {
    let enc = base64::engine::general_purpose::STANDARD.encode([1u8, 2, 3]);
    assert_eq!(decrypt_pages(&enc), Err(DecryptError::TooShort));
}

#[test]
fn payload_matches_oracle() {
    for seed in [0u8, 1, 99, 200] {
        let mut data = key_bytes(seed);
        data.extend((0..300u32).map(|i| (i * 7 + seed as u32) as u8));
        assert_eq!(decrypt_payload(data.clone()).unwrap(), oracle(data));
    }
}

#[test]
fn known_text_round_trips() {
    let plain = r#"[{"type":"image","image":"https://example.org/1.jpg"}]"#;
    let mut zeros = key_bytes(5);
    zeros.extend(std::iter::repeat(0u8).take(plain.len()));
    // With a zero cipher text the clear text is the key stream itself.
    let stream: Vec<u8> = decrypt_payload(zeros).unwrap().chars().map(|c| c as u32 as u8).collect();
    let mut data = key_bytes(5);
    data.extend(plain.bytes().zip(stream.iter()).map(|(a, b)| a ^ b));
    let clear = decrypt_payload(data.clone()).unwrap();
    assert_eq!(clear, plain);
    assert_eq!(clear.chars().count(), data.len() - 64);
    let enc = base64::engine::general_purpose::STANDARD.encode(&data);
    assert_eq!(decrypt_pages(&enc).unwrap(), plain);
}

#[test]
fn one_char_per_cipher_byte_in_latin1() {
    let mut data = key_bytes(42);
    data.extend((0..=255u8).collect::<Vec<_>>());
    let clear = decrypt_payload(data).unwrap();
    assert_eq!(clear.chars().count(), 256);
    assert!(clear.chars().all(|c| (c as u32) < 256));
}

#[test]
fn key_stream_depends_on_key_bytes_only() {
    let mut a = key_bytes(9);
    a.extend([1u8, 2, 3, 4, 5]);
    let mut b = key_bytes(9);
    b.extend([200u8, 0, 77]);
    let sa: Vec<u32> = decrypt_payload(a.clone()).unwrap().chars().map(|c| c as u32).collect();
    let sb: Vec<u32> = decrypt_payload(b.clone()).unwrap().chars().map(|c| c as u32).collect();
    for i in 0..3 {
        assert_eq!(sa[i] ^ sb[i], (a[64 + i] ^ b[64 + i]) as u32);
    }
}

#[test]
fn deciphering_twice_gives_cipher_text() {
    let mut data = key_bytes(17);
    data.extend((0..100u8).map(|i| i.wrapping_mul(13)));
    let clear = decrypt_payload(data.clone()).unwrap();
    let mut again = data[..64].to_vec();
    again.extend(clear.chars().map(|c| c as u32 as u8));
    let back = decrypt_payload(again).unwrap();
    let want: String = data[64..].iter().map(|&b| b as char).collect();
    assert_eq!(back, want);
}
