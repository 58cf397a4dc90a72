use sha1_macros::digest;

fn bytes_of_hex(text: &str) -> Vec<u8> {
    let digits: Vec<u8> = text
        .chars()
        .map(|c| c.to_digit(16).expect("a hexadecimal digit") as u8)
        .collect();
    digits.chunks(2).map(|pair| pair[0] * 16 + pair[1]).collect()
}

fn check_digest(message: &[u8], expected: &str) {
    assert_eq!(digest(message).to_vec(), bytes_of_hex(expected));
}

#[test]
fn digest_of_empty_message() {
    check_digest(b"", "da39a3ee5e6b4b0d3255bfef95601890afd80709");
}

#[test]
fn digest_of_this_is_a_test() {
    check_digest(b"this is a test", "fa26be19de6bff93f70bc2308434e4a440bbad02");
    assert_eq!(
        digest(b"this is a test"),
        [
            0xfa, 0x26, 0xbe, 0x19, 0xde, 0x6b, 0xff, 0x93, 0xf7, 0x0b, 0xc2, 0x30, 0x84, 0x34,
            0xe4, 0xa4, 0x40, 0xbb, 0xad, 0x02
        ]
    );
}

#[test]
fn digest_of_abc() {
    check_digest(b"abc", "a9993e364706816aba3e25717850c26c9cd0d89d");
}

#[test]
fn digest_of_a_sentence() {
    check_digest(
        b"The quick brown fox jumps over the lazy dog",
        "2fd4e1c67a2d28fced849ee1bb76e7391b93eb12",
    );
}

#[test]
fn digest_of_a_message_that_fills_a_block_but_for_the_length() {
    check_digest(
        b"abcdbcdecdefdefgefghfghighijhijkijkljklmklmnlmnomnopnopq",
        "84983e441c3bd26ebaae4aa1f95129e5e54670f1",
    );
}

#[test]
fn digest_around_the_block_boundaries() {
    check_digest(&[b'a'; 55], "c1c8bbdc22796e28c0e15163d20899b65621d65a");
    check_digest(&[b'a'; 56], "c2db330f6083854c99d4b5bfb6e8f29f201be699");
    check_digest(&[b'a'; 63], "03f09f5b158a7a8cdad920bddc29b81c18a551f5");
    check_digest(&[b'a'; 64], "0098ba824b5c16427bd7a1122a5a442a25ec644d");
    check_digest(&[b'a'; 65], "11655326c708d70319be2610e8a57d9a5b959d3b");
    check_digest(&[b'a'; 119], "ee971065aaa017e0632a8ca6c77bb3bf8b1dfc56");
    check_digest(&[b'a'; 120], "f34c1488385346a55709ba056ddd08280dd4c6d6");
}

#[test]
fn digest_of_every_byte_value() {
    let message: Vec<u8> = (0..=255u8).collect();
    check_digest(&message, "4916d6bdb7f78e6803698cab32d1586ea457dfc8");
}

#[test]
fn digest_of_single_bytes() {
    check_digest(&[0x00], "5ba93c9db0cff93f52b521d7420e43f6eda2784f");
    check_digest(&[0x01], "bf8b4530d8d246dd74ac53a13471bba17941dff7");
}

#[test]
fn digest_has_twenty_bytes() {
    for len in 0..200usize {
        let message = vec![0x5a_u8; len];
        assert_eq!(digest(&message).len(), 20);
    }
}

#[test]
fn digest_is_deterministic() {
    let messages: [&[u8]; 4] = [b"", b"a", b"this is a test", &[0xff; 300]];
    for message in messages {
        let first = digest(message);
        let second = digest(message);
        let copy = message.to_vec();
        assert_eq!(first, second);
        assert_eq!(first, digest(&copy));
    }
}

#[test]
fn digest_is_not_the_message() {
    let message = [7u8; 20];
    assert_ne!(digest(&message), message);
}

#[test]
fn digests_differ_when_one_bit_differs() {
    let samples: [&[u8]; 5] = [
        b"this is a test",
        b"a",
        b"The quick brown fox jumps over the lazy dog",
        &[0u8; 64],
        &[0xa5; 100],
    ];
    for sample in samples {
        let base = digest(sample);
        for position in 0..sample.len() {
            for bit in 0..8 {
                let mut changed = sample.to_vec();
                changed[position] ^= 1 << bit;
                let other = digest(&changed);
                assert_ne!(base, other);
                let differing: u32 = base
                    .iter()
                    .zip(other.iter())
                    .map(|(x, y)| (x ^ y).count_ones())
                    .sum();
                assert!(differing >= 30, "only {} bits differ", differing);
            }
        }
    }
}

#[test]
fn digest_of_a_neighbouring_message() {
    check_digest(b"this is a tesu", "021f424fa5e8b36d8aa6853f3c7d7a575fd68adb");
}
