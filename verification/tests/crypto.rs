use pq_chat::crypto::{
    aes_open, aes_seal, aes_seal_with, dilithium_sign, dilithium_verify,
    generate_dilithium_keypair, generate_kyber_keypair, message_signed_payload, random_group_key,
    seal_envelope, unwrap_group_key, wrap_group_key_for, DILITHIUM_PUBLIC_KEY_BYTES,
    DILITHIUM_SECRET_KEY_BYTES, DILITHIUM_SIGNATURE_BYTES, ENVELOPE_BYTES, KYBER_CIPHERTEXT_BYTES,
    KYBER_PUBLIC_KEY_BYTES, KYBER_SECRET_KEY_BYTES,
};
use pq_chat::encoding::{decode, decode_field};
use pq_chat::error::ChatError;

fn hex(text: &str) -> Vec<u8> {
    (0..text.len() / 2)
        .map(|i| u8::from_str_radix(&text[2 * i..2 * i + 2], 16).unwrap())
        .collect()
}

fn failure<T>(result: Result<T, ChatError>) -> String {
    match result {
        Ok(_) => panic!("an error was expected"),
        Err(error) => error.full_text(),
    }
}

#[test]
fn kyber_wrap_round_trip() -> Result<(), ChatError> {
    let (pk, sk) = generate_kyber_keypair();
    let key = random_group_key();
    let env = wrap_group_key_for(&pk, &key)?;
    let recovered = unwrap_group_key(&sk, &env)?;
    assert_eq!(key, recovered);
    Ok(())
}

#[test]
fn dilithium_round_trip() -> Result<(), ChatError> {
    let (pk, sk) = generate_dilithium_keypair();
    let msg = b"hello quantum";
    let sig = dilithium_sign(&sk, msg)?;
    dilithium_verify(&pk, msg, &sig)?;
    Ok(())
}

#[test]
fn aes_round_trip() -> Result<(), ChatError> {
    let key = random_group_key();
    let (nonce, ct) = aes_seal(&key, b"top secret")?;
    let pt = aes_open(&key, &nonce, &ct)?;
    assert_eq!(pt, b"top secret");
    Ok(())
}

#[test]
fn keys_and_signatures_have_their_lengths() {
    let (pk, sk) = generate_kyber_keypair();
    assert_eq!((pk.len(), sk.len()), (1184, 2400));
    assert_eq!((pk.len(), sk.len()), (KYBER_PUBLIC_KEY_BYTES, KYBER_SECRET_KEY_BYTES));
    let wrapped = wrap_group_key_for(&pk, &[7; 32]).unwrap();
    assert_eq!(wrapped.len(), 1120);
    assert_eq!((KYBER_CIPHERTEXT_BYTES, ENVELOPE_BYTES), (1088, 1120));

    let (pk, sk) = generate_dilithium_keypair();
    assert_eq!((pk.len(), sk.len()), (1952, 4032));
    assert_eq!((pk.len(), sk.len()), (DILITHIUM_PUBLIC_KEY_BYTES, DILITHIUM_SECRET_KEY_BYTES));
    let sig = dilithium_sign(&sk, b"").unwrap();
    assert_eq!(sig.len(), 3309);
    assert_eq!(sig.len(), DILITHIUM_SIGNATURE_BYTES);
}

#[test]
fn generated_values_are_fresh() {
    assert_ne!(generate_kyber_keypair(), generate_kyber_keypair());
    assert_ne!(generate_dilithium_keypair(), generate_dilithium_keypair());
    assert_ne!(random_group_key(), random_group_key());
    let (nonce_a, _) = aes_seal(&[0; 32], b"x").unwrap();
    let (nonce_b, _) = aes_seal(&[0; 32], b"x").unwrap();
    assert_eq!((nonce_a.len(), nonce_b.len()), (12, 12));
    assert_ne!(nonce_a, nonce_b);
    let (pk, _) = generate_kyber_keypair();
    assert_ne!(wrap_group_key_for(&pk, &[0; 32]).unwrap(), wrap_group_key_for(&pk, &[0; 32]).unwrap());
}

#[test]
fn envelope_is_ciphertext_and_masked_key() {
    let key = [0b1010_1010u8; 32];
    let ss = [0b1111_0000u8; 32];
    let wrapped = seal_envelope(&[1, 2, 3], &ss, &key);
    let mut expected = vec![1, 2, 3];
    expected.extend([0b0101_1010u8; 32]);
    assert_eq!(wrapped, expected);
}

#[test]
fn flipping_a_masked_bit_flips_the_key_bit() {
    let (pk, sk) = generate_kyber_keypair();
    let key = [0x55u8; 32];
    let mut wrapped = wrap_group_key_for(&pk, &key).unwrap();
    wrapped[1088] ^= 1;
    let mut other = key;
    other[0] ^= 1;
    assert_eq!(unwrap_group_key(&sk, &wrapped).unwrap(), other);
}

#[test]
fn another_secret_key_does_not_open_an_envelope() {
    let (pk, _) = generate_kyber_keypair();
    let (_, sk) = generate_kyber_keypair();
    let wrapped = wrap_group_key_for(&pk, &[3; 32]).unwrap();
    assert_ne!(unwrap_group_key(&sk, &wrapped).unwrap(), [3; 32]);
}

#[test]
fn malformed_kyber_input_is_refused() {
    assert_eq!(
        failure(wrap_group_key_for(&[1, 2, 3], &[0; 32])),
        "invalid recipient Kyber pubkey: BadLength { name: \"PublicKey\", actual: 3, expected: 1184 }"
    );
    assert_eq!(
        failure(unwrap_group_key(&[0; 2400], &[0; 1121])),
        "wrapped envelope wrong size: got 1121, expected 1120"
    );
    assert_eq!(
        failure(unwrap_group_key(&[0; 5], &[0; 7])),
        "wrapped envelope wrong size: got 7, expected 1120"
    );
    assert_eq!(
        failure(unwrap_group_key(&[0; 2399], &[0; 1120])),
        "invalid Kyber secret key: BadLength { name: \"SecretKey\", actual: 2399, expected: 2400 }"
    );
}

#[test]
fn signing_depends_on_key_and_message_alone() {
    let (_, sk) = generate_dilithium_keypair();
    let (_, other) = generate_dilithium_keypair();
    let sig = dilithium_sign(&sk, b"same").unwrap();
    assert_eq!(sig, dilithium_sign(&sk, b"same").unwrap());
    assert_ne!(sig, dilithium_sign(&sk, b"else").unwrap());
    assert_ne!(sig, dilithium_sign(&other, b"same").unwrap());
}

#[test]
fn wrong_signatures_are_refused() {
    let (pk, sk) = generate_dilithium_keypair();
    let (other_pk, _) = generate_dilithium_keypair();
    let sig = dilithium_sign(&sk, b"message").unwrap();
    let refused = "Dilithium3 signature verification failed";
    assert_eq!(failure(dilithium_verify(&pk, b"massage", &sig)), refused);
    assert_eq!(failure(dilithium_verify(&other_pk, b"message", &sig)), refused);
    assert_eq!(failure(dilithium_verify(&pk, b"message", &sig[..3308])), refused);
    assert_eq!(failure(dilithium_verify(&pk, b"message", &[])), refused);
}

#[test]
fn malformed_dilithium_input_is_refused() {
    let (pk, _) = generate_dilithium_keypair();
    assert_eq!(
        failure(dilithium_sign(&[0; 10], b"m")),
        "invalid Dilithium3 secret key: BadLength { name: \"SecretKey\", actual: 10, expected: 4032 }"
    );
    assert_eq!(
        failure(dilithium_verify(&[], b"m", &[0; 4000])),
        "invalid Dilithium3 public key: BadLength { name: \"PublicKey\", actual: 0, expected: 1952 }"
    );
    assert_eq!(
        failure(dilithium_verify(&pk, b"m", &[0; 3310])),
        "invalid Dilithium3 signature: BadLength { name: \"DetachedSignature\", actual: 3310, expected: 3309 }"
    );
}

#[test]
fn aes_gcm_gives_the_published_values() {
    assert_eq!(
        aes_seal_with(&[0; 32], &[0; 12], &[]).unwrap(),
        hex("530f8afbc74536b9a963b4f1c4cb738b")
    );
    assert_eq!(
        aes_seal_with(&[0; 32], &[0; 12], &[0; 16]).unwrap(),
        hex("cea7403d4d606b6e074ec5d3baf39d18d0d1c8a799996bf0265b98b5d48ab919")
    );
    assert_eq!(
        aes_open(&[0; 32], &[0; 12], &hex("530f8afbc74536b9a963b4f1c4cb738b")).unwrap(),
        Vec::<u8>::new()
    );
}

#[test]
fn tampered_ciphertexts_do_not_open() {
    let key = [9u8; 32];
    let (nonce, ct) = aes_seal(&key, b"text").unwrap();
    let refused = "AES-GCM open failed: aead::Error";
    let mut flipped = ct.clone();
    flipped[0] ^= 1;
    assert_eq!(failure(aes_open(&key, &nonce, &flipped)), refused);
    assert_eq!(failure(aes_open(&[8; 32], &nonce, &ct)), refused);
    assert_eq!(failure(aes_open(&key, &[0; 12], &ct)), refused);
    assert_eq!(failure(aes_open(&key, &nonce, &ct[..15])), refused);
    assert_eq!(failure(aes_open(&key, &nonce, &[])), refused);
}

#[test]
fn nonces_of_other_lengths_are_refused() {
    assert_eq!(
        failure(aes_open(&[0; 32], &[0; 11], &[0; 20])),
        "AES-GCM nonce must be 12 bytes, got 11"
    );
    assert_eq!(failure(aes_open(&[0; 32], &[], &[])), "AES-GCM nonce must be 12 bytes, got 0");
}

#[test]
fn signed_payload_is_server_epoch_nonce_ciphertext() {
    let server = 0x00112233445566778899aabbccddeeffu128;
    let payload = message_signed_payload(&server, 0x0102030405060708, &[0xa0, 0xa1], &[0xb0]);
    assert_eq!(payload, hex("00112233445566778899aabbccddeeff0807060504030201a0a1b0"));
    assert_eq!(message_signed_payload(&0, 0, &[], &[]), vec![0; 24]);
}

#[test]
fn signed_payloads_differ_in_every_part() {
    let base = message_signed_payload(&1, 2, &[3; 12], &[4]);
    assert_ne!(base, message_signed_payload(&2, 2, &[3; 12], &[4]));
    assert_ne!(base, message_signed_payload(&1, 3, &[3; 12], &[4]));
    assert_ne!(base, message_signed_payload(&1, 2, &[5; 12], &[4]));
    assert_ne!(base, message_signed_payload(&1, 2, &[3; 12], &[4, 4]));
}

#[test]
fn base64_is_decoded() {
    assert_eq!(decode("").unwrap(), Vec::<u8>::new());
    assert_eq!(decode("AAEC/w==").unwrap(), vec![0, 1, 2, 255]);
    assert_eq!(failure(decode("AA!C")), "Invalid symbol 33, offset 2.");
    assert_eq!(failure(decode_field("AA!C", "nonce b64")), "nonce b64: Invalid symbol 33, offset 2.");
    assert_eq!(decode_field("Zm9v", "nonce b64").unwrap(), b"foo");
}
