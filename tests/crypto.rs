use nyx::builder::TransactionBuilder;
use nyx::stealth::{generate_keypair_ed25519, generate_stealth_address, is_mine};
use nyx::encryption::{decrypt, decrypt_with_aad, encrypt, encrypt_with_aad, encrypt_with_nonce, generate_key};
use nyx::hash::{blake3_hash, double_blake3, hash_to_hex, hex_to_hash};
use nyx::keys::{generate_keypair, sign, verify, PQ_SIGNATURE_SIZE};
use nyx::ring::{
    generate_key_image, generate_ring_signature, key_images_equal, validate_key_image,
    verify_ring_signature, RING_SIZE,
};

#[test]
fn test_hex_to_hash_invalid_length() {
    assert!(hex_to_hash("abcd").is_none());
}

#[test]
fn test_hex_to_hash_invalid_chars() {
    let invalid = "g".repeat(64);
    assert!(hex_to_hash(&invalid).is_none());
}

#[test]
fn hex_round_trip() {
    let original = blake3_hash(b"test");
    let hex = hash_to_hex(&original);
    assert_eq!(hex.len(), 64);
    assert_eq!(hash_to_hex(&[0xabu8; 32]), "ab".repeat(32));
    assert_eq!(hex_to_hash(&hex).unwrap(), original);
    assert_eq!(hex_to_hash(&"0F".repeat(32)).unwrap(), [15u8; 32]);
}

#[test]
fn blake3_values() {
    assert_eq!(
        hash_to_hex(&blake3_hash(b"")),
        "af1349b9f5f9a1a6a0404dea36dcc9499bcb25c9adc112b7cc9a93cae41f3262"
    );
    let single = blake3_hash(b"test");
    let double = double_blake3(b"test");
    assert_ne!(single, double);
    assert_eq!(double, blake3_hash(&single));
}

#[test]
fn test_sign_invalid_key_size() {
    let data = b"test";
    let invalid_key = vec![0u8; 100];
    assert!(sign(data, &invalid_key).is_err());
}

#[test]
fn sign_then_verify() {
    let kp = generate_keypair();
    assert_eq!(kp.private_key()[..32], blake3_hash(kp.public_key()));
    let sig = sign(b"data", kp.private_key()).unwrap();
    assert_eq!(sig.len(), PQ_SIGNATURE_SIZE);
    assert_eq!(verify(b"data", &sig, kp.public_key()).unwrap(), true);
    assert_eq!(verify(b"other", &sig, kp.public_key()).unwrap(), false);
    assert!(verify(b"data", &sig[..10], kp.public_key()).is_err());
    assert!(verify(b"data", &sig, &[1u8; 3]).is_err());
}

#[test]
fn test_generate_key_image() {
    let private_key = vec![1u8; 100];
    let ki1 = generate_key_image(&private_key);
    let ki2 = generate_key_image(&private_key);
    assert_eq!(ki1, ki2);
    assert_eq!(ki1.len(), 32);
    let mut data = private_key.clone();
    data.extend_from_slice(b"key_image");
    assert_eq!(ki1, blake3_hash(&data));
}

#[test]
fn test_different_keys_different_images() {
    let ki1 = generate_key_image(&[1u8; 100]);
    let ki2 = generate_key_image(&[2u8; 100]);
    assert_ne!(ki1, ki2);
}

#[test]
fn test_key_images_equal() {
    let ki1 = generate_key_image(&[1u8; 100]);
    let ki2 = generate_key_image(&[1u8; 100]);
    let ki3 = generate_key_image(&[2u8; 100]);
    assert!(key_images_equal(&ki1, &ki2));
    assert!(!key_images_equal(&ki1, &ki3));
}

#[test]
fn test_validate_key_image() {
    let valid = generate_key_image(&[1u8; 100]);
    assert!(validate_key_image(&valid).is_ok());
    let invalid = [0u8; 32];
    assert!(validate_key_image(&invalid).is_err());
}

#[test]
fn ring_signature_sign_and_verify() {
    let kp = generate_keypair();
    let decoy = generate_keypair();
    let ring = vec![kp.public_key().to_vec(), decoy.public_key().to_vec()];
    let sig = generate_ring_signature(b"test", kp.private_key(), kp.public_key(), &ring).unwrap();
    assert_eq!(sig.ring_size(), 2);
    assert!(sig.contains_member(kp.public_key()));
    assert_eq!(sig.signature.len(), 96);
    assert_eq!(sig.key_image, generate_key_image(kp.private_key()));
    assert!(verify_ring_signature(b"test", &sig).unwrap());
    assert!(!verify_ring_signature(b"wrong", &sig).unwrap());
}

#[test]
fn ring_signature_rejections() {
    let kp = generate_keypair();
    let empty: Vec<Vec<u8>> = vec![];
    assert!(generate_ring_signature(b"t", kp.private_key(), kp.public_key(), &empty).is_err());
    let mut big = vec![kp.public_key().to_vec()];
    for i in 0..RING_SIZE {
        big.push(vec![i as u8; 8]);
    }
    assert!(generate_ring_signature(b"t", kp.private_key(), kp.public_key(), &big).is_err());
    let others = vec![vec![1u8; 8], vec![2u8; 8]];
    assert!(generate_ring_signature(b"t", kp.private_key(), kp.public_key(), &others).is_err());
    let sig = nyx::ring::RingSignature { ring_members: vec![], signature: vec![], key_image: [1u8; 32] };
    assert!(verify_ring_signature(b"t", &sig).is_err());
}

#[test]
fn encryption_round_trip() {
    let key = generate_key();
    assert_eq!(key.len(), 32);
    let c = encrypt(b"secret", &key).unwrap();
    assert_eq!(c.len(), 12 + 6 + 16);
    assert_eq!(decrypt(&c, &key).unwrap(), b"secret".to_vec());
    let other = generate_key();
    assert!(decrypt(&c, &other).is_err());
    assert!(encrypt(b"x", &[1u8; 5]).is_err());
    assert!(decrypt(&[1u8; 5], &key).is_err());
    let fixed1 = encrypt_with_nonce(b"abc", &key, &[7u8; 12]).unwrap();
    let fixed2 = encrypt_with_nonce(b"abc", &key, &[7u8; 12]).unwrap();
    assert_eq!(fixed1, fixed2);
    assert_eq!(&fixed1[..12], &[7u8; 12]);
    assert!(encrypt_with_nonce(b"abc", &key, &[7u8; 5]).is_err());
    let sealed = encrypt_with_aad(b"abc", &key, &[1u8; 12], b"header").unwrap();
    assert_eq!(decrypt_with_aad(&sealed, &key, b"header").unwrap(), b"abc".to_vec());
    assert!(decrypt_with_aad(&sealed, &key, b"other").is_err());
}

#[test]
fn keccak_and_chunks() {
    let k = nyx::hash::keccak_hash(b"");
    assert_eq!(hash_to_hex(&k), "c5d2460186f7233c927e7db2dcc703c0e500b653ca82273b7bfad8045d85a470");
    assert_ne!(nyx::hash::keccak_hash(b"same input"), blake3_hash(b"same input"));
    let chunks = vec![b"hello".to_vec(), b"world".to_vec()];
    assert_eq!(nyx::hash::hash_chunks(&chunks), blake3_hash(b"helloworld"));
}

#[test]
fn ring_error_kinds() {
    let kp = generate_keypair();
    let empty: Vec<Vec<u8>> = vec![];
    assert!(matches!(
        generate_ring_signature(b"t", kp.private_key(), kp.public_key(), &empty),
        Err(nyx::errors::CryptoError::RingSignatureError(_))
    ));
    assert!(matches!(validate_key_image(&[0u8; 32]), Err(nyx::errors::CryptoError::InvalidKeyImage(_))));
}

#[test]
fn stealth_address_recovered_by_recipient() {

    let (view_priv, view_pub) = generate_keypair_ed25519();
    let (_, spend_pub) = generate_keypair_ed25519();
    let (address, ephemeral) = generate_stealth_address(&view_pub, &spend_pub, &[7u8; 32]).unwrap();
    assert_eq!(address.len(), 32);
    assert_eq!(ephemeral.len(), 32);
    assert!(generate_stealth_address(&view_pub[..5], &spend_pub, &[7u8; 32]).is_err());
    assert!(is_mine(&address, &view_priv, &spend_pub, &ephemeral).unwrap());
    let (other_priv, _) = generate_keypair_ed25519();
    assert!(!is_mine(&address, &other_priv, &spend_pub, &ephemeral).unwrap_or(false));
}

#[test]
fn builder_builds_and_signs() {


    let signer = generate_keypair();
    let (_, view_pub) = generate_keypair_ed25519();
    let (_, spend_pub) = generate_keypair_ed25519();
    let ring = vec![signer.public_key().to_vec(), vec![9u8; 8]];
    let tx = TransactionBuilder::new()
        .with_signer(signer.duplicate())
        .add_input([1u8; 32], 0, &[5u8; 10])
        .unwrap()
        .add_output(&view_pub, &spend_pub, 900)
        .unwrap()
        .with_ring_members(ring)
        .build([0u8; 32], [1u8; 32])
        .unwrap();
    assert_eq!(tx.inputs.len(), 1);
    assert_eq!(tx.outputs.len(), 1);
    assert_eq!(tx.outputs[0].range_proof.len(), 100);
    assert_eq!(tx.inputs[0].key_image, generate_key_image(&[5u8; 10]));
    assert!(tx.verify_signature().unwrap());
    assert!(TransactionBuilder::new().build([0u8; 32], [1u8; 32]).is_err());
    assert!(TransactionBuilder::new().with_signer(signer.duplicate()).build([0u8; 32], [1u8; 32]).is_err());
    assert!(TransactionBuilder::new().add_output(&[1u8; 5], &spend_pub, 1).is_err());
}
